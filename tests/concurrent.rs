use std::sync::Arc;

use gold::resp::handle_line;
use gold::store::Store;
use tokio::sync::Mutex;

#[test]
fn concurrent_sets_to_distinct_keys_are_all_kept() {
    let rt = tokio::runtime::Runtime::new().unwrap();
    rt.block_on(async {
        let db = Arc::new(Mutex::new(Store::new()));
        let mut tasks = Vec::new();
        for i in 0..32 {
            let db = db.clone();
            tasks.push(tokio::spawn(async move {
                let mut store = db.lock().await;
                handle_line(&mut store, &format!("SET k{} {{\"n\":{}}}", i, i)).0
            }));
        }
        for task in tasks {
            assert_eq!(task.await.unwrap(), "+OK\r\n");
        }
        let mut store = db.lock().await;
        for i in 0..32 {
            let reply = handle_line(&mut store, &format!("GET k{}", i)).0;
            assert_eq!(reply, format!("+{{\"n\":{}}}\r\n", i));
        }
    });
}

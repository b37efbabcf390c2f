use vstd::prelude::*;

use crate::payload::{
    Payload,
    accepted,
    accepted_prefix,
    array_suffix,
    ingest_prefix,
    ingest_spec,
};

verus! {

broadcast use vstd::std_specs::vec::group_vec_axioms;

/// Why an ingestion was not taken whole: some part of the value was neither an
/// object nor an array, and that part was dropped.
#[derive(Debug, PartialEq, Eq, Structural)]
pub enum IngestError {
    InvalidPayload,
}

/// The map from key to the JSON text of an object.
pub struct Store {
    entries: Vec<(String, String)>,
    contents: Ghost<Map<Seq<char>, Seq<char>>>,
}

impl View for Store {
    type V = Map<Seq<char>, Seq<char>>;

    closed spec fn view(&self) -> Map<Seq<char>, Seq<char>> {
        self.contents@
    }
}

impl Store {
    /// The entries hold each key once, and they are exactly the map.
    pub closed spec fn wf(&self) -> bool {
        &&& forall|i: int, j: int|
            0 <= i < j < self.entries@.len() ==> self.entries@[i].0@ != self.entries@[j].0@
        &&& forall|i: int|
            0 <= i < self.entries@.len() ==> #[trigger] self.contents@.contains_key(
                self.entries@[i].0@,
            ) && self.contents@[self.entries@[i].0@] == self.entries@[i].1@
        &&& forall|k: Seq<char>|
            #[trigger] self.contents@.contains_key(k) ==> exists|i: int|
                0 <= i < self.entries@.len() && self.entries@[i].0@ == k
    }

    /// An empty store.
    pub fn new() -> (r: Store)
        ensures
            r.wf(),
            r@ == Map::<Seq<char>, Seq<char>>::empty(),
    {
        Store { entries: Vec::new(), contents: Ghost(Map::empty()) }
    }

    /// The position of `key` among the entries, if it is there.
    fn find(&self, key: &String) -> (r: Option<usize>)
        requires
            self.wf(),
        ensures
            match r {
                Some(i) => i < self.entries@.len() && self.entries@[i as int].0@ == key@
                    && self@.contains_key(key@) && self@[key@] == self.entries@[i as int].1@,
                None => !self@.contains_key(key@),
            },
    {
        let mut i: usize = 0;
        while i < self.entries.len()
            invariant
                self.wf(),
                i <= self.entries@.len(),
                forall|j: int| 0 <= j < i ==> self.entries@[j].0@ != key@,
            decreases self.entries@.len() - i,
        {
            if self.entries[i].0 == *key {
                assert(self.contents@.contains_key(self.entries@[i as int].0@));
                return Some(i);
            }
            i = i + 1;
        }
        None
    }

    /// The JSON text stored under `key`, if any.
    pub fn get(&self, key: &String) -> (r: Option<String>)
        requires
            self.wf(),
        ensures
            match r {
                Some(t) => self@.contains_key(key@) && t@ == self@[key@],
                None => !self@.contains_key(key@),
            },
    {
        match self.find(key) {
            Some(i) => Some(self.entries[i].1.clone()),
            None => None,
        }
    }

    /// Whether an entry is stored under `key`.
    pub fn contains(&self, key: &String) -> (r: bool)
        requires
            self.wf(),
        ensures
            r == self@.contains_key(key@),
    {
        self.find(key).is_some()
    }

    /// Stores `text` under `key`, in place of what was there.
    pub fn set(&mut self, key: String, text: String)
        requires
            old(self).wf(),
        ensures
            final(self).wf(),
            final(self)@ == old(self)@.insert(key@, text@),
    {
        let ghost k = key@;
        let ghost t = text@;
        let ghost at: int;
        match self.find(&key) {
            Some(i) => {
                self.entries.set(i, (key, text));
                proof {
                    at = i as int;
                }
            },
            None => {
                self.entries.push((key, text));
                proof {
                    at = self.entries@.len() - 1;
                }
            },
        }
        self.contents = Ghost(self.contents@.insert(k, t));
        assert forall|q: Seq<char>| #[trigger] self.contents@.contains_key(q) implies exists|i: int|
            0 <= i < self.entries@.len() && self.entries@[i].0@ == q by {
            if q != k {
                let i = choose|i: int| 0 <= i < old(self).entries@.len() && old(self).entries@[i].0@ == q;
                assert(self.entries@[i].0@ == q);
            } else {
                assert(self.entries@[at].0@ == k);
            }
        }
    }

    /// Removes the entry under `key`; nothing happens where there is none.
    pub fn delete(&mut self, key: &String)
        requires
            old(self).wf(),
        ensures
            final(self).wf(),
            final(self)@ == old(self)@.remove(key@),
    {
        match self.find(key) {
            Some(i) => {
                let ghost e = self.entries@;
                self.entries.remove(i);
                self.contents = Ghost(self.contents@.remove(key@));
                assert forall|q: Seq<char>| #[trigger] self.contents@.contains_key(q) implies exists|j: int|
                    0 <= j < self.entries@.len() && self.entries@[j].0@ == q by {
                    let j = choose|j: int| 0 <= j < e.len() && e[j].0@ == q;
                    if j < i {
                        assert(self.entries@[j].0@ == q);
                    } else {
                        assert(self.entries@[j - 1].0@ == q);
                    }
                }
            },
            None => {
                assert(self.contents@.remove(key@) =~= self.contents@);
                self.contents = Ghost(self.contents@.remove(key@));
            },
        }
    }

    /// Ingests `p` under `key`: an object is stored under the key, each element
    /// of an array is ingested in order under the key followed by `-ex`, and
    /// any other value is dropped. The result is an error exactly when something
    /// was dropped; the store then holds all the rest.
    pub fn ingest(&mut self, key: &String, p: &Payload) -> (r: Result<(), IngestError>)
        requires
            old(self).wf(),
        ensures
            final(self).wf(),
            final(self)@ == ingest_spec(old(self)@, key@, *p),
            r is Ok <==> accepted(*p),
        decreases p,
    {
        match p {
            Payload::Object(t) => {
                self.set(key.clone(), t.clone());
                Ok(())
            },
            Payload::Array(v) => {
                let child = key.clone().concat("-ex");
                proof {
                    reveal_strlit("-ex");
                    assert(child@ =~= key@ + array_suffix());
                }
                let ghost start = self@;
                let mut ok = true;
                let mut i: usize = 0;
                while i < v.len()
                    invariant
                        self.wf(),
                        *p == Payload::Array(*v),
                        i <= v@.len(),
                        self@ == ingest_prefix(start, child@, v@, i as int),
                        ok == accepted_prefix(v@, i as int),
                    decreases v@.len() - i,
                {
                    proof {
                        assert(decreases_to!(*p => (*p)->Array_0));
                        assert(decreases_to!((*p)->Array_0 => (*p)->Array_0[i as int]));
                        assert(decreases_to!(*p => v[i as int]));
                    }
                    let step = self.ingest(&child, &v[i]);
                    if step.is_err() {
                        ok = false;
                    }
                    i = i + 1;
                }
                if ok {
                    Ok(())
                } else {
                    Err(IngestError::InvalidPayload)
                }
            },
            Payload::Scalar => Err(IngestError::InvalidPayload),
        }
    }
}

} // verus!

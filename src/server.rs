use vstd::prelude::*;

verus! {

/// Which protocol the server speaks, chosen once for the whole process.
#[allow(non_camel_case_types)]
#[derive(Debug, Clone, Copy, PartialEq, Eq, Structural)]
pub enum ServerMode {
    HTTP,
    RESP,
}

impl Default for ServerMode {
    fn default() -> (r: ServerMode)
        ensures
            r == ServerMode::HTTP,
    {
        ServerMode::HTTP
    }
}

} // verus!

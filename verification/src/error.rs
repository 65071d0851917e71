use vstd::prelude::*;

verus! {

/// Error type shared by the whole library. It optionally carries a
/// description of the underlying cause; a `None` source marks a plain
/// data/format error with no wrapped cause.
#[derive(Debug)]
pub struct CT3DError {
    pub source: Option<String>,
}

impl CT3DError {
    pub fn new(source: Option<String>) -> (r: CT3DError)
        ensures
            r.source == source,
    {
        CT3DError { source }
    }
}

} // verus!

//! What becomes of the errors of the connections to the store.

use vstd::prelude::*;

verus! {

/// Takes the errors that the pool of connections to the store meets
/// outside of any request. They are reported and carry on nowhere.
#[derive(Debug, Clone, Copy, PartialEq, Eq, Structural)]
pub struct RedisErrorSink;

impl RedisErrorSink {
    /// The line that is reported for an error.
    pub fn sink(&self, err: &str) -> (line: String)
        ensures
            line@ == "redis error: "@ + err@,
    {
        let mut line = String::from_str("redis error: ");
        line.append(err);
        line
    }

    /// A sink like this one.
    pub fn boxed_clone(&self) -> (sink: RedisErrorSink)
        ensures
            sink == *self,
    {
        *self
    }
}

} // verus!

use vstd::prelude::*;

verus! {

/// The text carried by a [`PoolCreationError`].
pub open spec fn creation_message() -> Seq<char> {
    "size must be greater than 0"@
}

/// A pool was asked for with a size of zero.
#[derive(Debug)]
pub struct PoolCreationError {
    message: String,
}

impl PoolCreationError {
    /// The text of this error, as a sequence of characters.
    pub closed spec fn text(&self) -> Seq<char> {
        self.message@
    }

    /// The error for an invalid pool size.
    pub fn invalid_size() -> (r: PoolCreationError)
        ensures
            r.text() == creation_message(),
    {
        let message = "size must be greater than 0".to_string();
        proof {
            reveal_strlit("size must be greater than 0");
        }
        PoolCreationError { message }
    }

    /// The human-readable message of this error.
    pub fn message(&self) -> (r: String)
        ensures
            r@ == self.text(),
    {
        self.message.clone()
    }
}

/// A job was submitted after the pool had begun to shut down.
#[derive(Debug, Clone, Copy, PartialEq, Eq, Structural)]
pub struct PoolClosed;

} // verus!

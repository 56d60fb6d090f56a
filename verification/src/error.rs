use vstd::prelude::*;

verus! {

/// Why the pool refused an operation.
#[derive(Clone, Copy, Debug, PartialEq, Eq, Structural)]
pub enum PoolError {
    /// A pool was asked for with zero workers or with a negative number of them.
    InvalidPoolSize,
    /// A job was submitted after shutdown had begun.
    PoolClosed,
}

impl PoolError {
    /// A short description of the error, fit for a log line.
    pub fn message(&self) -> (text: &'static str)
        ensures
            *self == PoolError::InvalidPoolSize ==> text@ == "pool size must be at least 1"@,
            *self == PoolError::PoolClosed ==> text@ == "pool is shut down"@,
    {
        match self {
            PoolError::InvalidPoolSize => "pool size must be at least 1",
            PoolError::PoolClosed => "pool is shut down",
        }
    }
}

} // verus!

//! The errors that the public surface reports.

use vstd::prelude::*;

verus! {

#[derive(Debug, Clone, Copy, PartialEq, Eq, Structural)]
pub enum StatsigError {
    SingletonLockFailure,
    AlreadyInitialized,
    InstantiationFailure,
    Uninitialized,
    ShutdownFailure,
}

pub open spec fn error_text(e: StatsigError) -> Seq<char> {
    match e {
        StatsigError::SingletonLockFailure => "Failed to acquire mutex lock on Statsig instance"@,
        StatsigError::AlreadyInitialized => "Statsig is already initialized"@,
        StatsigError::InstantiationFailure => "Failed to create a Statsig instance"@,
        StatsigError::Uninitialized => "You must call and await Statsig.initialize first."@,
        StatsigError::ShutdownFailure => "Was unable to gracefully shutdown the Statsig instance"@,
    }
}

impl StatsigError {
    /// What the error says.
    pub fn message(&self) -> (r: String)
        ensures
            r@ == error_text(*self),
    {
        match self {
            StatsigError::SingletonLockFailure => {
                "Failed to acquire mutex lock on Statsig instance".to_owned()
            },
            StatsigError::AlreadyInitialized => "Statsig is already initialized".to_owned(),
            StatsigError::InstantiationFailure => "Failed to create a Statsig instance".to_owned(),
            StatsigError::Uninitialized => {
                "You must call and await Statsig.initialize first.".to_owned()
            },
            StatsigError::ShutdownFailure => {
                "Was unable to gracefully shutdown the Statsig instance".to_owned()
            },
        }
    }
}

} // verus!

//! Error taxonomy shared by the adapters, the logger and the facade.

use vstd::prelude::*;

verus! {

/// Everything that can go wrong outside the evaluation hot path.
/// Evaluation itself never fails: degraded states are reported through
/// `EvaluationDetails::reason` instead.
#[derive(Debug, Clone)]
pub enum StatsigErr {
    NetworkError(String),
    GrpcError(String),
    LockFailure(String),
    UnstartedAdapter(String),
    SpecsAdapterLockFailure,
    SpecsListenerNotSet,
    ThreadFailure(String),
    CustomError(String),
    ShutdownTimeout,
    ParseError(String),
}

impl StatsigErr {
    /// Stable name of the variant, for logs and FFI callers.
    pub fn code(&self) -> (r: &'static str)
        ensures
            r@.len() > 0,
    {
        proof {
            reveal_strlit("NetworkError");
            reveal_strlit("GrpcError");
            reveal_strlit("LockFailure");
            reveal_strlit("UnstartedAdapter");
            reveal_strlit("SpecsAdapterLockFailure");
            reveal_strlit("SpecsListenerNotSet");
            reveal_strlit("ThreadFailure");
            reveal_strlit("CustomError");
            reveal_strlit("ShutdownTimeout");
            reveal_strlit("ParseError");
        }
        match self {
            StatsigErr::NetworkError(_) => "NetworkError",
            StatsigErr::GrpcError(_) => "GrpcError",
            StatsigErr::LockFailure(_) => "LockFailure",
            StatsigErr::UnstartedAdapter(_) => "UnstartedAdapter",
            StatsigErr::SpecsAdapterLockFailure => "SpecsAdapterLockFailure",
            StatsigErr::SpecsListenerNotSet => "SpecsListenerNotSet",
            StatsigErr::ThreadFailure(_) => "ThreadFailure",
            StatsigErr::CustomError(_) => "CustomError",
            StatsigErr::ShutdownTimeout => "ShutdownTimeout",
            StatsigErr::ParseError(_) => "ParseError",
        }
    }
}

} // verus!

use vstd::prelude::*;

verus! {

/// A string handed to C held a NUL byte: the position of the first one.
#[derive(Debug, Clone, Copy, PartialEq, Eq)]
pub struct NulError {
    pub nul_position: usize,
}

/// Bytes from C were not UTF-8: the length of their longest valid prefix.
#[derive(Debug, Clone, Copy, PartialEq, Eq)]
pub struct Utf8Error {
    pub valid_up_to: usize,
}

/// What can go wrong when the wrappers call into libwayland and wlroots.
#[derive(Debug, Clone, PartialEq, Eq)]
pub enum WrapperError {
    FailedToCreateDisplay,
    FailedToCreateRenderer,
    FailedToCreateBackend,
    FailedToCreateAllocator,
    FailedToCreateCompositor,
    FailedToCreateSubCompositor,
    FailedToCreateDataDeviceManager,
    FailedToCreateOutputLayout,
    FailedOutputLayoutAddAuto,
    FailedToCreateSceneOutput,
    FailedToCreateScene,
    FailedToAddSocket,
    FailedToInitializeDisplay,
    BackendStartFailure,
    GeneralError(String),
    NulError(NulError),
    Utf8Error(Utf8Error),
}

impl WrapperError {
    /// The error is a `GeneralError` with the message `msg`.
    pub open spec fn is_general(self, msg: Seq<char>) -> bool {
        match self {
            WrapperError::GeneralError(m) => m@ == msg,
            _ => false,
        }
    }
}

impl From<NulError> for WrapperError {
    fn from(value: NulError) -> (e: Self) {
        WrapperError::NulError(value)
    }
}

impl vstd::std_specs::convert::FromSpecImpl<NulError> for WrapperError {
    open spec fn obeys_from_spec() -> bool {
        true
    }

    open spec fn from_spec(v: NulError) -> Self {
        WrapperError::NulError(v)
    }
}

impl From<Utf8Error> for WrapperError {
    fn from(value: Utf8Error) -> (e: Self) {
        WrapperError::Utf8Error(value)
    }
}

impl vstd::std_specs::convert::FromSpecImpl<Utf8Error> for WrapperError {
    open spec fn obeys_from_spec() -> bool {
        true
    }

    open spec fn from_spec(v: Utf8Error) -> Self {
        WrapperError::Utf8Error(v)
    }
}

} // verus!

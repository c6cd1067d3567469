use vstd::prelude::*;

verus! {

/// Failures of the library's own decisions.
#[derive(Clone, Copy, Debug, PartialEq, Eq, Structural)]
pub enum GeneralErrorKind {
    WorkDirNotFound,
    TargetNotFound,
    CreateFileFailed,
    RemoveFileFailed,
    ReadFileFailed,
    WriteFileFailed,
    MoveFileFailed,
    FileNameInvalid,
    TomlParseFailed,
    /// The requested output layout is not available for the backend on this
    /// platform.
    UnsupportedLayout,
}

#[derive(Clone, Copy, Debug, PartialEq, Eq, Structural)]
pub enum PyProjectErrorKind {
    ReadFaild,
    ParseFailed,
    FieldNotFound,
}

#[derive(Clone, Copy, Debug, PartialEq, Eq, Structural)]
pub enum CacheErrorKind {
    SaveFailed,
}

#[derive(Clone, Copy, Debug, PartialEq, Eq, Structural)]
pub enum ToolchainErrorKind {
    LReleaseUpdateNotFound,
    LUpdateNotFound,
    UicNotFound,
    RccNotFound,
    GitNotFound,
    NuitkaNotFound,
    PyInstallerNotFound,
    PyTestNotFound,
    LUpdateFailed,
    LReleaseFailed,
    UicFailed,
    RccFailed,
    GitFailed,
    NuitkaFailed,
    PyInstallerFailed,
    PyTestFailed,
}

#[derive(Clone, Copy, Debug, PartialEq, Eq, Structural)]
pub enum Errcode {
    GeneralError(GeneralErrorKind),
    PyProjectConfigError(PyProjectErrorKind),
    CacheError(CacheErrorKind),
    ToolchainError(ToolchainErrorKind),
}

} // verus!

use vstd::prelude::*;

verus! {

/// Why a build was refused. Every failure is fatal and reported at the point
/// of first occurrence: a manifest is either fully resolved or the build does
/// not proceed to packing.
#[derive(Clone, Copy, Debug, PartialEq, Eq, Structural)]
pub enum PackError {
    /// A declared source path does not exist.
    NotFound,
    /// A declared source exists but is neither a regular file nor a directory.
    InvalidSource,
    /// The output path cannot be created or written.
    CannotCreate,
    /// A resolved source file could not be opened or read at pack time.
    SourceUnreadable,
    /// The container writer reported an error while a record was written.
    ContainerWriteFailure,
}

/// What probing a filesystem path found.
#[derive(Clone, Copy, Debug, PartialEq, Eq, Structural)]
pub enum PathKind {
    /// An existing regular file.
    File,
    /// An existing directory.
    Dir,
    /// Nothing exists at the path.
    Missing,
    /// Something exists, but it is neither a regular file nor a directory.
    Other,
}

} // verus!

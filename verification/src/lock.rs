//! The lock as it is kept on disk: the recorded sources under a version tag.

use vstd::prelude::*;

pub mod v1;

verus! {

/// The lock in one of its versions. A new version is added only for a change
/// that readers of the old one could not take.
#[derive(Debug)]
pub enum Lock {
    V1(v1::Lock),
}

impl View for Lock {
    type V = Seq<(Seq<char>, v1::RecordView)>;

    open spec fn view(&self) -> Self::V {
        match self {
            Lock::V1(lock) => lock@,
        }
    }
}

/// The name of the lock's file in its directory.
pub open spec fn filename_of() -> Seq<char> {
    "lon.lock"@
}

/// The tag of the version that is written.
pub open spec fn current_version_of() -> Seq<char> {
    "1"@
}

impl Lock {
    /// The name of the lock's file in its directory.
    pub fn filename() -> (out: &'static str)
        ensures
            out@ == filename_of(),
    {
        "lon.lock"
    }

    /// The tag of this lock's version.
    pub fn version(&self) -> (out: &'static str)
        ensures
            out@ == current_version_of(),
    {
        match self {
            Lock::V1(_) => "1",
        }
    }
}

} // verus!

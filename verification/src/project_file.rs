//! The record kept for each saved project file.

use vstd::prelude::*;
use crate::time::{Duration, Timestamp};
use crate::version::{version_parts, Version};

verus! {

/// One saved file of a project, with the time that went into it.
#[derive(Clone, Debug, PartialEq, Eq)]
pub struct ProjectFile {
    pub created_datetime: Timestamp,
    pub modified_datetime: Timestamp,
    /// The time spent on this file; zero until it has been estimated.
    pub time_spent: Duration,
    pub name: String,
    /// The version that the name carries, if any.
    pub version: Option<Version>,
}

impl ProjectFile {
    /// A record for the file `name`, with no time spent on it yet.
    pub fn new(
        name: String,
        created_datetime: Timestamp,
        modified_datetime: Timestamp,
        version: Option<Version>,
    ) -> (file: ProjectFile)
        ensures
            file.name == name,
            file.created_datetime == created_datetime,
            file.modified_datetime == modified_datetime,
            file.version == version,
            file.time_spent.millis == 0,
    {
        ProjectFile {
            created_datetime,
            modified_datetime,
            time_spent: Duration::zero(),
            name,
            version,
        }
    }

    /// The record with `millis` milliseconds spent on it and all else as it
    /// is.
    pub open spec fn with_millis_spent(self, millis: int) -> ProjectFile {
        ProjectFile { time_spent: Duration { millis: millis as i64 }, ..self }
    }

    /// The major and minor number of the file's version, if it has one.
    pub open spec fn major_minor(self) -> Option<(u64, u64)> {
        match self.version {
            Some(v) => Some((v.major, v.minor)),
            None => None,
        }
    }

    /// Whether two records show the same file: the same name, times and
    /// version content.
    pub open spec fn same_file(self, other: ProjectFile) -> bool {
        &&& self.name@ == other.name@
        &&& self.created_datetime == other.created_datetime
        &&& self.modified_datetime == other.modified_datetime
        &&& version_parts(self.version) == version_parts(other.version)
    }
}

} // verus!

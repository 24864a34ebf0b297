//! The statuses of the records that describe documentation, each with the
//! number that it is stored as.

use vstd::prelude::*;

verus! {

/// The status of a repository that documentation is built from.
#[derive(Clone, Copy, Debug, PartialEq, Eq, Structural)]
pub enum DocGitStatus {
    /// In use.
    Enable,
    /// Deleted.
    Delete,
}

/// The status of a tag of such a repository.
#[derive(Clone, Copy, Debug, PartialEq, Eq, Structural)]
pub enum DocGitTagStatus {
    /// Published.
    Publish,
    /// Added.
    Build,
    /// Deleted.
    Delete,
}

/// The status of a clone of such a repository.
#[derive(Clone, Copy, Debug, PartialEq, Eq, Structural)]
pub enum DocGitCloneStatus {
    /// Waits to be cloned.
    Init,
    /// Cloned.
    Cloned,
    /// Could not be cloned.
    Fail,
    /// Deleted.
    Delete,
}

/// The status of a menu of the documentation.
#[derive(Clone, Copy, Debug, PartialEq, Eq, Structural)]
pub enum DocMenuStatus {
    /// In use.
    Enable,
    /// Deleted.
    Delete,
}

impl DocGitStatus {
    /// The number that the status is stored as.
    pub open spec fn spec_to(self) -> i8 {
        match self {
            DocGitStatus::Enable => 1,
            DocGitStatus::Delete => -1i8,
        }
    }

    /// The number that the status is stored as.
    pub fn to(self) -> (out: i8)
        ensures
            out == self.spec_to(),
    {
        match self {
            DocGitStatus::Enable => 1,
            DocGitStatus::Delete => -1,
        }
    }

    /// The status that is stored as `value`, if there is one.
    pub fn try_from(value: i8) -> (out: Option<Self>)
        ensures
            match out {
                Some(s) => s.spec_to() == value,
                None => forall|s: Self| s.spec_to() != value,
            },
    {
        if value == 1 {
            Some(DocGitStatus::Enable)
        } else if value == -1 {
            Some(DocGitStatus::Delete)
        } else {
            None
        }
    }

    /// Whether the status is stored as `value`.
    pub fn eq(self, value: i8) -> (out: bool)
        ensures
            out == (self.spec_to() == value),
    {
        self.to() == value
    }
}

impl DocGitTagStatus {
    /// The number that the status is stored as.
    pub open spec fn spec_to(self) -> i8 {
        match self {
            DocGitTagStatus::Publish => 2,
            DocGitTagStatus::Build => 1,
            DocGitTagStatus::Delete => -1i8,
        }
    }

    /// The number that the status is stored as.
    pub fn to(self) -> (out: i8)
        ensures
            out == self.spec_to(),
    {
        match self {
            DocGitTagStatus::Publish => 2,
            DocGitTagStatus::Build => 1,
            DocGitTagStatus::Delete => -1,
        }
    }

    /// The status that is stored as `value`, if there is one.
    pub fn try_from(value: i8) -> (out: Option<Self>)
        ensures
            match out {
                Some(s) => s.spec_to() == value,
                None => forall|s: Self| s.spec_to() != value,
            },
    {
        if value == 2 {
            Some(DocGitTagStatus::Publish)
        } else if value == 1 {
            Some(DocGitTagStatus::Build)
        } else if value == -1 {
            Some(DocGitTagStatus::Delete)
        } else {
            None
        }
    }

    /// Whether the status is stored as `value`.
    pub fn eq(self, value: i8) -> (out: bool)
        ensures
            out == (self.spec_to() == value),
    {
        self.to() == value
    }
}

impl DocGitCloneStatus {
    /// The number that the status is stored as.
    pub open spec fn spec_to(self) -> i8 {
        match self {
            DocGitCloneStatus::Init => 1,
            DocGitCloneStatus::Cloned => 2,
            DocGitCloneStatus::Fail => 3,
            DocGitCloneStatus::Delete => -1i8,
        }
    }

    /// The number that the status is stored as.
    pub fn to(self) -> (out: i8)
        ensures
            out == self.spec_to(),
    {
        match self {
            DocGitCloneStatus::Init => 1,
            DocGitCloneStatus::Cloned => 2,
            DocGitCloneStatus::Fail => 3,
            DocGitCloneStatus::Delete => -1,
        }
    }

    /// The status that is stored as `value`, if there is one.
    pub fn try_from(value: i8) -> (out: Option<Self>)
        ensures
            match out {
                Some(s) => s.spec_to() == value,
                None => forall|s: Self| s.spec_to() != value,
            },
    {
        if value == 1 {
            Some(DocGitCloneStatus::Init)
        } else if value == 2 {
            Some(DocGitCloneStatus::Cloned)
        } else if value == 3 {
            Some(DocGitCloneStatus::Fail)
        } else if value == -1 {
            Some(DocGitCloneStatus::Delete)
        } else {
            None
        }
    }

    /// Whether the status is stored as `value`.
    pub fn eq(self, value: i8) -> (out: bool)
        ensures
            out == (self.spec_to() == value),
    {
        self.to() == value
    }
}

impl DocMenuStatus {
    /// The number that the status is stored as.
    pub open spec fn spec_to(self) -> i8 {
        match self {
            DocMenuStatus::Enable => 1,
            DocMenuStatus::Delete => -1i8,
        }
    }

    /// The number that the status is stored as.
    pub fn to(self) -> (out: i8)
        ensures
            out == self.spec_to(),
    {
        match self {
            DocMenuStatus::Enable => 1,
            DocMenuStatus::Delete => -1,
        }
    }

    /// The status that is stored as `value`, if there is one.
    pub fn try_from(value: i8) -> (out: Option<Self>)
        ensures
            match out {
                Some(s) => s.spec_to() == value,
                None => forall|s: Self| s.spec_to() != value,
            },
    {
        if value == 1 {
            Some(DocMenuStatus::Enable)
        } else if value == -1 {
            Some(DocMenuStatus::Delete)
        } else {
            None
        }
    }

    /// Whether the status is stored as `value`.
    pub fn eq(self, value: i8) -> (out: bool)
        ensures
            out == (self.spec_to() == value),
    {
        self.to() == value
    }
}

} // verus!

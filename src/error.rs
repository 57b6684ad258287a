use vstd::prelude::*;

verus! {

/// The kind of a failure, independent of the data it carries.
#[derive(Clone, Copy, Debug, PartialEq, Eq, Structural)]
pub enum Kind {
    ObjectNotExist,
    BackendConfigurationInvalid,
    Unexpected,
}

/// Failures shared by every backend.
#[derive(Debug)]
pub enum Error {
    /// The target path is absent.
    ObjectNotExist(String),
    /// A setup input is malformed; detected before any I/O.
    BackendConfigurationInvalid { key: String, value: String },
    /// Any other backend or transport failure.
    Unexpected(String),
}

impl Error {
    pub open spec fn spec_kind(&self) -> Kind {
        match self {
            Error::ObjectNotExist(_) => Kind::ObjectNotExist,
            Error::BackendConfigurationInvalid { .. } => Kind::BackendConfigurationInvalid,
            Error::Unexpected(_) => Kind::Unexpected,
        }
    }

    pub fn kind(&self) -> (r: Kind)
        ensures
            r == self.spec_kind(),
    {
        match self {
            Error::ObjectNotExist(_) => Kind::ObjectNotExist,
            Error::BackendConfigurationInvalid { .. } => Kind::BackendConfigurationInvalid,
            Error::Unexpected(_) => Kind::Unexpected,
        }
    }
}

} // verus!

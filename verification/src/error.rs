use vstd::prelude::*;

verus! {

/// What can go wrong when building or feeding a simulation.
#[derive(Debug, Clone)]
pub enum MatrixError {
    /// The configuration breaks one of the rules of `MatrixRainConfig::validate`.
    InvalidConfig(String),
    /// An outside resource (a file, a font) could not be had.
    Resource(String),
}

impl MatrixError {
    /// The message that the error carries, whatever its kind.
    pub open spec fn message(self) -> Seq<char> {
        match self {
            MatrixError::InvalidConfig(m) => m@,
            MatrixError::Resource(m) => m@,
        }
    }

    /// The error as it reads to a person: its kind, then its message.
    pub open spec fn spec_describe(self) -> Seq<char> {
        match self {
            MatrixError::InvalidConfig(m) => "invalid matrix rain config: "@ + m@,
            MatrixError::Resource(m) => "matrix rain resource error: "@ + m@,
        }
    }

    /// An `InvalidConfig` error with the given message.
    pub fn invalid_config(message: &str) -> (e: Self)
        ensures
            e is InvalidConfig,
            e.message() == message@,
    {
        MatrixError::InvalidConfig(message.to_owned())
    }

    /// A `Resource` error with the given message.
    pub fn resource(message: &str) -> (e: Self)
        ensures
            e is Resource,
            e.message() == message@,
    {
        MatrixError::Resource(message.to_owned())
    }

    /// The error as it reads to a person: its kind, then its message.
    pub fn describe(&self) -> (s: String)
        ensures
            s@ == self.spec_describe(),
    {
        match self {
            MatrixError::InvalidConfig(m) => {
                let mut s = "invalid matrix rain config: ".to_owned();
                s.append(m.as_str());
                s
            },
            MatrixError::Resource(m) => {
                let mut s = "matrix rain resource error: ".to_owned();
                s.append(m.as_str());
                s
            },
        }
    }
}

impl PartialEq for MatrixError {
    fn eq(&self, other: &Self) -> (r: bool) {
        match (self, other) {
            (MatrixError::InvalidConfig(a), MatrixError::InvalidConfig(b)) => a.eq(b),
            (MatrixError::Resource(a), MatrixError::Resource(b)) => a.eq(b),
            _ => false,
        }
    }
}

impl vstd::std_specs::cmp::PartialEqSpecImpl for MatrixError {
    open spec fn obeys_eq_spec() -> bool {
        true
    }

    open spec fn eq_spec(&self, other: &Self) -> bool {
        match (self, other) {
            (MatrixError::InvalidConfig(a), MatrixError::InvalidConfig(b)) => a@ == b@,
            (MatrixError::Resource(a), MatrixError::Resource(b)) => a@ == b@,
            _ => false,
        }
    }
}

impl Eq for MatrixError {}

} // verus!

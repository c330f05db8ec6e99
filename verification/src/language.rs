use vstd::prelude::*;

verus! {

/// The grammar ABI version the backends emit today.
pub const LANGUAGE_VERSION: u64 = 14;

/// The oldest grammar ABI version the backends still accept.
pub const MIN_COMPATIBLE_LANGUAGE_VERSION: u64 = 13;

/// An opaque handle to an externally compiled grammar.
///
/// The facade never looks inside a grammar: two handles are interchangeable
/// exactly when they carry the same identifier, and the only structure a
/// handle exposes is the ABI version the grammar was compiled against.
#[derive(Clone, Copy, PartialEq, Eq, Structural, Debug)]
pub struct Language {
    id: u64,
    abi_version: u64,
}

impl Language {
    pub fn new(id: u64, abi_version: u64) -> (r: Language)
        ensures
            r.id() == id,
            r.version() == abi_version,
    {
        Language { id, abi_version }
    }

    /// The identity of the underlying compiled grammar.
    pub closed spec fn id(self) -> u64 {
        self.id
    }

    /// The grammar ABI version this handle was compiled against.
    pub closed spec fn version(self) -> u64 {
        self.abi_version
    }

    /// Whether a backend accepts this grammar's ABI version.
    pub open spec fn compatible(self) -> bool {
        MIN_COMPATIBLE_LANGUAGE_VERSION <= self.version() <= LANGUAGE_VERSION
    }

    pub fn grammar_id(&self) -> (r: u64)
        ensures
            r == self.id(),
    {
        self.id
    }

    pub fn abi_version(&self) -> (r: u64)
        ensures
            r == self.version(),
    {
        self.abi_version
    }

    /// Whether a backend accepts this grammar's ABI version.
    pub fn is_compatible(&self) -> (r: bool)
        ensures
            r == self.compatible(),
    {
        MIN_COMPATIBLE_LANGUAGE_VERSION <= self.abi_version && self.abi_version <= LANGUAGE_VERSION
    }
}

} // verus!

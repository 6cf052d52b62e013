use vstd::prelude::*;

verus! {

/// The failure taxonomy of the module host. Every failure is reported to the
/// requesting sandbox as an in-band nonzero status code; success is status 0.
/// No failure on an ordinary operation may abort the host process.
#[derive(Clone, Copy, PartialEq, Eq, Structural, Debug)]
pub enum HostError {
    /// A name argument could not be read from the caller's memory: the
    /// offset was out of bounds or no NUL terminator was found.
    DecodeError,
    /// A call or checkout named a module that is not in the registry.
    ModuleNotLoaded,
    /// The module's bytecode could not be read or compiled.
    LoadFailed,
    /// The requested function is absent from the instance's export table.
    ExportNotFound,
    /// A marshaling source or target range fell outside the owning
    /// memory's current size.
    MemoryFault,
    /// The guest faulted while executing; host state stays consistent.
    Trap,
    /// The registry was contended under a non-blocking locking policy.
    Busy,
}

impl HostError {
    /// The status code of this error as seen by the requesting sandbox.
    pub open spec fn spec_status_code(&self) -> i32 {
        match self {
            HostError::DecodeError => 1,
            HostError::ModuleNotLoaded => 2,
            HostError::LoadFailed => 3,
            HostError::ExportNotFound => 4,
            HostError::MemoryFault => 5,
            HostError::Trap => 6,
            HostError::Busy => 7,
        }
    }

    /// The in-band status code reported to the requesting sandbox. Each
    /// variant has its own code and none of them is 0, so a caller can
    /// always tell failure from success.
    #[verifier::when_used_as_spec(spec_status_code)]
    pub fn status_code(&self) -> (r: i32)
        ensures
            r == self.spec_status_code(),
            r != 0,
    {
        match self {
            HostError::DecodeError => 1,
            HostError::ModuleNotLoaded => 2,
            HostError::LoadFailed => 3,
            HostError::ExportNotFound => 4,
            HostError::MemoryFault => 5,
            HostError::Trap => 6,
            HostError::Busy => 7,
        }
    }
}

/// No two failures share a status code, and none of them is the success
/// status 0: a caller can always tell the outcomes apart.
pub proof fn lemma_status_codes_injective(a: HostError, b: HostError)
    ensures
        a.spec_status_code() != 0,
        a != b ==> a.spec_status_code() != b.spec_status_code(),
{
}

} // verus!

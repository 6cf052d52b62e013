use vstd::prelude::*;
use crate::errors::HostError;
use crate::memory::{Memory, first_nul_from, spliced};
use crate::registry::{Instance, Registry};

verus! {

/// A name argument decodes when a NUL terminator follows `ptr` inside the
/// owning memory's current size.
pub open spec fn decodes(mem: Seq<u8>, ptr: int) -> bool {
    first_nul_from(mem, ptr) < mem.len()
}

/// The bytes of a decoded name argument: everything from `ptr` up to the
/// first NUL.
pub open spec fn decoded_name(mem: Seq<u8>, ptr: int) -> Seq<u8> {
    mem.subrange(ptr, first_nul_from(mem, ptr))
}

/// The reserved export revealing a participating module's parameter
/// buffer: the bytes of `get_parameter_buffer_pointer`.
pub open spec fn param_buffer_export() -> Seq<u8> {
    seq![
        103u8, 101u8, 116u8, 95u8, 112u8, 97u8, 114u8, 97u8, 109u8, 101u8, 116u8, 101u8, 114u8,
        95u8, 98u8, 117u8, 102u8, 102u8, 101u8, 114u8, 95u8, 112u8, 111u8, 105u8, 110u8, 116u8,
        101u8, 114u8,
    ]
}

/// The reserved export revealing a participating module's return buffer:
/// the bytes of `get_return_buffer_pointer`.
pub open spec fn return_buffer_export() -> Seq<u8> {
    seq![
        103u8, 101u8, 116u8, 95u8, 114u8, 101u8, 116u8, 117u8, 114u8, 110u8, 95u8, 98u8, 117u8,
        102u8, 102u8, 101u8, 114u8, 95u8, 112u8, 111u8, 105u8, 110u8, 116u8, 101u8, 114u8,
    ]
}

/// The name of the reserved parameter-buffer export, as the byte string
/// looked up in a callee's export table.
pub fn param_buffer_export_name() -> (r: Vec<u8>)
    ensures
        r@ == param_buffer_export(),
{
    let mut v: Vec<u8> = Vec::new();
    v.push(103u8); v.push(101u8); v.push(116u8); v.push(95u8); v.push(112u8); v.push(97u8);
    v.push(114u8); v.push(97u8); v.push(109u8); v.push(101u8); v.push(116u8); v.push(101u8);
    v.push(114u8); v.push(95u8); v.push(98u8); v.push(117u8); v.push(102u8); v.push(102u8);
    v.push(101u8); v.push(114u8); v.push(95u8); v.push(112u8); v.push(111u8); v.push(105u8);
    v.push(110u8); v.push(116u8); v.push(101u8); v.push(114u8);
    proof {
        assert(v@ =~= param_buffer_export());
    }
    v
}

/// The name of the reserved return-buffer export, as the byte string
/// looked up in a callee's export table.
pub fn return_buffer_export_name() -> (r: Vec<u8>)
    ensures
        r@ == return_buffer_export(),
{
    let mut v: Vec<u8> = Vec::new();
    v.push(103u8); v.push(101u8); v.push(116u8); v.push(95u8); v.push(114u8); v.push(101u8);
    v.push(116u8); v.push(117u8); v.push(114u8); v.push(110u8); v.push(95u8); v.push(98u8);
    v.push(117u8); v.push(102u8); v.push(102u8); v.push(101u8); v.push(114u8); v.push(95u8);
    v.push(112u8); v.push(111u8); v.push(105u8); v.push(110u8); v.push(116u8); v.push(101u8);
    v.push(114u8);
    proof {
        assert(v@ =~= return_buffer_export());
    }
    v
}

/// What the engine reports of one guest invocation: the export ran to
/// completion and returned `value`, or it trapped. A trap aborts the call
/// but never corrupts host state.
#[derive(Clone, Copy, PartialEq, Eq, Structural, Debug)]
pub enum InvokeOutcome {
    /// Normal completion; `value` is the guest's return value (for the
    /// marshaling protocol, the byte count it produced).
    Returned(i32),
    /// A guest-side runtime fault during execution.
    Trapped,
}

/// A call in flight: the named instance, checked out of the registry so
/// that no other call can run against it until it is checked back in, the
/// decoded module name it is filed under, and the decoded function name to
/// invoke.
pub struct InFlightCall {
    pub name: Vec<u8>,
    pub instance: Instance,
    pub function: Vec<u8>,
}

/// Decode a name argument from the caller's own memory: a bounds-checked,
/// NUL-terminated byte sequence at `ptr`. A bounds or terminator failure
/// is a `DecodeError`.
pub fn decode_name(caller: &Memory, ptr: usize) -> (r: Result<Vec<u8>, HostError>)
    ensures
        match r {
            Ok(name) => decodes(caller@, ptr as int) && name@ == decoded_name(caller@, ptr as int),
            Err(e) => e == HostError::DecodeError && !decodes(caller@, ptr as int),
        },
{
    match caller.read_nul_terminated(ptr) {
        Some(name) => Ok(name),
        None => Err(HostError::DecodeError),
    }
}

/// Commit a successful Load: insert the freshly activated instance under
/// `name`, evicting any prior instance loaded under the same name and
/// handing it back so its resources can be released. The status returned
/// to the caller is 0; reading or compiling the bytecode is the
/// embedding's work and its failure is reported with
/// `HostError::LoadFailed.status_code()` instead of reaching this point.
pub fn load(reg: &mut Registry, name: Vec<u8>, instance: Instance) -> (r: (i32, Option<Instance>))
    requires
        old(reg).wf(),
    ensures
        final(reg).wf(),
        final(reg)@ == old(reg)@.insert(name@, instance@),
        r.0 == 0,
        match r.1 {
            Some(prior) => old(reg)@.contains_key(name@) && prior@ == old(reg)@[name@],
            None => !old(reg)@.contains_key(name@),
        },
{
    let evicted = reg.insert(name, instance);
    (0, evicted)
}

/// Host-side entry of Call: decode the module and function names from the
/// caller's memory, check the named instance out of the registry, and
/// resolve the function against its export table. On every failure the
/// registry is exactly as it was — never a half-checked-out instance. On
/// success the instance is exclusively held by the returned in-flight
/// call, and its name stays absent from the registry until `finish_call`
/// checks it back in.
pub fn call(reg: &mut Registry, caller: &Memory, module_ptr: usize, function_ptr: usize) -> (r:
    Result<InFlightCall, HostError>)
    requires
        old(reg).wf(),
    ensures
        final(reg).wf(),
        match r {
            Ok(c) => decodes(caller@, module_ptr as int) && decodes(caller@, function_ptr as int)
                && c.name@ == decoded_name(caller@, module_ptr as int)
                && c.function@ == decoded_name(caller@, function_ptr as int)
                && old(reg)@.contains_key(c.name@) && c.instance@ == old(reg)@[c.name@]
                && c.instance@.exports.contains(c.function@)
                && final(reg)@ == old(reg)@.remove(c.name@),
            Err(e) => final(reg)@ == old(reg)@ && ({
                ||| (e == HostError::DecodeError && !(decodes(caller@, module_ptr as int)
                    && decodes(caller@, function_ptr as int)))
                ||| (e == HostError::ModuleNotLoaded && decodes(caller@, module_ptr as int)
                    && decodes(caller@, function_ptr as int)
                    && !old(reg)@.contains_key(decoded_name(caller@, module_ptr as int)))
                ||| (e == HostError::ExportNotFound && decodes(caller@, module_ptr as int)
                    && decodes(caller@, function_ptr as int)
                    && old(reg)@.contains_key(decoded_name(caller@, module_ptr as int))
                    && !old(reg)@[decoded_name(caller@, module_ptr as int)].exports.contains(
                        decoded_name(caller@, function_ptr as int)))
            }),
        },
{
    let name = match decode_name(caller, module_ptr) {
        Ok(n) => n,
        Err(e) => {
            return Err(e);
        },
    };
    let function = match decode_name(caller, function_ptr) {
        Ok(n) => n,
        Err(e) => {
            return Err(e);
        },
    };
    let instance = match reg.checkout(&name) {
        Ok(i) => i,
        Err(e) => {
            return Err(e);
        },
    };
    if !instance.has_export(&function) {
        reg.checkin(name, instance);
        proof {
            assert(reg@ =~= old(reg)@);
        }
        return Err(HostError::ExportNotFound);
    }
    Ok(InFlightCall { name, instance, function })
}

/// Complete a Call: whatever the outcome — normal return or guest trap —
/// the instance is checked back into the registry, so the module stays
/// loaded and callable and a later Unload can release it. The status is 0
/// exactly when the guest returned normally.
pub fn finish_call(reg: &mut Registry, call: InFlightCall, outcome: InvokeOutcome) -> (r: i32)
    requires
        old(reg).wf(),
    ensures
        final(reg).wf(),
        final(reg)@ == old(reg)@.insert(call.name@, call.instance@),
        outcome is Returned ==> r == 0,
        outcome is Trapped ==> r == HostError::Trap.spec_status_code(),
{
    let InFlightCall { name, instance, function: _ } = call;
    reg.checkin(name, instance);
    match outcome {
        InvokeOutcome::Returned(_) => 0,
        InvokeOutcome::Trapped => HostError::Trap.status_code(),
    }
}

/// Abort an in-flight call after a host-side failure, such as a memory
/// fault in the marshaling protocol: the instance is still checked back
/// in — every code path ends with it cleanly returned — and the failure's
/// status code is reported.
pub fn abort_call(reg: &mut Registry, call: InFlightCall, err: HostError) -> (r: i32)
    requires
        old(reg).wf(),
    ensures
        final(reg).wf(),
        final(reg)@ == old(reg)@.insert(call.name@, call.instance@),
        r == err.spec_status_code(),
        r != 0,
{
    let InFlightCall { name, instance, function: _ } = call;
    reg.checkin(name, instance);
    err.status_code()
}

/// Host-side entry of CallWithMemory: as `call`, but the callee must
/// additionally export the two reserved buffer-pointer functions that
/// every module participating in the marshaling protocol provides; a
/// missing one is the same `ExportNotFound` as a missing target function.
pub fn call_with_memory(reg: &mut Registry, caller: &Memory, module_ptr: usize, function_ptr: usize)
    -> (r: Result<InFlightCall, HostError>)
    requires
        old(reg).wf(),
    ensures
        final(reg).wf(),
        match r {
            Ok(c) => decodes(caller@, module_ptr as int) && decodes(caller@, function_ptr as int)
                && c.name@ == decoded_name(caller@, module_ptr as int)
                && c.function@ == decoded_name(caller@, function_ptr as int)
                && old(reg)@.contains_key(c.name@) && c.instance@ == old(reg)@[c.name@]
                && c.instance@.exports.contains(c.function@)
                && c.instance@.exports.contains(param_buffer_export())
                && c.instance@.exports.contains(return_buffer_export())
                && final(reg)@ == old(reg)@.remove(c.name@),
            Err(e) => final(reg)@ == old(reg)@ && ({
                ||| (e == HostError::DecodeError && !(decodes(caller@, module_ptr as int)
                    && decodes(caller@, function_ptr as int)))
                ||| (e == HostError::ModuleNotLoaded && decodes(caller@, module_ptr as int)
                    && decodes(caller@, function_ptr as int)
                    && !old(reg)@.contains_key(decoded_name(caller@, module_ptr as int)))
                ||| (e == HostError::ExportNotFound && decodes(caller@, module_ptr as int)
                    && decodes(caller@, function_ptr as int)
                    && old(reg)@.contains_key(decoded_name(caller@, module_ptr as int))
                    && !(old(reg)@[decoded_name(caller@, module_ptr as int)].exports.contains(
                        decoded_name(caller@, function_ptr as int))
                        && old(reg)@[decoded_name(caller@, module_ptr as int)].exports.contains(
                            param_buffer_export())
                        && old(reg)@[decoded_name(caller@, module_ptr as int)].exports.contains(
                            return_buffer_export())))
            }),
        },
{
    let name = match decode_name(caller, module_ptr) {
        Ok(n) => n,
        Err(e) => {
            return Err(e);
        },
    };
    let function = match decode_name(caller, function_ptr) {
        Ok(n) => n,
        Err(e) => {
            return Err(e);
        },
    };
    let instance = match reg.checkout(&name) {
        Ok(i) => i,
        Err(e) => {
            return Err(e);
        },
    };
    let param_name = param_buffer_export_name();
    let ret_name = return_buffer_export_name();
    if !(instance.has_export(&function) && instance.has_export(&param_name)
        && instance.has_export(&ret_name)) {
        reg.checkin(name, instance);
        proof {
            assert(reg@ =~= old(reg)@);
        }
        return Err(HostError::ExportNotFound);
    }
    Ok(InFlightCall { name, instance, function })
}

/// Marshaling step of CallWithMemory: copy exactly `source_len` bytes from
/// the caller's memory at `source` into the callee's memory at its
/// parameter buffer `param_ptr`. Both ranges are checked against the
/// owning memory's current size before any byte moves; an out-of-range
/// access fails the whole call with `MemoryFault` and writes nothing — no
/// partial write.
pub fn copy_parameters(callee: &mut Instance, caller: &Memory, source: usize, source_len: usize,
    param_ptr: usize) -> (r: Result<(), HostError>)
    ensures
        final(callee)@.exports == old(callee)@.exports,
        match r {
            Ok(()) => source + source_len <= caller@.len()
                && param_ptr + source_len <= old(callee)@.memory.len()
                && final(callee)@.memory == spliced(
                    old(callee)@.memory,
                    param_ptr as int,
                    caller@.subrange(source as int, source + source_len),
                ),
            Err(e) => e == HostError::MemoryFault && !(source + source_len <= caller@.len()
                && param_ptr + source_len <= old(callee)@.memory.len())
                && final(callee)@.memory == old(callee)@.memory,
        },
{
    if callee.memory.copy_from(param_ptr, caller, source, source_len) {
        Ok(())
    } else {
        Err(HostError::MemoryFault)
    }
}

/// Marshaling step of CallWithMemory: copy the `count` bytes the callee
/// produced in its return buffer at `ret_ptr` into the caller's memory at
/// `target`, with the same bounds checks on both ends and the same
/// no-partial-write guarantee. The caller-declared target capacity is a
/// documented caller obligation and is not validated here; the target
/// range is still checked against the caller's current memory size.
pub fn copy_result(caller: &mut Memory, callee: &Instance, ret_ptr: usize, count: usize,
    target: usize) -> (r: Result<(), HostError>)
    ensures
        match r {
            Ok(()) => ret_ptr + count <= callee@.memory.len()
                && target + count <= old(caller)@.len()
                && final(caller)@ == spliced(
                    old(caller)@,
                    target as int,
                    callee@.memory.subrange(ret_ptr as int, ret_ptr + count),
                ),
            Err(e) => e == HostError::MemoryFault && !(ret_ptr + count <= callee@.memory.len()
                && target + count <= old(caller)@.len())
                && final(caller)@ == old(caller)@,
        },
{
    if caller.copy_from(target, &callee.memory, ret_ptr, count) {
        Ok(())
    } else {
        Err(HostError::MemoryFault)
    }
}

/// The Unload operation: decode the module name from the caller's memory
/// and remove its instance from the registry, handing it back so its
/// memory, code and engine-level state can be released. Removal is
/// idempotent by design: a name that is absent — never loaded, already
/// unloaded, or consumed by an in-flight call — is a silent success, not
/// an error.
pub fn unload(reg: &mut Registry, caller: &Memory, name_ptr: usize) -> (r: (i32, Option<Instance>))
    requires
        old(reg).wf(),
    ensures
        final(reg).wf(),
        !decodes(caller@, name_ptr as int) ==> final(reg)@ == old(reg)@
            && r.0 == HostError::DecodeError.spec_status_code() && r.1 is None,
        decodes(caller@, name_ptr as int) ==> r.0 == 0
            && final(reg)@ == old(reg)@.remove(decoded_name(caller@, name_ptr as int))
            && (match r.1 {
                Some(inst) => old(reg)@.contains_key(decoded_name(caller@, name_ptr as int))
                    && inst@ == old(reg)@[decoded_name(caller@, name_ptr as int)],
                None => !old(reg)@.contains_key(decoded_name(caller@, name_ptr as int)),
            }),
{
    let name = match decode_name(caller, name_ptr) {
        Ok(n) => n,
        Err(e) => {
            return (e.status_code(), None);
        },
    };
    let removed = reg.remove(&name);
    (0, removed)
}

} // verus!


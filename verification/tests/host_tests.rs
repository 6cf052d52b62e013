use modhost::errors::HostError;
use modhost::host;
use modhost::host::InvokeOutcome;
use modhost::memory::Memory;
use modhost::registry::{Instance, ModuleInstance, Registry};

fn mem_from(bytes: &[u8]) -> Memory {
    Memory::from_bytes(bytes.to_vec())
}

fn exports_of(names: &[&[u8]]) -> Vec<Vec<u8>> {
    names.iter().map(|n| n.to_vec()).collect()
}

fn plain_instance(export_names: &[&[u8]], memory_size: usize) -> Instance {
    Instance::new(exports_of(export_names), Memory::new(memory_size))
}

fn mem_bytes(m: &Memory, offset: usize, len: usize) -> Vec<u8> {
    m.read_bytes(offset, len).expect("range must be in bounds")
}

#[test]
fn call_on_never_loaded_name_reports_module_not_loaded() {
    let mut reg = Registry::new();
    let caller = mem_from(b"ghost\0f\0");
    let r = host::call(&mut reg, &caller, 0, 6);
    match r {
        Err(e) => assert_eq!(e, HostError::ModuleNotLoaded),
        Ok(_) => panic!("call must fail for a never-loaded name"),
    }
    assert!(!reg.contains(&b"ghost".to_vec()));
}

#[test]
fn unload_on_never_loaded_name_is_a_no_op() {
    let mut reg = Registry::new();
    let caller = mem_from(b"ghost\0");
    let (status, removed) = host::unload(&mut reg, &caller, 0);
    assert_eq!(status, 0);
    assert!(removed.is_none());
}

#[test]
fn unload_with_unterminated_name_reports_decode_error() {
    let mut reg = Registry::new();
    let caller = mem_from(b"ghost");
    let (status, removed) = host::unload(&mut reg, &caller, 0);
    assert_eq!(status, HostError::DecodeError.status_code());
    assert!(removed.is_none());
}

#[test]
fn load_twice_replaces_the_prior_instance() {
    let mut reg = Registry::new();
    let first = Instance::new(exports_of(&[b"f"]), mem_from(&[11]));
    let second = Instance::new(exports_of(&[b"f"]), mem_from(&[22]));
    let (status1, evicted1) = host::load(&mut reg, b"alpha".to_vec(), first);
    assert_eq!(status1, 0);
    assert!(evicted1.is_none());
    let (status2, evicted2) = host::load(&mut reg, b"alpha".to_vec(), second);
    assert_eq!(status2, 0);
    let prior = evicted2.expect("the first instance must be evicted for release");
    assert_eq!(mem_bytes(&prior.memory, 0, 1), vec![11]);
    let routed = reg.checkout(&b"alpha".to_vec()).expect("alpha must be loaded");
    assert_eq!(mem_bytes(&routed.memory, 0, 1), vec![22]);
}

#[test]
fn successful_call_leaves_module_loaded_and_unloadable() {
    let mut reg = Registry::new();
    let caller = mem_from(b"alpha\0f\0");
    host::load(&mut reg, b"alpha".to_vec(), plain_instance(&[b"f"], 0));
    let in_flight = host::call(&mut reg, &caller, 0, 6).expect("exported no-op must be callable");
    assert!(!reg.contains(&b"alpha".to_vec()));
    let status = host::finish_call(&mut reg, in_flight, InvokeOutcome::Returned(0));
    assert_eq!(status, 0);
    assert!(reg.contains(&b"alpha".to_vec()));
    let again = host::call(&mut reg, &caller, 0, 6).expect("module must stay callable");
    let status2 = host::finish_call(&mut reg, again, InvokeOutcome::Returned(0));
    assert_eq!(status2, 0);
    let (unload_status, removed) = host::unload(&mut reg, &caller, 0);
    assert_eq!(unload_status, 0);
    assert!(removed.is_some());
}

#[test]
fn call_on_missing_export_keeps_registry_consistent() {
    let mut reg = Registry::new();
    let caller = mem_from(b"alpha\0g\0f\0");
    host::load(&mut reg, b"alpha".to_vec(), plain_instance(&[b"f"], 0));
    let r = host::call(&mut reg, &caller, 0, 6);
    match r {
        Err(e) => assert_eq!(e, HostError::ExportNotFound),
        Ok(_) => panic!("g is not exported"),
    }
    assert!(reg.contains(&b"alpha".to_vec()));
    let in_flight = host::call(&mut reg, &caller, 0, 8).expect("f is still callable");
    let status = host::finish_call(&mut reg, in_flight, InvokeOutcome::Returned(0));
    assert_eq!(status, 0);
}

#[test]
fn call_with_undecodable_function_name_reports_decode_error() {
    let mut reg = Registry::new();
    let caller = mem_from(b"alpha\0f");
    host::load(&mut reg, b"alpha".to_vec(), plain_instance(&[b"f"], 0));
    let r = host::call(&mut reg, &caller, 0, 6);
    match r {
        Err(e) => assert_eq!(e, HostError::DecodeError),
        Ok(_) => panic!("the function name has no terminator"),
    }
    assert!(reg.contains(&b"alpha".to_vec()));
}

#[test]
fn trap_during_call_still_checks_the_instance_back_in() {
    let mut reg = Registry::new();
    let caller = mem_from(b"alpha\0f\0");
    host::load(&mut reg, b"alpha".to_vec(), plain_instance(&[b"f"], 0));
    let in_flight = host::call(&mut reg, &caller, 0, 6).expect("f is exported");
    let status = host::finish_call(&mut reg, in_flight, InvokeOutcome::Trapped);
    assert_eq!(status, HostError::Trap.status_code());
    assert!(reg.contains(&b"alpha".to_vec()));
}

#[test]
fn call_with_memory_echo_reproduces_the_buffer() {
    let mut reg = Registry::new();
    // Caller memory: "echo\0run\0", then a 5-byte payload at offset 9,
    // then room for the result at offset 20.
    let mut caller_bytes = b"echo\0run\0".to_vec();
    caller_bytes.extend_from_slice(&[1, 2, 3, 4, 5]);
    caller_bytes.resize(32, 0);
    let mut caller = Memory::from_bytes(caller_bytes);
    let callee = Instance::new(
        exports_of(&[
            b"run",
            b"get_parameter_buffer_pointer",
            b"get_return_buffer_pointer",
        ]),
        Memory::new(64),
    );
    host::load(&mut reg, b"echo".to_vec(), callee);
    let mut in_flight =
        host::call_with_memory(&mut reg, &caller, 0, 5).expect("echo participates in the protocol");
    // The reserved exports would now report the callee's buffers: parameter
    // buffer at 0, return buffer at 32.
    host::copy_parameters(&mut in_flight.instance, &caller, 9, 5, 0)
        .expect("both ranges are in bounds");
    assert_eq!(mem_bytes(&in_flight.instance.memory, 0, 5), vec![1, 2, 3, 4, 5]);
    // The guest's `run` echoes its parameter buffer into its return buffer
    // and reports 5 bytes produced.
    let echoed = mem_bytes(&in_flight.instance.memory, 0, 5);
    assert!(in_flight.instance.memory.write_bytes(32, &echoed));
    host::copy_result(&mut caller, &in_flight.instance, 32, 5, 20)
        .expect("both ranges are in bounds");
    let status = host::finish_call(&mut reg, in_flight, InvokeOutcome::Returned(5));
    assert_eq!(status, 0);
    assert_eq!(mem_bytes(&caller, 20, 5), vec![1, 2, 3, 4, 5]);
    assert!(reg.contains(&b"echo".to_vec()));
}

#[test]
fn call_with_memory_requires_the_reserved_exports() {
    let mut reg = Registry::new();
    let caller = mem_from(b"alpha\0f\0");
    host::load(&mut reg, b"alpha".to_vec(), plain_instance(&[b"f"], 16));
    let r = host::call_with_memory(&mut reg, &caller, 0, 6);
    match r {
        Err(e) => assert_eq!(e, HostError::ExportNotFound),
        Ok(_) => panic!("alpha does not provide the buffer-pointer exports"),
    }
    assert!(reg.contains(&b"alpha".to_vec()));
}

#[test]
fn out_of_range_source_is_a_memory_fault_and_writes_nothing() {
    let caller = mem_from(&[9, 9, 9, 9]);
    let mut callee = plain_instance(&[b"run"], 8);
    let r = host::copy_parameters(&mut callee, &caller, 2, 3, 0);
    match r {
        Err(e) => assert_eq!(e, HostError::MemoryFault),
        Ok(()) => panic!("the source range exceeds the caller's memory"),
    }
    assert_eq!(mem_bytes(&callee.memory, 0, 8), vec![0; 8]);
}

#[test]
fn out_of_range_parameter_buffer_is_a_memory_fault_and_writes_nothing() {
    let caller = mem_from(&[9, 9, 9, 9]);
    let mut callee = plain_instance(&[b"run"], 2);
    let r = host::copy_parameters(&mut callee, &caller, 0, 3, 0);
    match r {
        Err(e) => assert_eq!(e, HostError::MemoryFault),
        Ok(()) => panic!("the parameter buffer range exceeds the callee's memory"),
    }
    assert_eq!(mem_bytes(&callee.memory, 0, 2), vec![0, 0]);
}

#[test]
fn out_of_range_target_is_a_memory_fault_and_writes_nothing() {
    let mut caller = mem_from(&[7, 7, 7, 7]);
    let mut callee = plain_instance(&[b"run"], 8);
    assert!(callee.memory.write_bytes(0, &vec![5, 6]));
    let r = host::copy_result(&mut caller, &callee, 0, 2, 3);
    match r {
        Err(e) => assert_eq!(e, HostError::MemoryFault),
        Ok(()) => panic!("the target range exceeds the caller's memory"),
    }
    assert_eq!(mem_bytes(&caller, 0, 4), vec![7, 7, 7, 7]);
}

#[test]
fn abort_after_memory_fault_checks_the_instance_back_in() {
    let mut reg = Registry::new();
    let caller = mem_from(b"alpha\0run\0");
    host::load(
        &mut reg,
        b"alpha".to_vec(),
        Instance::new(
            exports_of(&[
                b"run",
                b"get_parameter_buffer_pointer",
                b"get_return_buffer_pointer",
            ]),
            Memory::new(4),
        ),
    );
    let mut in_flight = host::call_with_memory(&mut reg, &caller, 0, 6).expect("run is exported");
    let fault = host::copy_parameters(&mut in_flight.instance, &caller, 0, 64, 0)
        .expect_err("the source range is out of bounds");
    let status = host::abort_call(&mut reg, in_flight, fault);
    assert_eq!(status, HostError::MemoryFault.status_code());
    assert!(reg.contains(&b"alpha".to_vec()));
}

#[test]
fn unload_is_idempotent() {
    let mut reg = Registry::new();
    let caller = mem_from(b"alpha\0");
    host::load(&mut reg, b"alpha".to_vec(), plain_instance(&[b"f"], 0));
    let (s1, removed1) = host::unload(&mut reg, &caller, 0);
    assert_eq!(s1, 0);
    assert!(removed1.is_some());
    let (s2, removed2) = host::unload(&mut reg, &caller, 0);
    assert_eq!(s2, 0);
    assert!(removed2.is_none());
    let (s3, removed3) = host::unload(&mut reg, &caller, 0);
    assert_eq!(s3, 0);
    assert!(removed3.is_none());
}

#[test]
fn requests_against_distinct_names_do_not_disturb_each_other() {
    let mut reg = Registry::new();
    let caller = mem_from(b"alpha\0beta\0f\0");
    host::load(&mut reg, b"alpha".to_vec(), Instance::new(exports_of(&[b"f"]), mem_from(&[1])));
    host::load(&mut reg, b"beta".to_vec(), Instance::new(exports_of(&[b"f"]), mem_from(&[2])));
    let in_flight = host::call(&mut reg, &caller, 0, 11).expect("alpha exports f");
    // While alpha is checked out, requests against beta proceed untouched.
    let (s, removed) = host::unload(&mut reg, &caller, 6);
    assert_eq!(s, 0);
    let beta = removed.expect("beta is loaded and idle");
    assert_eq!(mem_bytes(&beta.memory, 0, 1), vec![2]);
    let status = host::finish_call(&mut reg, in_flight, InvokeOutcome::Returned(0));
    assert_eq!(status, 0);
    assert!(reg.contains(&b"alpha".to_vec()));
    assert!(!reg.contains(&b"beta".to_vec()));
}

#[test]
fn registry_checkout_gives_exclusive_use() {
    let mut reg = Registry::new();
    let _ = reg.insert(b"alpha".to_vec(), plain_instance(&[b"f"], 0));
    let inst = reg.checkout(&b"alpha".to_vec()).expect("alpha is loaded");
    match reg.checkout(&b"alpha".to_vec()) {
        Err(e) => assert_eq!(e, HostError::ModuleNotLoaded),
        Ok(_) => panic!("a checked-out instance must not be handed out twice"),
    }
    reg.checkin(b"alpha".to_vec(), inst);
    assert!(reg.contains(&b"alpha".to_vec()));
}

#[test]
fn module_instance_pairs_name_and_instance() {
    let entry = ModuleInstance::new(b"alpha".to_vec(), plain_instance(&[b"f"], 1));
    assert_eq!(entry.name, b"alpha".to_vec());
    assert_eq!(mem_bytes(&entry.instance.memory, 0, 1), vec![0]);
}

#[test]
fn every_error_has_its_own_nonzero_status_code() {
    let codes = vec![
        HostError::DecodeError.status_code(),
        HostError::ModuleNotLoaded.status_code(),
        HostError::LoadFailed.status_code(),
        HostError::ExportNotFound.status_code(),
        HostError::MemoryFault.status_code(),
        HostError::Trap.status_code(),
        HostError::Busy.status_code(),
    ];
    for (i, a) in codes.iter().enumerate() {
        assert_ne!(*a, 0);
        for b in codes[i + 1..].iter() {
            assert_ne!(*a, *b);
        }
    }
    assert_eq!(HostError::ModuleNotLoaded.status_code(), 2);
    assert_eq!(HostError::MemoryFault.status_code(), 5);
}

#[test]
fn reserved_export_names_spell_the_protocol_contract() {
    assert_eq!(
        host::param_buffer_export_name(),
        b"get_parameter_buffer_pointer".to_vec()
    );
    assert_eq!(
        host::return_buffer_export_name(),
        b"get_return_buffer_pointer".to_vec()
    );
}

#[test]
fn call_with_memory_on_never_loaded_name_reports_module_not_loaded() {
    let mut reg = Registry::new();
    let caller = mem_from(b"ghost\0run\0");
    match host::call_with_memory(&mut reg, &caller, 0, 6) {
        Err(e) => assert_eq!(e, HostError::ModuleNotLoaded),
        Ok(_) => panic!("nothing is loaded"),
    }
}

#[test]
fn call_with_out_of_bounds_module_pointer_reports_decode_error() {
    let mut reg = Registry::new();
    let caller = mem_from(b"alpha\0f\0");
    host::load(&mut reg, b"alpha".to_vec(), plain_instance(&[b"f"], 0));
    match host::call(&mut reg, &caller, 64, 6) {
        Err(e) => assert_eq!(e, HostError::DecodeError),
        Ok(_) => panic!("the module pointer is outside the caller's memory"),
    }
    assert!(reg.contains(&b"alpha".to_vec()));
}

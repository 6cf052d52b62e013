//! The host's global guarantees, proved once over the models that the
//! operations' own contracts speak of: the registry as a mapping from
//! module name to instance, and each linear memory as a byte sequence.

use vstd::prelude::*;
use crate::memory::spliced;
use crate::registry::InstanceView;

verus! {

/// Splicing keeps the memory's size and touches nothing outside the
/// target range: a bounds-checked write can never reach another byte.
pub proof fn lemma_spliced_outside(orig: Seq<u8>, at: int, bytes: Seq<u8>)
    requires
        0 <= at,
        at + bytes.len() <= orig.len(),
    ensures
        spliced(orig, at, bytes).len() == orig.len(),
        forall|k: int| 0 <= k < orig.len() && !(at <= k < at + bytes.len())
            ==> spliced(orig, at, bytes)[k] == orig[k],
{
}

/// Reading back exactly the spliced-in range yields the bytes that were
/// written: a copy is byte-exact.
pub proof fn lemma_spliced_read_back(orig: Seq<u8>, at: int, bytes: Seq<u8>)
    requires
        0 <= at,
        at + bytes.len() <= orig.len(),
    ensures
        spliced(orig, at, bytes).subrange(at, at + bytes.len()) == bytes,
{
    assert(spliced(orig, at, bytes).subrange(at, at + bytes.len()) =~= bytes);
}

/// Loading a name twice replaces the prior instance: the registry holds
/// only the second one, and a lookup routes to it. The first instance is
/// no longer reachable — `load` has already handed it back for release.
pub proof fn lemma_load_replaces(
    m: Map<Seq<u8>, InstanceView>,
    name: Seq<u8>,
    first_inst: InstanceView,
    second_inst: InstanceView,
)
    ensures
        m.insert(name, first_inst).insert(name, second_inst) == m.insert(name, second_inst),
        m.insert(name, first_inst).insert(name, second_inst)[name] == second_inst,
{
    assert(m.insert(name, first_inst).insert(name, second_inst) =~= m.insert(name, second_inst));
}

/// A completed call leaves the module loaded: checking an instance out
/// and then back in under the same name restores the registry exactly
/// when the instance came back as it was, so the module stays callable
/// and unloadable afterwards.
pub proof fn lemma_call_round_trip(m: Map<Seq<u8>, InstanceView>, name: Seq<u8>, inst: InstanceView)
    requires
        m.contains_key(name),
        m[name] == inst,
    ensures
        m.remove(name).insert(name, inst) == m,
{
    assert(m.remove(name).insert(name, inst) =~= m);
}

/// Unload is idempotent: removing a name a second time — or removing a
/// name that an in-flight call already consumed — changes nothing beyond
/// the first removal, and removing an absent name changes nothing at all.
pub proof fn lemma_unload_idempotent(m: Map<Seq<u8>, InstanceView>, name: Seq<u8>)
    ensures
        m.remove(name).remove(name) == m.remove(name),
        !m.contains_key(name) ==> m.remove(name) == m,
{
    assert(m.remove(name).remove(name) =~= m.remove(name));
    if !m.contains_key(name) {
        assert(m.remove(name) =~= m);
    }
}

/// Requests against distinct module names are independent: a load or an
/// unload under one name commutes with a load or an unload under another,
/// and neither disturbs what the registry holds under the other name. So
/// the order in which concurrent requests win the brief registry mutation
/// cannot change the outcome.
pub proof fn lemma_distinct_names_independent(
    m: Map<Seq<u8>, InstanceView>,
    name_a: Seq<u8>,
    name_b: Seq<u8>,
    inst_a: InstanceView,
    inst_b: InstanceView,
)
    requires
        name_a != name_b,
    ensures
        m.insert(name_a, inst_a).insert(name_b, inst_b)
            == m.insert(name_b, inst_b).insert(name_a, inst_a),
        m.remove(name_a).remove(name_b) == m.remove(name_b).remove(name_a),
        m.insert(name_a, inst_a).remove(name_b) == m.remove(name_b).insert(name_a, inst_a),
        m.insert(name_a, inst_a).contains_key(name_b) == m.contains_key(name_b),
        m.remove(name_a).contains_key(name_b) == m.contains_key(name_b),
        m.contains_key(name_b) ==> m.insert(name_a, inst_a)[name_b] == m[name_b]
            && m.remove(name_a)[name_b] == m[name_b],
{
    assert(m.insert(name_a, inst_a).insert(name_b, inst_b)
        =~= m.insert(name_b, inst_b).insert(name_a, inst_a));
    assert(m.remove(name_a).remove(name_b) =~= m.remove(name_b).remove(name_a));
    assert(m.insert(name_a, inst_a).remove(name_b) =~= m.remove(name_b).insert(name_a, inst_a));
}

/// The marshaling round trip is byte-exact: for every byte buffer, copying
/// `len` bytes out of the caller into a callee's parameter buffer, letting
/// the callee echo its parameter buffer into its return buffer, and
/// copying the same count back to the target, reproduces at the target
/// exactly the bytes that left the source.
pub proof fn lemma_echo_round_trip(
    caller: Seq<u8>,
    callee: Seq<u8>,
    source: int,
    len: int,
    param_ptr: int,
    ret_ptr: int,
    target: int,
)
    requires
        0 <= source,
        0 <= len,
        0 <= param_ptr,
        0 <= ret_ptr,
        0 <= target,
        source + len <= caller.len(),
        param_ptr + len <= callee.len(),
        ret_ptr + len <= callee.len(),
        target + len <= caller.len(),
    ensures
        ({
            let callee_after_in = spliced(callee, param_ptr, caller.subrange(source, source + len));
            let callee_after_echo = spliced(
                callee_after_in,
                ret_ptr,
                callee_after_in.subrange(param_ptr, param_ptr + len),
            );
            let caller_after_out = spliced(
                caller,
                target,
                callee_after_echo.subrange(ret_ptr, ret_ptr + len),
            );
            caller_after_out.subrange(target, target + len)
                == caller.subrange(source, source + len)
                && caller_after_out.len() == caller.len()
                && (forall|k: int| 0 <= k < caller.len() && !(target <= k < target + len)
                    ==> caller_after_out[k] == caller[k])
        }),
{
    let sent = caller.subrange(source, source + len);
    let callee_after_in = spliced(callee, param_ptr, sent);
    lemma_spliced_read_back(callee, param_ptr, sent);
    assert(callee_after_in.subrange(param_ptr, param_ptr + len) == sent);
    let callee_after_echo = spliced(callee_after_in, ret_ptr, sent);
    lemma_spliced_read_back(callee_after_in, ret_ptr, sent);
    assert(callee_after_echo.subrange(ret_ptr, ret_ptr + len) == sent);
    lemma_spliced_read_back(caller, target, sent);
    lemma_spliced_outside(caller, target, sent);
}

} // verus!

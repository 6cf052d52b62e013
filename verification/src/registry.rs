use vstd::prelude::*;
use crate::errors::HostError;
use crate::memory::Memory;

verus! {

/// A live, activated sandbox, held as the plain values the host reads of
/// it: the names its export table makes callable, and its private linear
/// memory. Executing the guest's instructions is the engine's work; every
/// host-side decision about an instance is made from these two fields.
pub struct Instance {
    /// The function names the sandbox exports, as byte strings.
    pub exports: Vec<Vec<u8>>,
    /// The sandbox's private linear memory.
    pub memory: Memory,
}

/// The mathematical value of an [`Instance`].
pub struct InstanceView {
    pub exports: Seq<Seq<u8>>,
    pub memory: Seq<u8>,
}

impl View for Instance {
    type V = InstanceView;

    open spec fn view(&self) -> InstanceView {
        InstanceView {
            exports: self.exports@.map_values(|e: Vec<u8>| e@),
            memory: self.memory@,
        }
    }
}

/// Byte-string equality, the comparison every registry and export lookup
/// goes by.
pub fn bytes_eq(a: &Vec<u8>, b: &Vec<u8>) -> (r: bool)
    ensures
        r <==> a@ == b@,
{
    if a.len() != b.len() {
        return false;
    }
    let mut i: usize = 0;
    while i < a.len()
        invariant
            a@.len() == b@.len(),
            i <= a@.len(),
            forall|k: int| 0 <= k < i ==> a@[k] == b@[k],
        decreases a@.len() - i,
    {
        if a[i] != b[i] {
            return false;
        }
        i = i + 1;
    }
    proof {
        assert(a@ =~= b@);
    }
    true
}

impl Instance {
    /// A fresh instance from its export table and its linear memory.
    pub fn new(exports: Vec<Vec<u8>>, memory: Memory) -> (r: Instance)
        ensures
            r@.exports == exports@.map_values(|e: Vec<u8>| e@),
            r@.memory == memory@,
    {
        Instance { exports, memory }
    }

    /// Whether `name` is in the export table: resolved at call time, and
    /// absent names are reported, never assumed.
    pub fn has_export(&self, name: &Vec<u8>) -> (r: bool)
        ensures
            r <==> self@.exports.contains(name@),
    {
        let mut i: usize = 0;
        while i < self.exports.len()
            invariant
                i <= self.exports@.len(),
                forall|k: int| 0 <= k < i ==> self@.exports[k] != name@,
            decreases self.exports@.len() - i,
        {
            if bytes_eq(&self.exports[i], name) {
                proof {
                    assert(self@.exports[i as int] == name@);
                }
                return true;
            }
            i = i + 1;
        }
        false
    }
}

/// A registry entry: a module name paired with the live instance loaded
/// under it.
pub struct ModuleInstance {
    pub name: Vec<u8>,
    pub instance: Instance,
}

impl ModuleInstance {
    pub fn new(name: Vec<u8>, instance: Instance) -> (r: ModuleInstance)
        ensures
            r.name == name,
            r.instance == instance,
    {
        ModuleInstance { name, instance }
    }
}

/// No two entries share a name: a name maps to at most one instance.
pub open spec fn distinct_names(s: Seq<ModuleInstance>) -> bool {
    forall|i: int, j: int| 0 <= i < j < s.len() ==> s[i].name@ != s[j].name@
}

/// The mapping a sequence of entries stands for.
pub open spec fn map_of(s: Seq<ModuleInstance>) -> Map<Seq<u8>, InstanceView>
    decreases s.len()
{
    if s.len() == 0 {
        Map::empty()
    } else {
        map_of(s.drop_last()).insert(s.last().name@, s.last().instance@)
    }
}

/// A name is in the mapping exactly when some entry carries it.
proof fn lemma_map_of_contains(s: Seq<ModuleInstance>, n: Seq<u8>)
    ensures
        map_of(s).contains_key(n) <==> exists|i: int| 0 <= i < s.len() && s[i].name@ == n,
    decreases s.len(),
{
    if s.len() > 0 {
        lemma_map_of_contains(s.drop_last(), n);
        if s.last().name@ == n {
            assert(s[s.len() - 1].name@ == n);
        } else {
            if map_of(s).contains_key(n) {
                let i = choose|i: int| 0 <= i < s.drop_last().len() && s.drop_last()[i].name@ == n;
                assert(s[i].name@ == n);
            }
            if exists|i: int| 0 <= i < s.len() && s[i].name@ == n {
                let i = choose|i: int| 0 <= i < s.len() && s[i].name@ == n;
                assert(s.drop_last()[i].name@ == n);
            }
        }
    }
}

/// With distinct names, the entry at `i` is exactly what the mapping holds
/// under its name.
proof fn lemma_map_of_get(s: Seq<ModuleInstance>, i: int)
    requires
        distinct_names(s),
        0 <= i < s.len(),
    ensures
        map_of(s).contains_key(s[i].name@),
        map_of(s)[s[i].name@] == s[i].instance@,
    decreases s.len(),
{
    if i == s.len() - 1 {
    } else {
        assert(distinct_names(s.drop_last()));
        lemma_map_of_get(s.drop_last(), i);
        assert(s.drop_last()[i] == s[i]);
        assert(s[i].name@ != s.last().name@);
    }
}

/// With distinct names, removing the entry at `i` removes exactly its name
/// from the mapping.
proof fn lemma_map_of_remove(s: Seq<ModuleInstance>, i: int)
    requires
        distinct_names(s),
        0 <= i < s.len(),
    ensures
        map_of(s.remove(i)) == map_of(s).remove(s[i].name@),
    decreases s.len(),
{
    lemma_map_of_contains(s.drop_last(), s[i].name@);
    if i == s.len() - 1 {
        assert(s.remove(i) =~= s.drop_last());
        assert(!map_of(s.drop_last()).contains_key(s[i].name@));
        assert(map_of(s.drop_last()) =~= map_of(s.drop_last()).insert(
            s.last().name@,
            s.last().instance@,
        ).remove(s[i].name@));
    } else {
        assert(distinct_names(s.drop_last()));
        lemma_map_of_remove(s.drop_last(), i);
        assert(s.remove(i).drop_last() =~= s.drop_last().remove(i));
        assert(s.remove(i).last() == s.last());
        assert(s[i].name@ != s.last().name@);
        assert(map_of(s.remove(i)) == map_of(s.drop_last().remove(i)).insert(
            s.last().name@,
            s.last().instance@,
        ));
        assert(map_of(s.drop_last()).remove(s[i].name@).insert(s.last().name@, s.last().instance@)
            =~= map_of(s.drop_last()).insert(s.last().name@, s.last().instance@).remove(
            s[i].name@,
        ));
    }
}

/// With distinct names, removing the entry at `i` keeps the names distinct
/// and leaves no entry carrying the removed name.
proof fn lemma_remove_keeps(s: Seq<ModuleInstance>, i: int)
    requires
        distinct_names(s),
        0 <= i < s.len(),
    ensures
        distinct_names(s.remove(i)),
        forall|k: int| 0 <= k < s.remove(i).len() ==> s.remove(i)[k].name@ != s[i].name@,
{
    assert forall|a: int, b: int|
        0 <= a < b < s.remove(i).len() implies s.remove(i)[a].name@ != s.remove(i)[b].name@ by {
        let a0: int = if a < i { a } else { a + 1 };
        let b0: int = if b < i { b } else { b + 1 };
        assert(s.remove(i)[a] == s[a0]);
        assert(s.remove(i)[b] == s[b0]);
    }
    assert forall|k: int| 0 <= k < s.remove(i).len() implies s.remove(i)[k].name@ != s[i].name@ by {
        let k0: int = if k < i { k } else { k + 1 };
        assert(s.remove(i)[k] == s[k0]);
    }
}

/// Appending an entry inserts exactly its name into the mapping.
proof fn lemma_map_of_push(s: Seq<ModuleInstance>, e: ModuleInstance)
    ensures
        map_of(s.push(e)) == map_of(s).insert(e.name@, e.instance@),
{
    assert(s.push(e).drop_last() =~= s);
    assert(s.push(e).last() == e);
}

/// The Instance Registry: the mapping from module name to live sandbox
/// instance, the host's only shared mutable state. A name maps to at most
/// one instance at any time; a name absent from the mapping means never
/// loaded, already unloaded, or currently checked out for an in-flight
/// call. Each operation is one brief map mutation — the embedding holds
/// its lock only around that mutation, never across a guest invocation.
pub struct Registry {
    entries: Vec<ModuleInstance>,
}

impl View for Registry {
    type V = Map<Seq<u8>, InstanceView>;

    closed spec fn view(&self) -> Map<Seq<u8>, InstanceView> {
        map_of(self.entries@)
    }
}

impl Registry {
    /// The registry is well formed: no name is carried by two entries.
    pub closed spec fn wf(&self) -> bool {
        distinct_names(self.entries@)
    }

    /// An empty registry: the host starts with no module loaded.
    pub fn new() -> (r: Registry)
        ensures
            r.wf(),
            r@ == Map::<Seq<u8>, InstanceView>::empty(),
    {
        Registry { entries: Vec::new() }
    }

    /// Index of the entry carrying `name`, if any.
    fn index_of(&self, name: &Vec<u8>) -> (r: Option<usize>)
        ensures
            match r {
                Some(i) => i < self.entries@.len() && self.entries@[i as int].name@ == name@,
                None => forall|k: int| 0 <= k < self.entries@.len()
                    ==> self.entries@[k].name@ != name@,
            },
    {
        let mut i: usize = 0;
        while i < self.entries.len()
            invariant
                i <= self.entries@.len(),
                forall|k: int| 0 <= k < i ==> self.entries@[k].name@ != name@,
            decreases self.entries@.len() - i,
        {
            if bytes_eq(&self.entries[i].name, name) {
                return Some(i);
            }
            i = i + 1;
        }
        None
    }

    /// Whether `name` is currently loaded and idle in the registry.
    pub fn contains(&self, name: &Vec<u8>) -> (r: bool)
        requires
            self.wf(),
        ensures
            r <==> self@.contains_key(name@),
    {
        let r = self.index_of(name);
        proof {
            lemma_map_of_contains(self.entries@, name@);
        }
        r.is_some()
    }

    /// `insert(name, instance)`: make `name` map to `instance`. Any
    /// existing entry under `name` is evicted and handed back so that its
    /// resources can be released; every other entry is untouched.
    pub fn insert(&mut self, name: Vec<u8>, instance: Instance) -> (evicted: Option<Instance>)
        requires
            old(self).wf(),
        ensures
            final(self).wf(),
            final(self)@ == old(self)@.insert(name@, instance@),
            match evicted {
                Some(prior) => old(self)@.contains_key(name@) && prior@ == old(self)@[name@],
                None => !old(self)@.contains_key(name@),
            },
    {
        proof {
            lemma_map_of_contains(self.entries@, name@);
        }
        let evicted = match self.index_of(&name) {
            Some(i) => {
                proof {
                    lemma_map_of_get(self.entries@, i as int);
                    lemma_map_of_remove(self.entries@, i as int);
                    lemma_remove_keeps(self.entries@, i as int);
                }
                let prior = self.entries.remove(i);
                Some(prior.instance)
            },
            None => None,
        };
        proof {
            assert(forall|k: int| 0 <= k < self.entries@.len()
                ==> self.entries@[k].name@ != name@);
            lemma_map_of_push(self.entries@, ModuleInstance { name: name, instance: instance });
            assert forall|a: int, b: int|
                0 <= a < b < self.entries@.push(
                    ModuleInstance { name: name, instance: instance },
                ).len() implies self.entries@.push(ModuleInstance { name: name, instance: instance })[a].name@
                != self.entries@.push(ModuleInstance { name: name, instance: instance })[b].name@ by {
                let p = self.entries@.push(ModuleInstance { name: name, instance: instance });
                if b < self.entries@.len() {
                    assert(p[a] == self.entries@[a]);
                    assert(p[b] == self.entries@[b]);
                } else {
                    assert(p[a] == self.entries@[a]);
                    assert(p[b].name@ == name@);
                }
            }
        }
        self.entries.push(ModuleInstance { name, instance });
        proof {
            assert(self@ =~= old(self)@.insert(name@, instance@));
        }
        evicted
    }

    /// `checkout(name)`: atomically remove and return the instance under
    /// `name`, giving the caller exclusive use of it for the duration of a
    /// call; `ModuleNotLoaded` when the name is absent. Until the matching
    /// `checkin`, no other call can run against the same instance.
    pub fn checkout(&mut self, name: &Vec<u8>) -> (r: Result<Instance, HostError>)
        requires
            old(self).wf(),
        ensures
            final(self).wf(),
            match r {
                Ok(inst) => old(self)@.contains_key(name@) && inst@ == old(self)@[name@]
                    && final(self)@ == old(self)@.remove(name@),
                Err(e) => e == HostError::ModuleNotLoaded && !old(self)@.contains_key(name@)
                    && final(self)@ == old(self)@,
            },
    {
        proof {
            lemma_map_of_contains(self.entries@, name@);
        }
        match self.index_of(name) {
            Some(i) => {
                proof {
                    lemma_map_of_get(self.entries@, i as int);
                    lemma_map_of_remove(self.entries@, i as int);
                    lemma_remove_keeps(self.entries@, i as int);
                }
                let entry = self.entries.remove(i);
                Ok(entry.instance)
            },
            None => Err(HostError::ModuleNotLoaded),
        }
    }

    /// `checkin(name, instance)`: reinsert a checked-out instance after
    /// use, so the module stays loaded and callable.
    pub fn checkin(&mut self, name: Vec<u8>, instance: Instance)
        requires
            old(self).wf(),
        ensures
            final(self).wf(),
            final(self)@ == old(self)@.insert(name@, instance@),
    {
        let _ = self.insert(name, instance);
    }

    /// `remove(name)`: remove and hand back the instance under `name` for
    /// release. Removal is idempotent by design: an absent name is a
    /// silent no-op, not an error, because an in-flight call may already
    /// have consumed the entry.
    pub fn remove(&mut self, name: &Vec<u8>) -> (r: Option<Instance>)
        requires
            old(self).wf(),
        ensures
            final(self).wf(),
            final(self)@ == old(self)@.remove(name@),
            match r {
                Some(inst) => old(self)@.contains_key(name@) && inst@ == old(self)@[name@],
                None => !old(self)@.contains_key(name@),
            },
    {
        proof {
            lemma_map_of_contains(self.entries@, name@);
        }
        match self.index_of(name) {
            Some(i) => {
                proof {
                    lemma_map_of_get(self.entries@, i as int);
                    lemma_map_of_remove(self.entries@, i as int);
                    lemma_remove_keeps(self.entries@, i as int);
                }
                let entry = self.entries.remove(i);
                Some(entry.instance)
            },
            None => {
                proof {
                    assert(old(self)@ =~= old(self)@.remove(name@));
                }
                None
            },
        }
    }
}

} // verus!

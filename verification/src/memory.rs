use vstd::prelude::*;
use vstd::pervasive::VecAdditionalExecFns;

verus! {

/// `orig` with the `bytes.len()` bytes starting at `at` replaced by `bytes`
/// and every byte outside that range unchanged: the effect of one
/// bounds-checked write into a linear memory.
pub open spec fn spliced(orig: Seq<u8>, at: int, bytes: Seq<u8>) -> Seq<u8> {
    orig.subrange(0, at) + bytes + orig.subrange(at + bytes.len(), orig.len() as int)
}

/// Position of the first NUL byte of `s` at or after `from`; `s.len()` when
/// there is none (or `from` is outside `s`).
pub open spec fn first_nul_from(s: Seq<u8>, from: int) -> int
    decreases s.len() - from
{
    if from < 0 || from >= s.len() {
        s.len() as int
    } else if s[from] == 0 {
        from
    } else {
        first_nul_from(s, from + 1)
    }
}

/// A sandbox's private linear memory, modeled as an owned, growable byte
/// arena. It is never aliased between sandboxes; every host access is a
/// bounds-checked read or write of `len` bytes at an offset, held against
/// the current size — never raw pointer arithmetic.
pub struct Memory {
    data: Vec<u8>,
}

impl View for Memory {
    type V = Seq<u8>;

    closed spec fn view(&self) -> Seq<u8> {
        self.data@
    }
}

impl Memory {
    /// An arena of `size` zero bytes.
    pub fn new(size: usize) -> (r: Memory)
        ensures
            r@.len() == size,
            forall|k: int| 0 <= k < size ==> r@[k] == 0u8,
    {
        let mut data: Vec<u8> = Vec::new();
        while data.len() < size
            invariant
                data@.len() <= size,
                forall|k: int| 0 <= k < data@.len() ==> data@[k] == 0u8,
            decreases size - data@.len(),
        {
            data.push(0u8);
        }
        Memory { data }
    }

    /// An arena holding exactly `data`.
    pub fn from_bytes(data: Vec<u8>) -> (r: Memory)
        ensures
            r@ == data@,
    {
        Memory { data }
    }

    /// Current size of the memory in bytes. Bounds are always checked
    /// against this, not against any past or declared size.
    pub fn size(&self) -> (r: usize)
        ensures
            r == self@.len(),
    {
        self.data.len()
    }

    /// Grow the arena by `extra` zero bytes, keeping every existing byte.
    pub fn grow(&mut self, extra: usize)
        ensures
            final(self)@.len() == old(self)@.len() + extra,
            forall|k: int| 0 <= k < old(self)@.len() ==> final(self)@[k] == old(self)@[k],
            forall|k: int| old(self)@.len() <= k < final(self)@.len() ==> final(self)@[k] == 0u8,
    {
        let mut n: usize = 0;
        while n < extra
            invariant
                n <= extra,
                self@.len() == old(self)@.len() + n,
                forall|k: int| 0 <= k < old(self)@.len() ==> self@[k] == old(self)@[k],
                forall|k: int| old(self)@.len() <= k < self@.len() ==> self@[k] == 0u8,
            decreases extra - n,
        {
            self.data.push(0u8);
            n = n + 1;
        }
    }

    /// Bounds-checked read of `len` bytes at `offset`. Succeeds exactly when
    /// the whole range lies inside the current size, and then returns those
    /// bytes; otherwise nothing is read at all.
    pub fn read_bytes(&self, offset: usize, len: usize) -> (r: Option<Vec<u8>>)
        ensures
            r is Some <==> offset + len <= self@.len(),
            r is Some ==> r->Some_0@ == self@.subrange(offset as int, offset + len),
    {
        if offset > self.data.len() || len > self.data.len() - offset {
            return None;
        }
        let mut out: Vec<u8> = Vec::new();
        let mut i: usize = 0;
        while i < len
            invariant
                i <= len,
                offset + len <= self@.len(),
                offset + len <= usize::MAX,
                out@.len() == i,
                forall|k: int| 0 <= k < i ==> out@[k] == self@[offset + k],
            decreases len - i,
        {
            out.push(self.data[offset + i]);
            i = i + 1;
        }
        proof {
            assert(out@ =~= self@.subrange(offset as int, offset + len));
        }
        Some(out)
    }

    /// Bounds-checked write of `bytes` at `offset`. Succeeds exactly when
    /// the whole range lies inside the current size, and then replaces those
    /// bytes and no others; on failure not a single byte is written — there
    /// is no partial write.
    pub fn write_bytes(&mut self, offset: usize, bytes: &Vec<u8>) -> (r: bool)
        ensures
            r <==> offset + bytes@.len() <= old(self)@.len(),
            r ==> final(self)@ == spliced(old(self)@, offset as int, bytes@),
            !r ==> final(self)@ == old(self)@,
    {
        if offset > self.data.len() || bytes.len() > self.data.len() - offset {
            return false;
        }
        let mut i: usize = 0;
        while i < bytes.len()
            invariant
                i <= bytes@.len(),
                offset + bytes@.len() <= old(self)@.len(),
                offset + bytes@.len() <= usize::MAX,
                self@.len() == old(self)@.len(),
                forall|k: int|
                    0 <= k < self@.len() && !(offset <= k < offset + i) ==> self@[k] == old(self)@[k],
                forall|k: int| 0 <= k < i ==> self@[offset + k] == bytes@[k],
            decreases bytes@.len() - i,
        {
            self.data.set(offset + i, bytes[i]);
            i = i + 1;
        }
        proof {
            assert(self@ =~= spliced(old(self)@, offset as int, bytes@));
        }
        true
    }

    /// Bounds-checked copy of `len` bytes out of `src` at `src_off` into
    /// this memory at `dst_off`: the only sanctioned cross-sandbox data
    /// flow. Both the source range and the destination range are checked
    /// against the owning memory's current size before any byte moves; an
    /// out-of-range access writes nothing at all.
    pub fn copy_from(&mut self, dst_off: usize, src: &Memory, src_off: usize, len: usize) -> (r: bool)
        ensures
            r <==> src_off + len <= src@.len() && dst_off + len <= old(self)@.len(),
            r ==> final(self)@ == spliced(
                old(self)@,
                dst_off as int,
                src@.subrange(src_off as int, src_off + len),
            ),
            !r ==> final(self)@ == old(self)@,
    {
        match src.read_bytes(src_off, len) {
            None => false,
            Some(buf) => self.write_bytes(dst_off, &buf),
        }
    }

    /// Bounds-checked read of a NUL-terminated byte sequence at `offset`:
    /// the convention for every name argument crossing the sandbox
    /// boundary. Returns the bytes strictly before the first NUL at or
    /// after `offset`; when `offset` is out of bounds or no NUL follows it,
    /// nothing is read.
    pub fn read_nul_terminated(&self, offset: usize) -> (r: Option<Vec<u8>>)
        ensures
            r is Some <==> first_nul_from(self@, offset as int) < self@.len(),
            r is Some ==> r->Some_0@ == self@.subrange(
                offset as int,
                first_nul_from(self@, offset as int),
            ),
    {
        let mut j: usize = offset;
        while j < self.data.len() && self.data[j] != 0u8
            invariant
                offset <= j,
                j <= self@.len() || j == offset,
                first_nul_from(self@, offset as int) == first_nul_from(self@, j as int),
            decreases self@.len() - j,
        {
            j = j + 1;
        }
        if j >= self.data.len() {
            return None;
        }
        let r = self.read_bytes(offset, j - offset);
        proof {
            assert(first_nul_from(self@, j as int) == j);
        }
        r
    }
}

} // verus!

//! Guest memory: a flat byte space with bounds-checked access, and the
//! little-endian encoding used by the packet header.
use vstd::prelude::*;

verus! {

/// `256` raised to the power `n`.
pub open spec fn pow256(n: nat) -> nat
    decreases n,
{
    if n == 0 {
        1
    } else {
        256 * pow256((n - 1) as nat)
    }
}

/// The number whose little-endian bytes are `s`.
pub open spec fn le_value(s: Seq<u8>) -> nat
    decreases s.len(),
{
    if s.len() == 0 {
        0
    } else {
        s[0] as nat + 256 * le_value(s.drop_first())
    }
}

/// The `n` low-order bytes of `v`, least significant first.
pub open spec fn le_bytes(v: nat, n: nat) -> Seq<u8>
    decreases n,
{
    if n == 0 {
        Seq::empty()
    } else {
        seq![(v % 256) as u8] + le_bytes(v / 256, (n - 1) as nat)
    }
}

/// `s` with the bytes from `at` on replaced by `b`.
pub open spec fn splice(s: Seq<u8>, at: int, b: Seq<u8>) -> Seq<u8> {
    s.subrange(0, at) + b + s.subrange(at + b.len(), s.len() as int)
}

/// The range `[addr, addr + len)` lies inside a space of `size` bytes.
pub open spec fn in_bounds(addr: int, len: int, size: int) -> bool {
    0 <= addr && 0 <= len && addr + len <= size
}

pub proof fn lemma_pow256_mono(a: nat, b: nat)
    requires
        a <= b,
    ensures
        pow256(a) <= pow256(b),
    decreases b,
{
    if a < b {
        lemma_pow256_mono(a, (b - 1) as nat);
    }
}

pub proof fn lemma_le_value_bound(s: Seq<u8>)
    ensures
        le_value(s) < pow256(s.len()),
    decreases s.len(),
{
    if s.len() > 0 {
        lemma_le_value_bound(s.drop_first());
    }
}

/// Encoding `v` in `n` bytes and decoding it again gives `v` back.
pub proof fn lemma_le_round_trip(v: nat, n: nat)
    requires
        v < pow256(n),
    ensures
        le_bytes(v, n).len() == n,
        le_value(le_bytes(v, n)) == v,
    decreases n,
{
    if n > 0 {
        let p = pow256((n - 1) as nat);
        assert(v / 256 < p);
        lemma_le_round_trip(v / 256, (n - 1) as nat);
        let b = le_bytes(v, n);
        assert(b.drop_first() =~= le_bytes(v / 256, (n - 1) as nat));
    }
}

/// Peeling the first byte off a window of `s`.
pub proof fn lemma_le_value_step(s: Seq<u8>, i: int, j: int)
    requires
        0 <= i < j <= s.len(),
    ensures
        le_value(s.subrange(i, j)) == s[i] as nat + 256 * le_value(s.subrange(i + 1, j)),
{
    assert(s.subrange(i, j).drop_first() =~= s.subrange(i + 1, j));
}

/// The number whose little-endian bytes are `b`.
pub fn decode_le(b: &[u8]) -> (r: u64)
    requires
        b@.len() <= 8,
    ensures
        r as nat == le_value(b@),
{
    let n = b.len();
    let mut acc: u64 = 0;
    let mut i: usize = n;
    proof {
        assert(b@.subrange(n as int, n as int) =~= Seq::<u8>::empty());
        reveal_with_fuel(pow256, 9);
    }
    while i > 0
        invariant
            n == b@.len(),
            n <= 8,
            i <= n,
            acc as nat == le_value(b@.subrange(i as int, n as int)),
            acc < pow256((n - i) as nat),
            pow256(7) == 72057594037927936,
        decreases i,
    {
        i = i - 1;
        proof {
            lemma_le_value_step(b@, i as int, n as int);
            lemma_pow256_mono((n - i - 1) as nat, 7);
        }
        acc = acc * 256 + b[i] as u64;
    }
    proof {
        assert(b@.subrange(0, n as int) =~= b@);
    }
    acc
}

/// The `n` low-order bytes of `v`, least significant first.
pub fn encode_le(v: u64, n: usize) -> (r: Vec<u8>)
    requires
        n <= 8,
    ensures
        r@ == le_bytes(v as nat, n as nat),
{
    let mut out: Vec<u8> = Vec::new();
    let mut cur: u64 = v;
    let mut i: usize = 0;
    proof {
        assert(out@ + le_bytes(cur as nat, n as nat) =~= le_bytes(v as nat, n as nat));
    }
    while i < n
        invariant
            i <= n <= 8,
            out@.len() == i,
            out@ + le_bytes(cur as nat, (n - i) as nat) == le_bytes(v as nat, n as nat),
        decreases n - i,
    {
        let ghost before = out@;
        let byte: u8 = (cur % 256) as u8;
        out.push(byte);
        proof {
            let rest = le_bytes((cur / 256) as nat, (n - i - 1) as nat);
            assert(le_bytes(cur as nat, (n - i) as nat) == seq![byte] + rest);
            assert(out@ + rest =~= before + (seq![byte] + rest));
        }
        cur = cur / 256;
        i = i + 1;
    }
    proof {
        assert(out@ + le_bytes(cur as nat, 0) =~= out@);
    }
    out
}

/// A range of guest memory: `len` bytes from `addr`.
#[derive(Clone, Copy, Debug, PartialEq, Eq, Structural)]
pub struct MemRegion {
    pub addr: u64,
    pub len: u32,
}

/// A flat guest memory of fixed size, addressed from 0.
pub struct GuestMemory {
    bytes: Vec<u8>,
}

impl View for GuestMemory {
    type V = Seq<u8>;

    closed spec fn view(&self) -> Seq<u8> {
        self.bytes@
    }
}

impl GuestMemory {
    /// A memory of `size` zero bytes.
    pub fn new(size: usize) -> (r: GuestMemory)
        ensures
            r@ == Seq::new(size as nat, |i: int| 0u8),
    {
        let mut bytes: Vec<u8> = Vec::new();
        let mut i: usize = 0;
        while i < size
            invariant
                i <= size,
                bytes@ == Seq::new(i as nat, |k: int| 0u8),
            decreases size - i,
        {
            bytes.push(0u8);
            i = i + 1;
            proof {
                assert(bytes@ =~= Seq::new(i as nat, |k: int| 0u8));
            }
        }
        GuestMemory { bytes }
    }

    /// A memory that holds exactly `bytes`.
    pub fn from_bytes(bytes: Vec<u8>) -> (r: GuestMemory)
        ensures
            r@ == bytes@,
    {
        GuestMemory { bytes }
    }

    /// The number of bytes in the memory.
    pub fn size(&self) -> (r: usize)
        ensures
            r == self@.len(),
    {
        self.bytes.len()
    }

    /// The bytes of `[addr, addr + len)`, which must lie inside the memory.
    pub fn slice_at(&self, addr: usize, len: usize) -> (r: Vec<u8>)
        requires
            in_bounds(addr as int, len as int, self@.len() as int),
        ensures
            r@ == self@.subrange(addr as int, addr + len),
    {
        let size = self.bytes.len();
        let mut out: Vec<u8> = Vec::new();
        let mut i: usize = 0;
        while i < len
            invariant
                i <= len,
                size == self.bytes@.len(),
                addr + len <= size,
                out@ == self.bytes@.subrange(addr as int, addr + i),
            decreases len - i,
        {
            out.push(self.bytes[addr + i]);
            i = i + 1;
            proof {
                assert(out@ =~= self.bytes@.subrange(addr as int, addr + i));
            }
        }
        out
    }

    /// Overwrites the bytes from `addr` on with `data`, which must fit.
    pub fn put_at(&mut self, addr: usize, data: &[u8])
        requires
            in_bounds(addr as int, data@.len() as int, old(self)@.len() as int),
        ensures
            final(self)@ == splice(old(self)@, addr as int, data@),
    {
        let n = data.len();
        let size = self.bytes.len();
        let mut i: usize = 0;
        while i < n
            invariant
                i <= n,
                n == data@.len(),
                size == self.bytes@.len(),
                addr + n <= size,
                self.bytes@.len() == old(self)@.len(),
                forall|k: int|
                    0 <= k < self.bytes@.len() ==> #[trigger] self.bytes@[k] == if addr <= k < addr
                        + i {
                        data@[k - addr]
                    } else {
                        old(self)@[k]
                    },
            decreases n - i,
        {
            self.bytes.set(addr + i, data[i]);
            i = i + 1;
        }
        proof {
            assert(self.bytes@ =~= splice(old(self)@, addr as int, data@));
        }
    }

    /// The bytes of `[addr, addr + len)`, or `None` where that range leaves the memory.
    pub fn read(&self, addr: u64, len: usize) -> (r: Option<Vec<u8>>)
        ensures
            r is Some <==> in_bounds(addr as int, len as int, self@.len() as int),
            r matches Some(v) ==> v@ == self@.subrange(addr as int, addr + len),
    {
        let size = self.bytes.len();
        if len <= size && addr <= (size - len) as u64 {
            Some(self.slice_at(addr as usize, len))
        } else {
            None
        }
    }

    /// Writes `data` from `addr` on and returns `true`, or returns `false` and
    /// changes nothing where the range leaves the memory.
    pub fn write(&mut self, addr: u64, data: &[u8]) -> (r: bool)
        ensures
            r <==> in_bounds(addr as int, data@.len() as int, old(self)@.len() as int),
            r ==> final(self)@ == splice(old(self)@, addr as int, data@),
            !r ==> final(self)@ == old(self)@,
    {
        let size = self.bytes.len();
        let n = data.len();
        if n <= size && addr <= (size - n) as u64 {
            self.put_at(addr as usize, data);
            true
        } else {
            false
        }
    }
}

} // verus!

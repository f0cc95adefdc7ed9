//! Properties that hold of every packet and every chain.
use vstd::prelude::*;
use crate::chain::{lemma_self_loop_never_ends, lemma_walk_head, DescriptorChain};
use crate::memory::{in_bounds, le_value, lemma_le_value_bound, pow256, splice, MemRegion};
use crate::packet::{
    build, device_writes, field, lemma_field_round_trip, Direction, PacketError, VsockPacket,
    FLAGS_OFFSET, HEADER_SIZE, LEN_OFFSET,
};

verus! {

/// A well-formed chain whose head descriptor is shorter than the header is
/// rejected as a bad header descriptor. Construction only reads memory, so
/// nothing is written either.
pub proof fn law_short_head_rejected(m: Seq<u8>, chain: DescriptorChain, dir: Direction, max_data_len: u32)
    requires
        chain.spec_descriptors() is Some,
        chain.table@[chain.head as int].len < HEADER_SIZE,
    ensures
        build(m, chain, dir, max_data_len) == Err::<(MemRegion, Option<MemRegion>), PacketError>(
            PacketError::HeaderDescriptorError,
        ),
{
    lemma_walk_head(chain.table@, chain.head as int, chain.table@.len());
}

/// A chain whose head links to itself is rejected as a chain error.
pub proof fn law_self_loop_rejected(m: Seq<u8>, chain: DescriptorChain, dir: Direction, max_data_len: u32)
    requires
        0 <= chain.head < chain.table@.len(),
        chain.table@[chain.head as int].has_next,
        chain.table@[chain.head as int].next == chain.head,
    ensures
        build(m, chain, dir, max_data_len) == Err::<(MemRegion, Option<MemRegion>), PacketError>(
            PacketError::ChainError,
        ),
{
    lemma_self_loop_never_ends(chain.table@, chain.head as int, chain.table@.len());
}

/// On success the header view is exactly the header's size and lies at the
/// start of the head descriptor, inside its declared range.
pub proof fn law_header_within_head(m: Seq<u8>, chain: DescriptorChain, dir: Direction, max_data_len: u32)
    requires
        build(m, chain, dir, max_data_len) is Ok,
    ensures
        ({
            let (h, _) = build(m, chain, dir, max_data_len)->Ok_0;
            let c = chain.spec_descriptors()->Some_0;
            &&& h.len == HEADER_SIZE
            &&& h.addr == c[0].addr
            &&& h.len <= c[0].len
            &&& in_bounds(h.addr as int, h.len as int, m.len() as int)
        }),
{
}

/// On success the data view is present exactly when the header's length `L`
/// is nonzero, and then holds `L` bytes: the second descriptor whole, or for a
/// single descriptor the `L` bytes after the header inside it.
pub proof fn law_data_region(m: Seq<u8>, chain: DescriptorChain, dir: Direction, max_data_len: u32)
    requires
        m.len() <= usize::MAX,
        build(m, chain, dir, max_data_len) is Ok,
    ensures
        ({
            let (_, data) = build(m, chain, dir, max_data_len)->Ok_0;
            let c = chain.spec_descriptors()->Some_0;
            let l = field(m, c[0].addr + LEN_OFFSET, 4);
            &&& (l == 0 <==> data is None)
            &&& l <= max_data_len
            &&& (data matches Some(d) ==> {
                &&& d.len == l
                &&& in_bounds(d.addr as int, d.len as int, m.len() as int)
                &&& (c.len() == 1 ==> d.addr == c[0].addr + HEADER_SIZE && HEADER_SIZE + l
                    <= c[0].len)
                &&& (c.len() >= 2 ==> d.addr == c[1].addr && d.len == c[1].len
                    && c[1].writable == device_writes(dir))
            })
        }),
{
    let c = chain.spec_descriptors()->Some_0;
    let at = c[0].addr + LEN_OFFSET;
    lemma_le_value_bound(m.subrange(at, at + 4));
    reveal_with_fuel(pow256, 5);
}

/// A well-formed chain with a valid head descriptor whose header claims more
/// than `max_data_len` bytes is rejected as too large.
pub proof fn law_payload_too_large(m: Seq<u8>, chain: DescriptorChain, dir: Direction, max_data_len: u32)
    requires
        chain.spec_descriptors() is Some,
        ({
            let head = chain.table@[chain.head as int];
            &&& head.len >= HEADER_SIZE
            &&& head.writable == device_writes(dir)
            &&& in_bounds(head.addr as int, HEADER_SIZE as int, m.len() as int)
            &&& field(m, head.addr + LEN_OFFSET, 4) > max_data_len
        }),
    ensures
        build(m, chain, dir, max_data_len) == Err::<(MemRegion, Option<MemRegion>), PacketError>(
            PacketError::PayloadTooLarge,
        ),
{
    lemma_walk_head(chain.table@, chain.head as int, chain.table@.len());
}

/// Setting a header field and reading it back gives the value set, for every
/// value the field can hold.
pub proof fn law_field_round_trip(p: VsockPacket, m: Seq<u8>, off: u64, n: nat, v: nat)
    requires
        p.fits(m.len() as int),
        off + n <= HEADER_SIZE,
        v < pow256(n),
    ensures
        p.field_at(p.with_field_at(m, off, n, v), off, n) == v,
        p.with_field_at(m, off, n, v).len() == m.len(),
{
    lemma_field_round_trip(m, p.header().addr + off, n, v);
}

/// After setting a flag, the flags field holds that flag's bits and every bit
/// that was set before.
pub proof fn law_set_flag_keeps_bits(p: VsockPacket, m: Seq<u8>, flag: u32)
    requires
        p.fits(m.len() as int),
    ensures
        ({
            let before = p.field_at(m, FLAGS_OFFSET, 4) as u32;
            let after = p.field_at(
                p.with_field_at(m, FLAGS_OFFSET, 4, (before | flag) as nat),
                FLAGS_OFFSET,
                4,
            ) as u32;
            &&& after & flag == flag
            &&& after & before == before
        }),
{
    let before = p.field_at(m, FLAGS_OFFSET, 4) as u32;
    let both = before | flag;
    reveal_with_fuel(pow256, 5);
    lemma_field_round_trip(m, p.header().addr + FLAGS_OFFSET, 4, both as nat);
    assert(both & flag == flag && both & before == before) by (bit_vector)
        requires
            both == before | flag,
    ;
}

/// After a raw header write, every header field reads the little-endian value
/// of the bytes supplied at its offset.
pub proof fn law_raw_header_fields(p: VsockPacket, m: Seq<u8>, bytes: Seq<u8>, off: u64, n: nat)
    requires
        p.fits(m.len() as int),
        bytes.len() == HEADER_SIZE,
        off + n <= HEADER_SIZE,
    ensures
        p.field_at(splice(m, p.header().addr as int, bytes), off, n) == le_value(
            bytes.subrange(off as int, off + n),
        ),
{
    let h = p.header().addr as int;
    assert(splice(m, h, bytes).subrange(h + off, h + off + n) =~= bytes.subrange(
        off as int,
        off + n,
    ));
}

} // verus!

//! The vsock packet: a header view and an optional data view over guest
//! memory, built and validated from a descriptor chain.
use vstd::prelude::*;
use crate::chain::{Descriptor, DescriptorChain};
use crate::memory::{
    decode_le, encode_le, in_bounds, le_bytes, le_value, lemma_le_round_trip,
    lemma_le_value_bound, pow256, splice, GuestMemory, MemRegion,
};

verus! {

/// Size of the packet header on the wire.
pub const HEADER_SIZE: u64 = 44;

pub const SRC_CID_OFFSET: u64 = 0;
pub const DST_CID_OFFSET: u64 = 8;
pub const SRC_PORT_OFFSET: u64 = 16;
pub const DST_PORT_OFFSET: u64 = 20;
pub const LEN_OFFSET: u64 = 24;
pub const TYPE_OFFSET: u64 = 28;
pub const OP_OFFSET: u64 = 30;
pub const FLAGS_OFFSET: u64 = 32;
pub const BUF_ALLOC_OFFSET: u64 = 36;
pub const FWD_CNT_OFFSET: u64 = 40;

#[derive(Clone, Copy, Debug, PartialEq, Eq, Structural)]
pub enum PacketError {
    /// The descriptor chain leaves the table or does not end.
    ChainError,
    /// The head descriptor is too small for the header or has the wrong direction.
    HeaderDescriptorError,
    /// The data descriptor is missing room, has the wrong size or the wrong direction.
    DataDescriptorError,
    /// The header's length field exceeds the caller's bound.
    PayloadTooLarge,
    /// A raw header does not have the header's size.
    RawHeaderLengthError,
}

/// Receive chains are filled by the device; transmit chains were filled by the guest.
#[derive(Clone, Copy, Debug, PartialEq, Eq, Structural)]
pub enum Direction {
    Receive,
    Transmit,
}

/// The device writes the buffers of a receive chain and reads those of a transmit chain.
pub open spec fn device_writes(dir: Direction) -> bool {
    dir == Direction::Receive
}

/// The little-endian field of `n` bytes at `at`.
pub open spec fn field(m: Seq<u8>, at: int, n: nat) -> nat {
    le_value(m.subrange(at, at + n))
}

/// `m` with the field of `n` bytes at `at` set to `v`.
pub open spec fn with_field(m: Seq<u8>, at: int, n: nat, v: nat) -> Seq<u8> {
    splice(m, at, le_bytes(v, n))
}

/// Header and data regions that a chain `c` yields over memory `m`, or the error.
pub open spec fn parse_chain(m: Seq<u8>, c: Seq<Descriptor>, dir: Direction, max_data_len: u32) -> Result<
    (MemRegion, Option<MemRegion>),
    PacketError,
> {
    if c.len() == 0 {
        Err(PacketError::HeaderDescriptorError)
    } else {
        let head = c[0];
        if head.len < HEADER_SIZE || head.writable != device_writes(dir) || !in_bounds(
            head.addr as int,
            HEADER_SIZE as int,
            m.len() as int,
        ) {
            Err(PacketError::HeaderDescriptorError)
        } else {
            let hdr = MemRegion { addr: head.addr, len: HEADER_SIZE as u32 };
            let l = field(m, head.addr + LEN_OFFSET, 4);
            if l == 0 {
                Ok((hdr, None))
            } else if l > max_data_len {
                Err(PacketError::PayloadTooLarge)
            } else if c.len() == 1 {
                if head.len < HEADER_SIZE + l || !in_bounds(
                    head.addr + HEADER_SIZE,
                    l as int,
                    m.len() as int,
                ) {
                    Err(PacketError::DataDescriptorError)
                } else {
                    Ok((hdr, Some(MemRegion { addr: (head.addr + HEADER_SIZE) as u64, len: l as u32 })))
                }
            } else {
                let d = c[1];
                if d.len != l || d.writable != device_writes(dir) || !in_bounds(
                    d.addr as int,
                    l as int,
                    m.len() as int,
                ) {
                    Err(PacketError::DataDescriptorError)
                } else {
                    Ok((hdr, Some(MemRegion { addr: d.addr, len: d.len })))
                }
            }
        }
    }
}

/// What building a packet from `chain` over memory `m` yields.
pub open spec fn build(m: Seq<u8>, chain: DescriptorChain, dir: Direction, max_data_len: u32) -> Result<
    (MemRegion, Option<MemRegion>),
    PacketError,
> {
    match chain.spec_descriptors() {
        None => Err(PacketError::ChainError),
        Some(c) => parse_chain(m, c, dir, max_data_len),
    }
}

/// The views of a built packet, or the error.
pub open spec fn regions_of(r: Result<VsockPacket, PacketError>) -> Result<(MemRegion, Option<MemRegion>), PacketError> {
    match r {
        Ok(p) => Ok((p.header(), p.data())),
        Err(e) => Err(e),
    }
}

/// Encoding a field and reading it back gives the value written.
pub proof fn lemma_field_round_trip(m: Seq<u8>, at: int, n: nat, v: nat)
    requires
        in_bounds(at, n as int, m.len() as int),
        v < pow256(n),
    ensures
        with_field(m, at, n, v).len() == m.len(),
        field(with_field(m, at, n, v), at, n) == v,
{
    lemma_le_round_trip(v, n);
    assert(with_field(m, at, n, v).subrange(at, at + n) =~= le_bytes(v, n));
}

/// A packet: views of guest memory for its header and, where the header's
/// length is nonzero, its data. The views never leave the memory they were
/// validated against.
#[derive(Clone, Copy, Debug)]
pub struct VsockPacket {
    header: MemRegion,
    data: Option<MemRegion>,
    direction: Direction,
}

impl VsockPacket {
    pub closed spec fn header(&self) -> MemRegion {
        self.header
    }

    pub closed spec fn data(&self) -> Option<MemRegion> {
        self.data
    }

    pub closed spec fn direction(&self) -> Direction {
        self.direction
    }

    /// Both views lie inside a memory of `size` bytes.
    pub open spec fn fits(&self, size: int) -> bool {
        &&& self.header().len == HEADER_SIZE
        &&& in_bounds(self.header().addr as int, HEADER_SIZE as int, size)
        &&& (self.data() matches Some(d) ==> in_bounds(d.addr as int, d.len as int, size))
    }

    /// The header field of `n` bytes at offset `off`, in memory `m`.
    pub open spec fn field_at(&self, m: Seq<u8>, off: u64, n: nat) -> nat {
        field(m, self.header().addr + off, n)
    }

    /// Memory `m` with the header field of `n` bytes at offset `off` set to `v`.
    pub open spec fn with_field_at(&self, m: Seq<u8>, off: u64, n: nat, v: nat) -> Seq<u8> {
        with_field(m, self.header().addr + off, n, v)
    }

    /// Builds a packet from `chain` over `mem`, for the given direction.
    pub fn from_chain(
        mem: &GuestMemory,
        chain: &DescriptorChain,
        direction: Direction,
        max_data_len: u32,
    ) -> (r: Result<VsockPacket, PacketError>)
        ensures
            regions_of(r) == build(mem@, *chain, direction, max_data_len),
            r matches Ok(p) ==> p.direction() == direction && p.fits(mem@.len() as int),
    {
        let descs = match chain.descriptors() {
            Some(d) => d,
            None => return Err(PacketError::ChainError),
        };
        if descs.len() == 0 {
            return Err(PacketError::HeaderDescriptorError);
        }
        let wants_writable = match direction {
            Direction::Receive => true,
            Direction::Transmit => false,
        };
        let head = descs[0];
        let size = mem.size();
        let hsize = HEADER_SIZE as usize;
        if (head.len as u64) < HEADER_SIZE || head.writable != wants_writable || size < hsize
            || head.addr > (size - hsize) as u64 {
            return Err(PacketError::HeaderDescriptorError);
        }
        let header = MemRegion { addr: head.addr, len: HEADER_SIZE as u32 };
        let len_bytes = mem.slice_at((head.addr + LEN_OFFSET) as usize, 4);
        let l = decode_le(len_bytes.as_slice());
        proof {
            lemma_le_value_bound(len_bytes@);
            reveal_with_fuel(pow256, 5);
        }
        let l = l as u32;
        if l == 0 {
            return Ok(VsockPacket { header, data: None, direction });
        }
        if l > max_data_len {
            return Err(PacketError::PayloadTooLarge);
        }
        if descs.len() == 1 {
            let start = head.addr + HEADER_SIZE;
            if (head.len as u64) < HEADER_SIZE + l as u64 || (l as usize) > size - (start as usize) {
                return Err(PacketError::DataDescriptorError);
            }
            Ok(VsockPacket { header, data: Some(MemRegion { addr: start, len: l }), direction })
        } else {
            let d = descs[1];
            if d.len != l || d.writable != wants_writable || (l as usize) > size || d.addr > (size
                - l as usize) as u64 {
                return Err(PacketError::DataDescriptorError);
            }
            Ok(VsockPacket { header, data: Some(MemRegion { addr: d.addr, len: l }), direction })
        }
    }

    /// Builds a packet from a receive chain: its buffers must be device-writable.
    pub fn from_rx_chain(mem: &GuestMemory, chain: &DescriptorChain, max_data_len: u32) -> (r: Result<
        VsockPacket,
        PacketError,
    >)
        ensures
            regions_of(r) == build(mem@, *chain, Direction::Receive, max_data_len),
            r matches Ok(p) ==> p.direction() == Direction::Receive && p.fits(mem@.len() as int),
    {
        Self::from_chain(mem, chain, Direction::Receive, max_data_len)
    }

    /// Builds a packet from a transmit chain: its buffers must be device-readable.
    pub fn from_tx_chain(mem: &GuestMemory, chain: &DescriptorChain, max_data_len: u32) -> (r: Result<
        VsockPacket,
        PacketError,
    >)
        ensures
            regions_of(r) == build(mem@, *chain, Direction::Transmit, max_data_len),
            r matches Ok(p) ==> p.direction() == Direction::Transmit && p.fits(mem@.len() as int),
    {
        Self::from_chain(mem, chain, Direction::Transmit, max_data_len)
    }

    /// The header field of `n` bytes at offset `off`.
    fn get_field(&self, mem: &GuestMemory, off: u64, n: usize) -> (r: u64)
        requires
            self.fits(mem@.len() as int),
            n <= 8,
            off + n <= HEADER_SIZE,
        ensures
            r as nat == self.field_at(mem@, off, n as nat),
            n == 2 ==> r < 0x1_0000,
            n == 4 ==> r < 0x1_0000_0000,
    {
        let size = mem.size();
        let at = self.header.addr as usize + off as usize;
        let bytes = mem.slice_at(at, n);
        proof {
            lemma_le_value_bound(bytes@);
            reveal_with_fuel(pow256, 5);
        }
        decode_le(bytes.as_slice())
    }

    /// Sets the header field of `n` bytes at offset `off` to `v`.
    fn set_field(&self, mem: &mut GuestMemory, off: u64, n: usize, v: u64)
        requires
            self.fits(old(mem)@.len() as int),
            n <= 8,
            off + n <= HEADER_SIZE,
            v < pow256(n as nat),
        ensures
            final(mem)@ == self.with_field_at(old(mem)@, off, n as nat, v as nat),
            final(mem)@.len() == old(mem)@.len(),
            self.field_at(final(mem)@, off, n as nat) == v as nat,
    {
        let size = mem.size();
        let at = self.header.addr as usize + off as usize;
        let bytes = encode_le(v, n);
        proof {
            lemma_field_round_trip(mem@, self.header.addr + off, n as nat, v as nat);
        }
        mem.put_at(at, bytes.as_slice());
    }

    /// The header view: always `HEADER_SIZE` bytes at the head descriptor's address.
    pub fn header_slice(&self) -> (r: MemRegion)
        ensures
            r == self.header(),
    {
        self.header
    }

    /// The data view, absent where the packet was built with a zero length.
    pub fn data_slice(&self) -> (r: Option<MemRegion>)
        ensures
            r == self.data(),
    {
        self.data
    }

    /// The payload length is zero.
    pub fn is_empty(&self, mem: &GuestMemory) -> (r: bool)
        requires
            self.fits(mem@.len() as int),
        ensures
            r == (self.field_at(mem@, LEN_OFFSET, 4) == 0),
    {
        self.get_field(mem, LEN_OFFSET, 4) == 0
    }

    /// The source context identifier.
    pub fn src_cid(&self, mem: &GuestMemory) -> (r: u64)
        requires
            self.fits(mem@.len() as int),
        ensures
            r as nat == self.field_at(mem@, SRC_CID_OFFSET, 8),
    {
        self.get_field(mem, SRC_CID_OFFSET, 8)
    }

    /// Sets the source context identifier to `cid`.
    pub fn set_src_cid(&self, mem: &mut GuestMemory, cid: u64)
        requires
            self.fits(old(mem)@.len() as int),
        ensures
            final(mem)@ == self.with_field_at(old(mem)@, SRC_CID_OFFSET, 8, cid as nat),
            final(mem)@.len() == old(mem)@.len(),
            self.field_at(final(mem)@, SRC_CID_OFFSET, 8) == cid as nat,
    {
        proof {
            reveal_with_fuel(pow256, 9);
        }
        self.set_field(mem, SRC_CID_OFFSET, 8, cid as u64);
    }

    /// The destination context identifier.
    pub fn dst_cid(&self, mem: &GuestMemory) -> (r: u64)
        requires
            self.fits(mem@.len() as int),
        ensures
            r as nat == self.field_at(mem@, DST_CID_OFFSET, 8),
    {
        self.get_field(mem, DST_CID_OFFSET, 8)
    }

    /// Sets the destination context identifier to `cid`.
    pub fn set_dst_cid(&self, mem: &mut GuestMemory, cid: u64)
        requires
            self.fits(old(mem)@.len() as int),
        ensures
            final(mem)@ == self.with_field_at(old(mem)@, DST_CID_OFFSET, 8, cid as nat),
            final(mem)@.len() == old(mem)@.len(),
            self.field_at(final(mem)@, DST_CID_OFFSET, 8) == cid as nat,
    {
        proof {
            reveal_with_fuel(pow256, 9);
        }
        self.set_field(mem, DST_CID_OFFSET, 8, cid as u64);
    }

    /// The source port.
    pub fn src_port(&self, mem: &GuestMemory) -> (r: u32)
        requires
            self.fits(mem@.len() as int),
        ensures
            r as nat == self.field_at(mem@, SRC_PORT_OFFSET, 4),
    {
        self.get_field(mem, SRC_PORT_OFFSET, 4) as u32
    }

    /// Sets the source port to `port`.
    pub fn set_src_port(&self, mem: &mut GuestMemory, port: u32)
        requires
            self.fits(old(mem)@.len() as int),
        ensures
            final(mem)@ == self.with_field_at(old(mem)@, SRC_PORT_OFFSET, 4, port as nat),
            final(mem)@.len() == old(mem)@.len(),
            self.field_at(final(mem)@, SRC_PORT_OFFSET, 4) == port as nat,
    {
        proof {
            reveal_with_fuel(pow256, 5);
        }
        self.set_field(mem, SRC_PORT_OFFSET, 4, port as u64);
    }

    /// The destination port.
    pub fn dst_port(&self, mem: &GuestMemory) -> (r: u32)
        requires
            self.fits(mem@.len() as int),
        ensures
            r as nat == self.field_at(mem@, DST_PORT_OFFSET, 4),
    {
        self.get_field(mem, DST_PORT_OFFSET, 4) as u32
    }

    /// Sets the destination port to `port`.
    pub fn set_dst_port(&self, mem: &mut GuestMemory, port: u32)
        requires
            self.fits(old(mem)@.len() as int),
        ensures
            final(mem)@ == self.with_field_at(old(mem)@, DST_PORT_OFFSET, 4, port as nat),
            final(mem)@.len() == old(mem)@.len(),
            self.field_at(final(mem)@, DST_PORT_OFFSET, 4) == port as nat,
    {
        proof {
            reveal_with_fuel(pow256, 5);
        }
        self.set_field(mem, DST_PORT_OFFSET, 4, port as u64);
    }

    /// The payload length field.
    pub fn len(&self, mem: &GuestMemory) -> (r: u32)
        requires
            self.fits(mem@.len() as int),
        ensures
            r as nat == self.field_at(mem@, LEN_OFFSET, 4),
    {
        self.get_field(mem, LEN_OFFSET, 4) as u32
    }

    /// Sets the payload length field to `len`.
    pub fn set_len(&self, mem: &mut GuestMemory, len: u32)
        requires
            self.fits(old(mem)@.len() as int),
        ensures
            final(mem)@ == self.with_field_at(old(mem)@, LEN_OFFSET, 4, len as nat),
            final(mem)@.len() == old(mem)@.len(),
            self.field_at(final(mem)@, LEN_OFFSET, 4) == len as nat,
    {
        proof {
            reveal_with_fuel(pow256, 5);
        }
        self.set_field(mem, LEN_OFFSET, 4, len as u64);
    }

    /// The packet type.
    pub fn type_(&self, mem: &GuestMemory) -> (r: u16)
        requires
            self.fits(mem@.len() as int),
        ensures
            r as nat == self.field_at(mem@, TYPE_OFFSET, 2),
    {
        self.get_field(mem, TYPE_OFFSET, 2) as u16
    }

    /// Sets the packet type to `type_`.
    pub fn set_type(&self, mem: &mut GuestMemory, type_: u16)
        requires
            self.fits(old(mem)@.len() as int),
        ensures
            final(mem)@ == self.with_field_at(old(mem)@, TYPE_OFFSET, 2, type_ as nat),
            final(mem)@.len() == old(mem)@.len(),
            self.field_at(final(mem)@, TYPE_OFFSET, 2) == type_ as nat,
    {
        proof {
            reveal_with_fuel(pow256, 3);
        }
        self.set_field(mem, TYPE_OFFSET, 2, type_ as u64);
    }

    /// The operation code.
    pub fn op(&self, mem: &GuestMemory) -> (r: u16)
        requires
            self.fits(mem@.len() as int),
        ensures
            r as nat == self.field_at(mem@, OP_OFFSET, 2),
    {
        self.get_field(mem, OP_OFFSET, 2) as u16
    }

    /// Sets the operation code to `op`.
    pub fn set_op(&self, mem: &mut GuestMemory, op: u16)
        requires
            self.fits(old(mem)@.len() as int),
        ensures
            final(mem)@ == self.with_field_at(old(mem)@, OP_OFFSET, 2, op as nat),
            final(mem)@.len() == old(mem)@.len(),
            self.field_at(final(mem)@, OP_OFFSET, 2) == op as nat,
    {
        proof {
            reveal_with_fuel(pow256, 3);
        }
        self.set_field(mem, OP_OFFSET, 2, op as u64);
    }

    /// The flags field.
    pub fn flags(&self, mem: &GuestMemory) -> (r: u32)
        requires
            self.fits(mem@.len() as int),
        ensures
            r as nat == self.field_at(mem@, FLAGS_OFFSET, 4),
    {
        self.get_field(mem, FLAGS_OFFSET, 4) as u32
    }

    /// Sets the flags field to `flags`.
    pub fn set_flags(&self, mem: &mut GuestMemory, flags: u32)
        requires
            self.fits(old(mem)@.len() as int),
        ensures
            final(mem)@ == self.with_field_at(old(mem)@, FLAGS_OFFSET, 4, flags as nat),
            final(mem)@.len() == old(mem)@.len(),
            self.field_at(final(mem)@, FLAGS_OFFSET, 4) == flags as nat,
    {
        proof {
            reveal_with_fuel(pow256, 5);
        }
        self.set_field(mem, FLAGS_OFFSET, 4, flags as u64);
    }

    /// The buffer allocation size.
    pub fn buf_alloc(&self, mem: &GuestMemory) -> (r: u32)
        requires
            self.fits(mem@.len() as int),
        ensures
            r as nat == self.field_at(mem@, BUF_ALLOC_OFFSET, 4),
    {
        self.get_field(mem, BUF_ALLOC_OFFSET, 4) as u32
    }

    /// Sets the buffer allocation size to `buf_alloc`.
    pub fn set_buf_alloc(&self, mem: &mut GuestMemory, buf_alloc: u32)
        requires
            self.fits(old(mem)@.len() as int),
        ensures
            final(mem)@ == self.with_field_at(old(mem)@, BUF_ALLOC_OFFSET, 4, buf_alloc as nat),
            final(mem)@.len() == old(mem)@.len(),
            self.field_at(final(mem)@, BUF_ALLOC_OFFSET, 4) == buf_alloc as nat,
    {
        proof {
            reveal_with_fuel(pow256, 5);
        }
        self.set_field(mem, BUF_ALLOC_OFFSET, 4, buf_alloc as u64);
    }

    /// The forwarded byte count.
    pub fn fwd_cnt(&self, mem: &GuestMemory) -> (r: u32)
        requires
            self.fits(mem@.len() as int),
        ensures
            r as nat == self.field_at(mem@, FWD_CNT_OFFSET, 4),
    {
        self.get_field(mem, FWD_CNT_OFFSET, 4) as u32
    }

    /// Sets the forwarded byte count to `fwd_cnt`.
    pub fn set_fwd_cnt(&self, mem: &mut GuestMemory, fwd_cnt: u32)
        requires
            self.fits(old(mem)@.len() as int),
        ensures
            final(mem)@ == self.with_field_at(old(mem)@, FWD_CNT_OFFSET, 4, fwd_cnt as nat),
            final(mem)@.len() == old(mem)@.len(),
            self.field_at(final(mem)@, FWD_CNT_OFFSET, 4) == fwd_cnt as nat,
    {
        proof {
            reveal_with_fuel(pow256, 5);
        }
        self.set_field(mem, FWD_CNT_OFFSET, 4, fwd_cnt as u64);
    }

    /// Sets the bits of `flag` in the flags field, keeping the others.
    pub fn set_flag(&self, mem: &mut GuestMemory, flag: u32)
        requires
            self.fits(old(mem)@.len() as int),
        ensures
            final(mem)@ == self.with_field_at(
                old(mem)@,
                FLAGS_OFFSET,
                4,
                (self.field_at(old(mem)@, FLAGS_OFFSET, 4) as u32 | flag) as nat,
            ),
            final(mem)@.len() == old(mem)@.len(),
            self.field_at(final(mem)@, FLAGS_OFFSET, 4) == (self.field_at(old(mem)@, FLAGS_OFFSET, 4) as u32
                | flag) as nat,
    {
        let old_flags = self.flags(mem);
        self.set_flags(mem, old_flags | flag);
    }

    /// Overwrites the whole header with `bytes`, which must have the header's size.
    pub fn set_header_from_raw(&self, mem: &mut GuestMemory, bytes: &[u8]) -> (r: Result<(), PacketError>)
        requires
            self.fits(old(mem)@.len() as int),
        ensures
            r is Err <==> bytes@.len() != HEADER_SIZE,
            r matches Err(e) ==> e == PacketError::RawHeaderLengthError && final(mem)@ == old(mem)@,
            r is Ok ==> final(mem)@ == splice(old(mem)@, self.header().addr as int, bytes@),
            final(mem)@.len() == old(mem)@.len(),
    {
        if bytes.len() as u64 != HEADER_SIZE {
            return Err(PacketError::RawHeaderLengthError);
        }
        let size = mem.size();
        mem.put_at(self.header.addr as usize, bytes);
        Ok(())
    }
}

} // verus!

//! Operations on a packet as values, and a run that builds a packet from a
//! descriptor table and applies a sequence of operations to it.
use vstd::prelude::*;
use crate::chain::{Descriptor, DescriptorChain};
use crate::memory::{splice, GuestMemory};
use crate::packet::{
    build, regions_of, Direction, PacketError, VsockPacket, BUF_ALLOC_OFFSET, DST_CID_OFFSET,
    DST_PORT_OFFSET, FLAGS_OFFSET, FWD_CNT_OFFSET, HEADER_SIZE, LEN_OFFSET, OP_OFFSET,
    SRC_CID_OFFSET, SRC_PORT_OFFSET, TYPE_OFFSET,
};

verus! {

/// Every accessor and mutator of a packet.
#[derive(Debug)]
pub enum VsockFunctionType<'a> {
    HeaderSlice,
    Len,
    DataSlice,
    SrcCid,
    SetSrcCid { cid: u64 },
    DstCid,
    SetDstCid { cid: u64 },
    SrcPort,
    SetSrcPort { port: u32 },
    DstPort,
    SetDstPort { port: u32 },
    IsEmpty,
    SetLen { len: u32 },
    Type_,
    SetType { type_: u16 },
    Op,
    SetOp { op: u16 },
    Flags,
    SetFlags { flags: u32 },
    SetFlag { flag: u32 },
    BufAlloc,
    SetBufAlloc { buf_alloc: u32 },
    FwdCnt,
    SetFwdCnt { fwd_cnt: u32 },
    SetHeaderFromRaw { bytes: &'a [u8] },
}

impl<'a> VsockFunctionType<'a> {
    /// The memory after this operation on packet `p` over memory `m`; accessors
    /// leave it as it was.
    pub open spec fn effect(&self, p: VsockPacket, m: Seq<u8>) -> Seq<u8> {
        match *self {
            VsockFunctionType::SetSrcCid { cid } => p.with_field_at(m, SRC_CID_OFFSET, 8, cid as nat),
            VsockFunctionType::SetDstCid { cid } => p.with_field_at(m, DST_CID_OFFSET, 8, cid as nat),
            VsockFunctionType::SetSrcPort { port } => p.with_field_at(m, SRC_PORT_OFFSET, 4, port as nat),
            VsockFunctionType::SetDstPort { port } => p.with_field_at(m, DST_PORT_OFFSET, 4, port as nat),
            VsockFunctionType::SetLen { len } => p.with_field_at(m, LEN_OFFSET, 4, len as nat),
            VsockFunctionType::SetType { type_ } => p.with_field_at(m, TYPE_OFFSET, 2, type_ as nat),
            VsockFunctionType::SetOp { op } => p.with_field_at(m, OP_OFFSET, 2, op as nat),
            VsockFunctionType::SetFlags { flags } => p.with_field_at(m, FLAGS_OFFSET, 4, flags as nat),
            VsockFunctionType::SetFlag { flag } => p.with_field_at(
                m,
                FLAGS_OFFSET,
                4,
                (p.field_at(m, FLAGS_OFFSET, 4) as u32 | flag) as nat,
            ),
            VsockFunctionType::SetBufAlloc { buf_alloc } => p.with_field_at(
                m,
                BUF_ALLOC_OFFSET,
                4,
                buf_alloc as nat,
            ),
            VsockFunctionType::SetFwdCnt { fwd_cnt } => p.with_field_at(m, FWD_CNT_OFFSET, 4, fwd_cnt as nat),
            VsockFunctionType::SetHeaderFromRaw { bytes } => if bytes@.len() == HEADER_SIZE {
                splice(m, p.header().addr as int, bytes@)
            } else {
                m
            },
            _ => m,
        }
    }

    /// Performs this operation on `packet` over `mem`.
    pub fn call(&self, packet: &VsockPacket, mem: &mut GuestMemory)
        requires
            packet.fits(old(mem)@.len() as int),
        ensures
            final(mem)@ == self.effect(*packet, old(mem)@),
            final(mem)@.len() == old(mem)@.len(),
    {
        match self {
            VsockFunctionType::HeaderSlice => {
                packet.header_slice();
            },
            VsockFunctionType::Len => {
                packet.len(mem);
            },
            VsockFunctionType::DataSlice => {
                packet.data_slice();
            },
            VsockFunctionType::SrcCid => {
                packet.src_cid(mem);
            },
            VsockFunctionType::SetSrcCid { cid } => {
                packet.set_src_cid(mem, *cid);
            },
            VsockFunctionType::DstCid => {
                packet.dst_cid(mem);
            },
            VsockFunctionType::SetDstCid { cid } => {
                packet.set_dst_cid(mem, *cid);
            },
            VsockFunctionType::SrcPort => {
                packet.src_port(mem);
            },
            VsockFunctionType::SetSrcPort { port } => {
                packet.set_src_port(mem, *port);
            },
            VsockFunctionType::DstPort => {
                packet.dst_port(mem);
            },
            VsockFunctionType::SetDstPort { port } => {
                packet.set_dst_port(mem, *port);
            },
            VsockFunctionType::IsEmpty => {
                packet.is_empty(mem);
            },
            VsockFunctionType::SetLen { len } => {
                packet.set_len(mem, *len);
            },
            VsockFunctionType::Type_ => {
                packet.type_(mem);
            },
            VsockFunctionType::SetType { type_ } => {
                packet.set_type(mem, *type_);
            },
            VsockFunctionType::Op => {
                packet.op(mem);
            },
            VsockFunctionType::SetOp { op } => {
                packet.set_op(mem, *op);
            },
            VsockFunctionType::Flags => {
                packet.flags(mem);
            },
            VsockFunctionType::SetFlags { flags } => {
                packet.set_flags(mem, *flags);
            },
            VsockFunctionType::SetFlag { flag } => {
                packet.set_flag(mem, *flag);
            },
            VsockFunctionType::BufAlloc => {
                packet.buf_alloc(mem);
            },
            VsockFunctionType::SetBufAlloc { buf_alloc } => {
                packet.set_buf_alloc(mem, *buf_alloc);
            },
            VsockFunctionType::FwdCnt => {
                packet.fwd_cnt(mem);
            },
            VsockFunctionType::SetFwdCnt { fwd_cnt } => {
                packet.set_fwd_cnt(mem, *fwd_cnt);
            },
            VsockFunctionType::SetHeaderFromRaw { bytes } => {
                let _ = packet.set_header_from_raw(mem, *bytes);
            },
        }
    }
}

/// Which constructor builds the packet.
#[derive(Debug, Copy, Clone, PartialEq, Eq, Structural)]
pub enum InitFunction {
    FromRX,
    FromTX,
}

impl InitFunction {
    pub open spec fn spec_direction(&self) -> Direction {
        match *self {
            InitFunction::FromRX => Direction::Receive,
            InitFunction::FromTX => Direction::Transmit,
        }
    }
}

/// The memory after applying `fs` in order to packet `p` over memory `m`.
pub open spec fn apply_all<'a>(fs: Seq<VsockFunctionType<'a>>, p: VsockPacket, m: Seq<u8>) -> Seq<u8>
    decreases fs.len(),
{
    if fs.len() == 0 {
        m
    } else {
        fs.last().effect(p, apply_all(fs.drop_last(), p, m))
    }
}

/// A descriptor table whose chain starts at index 0, a payload bound, the
/// constructor to use, and the operations to apply to the packet.
#[derive(Debug)]
pub struct VsockInput<'a> {
    pub pkt_max_data: u32,
    pub init_function: InitFunction,
    pub descriptors: Vec<Descriptor>,
    pub functions: Vec<VsockFunctionType<'a>>,
}

impl<'a> VsockInput<'a> {
    /// Builds the packet and, where that succeeds, applies every operation in order.
    pub fn run(self, mem: &mut GuestMemory) -> (r: Result<VsockPacket, PacketError>)
        ensures
            regions_of(r) == build(
                old(mem)@,
                (DescriptorChain { table: self.descriptors, head: 0 }),
                self.init_function.spec_direction(),
                self.pkt_max_data,
            ),
            r matches Ok(p) ==> final(mem)@ == apply_all(self.functions@, p, old(mem)@),
            r is Err ==> final(mem)@ == old(mem)@,
    {
        let VsockInput { pkt_max_data, init_function, descriptors, functions } = self;
        let chain = DescriptorChain::new(descriptors, 0);
        let built = match init_function {
            InitFunction::FromRX => VsockPacket::from_rx_chain(mem, &chain, pkt_max_data),
            InitFunction::FromTX => VsockPacket::from_tx_chain(mem, &chain, pkt_max_data),
        };
        let packet = match built {
            Ok(p) => p,
            Err(e) => return Err(e),
        };
        let ghost m0 = mem@;
        let mut i: usize = 0;
        proof {
            assert(functions@.subrange(0, 0) =~= Seq::<VsockFunctionType<'a>>::empty());
        }
        while i < functions.len()
            invariant
                i <= functions@.len(),
                mem@.len() == m0.len(),
                packet.fits(m0.len() as int),
                mem@ == apply_all(functions@.subrange(0, i as int), packet, m0),
            decreases functions@.len() - i,
        {
            functions[i].call(&packet, mem);
            proof {
                assert(functions@.subrange(0, i + 1).drop_last() =~= functions@.subrange(0, i as int));
            }
            i = i + 1;
        }
        proof {
            assert(functions@.subrange(0, functions@.len() as int) =~= functions@);
        }
        Ok(packet)
    }
}

} // verus!

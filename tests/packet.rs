use vsock_packet::chain::{Descriptor, DescriptorChain};
use vsock_packet::memory::{decode_le, encode_le, GuestMemory, MemRegion};
use vsock_packet::ops::{InitFunction, VsockFunctionType, VsockInput};
use vsock_packet::packet::{Direction, PacketError, VsockPacket};

const MEM_SIZE: usize = 0x10000;

fn desc(addr: u64, len: u32, writable: bool, next: Option<u16>) -> Descriptor {
    Descriptor { addr, len, writable, has_next: next.is_some(), next: next.unwrap_or(0) }
}

fn chain(table: Vec<Descriptor>) -> DescriptorChain {
    DescriptorChain::new(table, 0)
}

fn write_len(mem: &mut GuestMemory, header_addr: u64, len: u32) {
    assert!(mem.write(header_addr + 24, &len.to_le_bytes()));
}

#[test]
fn rx_two_descriptors_data_round_trip() {
    let mut mem = GuestMemory::new(MEM_SIZE);
    write_len(&mut mem, 0x100, 10);
    let c = chain(vec![desc(0x100, 44, true, Some(1)), desc(0x400, 10, true, None)]);
    let p = VsockPacket::from_rx_chain(&mem, &c, 64).unwrap();
    p.set_len(&mut mem, 10);
    assert_eq!(p.len(&mem), 10);
    let data = p.data_slice().unwrap();
    assert_eq!(data, MemRegion { addr: 0x400, len: 10 });
    let bytes: Vec<u8> = (1u8..=10).collect();
    assert!(mem.write(data.addr, &bytes));
    assert_eq!(mem.read(data.addr, data.len as usize).unwrap(), bytes);
}

#[test]
fn rx_zero_length_has_no_data_slice_and_len_stays_decoupled() {
    let mut mem = GuestMemory::new(MEM_SIZE);
    let c = chain(vec![desc(0x100, 44, true, Some(1)), desc(0x400, 10, true, None)]);
    let p = VsockPacket::from_rx_chain(&mem, &c, 64).unwrap();
    assert!(p.is_empty(&mem));
    assert_eq!(p.data_slice(), None);
    p.set_len(&mut mem, 10);
    assert_eq!(p.len(&mem), 10);
    assert!(!p.is_empty(&mem));
    assert_eq!(p.data_slice(), None);
}

#[test]
fn tx_single_descriptor_data_after_header() {
    let mut mem = GuestMemory::new(MEM_SIZE);
    write_len(&mut mem, 0x200, 6);
    let c = chain(vec![desc(0x200, 50, false, None)]);
    let p = VsockPacket::from_tx_chain(&mem, &c, 64).unwrap();
    assert_eq!(p.header_slice(), MemRegion { addr: 0x200, len: 44 });
    assert_eq!(p.data_slice(), Some(MemRegion { addr: 0x200 + 44, len: 6 }));
    assert_eq!(p.len(&mem), 6);
}

#[test]
fn self_referencing_chain_is_chain_error() {
    let mem = GuestMemory::new(MEM_SIZE);
    let c = chain(vec![desc(0x100, 44, true, Some(0))]);
    assert_eq!(VsockPacket::from_rx_chain(&mem, &c, 64).err(), Some(PacketError::ChainError));
    let c = chain(vec![desc(0x100, 44, false, Some(1)), desc(0x400, 8, false, Some(1))]);
    assert_eq!(VsockPacket::from_tx_chain(&mem, &c, 64).err(), Some(PacketError::ChainError));
}

#[test]
fn chain_errors_for_bad_indexes() {
    let mem = GuestMemory::new(MEM_SIZE);
    let empty = chain(vec![]);
    assert_eq!(VsockPacket::from_rx_chain(&mem, &empty, 64).err(), Some(PacketError::ChainError));
    let out = chain(vec![desc(0x100, 44, true, Some(5))]);
    assert_eq!(VsockPacket::from_rx_chain(&mem, &out, 64).err(), Some(PacketError::ChainError));
    let head_out = DescriptorChain::new(vec![desc(0x100, 44, true, None)], 3);
    assert_eq!(head_out.descriptors(), None);
}

#[test]
fn chain_descriptors_in_order() {
    let table = vec![desc(0x100, 44, true, Some(2)), desc(0x300, 1, true, None), desc(0x200, 4, true, Some(1))];
    let c = chain(table.clone());
    assert_eq!(c.descriptors(), Some(vec![table[0], table[2], table[1]]));
}

#[test]
fn short_head_descriptor_rejected() {
    let mem = GuestMemory::new(MEM_SIZE);
    let c = chain(vec![desc(0x100, 43, true, None)]);
    assert_eq!(VsockPacket::from_rx_chain(&mem, &c, 64).err(), Some(PacketError::HeaderDescriptorError));
    let c = chain(vec![desc(0x100, 0, false, None)]);
    assert_eq!(VsockPacket::from_tx_chain(&mem, &c, 64).err(), Some(PacketError::HeaderDescriptorError));
}

#[test]
fn wrong_head_direction_rejected() {
    let mem = GuestMemory::new(MEM_SIZE);
    let c = chain(vec![desc(0x100, 44, false, None)]);
    assert_eq!(VsockPacket::from_rx_chain(&mem, &c, 64).err(), Some(PacketError::HeaderDescriptorError));
    let c = chain(vec![desc(0x100, 44, true, None)]);
    assert_eq!(VsockPacket::from_tx_chain(&mem, &c, 64).err(), Some(PacketError::HeaderDescriptorError));
}

#[test]
fn head_outside_memory_rejected() {
    let mem = GuestMemory::new(MEM_SIZE);
    let c = chain(vec![desc((MEM_SIZE - 43) as u64, 44, true, None)]);
    assert_eq!(VsockPacket::from_rx_chain(&mem, &c, 64).err(), Some(PacketError::HeaderDescriptorError));
    let c = chain(vec![desc(u64::MAX - 10, 44, true, None)]);
    assert_eq!(VsockPacket::from_rx_chain(&mem, &c, 64).err(), Some(PacketError::HeaderDescriptorError));
    let c = chain(vec![desc((MEM_SIZE - 44) as u64, 44, true, None)]);
    assert!(VsockPacket::from_rx_chain(&mem, &c, 64).is_ok());
}

#[test]
fn payload_too_large() {
    let mut mem = GuestMemory::new(MEM_SIZE);
    write_len(&mut mem, 0x100, 65);
    let c = chain(vec![desc(0x100, 44, true, Some(1)), desc(0x400, 65, true, None)]);
    assert_eq!(VsockPacket::from_rx_chain(&mem, &c, 64).err(), Some(PacketError::PayloadTooLarge));
    let p = VsockPacket::from_rx_chain(&mem, &c, 65).unwrap();
    assert_eq!(p.data_slice(), Some(MemRegion { addr: 0x400, len: 65 }));
    write_len(&mut mem, 0x100, u32::MAX);
    assert_eq!(VsockPacket::from_rx_chain(&mem, &c, u32::MAX - 1).err(), Some(PacketError::PayloadTooLarge));
}

#[test]
fn data_descriptor_errors() {
    let mut mem = GuestMemory::new(MEM_SIZE);
    write_len(&mut mem, 0x100, 10);
    let wrong_size = chain(vec![desc(0x100, 44, true, Some(1)), desc(0x400, 11, true, None)]);
    assert_eq!(VsockPacket::from_rx_chain(&mem, &wrong_size, 64).err(), Some(PacketError::DataDescriptorError));
    let wrong_dir = chain(vec![desc(0x100, 44, true, Some(1)), desc(0x400, 10, false, None)]);
    assert_eq!(VsockPacket::from_rx_chain(&mem, &wrong_dir, 64).err(), Some(PacketError::DataDescriptorError));
    let outside = chain(vec![desc(0x100, 44, true, Some(1)), desc((MEM_SIZE - 9) as u64, 10, true, None)]);
    assert_eq!(VsockPacket::from_rx_chain(&mem, &outside, 64).err(), Some(PacketError::DataDescriptorError));
    let short_single = chain(vec![desc(0x100, 53, true, None)]);
    assert_eq!(VsockPacket::from_rx_chain(&mem, &short_single, 64).err(), Some(PacketError::DataDescriptorError));
    let exact_single = chain(vec![desc(0x100, 54, true, None)]);
    let p = VsockPacket::from_rx_chain(&mem, &exact_single, 64).unwrap();
    assert_eq!(p.data_slice(), Some(MemRegion { addr: 0x100 + 44, len: 10 }));
}

#[test]
fn single_descriptor_data_past_memory_end() {
    let mut mem = GuestMemory::new(MEM_SIZE);
    let head = (MEM_SIZE - 50) as u64;
    write_len(&mut mem, head, 7);
    let c = chain(vec![desc(head, 100, false, None)]);
    assert_eq!(VsockPacket::from_tx_chain(&mem, &c, 64).err(), Some(PacketError::DataDescriptorError));
    write_len(&mut mem, head, 6);
    assert_eq!(VsockPacket::from_tx_chain(&mem, &c, 64).unwrap().data_slice(), Some(MemRegion { addr: head + 44, len: 6 }));
}

#[test]
fn extra_descriptors_are_ignored() {
    let mut mem = GuestMemory::new(MEM_SIZE);
    write_len(&mut mem, 0x100, 4);
    let c = chain(vec![desc(0x100, 44, false, Some(1)), desc(0x400, 4, false, Some(2)), desc(0x800, 1, true, None)]);
    let p = VsockPacket::from_tx_chain(&mem, &c, 64).unwrap();
    assert_eq!(p.data_slice(), Some(MemRegion { addr: 0x400, len: 4 }));
}

fn rx_packet(mem: &GuestMemory) -> VsockPacket {
    let c = chain(vec![desc(0x100, 44, true, None)]);
    VsockPacket::from_rx_chain(mem, &c, 0).unwrap()
}

#[test]
fn field_round_trips_at_bounds() {
    let mut mem = GuestMemory::new(MEM_SIZE);
    let p = rx_packet(&mem);
    for v in [0u64, 1, 0x0102_0304_0506_0708, u64::MAX] {
        p.set_src_cid(&mut mem, v);
        assert_eq!(p.src_cid(&mem), v);
        p.set_dst_cid(&mut mem, v);
        assert_eq!(p.dst_cid(&mem), v);
    }
    for v in [0u32, 1, 0x0102_0304, u32::MAX] {
        p.set_src_port(&mut mem, v);
        assert_eq!(p.src_port(&mem), v);
        p.set_dst_port(&mut mem, v);
        assert_eq!(p.dst_port(&mem), v);
        p.set_len(&mut mem, v);
        assert_eq!(p.len(&mem), v);
        p.set_flags(&mut mem, v);
        assert_eq!(p.flags(&mem), v);
        p.set_buf_alloc(&mut mem, v);
        assert_eq!(p.buf_alloc(&mem), v);
        p.set_fwd_cnt(&mut mem, v);
        assert_eq!(p.fwd_cnt(&mem), v);
    }
    for v in [0u16, 1, 0x0102, u16::MAX] {
        p.set_type(&mut mem, v);
        assert_eq!(p.type_(&mem), v);
        p.set_op(&mut mem, v);
        assert_eq!(p.op(&mem), v);
    }
}

#[test]
fn setters_write_little_endian_at_wire_offsets() {
    let mut mem = GuestMemory::new(MEM_SIZE);
    let p = rx_packet(&mem);
    p.set_src_cid(&mut mem, 0x0807_0605_0403_0201);
    p.set_dst_cid(&mut mem, 0x1817_1615_1413_1211);
    p.set_src_port(&mut mem, 0x2423_2221);
    p.set_dst_port(&mut mem, 0x3433_3231);
    p.set_len(&mut mem, 0x4443_4241);
    p.set_type(&mut mem, 0x5251);
    p.set_op(&mut mem, 0x6261);
    p.set_flags(&mut mem, 0x7473_7271);
    p.set_buf_alloc(&mut mem, 0x8483_8281);
    p.set_fwd_cnt(&mut mem, 0x9493_9291);
    let expected: Vec<u8> = vec![
        1, 2, 3, 4, 5, 6, 7, 8, 0x11, 0x12, 0x13, 0x14, 0x15, 0x16, 0x17, 0x18, 0x21, 0x22,
        0x23, 0x24, 0x31, 0x32, 0x33, 0x34, 0x41, 0x42, 0x43, 0x44, 0x51, 0x52, 0x61, 0x62,
        0x71, 0x72, 0x73, 0x74, 0x81, 0x82, 0x83, 0x84, 0x91, 0x92, 0x93, 0x94,
    ];
    assert_eq!(mem.read(0x100, 44).unwrap(), expected);
    assert_eq!(mem.read(0xff, 1).unwrap(), vec![0]);
    assert_eq!(mem.read(0x100 + 44, 1).unwrap(), vec![0]);
}

#[test]
fn set_flag_keeps_previous_bits() {
    let mut mem = GuestMemory::new(MEM_SIZE);
    let p = rx_packet(&mem);
    p.set_flags(&mut mem, 0b1010);
    p.set_flag(&mut mem, 0b0001);
    assert_eq!(p.flags(&mem) & 0b0001, 0b0001);
    assert_eq!(p.flags(&mem), 0b1011);
    p.set_flag(&mut mem, 1 << 31);
    assert_eq!(p.flags(&mem), 0x8000_000b);
    p.set_flag(&mut mem, 0b0010);
    assert_eq!(p.flags(&mem), 0x8000_000b);
}

#[test]
fn raw_header_wrong_length_rejected() {
    let mut mem = GuestMemory::new(MEM_SIZE);
    let p = rx_packet(&mem);
    p.set_src_port(&mut mem, 7);
    for n in [0usize, 43, 45, 100] {
        let bytes = vec![0xffu8; n];
        assert_eq!(p.set_header_from_raw(&mut mem, &bytes), Err(PacketError::RawHeaderLengthError));
        assert_eq!(p.src_port(&mem), 7);
    }
}

#[test]
fn raw_header_sets_every_field() {
    let mut mem = GuestMemory::new(MEM_SIZE);
    let p = rx_packet(&mem);
    let bytes: Vec<u8> = (0u8..44).collect();
    assert_eq!(p.set_header_from_raw(&mut mem, &bytes), Ok(()));
    assert_eq!(p.src_cid(&mem), 0x0706_0504_0302_0100);
    assert_eq!(p.dst_cid(&mem), 0x0f0e_0d0c_0b0a_0908);
    assert_eq!(p.src_port(&mem), 0x1312_1110);
    assert_eq!(p.dst_port(&mem), 0x1716_1514);
    assert_eq!(p.len(&mem), 0x1b1a_1918);
    assert_eq!(p.type_(&mem), 0x1d1c);
    assert_eq!(p.op(&mem), 0x1f1e);
    assert_eq!(p.flags(&mem), 0x2322_2120);
    assert_eq!(p.buf_alloc(&mem), 0x2726_2524);
    assert_eq!(p.fwd_cnt(&mem), 0x2b2a_2928);
    assert!(!p.is_empty(&mem));
}

#[test]
fn header_view_is_header_sized_inside_head() {
    let mem = GuestMemory::new(MEM_SIZE);
    let c = chain(vec![desc(0x300, 4096, false, None)]);
    let p = VsockPacket::from_chain(&mem, &c, Direction::Transmit, 0).unwrap();
    assert_eq!(p.header_slice(), MemRegion { addr: 0x300, len: 44 });
    assert_eq!(p.data_slice(), None);
}

#[test]
fn memory_bounds_checked() {
    let mut mem = GuestMemory::from_bytes(vec![1, 2, 3, 4]);
    assert_eq!(mem.size(), 4);
    assert_eq!(mem.read(1, 3), Some(vec![2, 3, 4]));
    assert_eq!(mem.read(2, 3), None);
    assert_eq!(mem.read(u64::MAX, 1), None);
    assert_eq!(mem.read(4, 0), Some(vec![]));
    assert!(!mem.write(3, &[9, 9]));
    assert_eq!(mem.read(0, 4), Some(vec![1, 2, 3, 4]));
    assert!(mem.write(2, &[9, 8]));
    assert_eq!(mem.read(0, 4), Some(vec![1, 2, 9, 8]));
    assert_eq!(GuestMemory::new(3).read(0, 3), Some(vec![0, 0, 0]));
}

#[test]
fn little_endian_codec() {
    assert_eq!(encode_le(0x0102_0304, 4), vec![4, 3, 2, 1]);
    assert_eq!(encode_le(0x0102_0304, 2), vec![4, 3]);
    assert_eq!(encode_le(u64::MAX, 8), vec![0xff; 8]);
    assert_eq!(encode_le(5, 0), Vec::<u8>::new());
    assert_eq!(decode_le(&[4, 3, 2, 1]), 0x0102_0304);
    assert_eq!(decode_le(&[]), 0);
    assert_eq!(decode_le(&[0xff; 8]), u64::MAX);
}

#[test]
fn call_applies_operations() {
    let mut mem = GuestMemory::new(MEM_SIZE);
    let p = rx_packet(&mem);
    VsockFunctionType::SetDstPort { port: 1234 }.call(&p, &mut mem);
    VsockFunctionType::SetFlag { flag: 4 }.call(&p, &mut mem);
    VsockFunctionType::SetFlag { flag: 1 }.call(&p, &mut mem);
    let before = mem.read(0, MEM_SIZE).unwrap();
    VsockFunctionType::DstPort.call(&p, &mut mem);
    VsockFunctionType::DataSlice.call(&p, &mut mem);
    VsockFunctionType::SetHeaderFromRaw { bytes: &[1, 2, 3] }.call(&p, &mut mem);
    assert_eq!(mem.read(0, MEM_SIZE).unwrap(), before);
    assert_eq!(p.dst_port(&mem), 1234);
    assert_eq!(p.flags(&mem), 5);
}

#[test]
fn run_builds_and_applies() {
    let mut mem = GuestMemory::new(MEM_SIZE);
    let raw = [0u8; 44];
    let input = VsockInput {
        pkt_max_data: 16,
        init_function: InitFunction::FromRX,
        descriptors: vec![desc(0x100, 60, true, None)],
        functions: vec![
            VsockFunctionType::SetSrcCid { cid: 3 },
            VsockFunctionType::SetHeaderFromRaw { bytes: &raw },
            VsockFunctionType::SetLen { len: 16 },
            VsockFunctionType::Len,
        ],
    };
    let p = input.run(&mut mem).unwrap();
    assert_eq!(p.src_cid(&mem), 0);
    assert_eq!(p.len(&mem), 16);
    assert_eq!(p.data_slice(), None);

    let mut mem2 = GuestMemory::new(MEM_SIZE);
    let input = VsockInput {
        pkt_max_data: 16,
        init_function: InitFunction::FromTX,
        descriptors: vec![desc(0x100, 60, true, None)],
        functions: vec![VsockFunctionType::SetSrcCid { cid: 3 }],
    };
    assert_eq!(input.run(&mut mem2).err(), Some(PacketError::HeaderDescriptorError));
    assert_eq!(mem2.read(0, MEM_SIZE).unwrap(), vec![0u8; MEM_SIZE]);
}

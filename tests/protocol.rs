use libtock_emulation::config::{
    get_config, get_config_or_panic, get_identifier, set_config, setup, AppConfig, ConfigCell,
    ConfigError, LogLevel,
};
use libtock_emulation::syscall::{
    facade_result, request_datagrams, RecvPhase, SliceWrite, ALLOW, COMMAND, MEMOP, SUBSCRIBE,
    YIELD,
};
use libtock_emulation::wire::{
    check_header, check_msg_header, decode_msg, encode_msg, AllowSliceInfo, AllowsInfo, Callback,
    IntoIpcMsgType, IpcMsgHeader, IpcMsgType, KernelReturn, ProtocolError, Syscall, WireRecord,
    IPC_MSG_HDR_MAGIC,
};

fn config(id: usize) -> AppConfig {
    let mut cell = ConfigCell::new();
    setup(&mut cell, id, 4).unwrap();
    get_config_or_panic(&cell)
}

fn header_bytes(magic: u16, len: u16, ty: u16, cksum: u16) -> Vec<u8> {
    let mut v = Vec::new();
    v.extend_from_slice(&magic.to_le_bytes());
    v.extend_from_slice(&len.to_le_bytes());
    v.extend_from_slice(&ty.to_le_bytes());
    v.extend_from_slice(&cksum.to_le_bytes());
    v
}

fn words(ws: &[u64]) -> Vec<u8> {
    let mut v = Vec::new();
    for w in ws {
        v.extend_from_slice(&w.to_le_bytes());
    }
    v
}

/// The datagrams of a kernel answer, as a kernel would send them.
fn answer(kr: KernelReturn, slices: &[(usize, Vec<u8>)]) -> Vec<Vec<u8>> {
    let mut out = Vec::new();
    let (h, b) = encode_msg(&kr);
    out.push(h);
    out.push(b);
    let (h, b) = encode_msg(&AllowsInfo { number_of_slices: slices.len() });
    out.push(h);
    out.push(b);
    for (address, bytes) in slices {
        let (h, b) = encode_msg(&AllowSliceInfo { address: *address, length: bytes.len() });
        out.push(h);
        out.push(b);
        out.push(bytes.clone());
    }
    out
}

/// Feeds datagrams to a fresh receiver, checking each against the length it
/// asked for; returns the final phase and the writes.
fn absorb(ds: &[Vec<u8>]) -> Result<(RecvPhase, Vec<SliceWrite>), ProtocolError> {
    let mut phase = RecvPhase::ReturnHeader;
    let mut writes = Vec::new();
    for d in ds {
        assert!(!phase.is_done());
        assert_eq!(phase.expected_len(), d.len());
        let (next, w) = phase.step(d)?;
        if let Some(w) = w {
            writes.push(w);
        }
        phase = next;
    }
    Ok((phase, writes))
}

fn finished(phase: RecvPhase) -> KernelReturn {
    match phase {
        RecvPhase::Done { kr } => kr,
        other => panic!("answer incomplete: {:?}", other),
    }
}

fn no_callback(ret_val: isize) -> KernelReturn {
    KernelReturn { ret_val, cb: Callback { pc: 0, args: [0, 0, 0, 0] } }
}

#[test]
fn log_level_from_raw() {
    assert_eq!(LogLevel::from(0), LogLevel::NONE);
    assert_eq!(LogLevel::from(1), LogLevel::ERROR);
    assert_eq!(LogLevel::from(2), LogLevel::WARNING);
    assert_eq!(LogLevel::from(3), LogLevel::INFO);
    assert_eq!(LogLevel::from(4), LogLevel::DEBUG);
    assert_eq!(LogLevel::from(5), LogLevel::DEBUG);
    assert_eq!(LogLevel::from(255), LogLevel::DEBUG);
}

#[test]
fn config_is_write_once() {
    let mut cell = ConfigCell::new();
    assert_eq!(get_config(&cell), None);
    assert_eq!(set_config(&mut cell, 7, LogLevel::INFO), Ok(()));
    assert_eq!(set_config(&mut cell, 8, LogLevel::DEBUG), Err(ConfigError::AlreadyConfigured));
    assert_eq!(get_config(&cell), Some(AppConfig { identifier: 7, log_level: LogLevel::INFO }));
    assert_eq!(get_identifier(&cell), 7);
}

#[test]
fn setup_maps_log_level() {
    let mut cell = ConfigCell::new();
    assert_eq!(setup(&mut cell, 3, 9), Ok(()));
    assert_eq!(get_config_or_panic(&cell), AppConfig { identifier: 3, log_level: LogLevel::DEBUG });
    assert_eq!(setup(&mut cell, 4, 0), Err(ConfigError::AlreadyConfigured));
    assert_eq!(get_identifier(&cell), 3);
}

#[test]
fn header_new_sums_fields() {
    let h = IpcMsgHeader::new(48, 0);
    assert_eq!(h.magic, 0xA55A);
    assert_eq!(h.msg_len, 48);
    assert_eq!(h.msg_type, 0);
    assert_eq!(h.msg_cksum, 0xA55A + 48);
}

#[test]
fn header_checksum_wraps() {
    let h = IpcMsgHeader::new(0x6000, 3);
    assert_eq!(h.msg_cksum, 0x055D);
}

#[test]
fn message_kinds_have_fixed_ordinals() {
    assert_eq!(Syscall::to_ipc_msg_type().code(), 0);
    assert_eq!(KernelReturn::to_ipc_msg_type().code(), 1);
    assert_eq!(AllowsInfo::to_ipc_msg_type().code(), 2);
    assert_eq!(AllowSliceInfo::to_ipc_msg_type().code(), 3);
    assert_eq!(Syscall::wire_len(), 48);
    assert_eq!(KernelReturn::wire_len(), 48);
    assert_eq!(AllowsInfo::wire_len(), 8);
    assert_eq!(AllowSliceInfo::wire_len(), 16);
}

#[test]
fn round_trip_every_record() {
    let s = Syscall { identifier: 9, syscall_number: 2, args: [1, 2, usize::MAX, 4] };
    let (h, b) = encode_msg(&s);
    assert_eq!(h, header_bytes(0xA55A, 48, 0, 0xA55A + 48));
    assert_eq!(decode_msg::<Syscall>(&h, &b), Ok(s));

    let k = KernelReturn { ret_val: isize::MIN, cb: Callback { pc: 5, args: [6, 7, 8, 9] } };
    let (h, b) = encode_msg(&k);
    assert_eq!(h, header_bytes(0xA55A, 48, 1, 0xA55A + 49));
    assert_eq!(decode_msg::<KernelReturn>(&h, &b), Ok(k));

    let a = AllowsInfo { number_of_slices: 3 };
    let (h, b) = encode_msg(&a);
    assert_eq!(h, header_bytes(0xA55A, 8, 2, 0xA55A + 10));
    assert_eq!(decode_msg::<AllowsInfo>(&h, &b), Ok(a));

    let i = AllowSliceInfo { address: 0x1000, length: 16 };
    let (h, b) = encode_msg(&i);
    assert_eq!(h, header_bytes(0xA55A, 16, 3, 0xA55A + 19));
    assert_eq!(b, words(&[0x1000, 16]));
    assert_eq!(decode_msg::<AllowSliceInfo>(&h, &b), Ok(i));
}

#[test]
fn negative_return_value_is_twos_complement() {
    let b = no_callback(-1).to_wire();
    assert_eq!(&b[0..8], &[0xFF; 8]);
    assert_eq!(KernelReturn::from_wire(&b), Some(no_callback(-1)));
}

#[test]
fn any_flipped_bit_is_refused() {
    let good = IpcMsgHeader::new(48, 1);
    assert_eq!(check_header(&good, IpcMsgType::KERNELRETURN, 48), Ok(()));
    for bit in 0..16 {
        let mut h = good;
        h.msg_len ^= 1 << bit;
        assert_eq!(check_header(&h, IpcMsgType::KERNELRETURN, 48), Err(ProtocolError::BadLength));
        let mut h = good;
        h.msg_type ^= 1 << bit;
        assert_eq!(check_header(&h, IpcMsgType::KERNELRETURN, 48), Err(ProtocolError::BadType));
        let mut h = good;
        h.msg_cksum ^= 1 << bit;
        assert_eq!(
            check_header(&h, IpcMsgType::KERNELRETURN, 48),
            Err(ProtocolError::BadChecksum)
        );
    }
}

#[test]
fn wrong_magic_is_refused() {
    let mut h = IpcMsgHeader::new(8, 2);
    h.magic = 0x5AA5;
    assert_eq!(check_header(&h, IpcMsgType::ALLOWSINFO, 8), Err(ProtocolError::BadMagic));
    let d = header_bytes(0x0000, 8, 2, 10);
    assert_eq!(check_msg_header::<AllowsInfo>(&d), Err(ProtocolError::BadMagic));
}

#[test]
fn wrong_kind_is_refused() {
    let (h, b) = encode_msg(&AllowsInfo { number_of_slices: 0 });
    assert_eq!(check_msg_header::<AllowsInfo>(&h), Ok(()));
    assert_eq!(check_msg_header::<KernelReturn>(&h), Err(ProtocolError::BadLength));
    let (h2, _) = encode_msg(&Syscall { identifier: 1, syscall_number: 0, args: [0; 4] });
    assert_eq!(check_msg_header::<KernelReturn>(&h2), Err(ProtocolError::BadType));
    assert_eq!(decode_msg::<AllowSliceInfo>(&h, &b), Err(ProtocolError::BadLength));
}

#[test]
fn short_header_is_malformed() {
    assert_eq!(check_msg_header::<Syscall>(&[0x5A, 0xA5]), Err(ProtocolError::MalformedHeader));
}

#[test]
fn short_record_is_malformed() {
    let (h, b) = encode_msg(&no_callback(0));
    assert_eq!(decode_msg::<KernelReturn>(&h, &b[..47]), Err(ProtocolError::MalformedRecord));
    let phase = RecvPhase::ReturnBody;
    assert!(matches!(phase.step(&b[..47]), Err(ProtocolError::MalformedRecord)));
}

#[test]
fn constructors_stamp_identifier() {
    let c = config(11);
    let all = [
        Syscall::new_yieldk(&c),
        Syscall::new_subscribe(&c, 1, 2, 3, 4),
        Syscall::new_command(&c, 1, 2, 3, 4),
        Syscall::new_allow(&c, 1, 2, 3, 4),
        Syscall::new_memop(&c, 1, 2),
    ];
    for s in all.iter() {
        assert_eq!(s.identifier, 11);
    }
    assert_eq!(all[0].syscall_number, YIELD);
    assert_eq!(all[0].args, [0, 0, 0, 0]);
    assert_eq!(all[1].syscall_number, SUBSCRIBE);
    assert_eq!(all[1].args, [1, 2, 3, 4]);
    assert_eq!(all[2].syscall_number, COMMAND);
    assert_eq!(all[3].syscall_number, ALLOW);
    assert_eq!(all[4].syscall_number, MEMOP);
    assert_eq!(all[4].args, [1, 2, 0, 0]);
    let ds = request_datagrams(&all[2], Vec::new());
    assert_eq!(&ds[1][0..8], &11u64.to_le_bytes());
}

#[test]
fn memop_widens_major() {
    let c = config(1);
    let s = Syscall::new_memop(&c, u32::MAX, 5);
    assert_eq!(s.args, [u32::MAX as usize, 5, 0, 0]);
}

#[test]
fn non_allow_request_is_two_datagrams() {
    let c = config(2);
    let s = Syscall::new_command(&c, 3, 1, 42, 0);
    let ds = request_datagrams(&s, Vec::new());
    assert_eq!(ds.len(), 2);
    assert_eq!(ds[0], header_bytes(0xA55A, 48, 0, 0xA55A + 48));
    assert_eq!(ds[1], words(&[2, 2, 3, 1, 42, 0]));
}

#[test]
fn allow_request_ships_region() {
    let c = config(2);
    let s = Syscall::new_allow(&c, 2, 0, 0x4000, 3);
    let ds = request_datagrams(&s, vec![7, 8, 9]);
    assert_eq!(ds.len(), 7);
    assert_eq!(ds[0], header_bytes(0xA55A, 48, 0, 0xA55A + 48));
    assert_eq!(ds[1], words(&[2, 3, 2, 0, 0x4000, 3]));
    assert_eq!(ds[2], header_bytes(0xA55A, 8, 2, 0xA55A + 10));
    assert_eq!(ds[3], words(&[1]));
    assert_eq!(ds[4], header_bytes(0xA55A, 16, 3, 0xA55A + 19));
    assert_eq!(ds[5], words(&[0x4000, 3]));
    assert_eq!(ds[6], vec![7, 8, 9]);
}

#[test]
fn response_with_two_slices_is_absorbed() {
    let ds = answer(no_callback(17), &[(0x100, vec![1, 2, 3]), (0x200, vec![9; 5])]);
    let (phase, writes) = absorb(&ds).unwrap();
    let kr = finished(phase);
    assert_eq!(facade_result(&kr), 17);
    assert_eq!(writes.len(), 2);
    assert_eq!(writes[0].address, 0x100);
    assert_eq!(writes[0].bytes, vec![1, 2, 3]);
    assert_eq!(writes[1].address, 0x200);
    assert_eq!(writes[1].bytes, vec![9; 5]);
}

#[test]
fn callback_makes_call_return_zero() {
    let kr = KernelReturn { ret_val: 55, cb: Callback { pc: 0xABC, args: [4, 3, 2, 1] } };
    let (phase, writes) = absorb(&answer(kr, &[])).unwrap();
    let got = finished(phase);
    assert_eq!(got.cb.pc, 0xABC);
    assert_eq!(got.cb.args, [4, 3, 2, 1]);
    assert!(writes.is_empty());
    assert_eq!(facade_result(&got), 0);
}

#[test]
fn slice_length_mismatch_is_refused() {
    let phase = RecvPhase::SliceBytes {
        kr: no_callback(0),
        remaining: 1,
        slice: AllowSliceInfo { address: 0x10, length: 4 },
    };
    assert!(matches!(phase.step(&[1, 2, 3]), Err(ProtocolError::SliceLengthMismatch)));
}

#[test]
fn done_phase_takes_nothing() {
    let phase = RecvPhase::Done { kr: no_callback(0) };
    assert!(phase.is_done());
    assert_eq!(phase.expected_len(), 0);
    assert!(phase.step(&[]).is_err());
}

#[test]
fn s1_yield() {
    let mut cell = ConfigCell::new();
    setup(&mut cell, 7, 0).unwrap();
    let c = get_config_or_panic(&cell);
    let ds = request_datagrams(&Syscall::new_yieldk(&c), Vec::new());
    assert_eq!(ds.len(), 2);
    assert_eq!(ds[0], header_bytes(0xA55A, 48, 0, 0xA55A + 48));
    assert_eq!(ds[1], words(&[7, 0, 0, 0, 0, 0]));
    let reply = vec![
        header_bytes(IPC_MSG_HDR_MAGIC, 48, 1, 0xA55A + 48 + 1),
        words(&[0, 0, 0, 0, 0, 0]),
        header_bytes(IPC_MSG_HDR_MAGIC, 8, 2, 0xA55A + 8 + 2),
        words(&[0]),
    ];
    let (phase, writes) = absorb(&reply).unwrap();
    assert!(writes.is_empty());
    assert_eq!(facade_result(&finished(phase)), 0);
}

#[test]
fn s2_command_success() {
    let c = config(1);
    let ds = request_datagrams(&Syscall::new_command(&c, 3, 1, 42, 0), Vec::new());
    assert_eq!(ds[1], words(&[1, 2, 3, 1, 42, 0]));
    let (phase, _) = absorb(&answer(no_callback(0x2A), &[])).unwrap();
    assert_eq!(facade_result(&finished(phase)), 0x2A);
}

#[test]
fn s3_command_error() {
    let (phase, _) = absorb(&answer(no_callback(-1), &[])).unwrap();
    assert_eq!(facade_result(&finished(phase)), -1);
}

#[test]
fn s4_allow() {
    let mut b: Vec<u8> = (0..16).collect();
    let a = b.as_ptr() as usize;
    let c = config(5);
    let req = Syscall::new_allow(&c, 2, 0, a, 16);
    let ds = request_datagrams(&req, b.clone());
    assert_eq!(ds.len(), 7);
    assert_eq!(ds[3], words(&[1]));
    assert_eq!(ds[5], words(&[a as u64, 16]));
    assert_eq!(ds[6], (0..16).collect::<Vec<u8>>());
    let back: Vec<u8> = (1..17).rev().collect();
    let (phase, writes) = absorb(&answer(no_callback(0), &[(a, back.clone())])).unwrap();
    assert_eq!(facade_result(&finished(phase)), 0);
    assert_eq!(writes.len(), 1);
    assert_eq!(writes[0].address, a);
    b.copy_from_slice(&writes[0].bytes);
    assert_eq!(b, vec![16, 15, 14, 13, 12, 11, 10, 9, 8, 7, 6, 5, 4, 3, 2, 1]);
}

#[test]
fn s5_subscribe_with_callback() {
    let f: usize = 0x5555_0000;
    let c = config(5);
    let req = Syscall::new_subscribe(&c, 4, 0, f, 99);
    assert_eq!(req.args, [4, 0, f, 99]);
    let kr = KernelReturn { ret_val: 0, cb: Callback { pc: f, args: [1, 2, 3, 99] } };
    let (phase, _) = absorb(&answer(kr, &[])).unwrap();
    let got = finished(phase);
    assert_eq!(got.cb.pc, f);
    assert_eq!(got.cb.args, [1, 2, 3, 99]);
    assert_eq!(facade_result(&got), 0);
}

#[test]
fn s6_protocol_violation() {
    let d = header_bytes(0x5AA5, 48, 1, 0x5AA5 + 49);
    let phase = RecvPhase::ReturnHeader;
    assert!(matches!(phase.step(&d), Err(ProtocolError::BadMagic)));
}

#[test]
fn log_gate_follows_threshold() {
    assert!(LogLevel::DEBUG.allows(LogLevel::ERROR));
    assert!(LogLevel::INFO.allows(LogLevel::INFO));
    assert!(!LogLevel::INFO.allows(LogLevel::DEBUG));
    assert!(!LogLevel::NONE.allows(LogLevel::ERROR));
    assert!(!LogLevel::DEBUG.allows(LogLevel::NONE));
    assert_eq!(LogLevel::WARNING.rank(), 2);
}

#[test]
fn header_wire_form() {
    let h = IpcMsgHeader::new(16, 3);
    let b = h.to_wire();
    assert_eq!(b, vec![0x5A, 0xA5, 16, 0, 3, 0, 0x6D, 0xA5]);
    assert_eq!(IpcMsgHeader::from_wire(&b), Some(h));
    assert_eq!(IpcMsgHeader::from_wire(&b[..7]), None);
}

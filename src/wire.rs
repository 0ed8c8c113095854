//! Byte-level framing of the emulated syscall protocol.
//!
//! Every record is laid out with no padding, fields in declaration order,
//! each machine word as eight little-endian bytes: the packed in-memory layout
//! of the records on the 64-bit little-endian hosts that run the emulator.
use vstd::bytes::*;
use vstd::prelude::*;
use vstd::slice::slice_subrange;

verus! {

/// First field of every header.
pub const IPC_MSG_HDR_MAGIC: u16 = 0xA55A;

/// Bytes of an encoded `IpcMsgHeader`.
pub const HEADER_LEN: usize = 8;

/// Bytes of an encoded `Syscall`.
pub const SYSCALL_LEN: usize = 48;

/// Bytes of an encoded `Callback`.
pub const CALLBACK_LEN: usize = 40;

/// Bytes of an encoded `KernelReturn`.
pub const KERNEL_RETURN_LEN: usize = 48;

/// Bytes of an encoded `AllowsInfo`.
pub const ALLOWS_INFO_LEN: usize = 8;

/// Bytes of an encoded `AllowSliceInfo`.
pub const ALLOW_SLICE_INFO_LEN: usize = 16;

/// The wire form of an unsigned machine word.
pub open spec fn word_bytes(x: usize) -> Seq<u8> {
    spec_u64_to_le_bytes(x as u64)
}

/// Two's complement bits of a signed machine word.
pub open spec fn signed_bits(x: isize) -> u64 {
    if x >= 0 {
        x as u64
    } else {
        (x + 0x1_0000_0000_0000_0000int) as u64
    }
}

/// The wire form of a signed machine word.
pub open spec fn signed_word_bytes(x: isize) -> Seq<u8> {
    spec_u64_to_le_bytes(signed_bits(x))
}

/// The wire form of a 16-bit header field.
pub open spec fn half_bytes(x: u16) -> Seq<u8> {
    spec_u16_to_le_bytes(x)
}

proof fn lemma_word_lens()
    ensures
        forall|x: usize| #[trigger] word_bytes(x).len() == 8,
        forall|x: isize| #[trigger] signed_word_bytes(x).len() == 8,
        forall|x: u16| #[trigger] half_bytes(x).len() == 2,
{
    lemma_auto_spec_u64_to_from_le_bytes();
    lemma_auto_spec_u16_to_from_le_bytes();
}

fn write_word(out: &mut Vec<u8>, x: usize)
    ensures
        final(out)@ == old(out)@ + word_bytes(x),
{
    let mut w = u64_to_le_bytes(x as u64);
    out.append(&mut w);
}

fn write_signed_word(out: &mut Vec<u8>, x: isize)
    ensures
        final(out)@ == old(out)@ + signed_word_bytes(x),
{
    let bits: u64 = if x >= 0 {
        x as u64
    } else {
        u64::MAX - ((-(x + 1)) as u64)
    };
    let mut w = u64_to_le_bytes(bits);
    out.append(&mut w);
}

fn write_half(out: &mut Vec<u8>, x: u16)
    ensures
        final(out)@ == old(out)@ + half_bytes(x),
{
    let mut w = u16_to_le_bytes(x);
    out.append(&mut w);
}

/// Reads the word at `at`; `None` where those bytes are the wire form of no
/// word of this host.
fn read_word(b: &[u8], at: usize) -> (r: Option<usize>)
    requires
        at + 8 <= b@.len(),
    ensures
        match r {
            Some(x) => word_bytes(x) == b@.subrange(at as int, at + 8),
            None => forall|x: usize| word_bytes(x) != b@.subrange(at as int, at + 8),
        },
{
    let _len = b.len();
    let s = slice_subrange(b, at, at + 8);
    let v = u64_from_le_bytes(s);
    proof {
        lemma_auto_spec_u64_to_from_le_bytes();
        assert(spec_u64_to_le_bytes(spec_u64_from_le_bytes(s@)) == s@);
    }
    if v <= usize::MAX as u64 {
        Some(v as usize)
    } else {
        proof {
            assert forall|x: usize| word_bytes(x) != b@.subrange(at as int, at + 8) by {
                if word_bytes(x) == b@.subrange(at as int, at + 8) {
                    assert(spec_u64_from_le_bytes(spec_u64_to_le_bytes(x as u64)) == x as u64);
                }
            }
        }
        None
    }
}

/// Reads the signed word at `at`; `None` where those bytes are the wire form
/// of no signed word of this host.
fn read_signed_word(b: &[u8], at: usize) -> (r: Option<isize>)
    requires
        at + 8 <= b@.len(),
    ensures
        match r {
            Some(x) => signed_word_bytes(x) == b@.subrange(at as int, at + 8),
            None => forall|x: isize| signed_word_bytes(x) != b@.subrange(at as int, at + 8),
        },
{
    let _len = b.len();
    let s = slice_subrange(b, at, at + 8);
    let v = u64_from_le_bytes(s);
    proof {
        lemma_auto_spec_u64_to_from_le_bytes();
        assert(spec_u64_to_le_bytes(spec_u64_from_le_bytes(s@)) == s@);
        assert forall|x: isize| signed_word_bytes(x) == s@ implies signed_bits(x) == v by {
            assert(spec_u64_from_le_bytes(spec_u64_to_le_bytes(signed_bits(x))) == signed_bits(x));
        }
    }
    if v < 0x8000_0000_0000_0000u64 {
        if v <= isize::MAX as u64 {
            Some(v as isize)
        } else {
            None
        }
    } else {
        let neg: u64 = u64::MAX - v;
        if neg <= isize::MAX as u64 {
            let x: isize = -(neg as isize) - 1;
            assert(signed_bits(x) == v);
            Some(x)
        } else {
            None
        }
    }
}

fn read_half(b: &[u8], at: usize) -> (r: u16)
    requires
        at + 2 <= b@.len(),
    ensures
        half_bytes(r) == b@.subrange(at as int, at + 2),
{
    let _len = b.len();
    let s = slice_subrange(b, at, at + 2);
    let v = u16_from_le_bytes(s);
    proof {
        lemma_auto_spec_u16_to_from_le_bytes();
        assert(spec_u16_to_le_bytes(spec_u16_from_le_bytes(s@)) == s@);
    }
    v
}

/// Kind of the record that follows a header.
#[derive(Clone, Copy, Debug, PartialEq, Eq, Structural)]
pub enum IpcMsgType {
    SYSCALL,
    KERNELRETURN,
    ALLOWSINFO,
    ALLOWSLICEINFO,
}

impl IpcMsgType {
    /// The ordinal that stands for this kind in a header.
    pub open spec fn spec_code(self) -> u16 {
        match self {
            IpcMsgType::SYSCALL => 0,
            IpcMsgType::KERNELRETURN => 1,
            IpcMsgType::ALLOWSINFO => 2,
            IpcMsgType::ALLOWSLICEINFO => 3,
        }
    }

    pub fn code(&self) -> (r: u16)
        ensures
            r == self.spec_code(),
    {
        match self {
            IpcMsgType::SYSCALL => 0,
            IpcMsgType::KERNELRETURN => 1,
            IpcMsgType::ALLOWSINFO => 2,
            IpcMsgType::ALLOWSLICEINFO => 3,
        }
    }
}

/// The header checksum: the 16-bit wrapping sum of the other three fields.
pub open spec fn checksum(magic: u16, msg_len: u16, msg_type: u16) -> u16 {
    ((magic + msg_len + msg_type) % 0x10000) as u16
}

/// Eight-byte frame that precedes every typed record.
#[derive(Clone, Copy, Debug, PartialEq, Eq, Structural)]
pub struct IpcMsgHeader {
    pub magic: u16,
    pub msg_len: u16,
    pub msg_type: u16,
    pub msg_cksum: u16,
}

/// Why a received frame was refused.
#[derive(Clone, Copy, Debug, PartialEq, Eq, Structural)]
pub enum ProtocolError {
    /// A header datagram that is not eight bytes long.
    MalformedHeader,
    /// A header whose magic is not `IPC_MSG_HDR_MAGIC`.
    BadMagic,
    /// A header whose length is not the expected record's.
    BadLength,
    /// A header whose type is not the expected record's.
    BadType,
    /// A header whose checksum does not verify.
    BadChecksum,
    /// A record datagram that encodes no record of the expected kind.
    MalformedRecord,
    /// Slice contents whose length is not the announced one.
    SliceLengthMismatch,
}

impl IpcMsgHeader {
    pub fn new(msg_len: u16, msg_type: u16) -> (r: IpcMsgHeader)
        ensures
            r.magic == IPC_MSG_HDR_MAGIC,
            r.msg_len == msg_len,
            r.msg_type == msg_type,
            r.msg_cksum == checksum(IPC_MSG_HDR_MAGIC, msg_len, msg_type),
    {
        IpcMsgHeader {
            magic: IPC_MSG_HDR_MAGIC,
            msg_len,
            msg_type,
            msg_cksum: IPC_MSG_HDR_MAGIC.wrapping_add(msg_len).wrapping_add(msg_type),
        }
    }

    /// The header that announces a record of kind `ty` and `len` bytes.
    pub open spec fn spec_for(ty: IpcMsgType, len: u16) -> IpcMsgHeader {
        IpcMsgHeader {
            magic: IPC_MSG_HDR_MAGIC,
            msg_len: len,
            msg_type: ty.spec_code(),
            msg_cksum: checksum(IPC_MSG_HDR_MAGIC, len, ty.spec_code()),
        }
    }

    /// A receiver that expects a record of kind `ty` and `len` bytes accepts
    /// this header.
    pub open spec fn spec_accepts(self, ty: IpcMsgType, len: u16) -> bool {
        &&& self.magic == IPC_MSG_HDR_MAGIC
        &&& self.msg_len == len
        &&& self.msg_type == ty.spec_code()
        &&& self.msg_cksum == checksum(self.magic, self.msg_len, self.msg_type)
    }

    pub open spec fn spec_wire(self) -> Seq<u8> {
        half_bytes(self.magic) + half_bytes(self.msg_len) + half_bytes(self.msg_type)
            + half_bytes(self.msg_cksum)
    }

    pub fn to_wire(&self) -> (r: Vec<u8>)
        ensures
            r@ == self.spec_wire(),
            r@.len() == HEADER_LEN,
    {
        proof {
            lemma_word_lens();
        }
        let mut out: Vec<u8> = Vec::new();
        write_half(&mut out, self.magic);
        write_half(&mut out, self.msg_len);
        write_half(&mut out, self.msg_type);
        write_half(&mut out, self.msg_cksum);
        assert(out@ =~= self.spec_wire());
        out
    }

    /// Every eight bytes are the wire form of exactly one header.
    pub fn from_wire(b: &[u8]) -> (r: Option<IpcMsgHeader>)
        ensures
            match r {
                Some(h) => h.spec_wire() == b@,
                None => b@.len() != HEADER_LEN && forall|h: IpcMsgHeader| h.spec_wire() != b@,
            },
    {
        proof {
            lemma_word_lens();
        }
        if b.len() != HEADER_LEN {
            return None;
        }
        let h = IpcMsgHeader {
            magic: read_half(b, 0),
            msg_len: read_half(b, 2),
            msg_type: read_half(b, 4),
            msg_cksum: read_half(b, 6),
        };
        assert(h.spec_wire() =~= b@);
        Some(h)
    }

    pub proof fn lemma_wire_injective(a: IpcMsgHeader, b: IpcMsgHeader)
        requires
            a.spec_wire() == b.spec_wire(),
        ensures
            a == b,
    {
        lemma_word_lens();
        lemma_auto_spec_u16_to_from_le_bytes();
        let s = a.spec_wire();
        assert(s.subrange(0, 2) =~= half_bytes(a.magic));
        assert(s.subrange(0, 2) =~= half_bytes(b.magic));
        assert(s.subrange(2, 4) =~= half_bytes(a.msg_len));
        assert(s.subrange(2, 4) =~= half_bytes(b.msg_len));
        assert(s.subrange(4, 6) =~= half_bytes(a.msg_type));
        assert(s.subrange(4, 6) =~= half_bytes(b.msg_type));
        assert(s.subrange(6, 8) =~= half_bytes(a.msg_cksum));
        assert(s.subrange(6, 8) =~= half_bytes(b.msg_cksum));
    }
}

/// Checks a received header against the record that the receiver expects, in
/// the order magic, length, kind, checksum.
pub fn check_header(hdr: &IpcMsgHeader, ty: IpcMsgType, len: u16) -> (r: Result<(), ProtocolError>)
    ensures
        r is Ok <==> hdr.spec_accepts(ty, len),
        r == Err::<(), _>(ProtocolError::BadMagic) <==> hdr.magic != IPC_MSG_HDR_MAGIC,
        r == Err::<(), _>(ProtocolError::BadLength) <==> hdr.magic == IPC_MSG_HDR_MAGIC
            && hdr.msg_len != len,
        r == Err::<(), _>(ProtocolError::BadType) <==> hdr.magic == IPC_MSG_HDR_MAGIC
            && hdr.msg_len == len && hdr.msg_type != ty.spec_code(),
        r == Err::<(), _>(ProtocolError::BadChecksum) <==> hdr.magic == IPC_MSG_HDR_MAGIC
            && hdr.msg_len == len && hdr.msg_type == ty.spec_code() && hdr.msg_cksum
            != checksum(hdr.magic, hdr.msg_len, hdr.msg_type),
{
    if hdr.magic != IPC_MSG_HDR_MAGIC {
        return Err(ProtocolError::BadMagic);
    }
    if hdr.msg_len != len {
        return Err(ProtocolError::BadLength);
    }
    if hdr.msg_type != ty.code() {
        return Err(ProtocolError::BadType);
    }
    if hdr.msg_cksum != hdr.magic.wrapping_add(hdr.msg_len).wrapping_add(hdr.msg_type) {
        return Err(ProtocolError::BadChecksum);
    }
    Ok(())
}

/// The kind that a record announces in its header.
pub trait IntoIpcMsgType {
    spec fn spec_msg_type() -> IpcMsgType;

    fn to_ipc_msg_type() -> (r: IpcMsgType)
        ensures
            r == Self::spec_msg_type(),
    ;
}

/// A record with a fixed-length wire form.
pub trait WireRecord: Sized {
    spec fn spec_len() -> u16;

    spec fn spec_wire(&self) -> Seq<u8>;

    fn wire_len() -> (r: u16)
        ensures
            r == Self::spec_len(),
    ;

    fn to_wire(&self) -> (r: Vec<u8>)
        ensures
            r@ == self.spec_wire(),
            r@.len() == Self::spec_len(),
    ;

    /// The record whose wire form `b` is, if any.
    fn from_wire(b: &[u8]) -> (r: Option<Self>)
        ensures
            match r {
                Some(x) => x.spec_wire() == b@,
                None => forall|x: Self| x.spec_wire() != b@,
            },
    ;

    proof fn lemma_wire_len(&self)
        ensures
            self.spec_wire().len() == Self::spec_len(),
    ;

    /// Distinct records have distinct wire forms.
    proof fn lemma_wire_injective(a: Self, b: Self)
        requires
            a.spec_wire() == b.spec_wire(),
        ensures
            a == b,
    ;
}

proof fn lemma_words_injective()
    ensures
        forall|x: usize, y: usize| word_bytes(x) == word_bytes(y) ==> x == y,
        forall|x: isize, y: isize| signed_word_bytes(x) == signed_word_bytes(y) ==> x == y,
{
    lemma_auto_spec_u64_to_from_le_bytes();
    assert forall|x: usize, y: usize| word_bytes(x) == word_bytes(y) implies x == y by {
        assert(spec_u64_from_le_bytes(spec_u64_to_le_bytes(x as u64)) == x as u64);
        assert(spec_u64_from_le_bytes(spec_u64_to_le_bytes(y as u64)) == y as u64);
    }
    assert forall|x: isize, y: isize|
        signed_word_bytes(x) == signed_word_bytes(y) implies x == y by {
        assert(spec_u64_from_le_bytes(spec_u64_to_le_bytes(signed_bits(x))) == signed_bits(x));
        assert(spec_u64_from_le_bytes(spec_u64_to_le_bytes(signed_bits(y))) == signed_bits(y));
    }
}

/// A system call request.
#[derive(Clone, Copy, Debug, PartialEq, Eq)]
pub struct Syscall {
    pub identifier: usize,
    pub syscall_number: usize,
    pub args: [usize; 4],
}

impl IntoIpcMsgType for Syscall {
    open spec fn spec_msg_type() -> IpcMsgType {
        IpcMsgType::SYSCALL
    }

    fn to_ipc_msg_type() -> (r: IpcMsgType) {
        IpcMsgType::SYSCALL
    }
}

impl WireRecord for Syscall {
    open spec fn spec_len() -> u16 {
        SYSCALL_LEN as u16
    }

    open spec fn spec_wire(&self) -> Seq<u8> {
        word_bytes(self.identifier) + word_bytes(self.syscall_number) + word_bytes(self.args@[0])
            + word_bytes(self.args@[1]) + word_bytes(self.args@[2]) + word_bytes(self.args@[3])
    }

    fn wire_len() -> (r: u16) {
        SYSCALL_LEN as u16
    }

    fn to_wire(&self) -> (r: Vec<u8>) {
        proof {
            lemma_word_lens();
        }
        let mut out: Vec<u8> = Vec::new();
        write_word(&mut out, self.identifier);
        write_word(&mut out, self.syscall_number);
        write_word(&mut out, self.args[0]);
        write_word(&mut out, self.args[1]);
        write_word(&mut out, self.args[2]);
        write_word(&mut out, self.args[3]);
        assert(out@ =~= self.spec_wire());
        out
    }

    fn from_wire(b: &[u8]) -> (r: Option<Syscall>) {
        proof {
            lemma_word_lens();
        }
        if b.len() != SYSCALL_LEN {
            return None;
        }
        let w0 = read_word(b, 0);
        let w1 = read_word(b, 8);
        let w2 = read_word(b, 16);
        let w3 = read_word(b, 24);
        let w4 = read_word(b, 32);
        let w5 = read_word(b, 40);
        match (w0, w1, w2, w3, w4, w5) {
            (Some(identifier), Some(syscall_number), Some(a0), Some(a1), Some(a2), Some(a3)) => {
                let x = Syscall { identifier, syscall_number, args: [a0, a1, a2, a3] };
                assert(x.spec_wire() =~= b@);
                Some(x)
            },
            _ => {
                proof {
                    assert forall|x: Syscall| x.spec_wire() != b@ by {
                        if x.spec_wire() == b@ {
                            assert(b@.subrange(0, 8) =~= word_bytes(x.identifier));
                            assert(b@.subrange(8, 16) =~= word_bytes(x.syscall_number));
                            assert(b@.subrange(16, 24) =~= word_bytes(x.args@[0]));
                            assert(b@.subrange(24, 32) =~= word_bytes(x.args@[1]));
                            assert(b@.subrange(32, 40) =~= word_bytes(x.args@[2]));
                            assert(b@.subrange(40, 48) =~= word_bytes(x.args@[3]));
                        }
                    }
                }
                None
            },
        }
    }

    proof fn lemma_wire_len(&self) {
        lemma_word_lens();
    }

    proof fn lemma_wire_injective(a: Syscall, b: Syscall) {
        lemma_word_lens();
        lemma_words_injective();
        let s = a.spec_wire();
        assert(s.subrange(0, 8) =~= word_bytes(a.identifier));
        assert(s.subrange(0, 8) =~= word_bytes(b.identifier));
        assert(s.subrange(8, 16) =~= word_bytes(a.syscall_number));
        assert(s.subrange(8, 16) =~= word_bytes(b.syscall_number));
        assert(s.subrange(16, 24) =~= word_bytes(a.args@[0]));
        assert(s.subrange(16, 24) =~= word_bytes(b.args@[0]));
        assert(s.subrange(24, 32) =~= word_bytes(a.args@[1]));
        assert(s.subrange(24, 32) =~= word_bytes(b.args@[1]));
        assert(s.subrange(32, 40) =~= word_bytes(a.args@[2]));
        assert(s.subrange(32, 40) =~= word_bytes(b.args@[2]));
        assert(s.subrange(40, 48) =~= word_bytes(a.args@[3]));
        assert(s.subrange(40, 48) =~= word_bytes(b.args@[3]));
        assert(a.args =~= b.args);
    }
}

/// A function to run in the application before the call returns; a `pc` of
/// zero means none.
#[derive(Clone, Copy, Debug, PartialEq, Eq)]
pub struct Callback {
    pub pc: usize,
    pub args: [usize; 4],
}

impl WireRecord for Callback {
    open spec fn spec_len() -> u16 {
        CALLBACK_LEN as u16
    }

    open spec fn spec_wire(&self) -> Seq<u8> {
        word_bytes(self.pc) + word_bytes(self.args@[0]) + word_bytes(self.args@[1]) + word_bytes(
            self.args@[2],
        ) + word_bytes(self.args@[3])
    }

    fn wire_len() -> (r: u16) {
        CALLBACK_LEN as u16
    }

    fn to_wire(&self) -> (r: Vec<u8>) {
        proof {
            lemma_word_lens();
        }
        let mut out: Vec<u8> = Vec::new();
        write_word(&mut out, self.pc);
        write_word(&mut out, self.args[0]);
        write_word(&mut out, self.args[1]);
        write_word(&mut out, self.args[2]);
        write_word(&mut out, self.args[3]);
        assert(out@ =~= self.spec_wire());
        out
    }

    fn from_wire(b: &[u8]) -> (r: Option<Callback>) {
        proof {
            lemma_word_lens();
        }
        if b.len() != CALLBACK_LEN {
            return None;
        }
        let w0 = read_word(b, 0);
        let w1 = read_word(b, 8);
        let w2 = read_word(b, 16);
        let w3 = read_word(b, 24);
        let w4 = read_word(b, 32);
        match (w0, w1, w2, w3, w4) {
            (Some(pc), Some(a0), Some(a1), Some(a2), Some(a3)) => {
                let x = Callback { pc, args: [a0, a1, a2, a3] };
                assert(x.spec_wire() =~= b@);
                Some(x)
            },
            _ => {
                proof {
                    assert forall|x: Callback| x.spec_wire() != b@ by {
                        if x.spec_wire() == b@ {
                            assert(b@.subrange(0, 8) =~= word_bytes(x.pc));
                            assert(b@.subrange(8, 16) =~= word_bytes(x.args@[0]));
                            assert(b@.subrange(16, 24) =~= word_bytes(x.args@[1]));
                            assert(b@.subrange(24, 32) =~= word_bytes(x.args@[2]));
                            assert(b@.subrange(32, 40) =~= word_bytes(x.args@[3]));
                        }
                    }
                }
                None
            },
        }
    }

    proof fn lemma_wire_len(&self) {
        lemma_word_lens();
    }

    proof fn lemma_wire_injective(a: Callback, b: Callback) {
        lemma_word_lens();
        lemma_words_injective();
        let s = a.spec_wire();
        assert(s.subrange(0, 8) =~= word_bytes(a.pc));
        assert(s.subrange(0, 8) =~= word_bytes(b.pc));
        assert(s.subrange(8, 16) =~= word_bytes(a.args@[0]));
        assert(s.subrange(8, 16) =~= word_bytes(b.args@[0]));
        assert(s.subrange(16, 24) =~= word_bytes(a.args@[1]));
        assert(s.subrange(16, 24) =~= word_bytes(b.args@[1]));
        assert(s.subrange(24, 32) =~= word_bytes(a.args@[2]));
        assert(s.subrange(24, 32) =~= word_bytes(b.args@[2]));
        assert(s.subrange(32, 40) =~= word_bytes(a.args@[3]));
        assert(s.subrange(32, 40) =~= word_bytes(b.args@[3]));
        assert(a.args =~= b.args);
    }
}

/// The kernel's answer to one request.
#[derive(Clone, Copy, Debug, PartialEq, Eq)]
pub struct KernelReturn {
    pub ret_val: isize,
    pub cb: Callback,
}

impl IntoIpcMsgType for KernelReturn {
    open spec fn spec_msg_type() -> IpcMsgType {
        IpcMsgType::KERNELRETURN
    }

    fn to_ipc_msg_type() -> (r: IpcMsgType) {
        IpcMsgType::KERNELRETURN
    }
}

impl WireRecord for KernelReturn {
    open spec fn spec_len() -> u16 {
        KERNEL_RETURN_LEN as u16
    }

    open spec fn spec_wire(&self) -> Seq<u8> {
        signed_word_bytes(self.ret_val) + self.cb.spec_wire()
    }

    fn wire_len() -> (r: u16) {
        KERNEL_RETURN_LEN as u16
    }

    fn to_wire(&self) -> (r: Vec<u8>) {
        proof {
            lemma_word_lens();
        }
        let mut out: Vec<u8> = Vec::new();
        write_signed_word(&mut out, self.ret_val);
        let mut cb = self.cb.to_wire();
        out.append(&mut cb);
        out
    }

    fn from_wire(b: &[u8]) -> (r: Option<KernelReturn>) {
        proof {
            lemma_word_lens();
        }
        if b.len() != KERNEL_RETURN_LEN {
            return None;
        }
        let ret = read_signed_word(b, 0);
        let cb = Callback::from_wire(slice_subrange(b, 8, KERNEL_RETURN_LEN));
        match (ret, cb) {
            (Some(ret_val), Some(cb)) => {
                let x = KernelReturn { ret_val, cb };
                assert(x.spec_wire() =~= b@);
                Some(x)
            },
            _ => {
                proof {
                    assert forall|x: KernelReturn| x.spec_wire() != b@ by {
                        if x.spec_wire() == b@ {
                            assert(b@.subrange(0, 8) =~= signed_word_bytes(x.ret_val));
                            assert(b@.subrange(8, 48) =~= x.cb.spec_wire());
                        }
                    }
                }
                None
            },
        }
    }

    proof fn lemma_wire_len(&self) {
        lemma_word_lens();
        self.cb.lemma_wire_len();
    }

    proof fn lemma_wire_injective(a: KernelReturn, b: KernelReturn) {
        lemma_word_lens();
        lemma_words_injective();
        let s = a.spec_wire();
        assert(s.subrange(0, 8) =~= signed_word_bytes(a.ret_val));
        assert(s.subrange(0, 8) =~= signed_word_bytes(b.ret_val));
        assert(s.subrange(8, 48) =~= a.cb.spec_wire());
        assert(s.subrange(8, 48) =~= b.cb.spec_wire());
        Callback::lemma_wire_injective(a.cb, b.cb);
    }
}

/// Announces how many slice descriptors follow.
#[derive(Clone, Copy, Debug, PartialEq, Eq, Structural)]
pub struct AllowsInfo {
    pub number_of_slices: usize,
}

impl IntoIpcMsgType for AllowsInfo {
    open spec fn spec_msg_type() -> IpcMsgType {
        IpcMsgType::ALLOWSINFO
    }

    fn to_ipc_msg_type() -> (r: IpcMsgType) {
        IpcMsgType::ALLOWSINFO
    }
}

impl WireRecord for AllowsInfo {
    open spec fn spec_len() -> u16 {
        ALLOWS_INFO_LEN as u16
    }

    open spec fn spec_wire(&self) -> Seq<u8> {
        word_bytes(self.number_of_slices)
    }

    fn wire_len() -> (r: u16) {
        ALLOWS_INFO_LEN as u16
    }

    fn to_wire(&self) -> (r: Vec<u8>) {
        proof {
            lemma_word_lens();
        }
        let mut out: Vec<u8> = Vec::new();
        write_word(&mut out, self.number_of_slices);
        assert(out@ =~= self.spec_wire());
        out
    }

    fn from_wire(b: &[u8]) -> (r: Option<AllowsInfo>) {
        proof {
            lemma_word_lens();
        }
        if b.len() != ALLOWS_INFO_LEN {
            return None;
        }
        match read_word(b, 0) {
            Some(number_of_slices) => {
                let x = AllowsInfo { number_of_slices };
                assert(x.spec_wire() =~= b@);
                Some(x)
            },
            None => {
                assert(b@.subrange(0, 8) =~= b@);
                None
            },
        }
    }

    proof fn lemma_wire_len(&self) {
        lemma_word_lens();
    }

    proof fn lemma_wire_injective(a: AllowsInfo, b: AllowsInfo) {
        lemma_words_injective();
    }
}

/// Describes one application memory region: where it starts and how many
/// bytes it spans.
#[derive(Clone, Copy, Debug, PartialEq, Eq, Structural)]
pub struct AllowSliceInfo {
    pub address: usize,
    pub length: usize,
}

impl IntoIpcMsgType for AllowSliceInfo {
    open spec fn spec_msg_type() -> IpcMsgType {
        IpcMsgType::ALLOWSLICEINFO
    }

    fn to_ipc_msg_type() -> (r: IpcMsgType) {
        IpcMsgType::ALLOWSLICEINFO
    }
}

impl WireRecord for AllowSliceInfo {
    open spec fn spec_len() -> u16 {
        ALLOW_SLICE_INFO_LEN as u16
    }

    open spec fn spec_wire(&self) -> Seq<u8> {
        word_bytes(self.address) + word_bytes(self.length)
    }

    fn wire_len() -> (r: u16) {
        ALLOW_SLICE_INFO_LEN as u16
    }

    fn to_wire(&self) -> (r: Vec<u8>) {
        proof {
            lemma_word_lens();
        }
        let mut out: Vec<u8> = Vec::new();
        write_word(&mut out, self.address);
        write_word(&mut out, self.length);
        assert(out@ =~= self.spec_wire());
        out
    }

    fn from_wire(b: &[u8]) -> (r: Option<AllowSliceInfo>) {
        proof {
            lemma_word_lens();
        }
        if b.len() != ALLOW_SLICE_INFO_LEN {
            return None;
        }
        match (read_word(b, 0), read_word(b, 8)) {
            (Some(address), Some(length)) => {
                let x = AllowSliceInfo { address, length };
                assert(x.spec_wire() =~= b@);
                Some(x)
            },
            _ => {
                proof {
                    assert forall|x: AllowSliceInfo| x.spec_wire() != b@ by {
                        if x.spec_wire() == b@ {
                            assert(b@.subrange(0, 8) =~= word_bytes(x.address));
                            assert(b@.subrange(8, 16) =~= word_bytes(x.length));
                        }
                    }
                }
                None
            },
        }
    }

    proof fn lemma_wire_len(&self) {
        lemma_word_lens();
    }

    proof fn lemma_wire_injective(a: AllowSliceInfo, b: AllowSliceInfo) {
        lemma_word_lens();
        lemma_words_injective();
        let s = a.spec_wire();
        assert(s.subrange(0, 8) =~= word_bytes(a.address));
        assert(s.subrange(0, 8) =~= word_bytes(b.address));
        assert(s.subrange(8, 16) =~= word_bytes(a.length));
        assert(s.subrange(8, 16) =~= word_bytes(b.length));
    }
}

/// The header that precedes a record of type `T`.
pub open spec fn header_of<T: IntoIpcMsgType + WireRecord>() -> IpcMsgHeader {
    IpcMsgHeader::spec_for(T::spec_msg_type(), T::spec_len())
}

/// The two datagrams that carry `msg`: its header, then the record.
pub open spec fn msg_frames<T: IntoIpcMsgType + WireRecord>(msg: T) -> Seq<Seq<u8>> {
    seq![header_of::<T>().spec_wire(), msg.spec_wire()]
}

/// `hdr` is the wire form of a header that a receiver of a `T` accepts.
pub open spec fn header_ok<T: IntoIpcMsgType + WireRecord>(hdr: Seq<u8>) -> bool {
    exists|h: IpcMsgHeader| h.spec_wire() == hdr && h.spec_accepts(T::spec_msg_type(), T::spec_len())
}

/// The datagrams of `msg`, header first.
pub fn encode_msg<T: IntoIpcMsgType + WireRecord>(msg: &T) -> (r: (Vec<u8>, Vec<u8>))
    ensures
        seq![r.0@, r.1@] == msg_frames(*msg),
{
    let ty = T::to_ipc_msg_type();
    let hdr = IpcMsgHeader::new(T::wire_len(), ty.code());
    let h = hdr.to_wire();
    let b = msg.to_wire();
    assert(seq![h@, b@] =~= msg_frames(*msg));
    (h, b)
}

/// Decodes a received header datagram and checks it against the record `T`.
pub fn check_msg_header<T: IntoIpcMsgType + WireRecord>(hdr: &[u8]) -> (r: Result<
    (),
    ProtocolError,
>)
    ensures
        r is Ok <==> header_ok::<T>(hdr@),
        r == Err::<(), _>(ProtocolError::MalformedHeader) <==> hdr@.len() != HEADER_LEN,
        forall|h: IpcMsgHeader|
            #![trigger h.spec_wire()]
            h.spec_wire() == hdr@ && h.magic != IPC_MSG_HDR_MAGIC ==> r == Err::<(), _>(
                ProtocolError::BadMagic,
            ),
{
    match IpcMsgHeader::from_wire(hdr) {
        None => Err(ProtocolError::MalformedHeader),
        Some(h) => {
            let r = check_header(&h, T::to_ipc_msg_type(), T::wire_len());
            proof {
                lemma_word_lens();
                assert forall|g: IpcMsgHeader| g.spec_wire() == hdr@ implies g == h by {
                    IpcMsgHeader::lemma_wire_injective(g, h);
                }
            }
            r
        },
    }
}

/// Decodes a header datagram and the record datagram that follows it.
pub fn decode_msg<T: IntoIpcMsgType + WireRecord>(hdr: &[u8], payload: &[u8]) -> (r: Result<
    T,
    ProtocolError,
>)
    ensures
        match r {
            Ok(m) => header_ok::<T>(hdr@) && m.spec_wire() == payload@,
            Err(_) => !header_ok::<T>(hdr@) || forall|m: T| m.spec_wire() != payload@,
        },
{
    check_msg_header::<T>(hdr)?;
    match T::from_wire(payload) {
        Some(m) => Ok(m),
        None => Err(ProtocolError::MalformedRecord),
    }
}

/// Framing round trip: the header sent with a record of type `T` carries the
/// magic, the record's length and kind, and their 16-bit wrapping sum; a
/// receiver of a `T` accepts it, and the record it decodes is the one sent.
pub proof fn lemma_frame_round_trip<T: IntoIpcMsgType + WireRecord>(msg: T, decoded: T)
    ensures
        header_of::<T>().magic == IPC_MSG_HDR_MAGIC,
        header_of::<T>().msg_len == T::spec_len(),
        header_of::<T>().msg_len == msg.spec_wire().len(),
        header_of::<T>().msg_type == T::spec_msg_type().spec_code(),
        header_of::<T>().msg_cksum == checksum(
            IPC_MSG_HDR_MAGIC,
            T::spec_len(),
            T::spec_msg_type().spec_code(),
        ),
        header_ok::<T>(msg_frames(msg)[0]),
        decoded.spec_wire() == msg_frames(msg)[1] ==> decoded == msg,
{
    msg.lemma_wire_len();
    assert(header_of::<T>().spec_accepts(T::spec_msg_type(), T::spec_len()));
    if decoded.spec_wire() == msg.spec_wire() {
        T::lemma_wire_injective(decoded, msg);
    }
}

/// A header whose length, kind or checksum field has one bit flipped is
/// refused by the receiver that accepted the original.
pub proof fn lemma_bit_flip_rejected(h: IpcMsgHeader, ty: IpcMsgType, len: u16, bit: u16)
    requires
        h.spec_accepts(ty, len),
        bit < 16,
    ensures
        !(IpcMsgHeader { msg_len: h.msg_len ^ (1u16 << bit), ..h }).spec_accepts(ty, len),
        !(IpcMsgHeader { msg_type: h.msg_type ^ (1u16 << bit), ..h }).spec_accepts(ty, len),
        !(IpcMsgHeader { msg_cksum: h.msg_cksum ^ (1u16 << bit), ..h }).spec_accepts(ty, len),
{
    let (l, t, c) = (h.msg_len, h.msg_type, h.msg_cksum);
    assert(l ^ (1u16 << bit) != l) by (bit_vector)
        requires
            bit < 16,
    ;
    assert(t ^ (1u16 << bit) != t) by (bit_vector)
        requires
            bit < 16,
    ;
    assert(c ^ (1u16 << bit) != c) by (bit_vector)
        requires
            bit < 16,
    ;
}

/// A header without the magic is refused whatever record is expected.
pub proof fn lemma_magic_rejected(h: IpcMsgHeader, ty: IpcMsgType, len: u16)
    requires
        h.magic != IPC_MSG_HDR_MAGIC,
    ensures
        !h.spec_accepts(ty, len),
{
}

/// A header that names one kind of record is refused by a receiver that
/// expects another kind.
pub proof fn lemma_type_rejected(h: IpcMsgHeader, expected: IpcMsgType, named: IpcMsgType, len: u16)
    requires
        h.msg_type == named.spec_code(),
        expected != named,
    ensures
        !h.spec_accepts(expected, len),
{
}

} // verus!

//! One syscall round trip, split into what the application sends and a state
//! machine over what it receives.
use crate::config::AppConfig;
use crate::wire::{
    check_msg_header, encode_msg, header_of, header_ok, lemma_frame_round_trip, msg_frames,
    word_bytes, AllowSliceInfo, AllowsInfo, IntoIpcMsgType, KernelReturn, ProtocolError, Syscall,
    WireRecord, ALLOWS_INFO_LEN, ALLOW_SLICE_INFO_LEN, HEADER_LEN, KERNEL_RETURN_LEN,
};
use vstd::prelude::*;
use vstd::slice::slice_to_vec;

verus! {

/// Selector of the yield syscall.
pub const YIELD: usize = 0;

/// Selector of the subscribe syscall.
pub const SUBSCRIBE: usize = 1;

/// Selector of the command syscall.
pub const COMMAND: usize = 2;

/// Selector of the allow syscall.
pub const ALLOW: usize = 3;

/// Selector of the memop syscall.
pub const MEMOP: usize = 4;

impl Syscall {
    pub fn new_yieldk(config: &AppConfig) -> (r: Syscall)
        ensures
            r.identifier == config.identifier,
            r.syscall_number == YIELD,
            r.args@ == seq![0usize, 0, 0, 0],
    {
        let r = Syscall { identifier: config.identifier, syscall_number: YIELD, args: [0, 0, 0, 0] };
        assert(r.args@ =~= seq![0usize, 0, 0, 0]);
        r
    }

    /// `cb` is the address of the function that the kernel may later ask the
    /// application to run.
    pub fn new_subscribe(config: &AppConfig, major: usize, minor: usize, cb: usize, ud: usize) -> (r:
        Syscall)
        ensures
            r.identifier == config.identifier,
            r.syscall_number == SUBSCRIBE,
            r.args@ == seq![major, minor, cb, ud],
    {
        let r = Syscall {
            identifier: config.identifier,
            syscall_number: SUBSCRIBE,
            args: [major, minor, cb, ud],
        };
        assert(r.args@ =~= seq![major, minor, cb, ud]);
        r
    }

    pub fn new_command(config: &AppConfig, major: usize, minor: usize, arg1: usize, arg2: usize) -> (r:
        Syscall)
        ensures
            r.identifier == config.identifier,
            r.syscall_number == COMMAND,
            r.args@ == seq![major, minor, arg1, arg2],
    {
        let r = Syscall {
            identifier: config.identifier,
            syscall_number: COMMAND,
            args: [major, minor, arg1, arg2],
        };
        assert(r.args@ =~= seq![major, minor, arg1, arg2]);
        r
    }

    /// `slice` is the address of the region shared with the kernel and `len`
    /// its length in bytes.
    pub fn new_allow(config: &AppConfig, major: usize, minor: usize, slice: usize, len: usize) -> (r:
        Syscall)
        ensures
            r.identifier == config.identifier,
            r.syscall_number == ALLOW,
            r.args@ == seq![major, minor, slice, len],
    {
        let r = Syscall {
            identifier: config.identifier,
            syscall_number: ALLOW,
            args: [major, minor, slice, len],
        };
        assert(r.args@ =~= seq![major, minor, slice, len]);
        r
    }

    pub fn new_memop(config: &AppConfig, major: u32, arg1: usize) -> (r: Syscall)
        ensures
            r.identifier == config.identifier,
            r.syscall_number == MEMOP,
            r.args@ == seq![major as usize, arg1, 0, 0],
    {
        let r = Syscall {
            identifier: config.identifier,
            syscall_number: MEMOP,
            args: [major as usize, arg1, 0, 0],
        };
        assert(r.args@ =~= seq![major as usize, arg1, 0, 0]);
        r
    }

    /// The region that an allow request shares with the kernel.
    pub open spec fn spec_allowed_slice(self) -> AllowSliceInfo {
        AllowSliceInfo { address: self.args@[2], length: self.args@[3] }
    }
}

/// The byte contents of each datagram of a list.
pub open spec fn frames_view(v: Seq<Vec<u8>>) -> Seq<Seq<u8>> {
    v.map_values(|d: Vec<u8>| d@)
}

/// What follows an allow request: one slice descriptor, then the region's
/// current contents as a bare datagram.
pub open spec fn allow_frames(slice: AllowSliceInfo, contents: Seq<u8>) -> Seq<Seq<u8>> {
    msg_frames(AllowsInfo { number_of_slices: 1 }) + msg_frames(slice) + seq![contents]
}

/// Everything the application sends for `req`, in order, before it waits for
/// the kernel's answer. `contents` is what the shared region holds; only an
/// allow request ships it.
pub open spec fn request_frames(req: Syscall, contents: Seq<u8>) -> Seq<Seq<u8>> {
    if req.syscall_number == ALLOW {
        msg_frames(req) + allow_frames(req.spec_allowed_slice(), contents)
    } else {
        msg_frames(req)
    }
}

fn push_msg<T: IntoIpcMsgType + WireRecord>(out: &mut Vec<Vec<u8>>, msg: &T)
    ensures
        frames_view(final(out)@) == frames_view(old(out)@) + msg_frames(*msg),
{
    let (h, b) = encode_msg(msg);
    out.push(h);
    out.push(b);
    assert(frames_view(out@) =~= frames_view(old(out)@) + msg_frames(*msg));
}

/// The datagrams that share an allowed region with the kernel.
pub fn allow_slice_frames(req: &Syscall, contents: Vec<u8>) -> (r: Vec<Vec<u8>>)
    ensures
        frames_view(r@) == allow_frames(req.spec_allowed_slice(), contents@),
{
    let mut out: Vec<Vec<u8>> = Vec::new();
    push_msg(&mut out, &AllowsInfo { number_of_slices: 1 });
    push_msg(&mut out, &AllowSliceInfo { address: req.args[2], length: req.args[3] });
    let ghost before = out@;
    out.push(contents);
    assert(frames_view(out@) =~= frames_view(before) + seq![contents@]);
    assert(frames_view(out@) =~= allow_frames(req.spec_allowed_slice(), contents@));
    out
}

/// The datagrams of `req`, in the order they go to the kernel.
pub fn request_datagrams(req: &Syscall, contents: Vec<u8>) -> (r: Vec<Vec<u8>>)
    requires
        req.syscall_number == ALLOW ==> contents@.len() == req.args@[3],
    ensures
        frames_view(r@) == request_frames(*req, contents@),
{
    let mut out: Vec<Vec<u8>> = Vec::new();
    push_msg(&mut out, req);
    if req.syscall_number == ALLOW {
        let ghost before = out@;
        let mut rest = allow_slice_frames(req, contents);
        let ghost tail = rest@;
        out.append(&mut rest);
        assert(frames_view(out@) =~= frames_view(before) + frames_view(tail));
    }
    assert(frames_view(out@) =~= request_frames(*req, contents@));
    out
}

/// Identifier stamping: the first datagram after the header of every request,
/// allow or not, begins with the request's identifier, which each constructor
/// takes from the process's configuration.
pub proof fn lemma_identifier_on_wire(req: Syscall, contents: Seq<u8>)
    ensures
        request_frames(req, contents)[1].subrange(0, 8) == word_bytes(req.identifier),
{
    req.lemma_wire_len();
    vstd::bytes::lemma_auto_spec_u64_to_from_le_bytes();
    assert(request_frames(req, contents)[1] == req.spec_wire());
    assert(req.spec_wire().subrange(0, 8) =~= word_bytes(req.identifier));
}

/// Where the application stands while it takes in the kernel's answer.
#[derive(Clone, Copy, Debug, PartialEq, Eq)]
pub enum RecvPhase {
    /// Waiting for the header of the kernel return.
    ReturnHeader,
    /// Waiting for the kernel return itself.
    ReturnBody,
    /// Waiting for the header of the slice count.
    CountHeader { kr: KernelReturn },
    /// Waiting for the slice count.
    CountBody { kr: KernelReturn },
    /// Waiting for the header of a slice descriptor; `remaining` slices are
    /// still to come.
    SliceHeader { kr: KernelReturn, remaining: usize },
    /// Waiting for a slice descriptor.
    SliceBody { kr: KernelReturn, remaining: usize },
    /// Waiting for the contents of the slice that `slice` describes.
    SliceBytes { kr: KernelReturn, remaining: usize, slice: AllowSliceInfo },
    /// The answer is complete.
    Done { kr: KernelReturn },
}

/// Contents that the kernel hands back for an application region.
pub struct SliceWrite {
    pub address: usize,
    pub bytes: Vec<u8>,
}

/// A write as plain values: where, and what.
pub open spec fn write_view(w: Option<SliceWrite>) -> Option<(usize, Seq<u8>)> {
    match w {
        Some(w) => Some((w.address, w.bytes@)),
        None => None,
    }
}

impl RecvPhase {
    /// Counts of slices still to come are positive.
    pub open spec fn wf(self) -> bool {
        match self {
            RecvPhase::SliceHeader { remaining, .. } => remaining >= 1,
            RecvPhase::SliceBody { remaining, .. } => remaining >= 1,
            RecvPhase::SliceBytes { remaining, .. } => remaining >= 1,
            _ => true,
        }
    }

    /// Length of the datagram this phase waits for; none once done.
    pub open spec fn spec_expected_len(self) -> nat {
        match self {
            RecvPhase::ReturnHeader => HEADER_LEN as nat,
            RecvPhase::ReturnBody => KERNEL_RETURN_LEN as nat,
            RecvPhase::CountHeader { .. } => HEADER_LEN as nat,
            RecvPhase::CountBody { .. } => ALLOWS_INFO_LEN as nat,
            RecvPhase::SliceHeader { .. } => HEADER_LEN as nat,
            RecvPhase::SliceBody { .. } => ALLOW_SLICE_INFO_LEN as nat,
            RecvPhase::SliceBytes { slice, .. } => slice.length as nat,
            RecvPhase::Done { .. } => 0,
        }
    }

    /// The phase after slice `remaining` of a run has been written.
    pub open spec fn spec_after_slice(kr: KernelReturn, remaining: usize) -> RecvPhase {
        if remaining <= 1 {
            RecvPhase::Done { kr }
        } else {
            RecvPhase::SliceHeader { kr, remaining: (remaining - 1) as usize }
        }
    }

    /// The phase after the datagram `d` and what it asks to be written, or
    /// `None` where `d` breaks the protocol.
    pub open spec fn spec_step(self, d: Seq<u8>) -> Option<(RecvPhase, Option<(usize, Seq<u8>)>)> {
        match self {
            RecvPhase::ReturnHeader => if header_ok::<KernelReturn>(d) {
                Some((RecvPhase::ReturnBody, None))
            } else {
                None
            },
            RecvPhase::ReturnBody => if exists|kr: KernelReturn| kr.spec_wire() == d {
                let kr = choose|kr: KernelReturn| kr.spec_wire() == d;
                Some((RecvPhase::CountHeader { kr }, None))
            } else {
                None
            },
            RecvPhase::CountHeader { kr } => if header_ok::<AllowsInfo>(d) {
                Some((RecvPhase::CountBody { kr }, None))
            } else {
                None
            },
            RecvPhase::CountBody { kr } => if exists|c: AllowsInfo| c.spec_wire() == d {
                let c = choose|c: AllowsInfo| c.spec_wire() == d;
                if c.number_of_slices == 0 {
                    Some((RecvPhase::Done { kr }, None))
                } else {
                    Some((RecvPhase::SliceHeader { kr, remaining: c.number_of_slices }, None))
                }
            } else {
                None
            },
            RecvPhase::SliceHeader { kr, remaining } => if header_ok::<AllowSliceInfo>(d) {
                Some((RecvPhase::SliceBody { kr, remaining }, None))
            } else {
                None
            },
            RecvPhase::SliceBody { kr, remaining } => if exists|s: AllowSliceInfo| s.spec_wire() == d {
                let slice = choose|s: AllowSliceInfo| s.spec_wire() == d;
                Some((RecvPhase::SliceBytes { kr, remaining, slice }, None))
            } else {
                None
            },
            RecvPhase::SliceBytes { kr, remaining, slice } => if d.len() == slice.length {
                Some((RecvPhase::spec_after_slice(kr, remaining), Some((slice.address, d))))
            } else {
                None
            },
            RecvPhase::Done { .. } => None,
        }
    }

    /// Length of the datagram to receive next.
    pub fn expected_len(&self) -> (r: usize)
        ensures
            r == self.spec_expected_len(),
    {
        match self {
            RecvPhase::ReturnHeader => HEADER_LEN,
            RecvPhase::ReturnBody => KERNEL_RETURN_LEN,
            RecvPhase::CountHeader { .. } => HEADER_LEN,
            RecvPhase::CountBody { .. } => ALLOWS_INFO_LEN,
            RecvPhase::SliceHeader { .. } => HEADER_LEN,
            RecvPhase::SliceBody { .. } => ALLOW_SLICE_INFO_LEN,
            RecvPhase::SliceBytes { slice, .. } => slice.length,
            RecvPhase::Done { .. } => 0,
        }
    }

    pub fn is_done(&self) -> (r: bool)
        ensures
            r == self is Done,
    {
        match self {
            RecvPhase::Done { .. } => true,
            _ => false,
        }
    }

    /// Takes in one received datagram.
    pub fn step(&self, d: &[u8]) -> (r: Result<(RecvPhase, Option<SliceWrite>), ProtocolError>)
        ensures
            match r {
                Ok((next, w)) => self.spec_step(d@) == Some((next, write_view(w))) && (self.wf() ==> next.wf()),
                Err(_) => self.spec_step(d@) is None,
            },
    {
        match self {
            RecvPhase::ReturnHeader => {
                check_msg_header::<KernelReturn>(d)?;
                Ok((RecvPhase::ReturnBody, None))
            },
            RecvPhase::ReturnBody => match KernelReturn::from_wire(d) {
                Some(kr) => {
                    proof {
                        let c = choose|k: KernelReturn| k.spec_wire() == d@;
                        KernelReturn::lemma_wire_injective(c, kr);
                    }
                    Ok((RecvPhase::CountHeader { kr }, None))
                },
                None => Err(ProtocolError::MalformedRecord),
            },
            RecvPhase::CountHeader { kr } => {
                check_msg_header::<AllowsInfo>(d)?;
                Ok((RecvPhase::CountBody { kr: *kr }, None))
            },
            RecvPhase::CountBody { kr } => match AllowsInfo::from_wire(d) {
                Some(c) => {
                    proof {
                        let k = choose|k: AllowsInfo| k.spec_wire() == d@;
                        AllowsInfo::lemma_wire_injective(c, k);
                    }
                    if c.number_of_slices == 0 {
                        Ok((RecvPhase::Done { kr: *kr }, None))
                    } else {
                        Ok((RecvPhase::SliceHeader { kr: *kr, remaining: c.number_of_slices }, None))
                    }
                },
                None => Err(ProtocolError::MalformedRecord),
            },
            RecvPhase::SliceHeader { kr, remaining } => {
                check_msg_header::<AllowSliceInfo>(d)?;
                Ok((RecvPhase::SliceBody { kr: *kr, remaining: *remaining }, None))
            },
            RecvPhase::SliceBody { kr, remaining } => match AllowSliceInfo::from_wire(d) {
                Some(slice) => {
                    proof {
                        let k = choose|k: AllowSliceInfo| k.spec_wire() == d@;
                        AllowSliceInfo::lemma_wire_injective(slice, k);
                    }
                    Ok((RecvPhase::SliceBytes { kr: *kr, remaining: *remaining, slice }, None))
                },
                None => Err(ProtocolError::MalformedRecord),
            },
            RecvPhase::SliceBytes { kr, remaining, slice } => {
                if d.len() != slice.length {
                    return Err(ProtocolError::SliceLengthMismatch);
                }
                let next = if *remaining <= 1 {
                    RecvPhase::Done { kr: *kr }
                } else {
                    RecvPhase::SliceHeader { kr: *kr, remaining: *remaining - 1 }
                };
                let bytes = slice_to_vec(d);
                Ok((next, Some(SliceWrite { address: slice.address, bytes })))
            },
            RecvPhase::Done { .. } => Err(ProtocolError::MalformedRecord),
        }
    }
}

/// What the syscall returns once its answer is complete: zero where the
/// kernel asked for a callback, the kernel's return value otherwise.
pub open spec fn spec_facade_result(kr: KernelReturn) -> isize {
    if kr.cb.pc != 0 {
        0
    } else {
        kr.ret_val
    }
}

pub fn facade_result(kr: &KernelReturn) -> (r: isize)
    ensures
        r == spec_facade_result(*kr),
{
    if kr.cb.pc != 0 {
        0
    } else {
        kr.ret_val
    }
}

/// The phase and the writes, in order, after taking in `ds` from phase `p`;
/// `None` where some datagram breaks the protocol.
pub open spec fn run(p: RecvPhase, ds: Seq<Seq<u8>>) -> Option<(RecvPhase, Seq<(usize, Seq<u8>)>)>
    decreases ds.len(),
{
    if ds.len() == 0 {
        Some((p, seq![]))
    } else {
        match p.spec_step(ds[0]) {
            None => None,
            Some((q, w)) => match run(q, ds.drop_first()) {
                None => None,
                Some((f, ws)) => Some(
                    (
                        f,
                        match w {
                            Some(x) => seq![x] + ws,
                            None => ws,
                        },
                    ),
                ),
            },
        }
    }
}

/// The datagrams that hand back `slices`: for each, its descriptor, then its
/// contents.
pub open spec fn slice_frames(slices: Seq<(AllowSliceInfo, Seq<u8>)>) -> Seq<Seq<u8>>
    decreases slices.len(),
{
    if slices.len() == 0 {
        seq![]
    } else {
        msg_frames(slices[0].0) + seq![slices[0].1] + slice_frames(slices.drop_first())
    }
}

/// The kernel's whole answer: the kernel return, the slice count, the slices.
pub open spec fn response_frames(kr: KernelReturn, slices: Seq<(AllowSliceInfo, Seq<u8>)>) -> Seq<
    Seq<u8>,
> {
    msg_frames(kr) + msg_frames(AllowsInfo { number_of_slices: slices.len() as usize })
        + slice_frames(slices)
}

/// Each slice's contents are as long as its descriptor says.
pub open spec fn slices_fit(slices: Seq<(AllowSliceInfo, Seq<u8>)>) -> bool {
    forall|i: int| 0 <= i < slices.len() ==> #[trigger] slices[i].1.len() == slices[i].0.length
}

/// The writes that handing back `slices` asks for.
pub open spec fn slice_writes(slices: Seq<(AllowSliceInfo, Seq<u8>)>) -> Seq<(usize, Seq<u8>)> {
    slices.map_values(|s: (AllowSliceInfo, Seq<u8>)| (s.0.address, s.1))
}

proof fn lemma_run_append(p: RecvPhase, a: Seq<Seq<u8>>, b: Seq<Seq<u8>>)
    ensures
        run(p, a + b) == match run(p, a) {
            None => None,
            Some((q, w1)) => match run(q, b) {
                None => None,
                Some((f, w2)) => Some((f, w1 + w2)),
            },
        },
    decreases a.len(),
{
    if a.len() == 0 {
        assert(a + b =~= b);
        match run(p, b) {
            None => {},
            Some((f, w2)) => {
                assert(Seq::<(usize, Seq<u8>)>::empty() + w2 =~= w2);
            },
        }
    } else {
        assert((a + b)[0] == a[0]);
        assert((a + b).drop_first() =~= a.drop_first() + b);
        match p.spec_step(a[0]) {
            None => {},
            Some((q, w)) => {
                lemma_run_append(q, a.drop_first(), b);
                match run(q, a.drop_first()) {
                    None => {},
                    Some((g, ws1)) => {
                        match run(g, b) {
                            None => {},
                            Some((f, w2)) => {
                                match w {
                                    Some(x) => {
                                        assert(seq![x] + (ws1 + w2) =~= (seq![x] + ws1) + w2);
                                    },
                                    None => {},
                                }
                            },
                        }
                    },
                }
            },
        }
    }
}

proof fn lemma_run_msg<T: IntoIpcMsgType + WireRecord>(
    p: RecvPhase,
    header_next: RecvPhase,
    msg: T,
)
    requires
        p.spec_step(header_of::<T>().spec_wire()) == Some(
            (header_next, Option::<(usize, Seq<u8>)>::None),
        ),
    ensures
        run(p, msg_frames(msg)) == match header_next.spec_step(msg.spec_wire()) {
            None => None,
            Some((f, w)) => Some(
                (
                    f,
                    match w {
                        Some(x) => seq![x],
                        None => Seq::<(usize, Seq<u8>)>::empty(),
                    },
                ),
            ),
        },
{
    reveal_with_fuel(run, 3);
    let ds = msg_frames(msg);
    assert(ds.drop_first() =~= seq![msg.spec_wire()]);
    assert(ds.drop_first().drop_first() =~= Seq::<Seq<u8>>::empty());
    match header_next.spec_step(msg.spec_wire()) {
        None => {},
        Some((f, w)) => {
            match w {
                Some(x) => {
                    assert(seq![x] + Seq::<(usize, Seq<u8>)>::empty() =~= seq![x]);
                },
                None => {},
            }
        },
    }
}

proof fn lemma_run_slices(kr: KernelReturn, slices: Seq<(AllowSliceInfo, Seq<u8>)>)
    requires
        1 <= slices.len() <= usize::MAX,
        slices_fit(slices),
    ensures
        run(RecvPhase::SliceHeader { kr, remaining: slices.len() as usize }, slice_frames(slices))
            == Some((RecvPhase::Done { kr }, slice_writes(slices))),
    decreases slices.len(),
{
    let n = slices.len() as usize;
    let (info, contents) = slices[0];
    let rest = slices.drop_first();
    let p = RecvPhase::SliceHeader { kr, remaining: n };
    let q = RecvPhase::SliceBody { kr, remaining: n };
    let after = RecvPhase::spec_after_slice(kr, n);
    lemma_frame_round_trip(info, info);
    assert(p.spec_step(header_of::<AllowSliceInfo>().spec_wire()) == Some(
        (q, Option::<(usize, Seq<u8>)>::None),
    ));
    let c = choose|s: AllowSliceInfo| s.spec_wire() == info.spec_wire();
    AllowSliceInfo::lemma_wire_injective(c, info);
    lemma_run_msg(p, q, info);
    assert(contents.len() == info.length);
    let r = RecvPhase::SliceBytes { kr, remaining: n, slice: info };
    assert(run(r, seq![contents]) == Some((after, seq![(info.address, contents)]))) by {
        reveal_with_fuel(run, 2);
        assert(seq![contents].drop_first() =~= Seq::<Seq<u8>>::empty());
        assert(seq![(info.address, contents)] + Seq::<(usize, Seq<u8>)>::empty() =~= seq![
            (info.address, contents),
        ]);
    }
    lemma_run_append(p, msg_frames(info), seq![contents]);
    lemma_run_append(p, msg_frames(info) + seq![contents], slice_frames(rest));
    if slices.len() == 1 {
        assert(rest.len() == 0);
        assert(slice_frames(rest) =~= Seq::<Seq<u8>>::empty());
        assert(seq![(info.address, contents)] + Seq::<(usize, Seq<u8>)>::empty() =~= slice_writes(
            slices,
        ));
    } else {
        assert(slices_fit(rest)) by {
            assert forall|i: int| 0 <= i < rest.len() implies #[trigger] rest[i].1.len()
                == rest[i].0.length by {
                assert(rest[i] == slices[i + 1]);
            }
        }
        assert(rest.len() as usize == (n - 1) as usize);
        lemma_run_slices(kr, rest);
        assert(seq![(info.address, contents)] + slice_writes(rest) =~= slice_writes(slices));
    }
}

/// Response absorption and callback dispatch: taking in a kernel's whole
/// answer, with any number of slices whose contents are as long as their
/// descriptors say, ends the exchange with that kernel return, asks for the
/// slices' contents to be written at their addresses in order, and makes the
/// syscall return zero where a callback is named and the kernel's return
/// value otherwise.
pub proof fn lemma_response_absorbed(kr: KernelReturn, slices: Seq<(AllowSliceInfo, Seq<u8>)>)
    requires
        slices.len() <= usize::MAX,
        slices_fit(slices),
    ensures
        run(RecvPhase::ReturnHeader, response_frames(kr, slices)) == Some(
            (RecvPhase::Done { kr }, slice_writes(slices)),
        ),
        spec_facade_result(kr) == if kr.cb.pc != 0 {
            0
        } else {
            kr.ret_val
        },
{
    let n = slices.len() as usize;
    let count = AllowsInfo { number_of_slices: n };
    let p0 = RecvPhase::ReturnHeader;
    let p1 = RecvPhase::CountHeader { kr };
    let p2 = RecvPhase::CountBody { kr };
    lemma_frame_round_trip(kr, kr);
    let k = choose|k: KernelReturn| k.spec_wire() == kr.spec_wire();
    KernelReturn::lemma_wire_injective(k, kr);
    lemma_run_msg(p0, RecvPhase::ReturnBody, kr);
    lemma_frame_round_trip(count, count);
    let c = choose|c: AllowsInfo| c.spec_wire() == count.spec_wire();
    AllowsInfo::lemma_wire_injective(c, count);
    lemma_run_msg(p1, p2, count);
    lemma_run_append(p0, msg_frames(kr), msg_frames(count));
    lemma_run_append(p0, msg_frames(kr) + msg_frames(count), slice_frames(slices));
    assert(Seq::<(usize, Seq<u8>)>::empty() + Seq::<(usize, Seq<u8>)>::empty() =~= Seq::<
        (usize, Seq<u8>),
    >::empty());
    if n == 0 {
        assert(slice_frames(slices) =~= Seq::<Seq<u8>>::empty());
        assert(slice_writes(slices) =~= Seq::<(usize, Seq<u8>)>::empty());
    } else {
        lemma_run_slices(kr, slices);
        assert(Seq::<(usize, Seq<u8>)>::empty() + slice_writes(slices) =~= slice_writes(slices));
    }
}

} // verus!

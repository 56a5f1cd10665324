//! Frame codec and resynchronising receiver.
//!
//! ```text
//!   +------+------+-----+-----------+-----+---------------+------+------+
//!   | 0x46 | 0xB9 | DIR | LEN (BE16)| CMD |    PAYLOAD    | CKSM | 0x16 |
//!   +------+------+-----+-----------+-----+---------------+------+------+
//!      0      1      2      3   4      5     6 … n-3        n-2    n-1
//! ```
//!
//! * `LEN = n − 2`: it counts every byte after the magic, itself, the checksum
//!   and the terminator among them. There is **no escaping**, so a receiver
//!   finds the frame end from `LEN` and never scans for the terminator.
//! * `CKSM` is the low byte of the sum from `DIR` up to the last payload byte.
//!
//! Nothing here belongs to one chip family. A family whose checksum has
//! another width gets its own codec rather than a flag on this one.

use vstd::prelude::*;

use crate::text;
use crate::text::{
    chars_of, debug_str, parse_unsigned, push_decimal, push_hex_lower, split_words,
    string_of,
};

verus! {

/// Frame preamble.
pub const MAGIC: [u8; 2] = [0x46, 0xB9];

/// `DIR` byte in frames the host sends.
pub const DIR_HOST_TO_MCU: u8 = 0x6A;

/// `DIR` byte in frames the MCU sends.
pub const DIR_MCU_TO_HOST: u8 = 0x68;

/// Frame terminator. Redundant with `LEN`; never used for framing.
pub const TERMINATOR: u8 = 0x16;

/// Bytes of overhead around a payload: magic(2) + DIR(1) + LEN(2) + CMD(1)
/// + CKSM(1) + terminator(1).
pub const FRAME_OVERHEAD: usize = 8;

/// Smallest legal `LEN`: an empty-payload frame is 8 bytes long.
pub const MIN_LEN_FIELD: u16 = 6;

/// Largest `LEN` the receiver accepts while hunting. A bound for telling a
/// mis-sync from a frame, not a limit of the protocol.
pub const MAX_LEN_FIELD: u16 = 1024;

// --------------------------------------------------------------------- model

/// What a frame says, with its payload as a sequence.
pub struct FrameView {
    pub dir: Dir,
    pub cmd: u8,
    pub payload: Seq<u8>,
}

/// The sum of the bytes.
pub open spec fn byte_sum(s: Seq<u8>) -> nat
    decreases s.len(),
{
    if s.len() == 0 {
        0
    } else {
        byte_sum(s.drop_last()) + s.last() as nat
    }
}

/// The low byte of the sum of the bytes.
pub open spec fn sum8(s: Seq<u8>) -> u8 {
    (byte_sum(s) % 256) as u8
}

/// The 16-bit number that two bytes hold, most significant first.
pub open spec fn be16(hi: u8, lo: u8) -> u16 {
    (hi * 256 + lo) as u16
}

pub open spec fn hi8(n: u16) -> u8 {
    (n / 256) as u8
}

pub open spec fn lo8(n: u16) -> u8 {
    (n % 256) as u8
}

/// The `DIR` byte of a direction.
pub open spec fn dir_byte(d: Dir) -> u8 {
    match d {
        Dir::HostToMcu => DIR_HOST_TO_MCU,
        Dir::McuToHost => DIR_MCU_TO_HOST,
    }
}

/// The direction that a `DIR` byte stands for.
pub open spec fn byte_dir(b: u8) -> Option<Dir> {
    if b == DIR_HOST_TO_MCU {
        Some(Dir::HostToMcu)
    } else if b == DIR_MCU_TO_HOST {
        Some(Dir::McuToHost)
    } else {
        None
    }
}

impl FrameView {
    /// The `LEN` field: the wire length without the magic, in sixteen bits.
    pub open spec fn len_field(self) -> u16 {
        ((self.payload.len() + 6) % 0x1_0000) as u16
    }

    /// The bytes that the checksum covers: `DIR` up to the last payload byte.
    pub open spec fn body(self) -> Seq<u8> {
        seq![dir_byte(self.dir), hi8(self.len_field()), lo8(self.len_field()), self.cmd]
            + self.payload
    }

    /// The bytes that go on the wire.
    pub open spec fn encoded(self) -> Seq<u8> {
        seq![0x46u8, 0xB9u8] + self.body() + seq![sum8(self.body()), TERMINATOR]
    }

    /// An MCU frame that repeats a host frame with only `DIR` changed.
    pub open spec fn echoes(self, req: FrameView) -> bool {
        &&& self.dir == Dir::McuToHost
        &&& req.dir == Dir::HostToMcu
        &&& self.cmd == req.cmd
        &&& self.payload == req.payload
    }
}

/// The frame that a run of bytes is, or the first rule it breaks.
pub open spec fn decoded(b: Seq<u8>) -> Result<FrameView, FrameError> {
    let n = b.len();
    if n < 8 {
        Err(FrameError::TooShort(n as usize))
    } else if b[0] != 0x46 || b[1] != 0xB9 {
        Err(FrameError::BadMagic([b[0], b[1]]))
    } else if be16(b[3], b[4]) != (n - 2) % 0x1_0000 {
        Err(
            FrameError::BadLength {
                declared: be16(b[3], b[4]),
                actual: ((n - 2) % 0x1_0000) as u16,
            },
        )
    } else if b[n - 1] != TERMINATOR {
        Err(FrameError::BadTerminator(b[n - 1]))
    } else if b[n - 2] != sum8(b.subrange(2, n - 2)) {
        Err(FrameError::BadChecksum { computed: sum8(b.subrange(2, n - 2)), got: b[n - 2] })
    } else {
        match byte_dir(b[2]) {
            None => Err(FrameError::BadDir(b[2])),
            Some(dir) => Ok(FrameView { dir, cmd: b[5], payload: b.subrange(6, n - 2) }),
        }
    }
}

/// A result with the view of its value in place of the value.
pub open spec fn ok_view<T: View, E>(r: Result<T, E>) -> Result<T::V, E> {
    match r {
        Ok(t) => Ok(t@),
        Err(e) => Err(e),
    }
}

// --------------------------------------------------------------------- frame

/// Direction of a frame, as carried by the `DIR` byte.
#[derive(Clone, Copy, PartialEq, Eq, Debug, Structural)]
pub enum Dir {
    HostToMcu,
    McuToHost,
}

impl Dir {
    pub fn byte(self) -> (b: u8)
        ensures
            b == dir_byte(self),
    {
        match self {
            Dir::HostToMcu => DIR_HOST_TO_MCU,
            Dir::McuToHost => DIR_MCU_TO_HOST,
        }
    }

    pub fn from_byte(b: u8) -> (d: Option<Dir>)
        ensures
            d == byte_dir(b),
    {
        if b == DIR_HOST_TO_MCU {
            Some(Dir::HostToMcu)
        } else if b == DIR_MCU_TO_HOST {
            Some(Dir::McuToHost)
        } else {
            None
        }
    }
}

/// One decoded `46 B9 … 16` message.
///
/// `cmd` is formally the first payload byte; it is split out because every
/// frame has one and every dispatch decision is made on it.
#[derive(PartialEq, Eq, Debug)]
pub struct Frame {
    pub dir: Dir,
    pub cmd: u8,
    pub payload: Vec<u8>,
}

impl View for Frame {
    type V = FrameView;

    open spec fn view(&self) -> FrameView {
        FrameView { dir: self.dir, cmd: self.cmd, payload: self.payload@ }
    }
}

impl Clone for Frame {
    fn clone(&self) -> (f: Frame)
        ensures
            f@ == self@,
    {
        Frame { dir: self.dir, cmd: self.cmd, payload: copy_bytes(&self.payload) }
    }
}

/// A copy of some bytes.
pub(crate) fn copy_bytes(bytes: &[u8]) -> (r: Vec<u8>)
    ensures
        r@ == bytes@,
{
    let mut out: Vec<u8> = Vec::new();
    append_bytes(&mut out, bytes);
    assert(out@ =~= bytes@);
    out
}

/// Append some bytes.
pub(crate) fn append_bytes(out: &mut Vec<u8>, bytes: &[u8])
    ensures
        final(out)@ == old(out)@ + bytes@,
{
    out.extend_from_slice(bytes);
    assert(out@ =~= old(out)@ + bytes@);
}

/// Are two runs of bytes the same?
pub(crate) fn same_bytes(a: &Vec<u8>, b: &Vec<u8>) -> (r: bool)
    ensures
        r == (a@ == b@),
{
    let same: bool = a == b;
    assert(same ==> a@ =~= b@);
    same
}

/// The 16-bit number that two bytes hold, most significant first.
pub(crate) fn join_be16(hi: u8, lo: u8) -> (n: u16)
    ensures
        n == be16(hi, lo),
{
    hi as u16 * 256 + lo as u16
}

impl Frame {
    /// A frame the host will send.
    pub fn host(cmd: u8, payload: Vec<u8>) -> (f: Frame)
        ensures
            f@ == (FrameView { dir: Dir::HostToMcu, cmd, payload: payload@ }),
    {
        Frame { dir: Dir::HostToMcu, cmd, payload }
    }

    /// A frame the MCU sent.
    pub fn mcu(cmd: u8, payload: Vec<u8>) -> (f: Frame)
        ensures
            f@ == (FrameView { dir: Dir::McuToHost, cmd, payload: payload@ }),
    {
        Frame { dir: Dir::McuToHost, cmd, payload }
    }

    /// Total wire length `n`.
    pub fn wire_len(&self) -> (n: usize)
        requires
            self@.payload.len() + FRAME_OVERHEAD <= usize::MAX,
        ensures
            n == self@.encoded().len(),
    {
        self.payload.len() + FRAME_OVERHEAD
    }

    /// The `LEN` field value: `n − 2`, in sixteen bits.
    pub fn len_field(&self) -> (len: u16)
        ensures
            len == self@.len_field(),
    {
        let low: u64 = (self.payload.len() as u64) % 0x1_0000;
        ((low + 6) % 0x1_0000) as u16
    }

    /// Serialise to the exact bytes that go on the wire.
    pub fn encode(&self) -> (out: Vec<u8>)
        ensures
            out@ == self@.encoded(),
    {
        let len: u16 = self.len_field();
        let mut body: Vec<u8> = Vec::new();
        body.push(self.dir.byte());
        body.push((len / 256) as u8);
        body.push((len % 256) as u8);
        body.push(self.cmd);
        append_bytes(&mut body, &self.payload);
        assert(body@ =~= self@.body());
        let mut out: Vec<u8> = Vec::new();
        out.push(MAGIC[0]);
        out.push(MAGIC[1]);
        append_bytes(&mut out, &body);
        out.push(checksum(&body));
        out.push(TERMINATOR);
        assert(out@ =~= self@.encoded());
        out
    }

    /// Parse one complete frame from exactly its own bytes.
    ///
    /// Callers that read from a wire should use [`Receiver`] instead: it hunts
    /// for the preamble.
    pub fn decode(bytes: &[u8]) -> (r: Result<Frame, FrameError>)
        ensures
            ok_view(r) == decoded(bytes@),
    {
        let n: usize = bytes.len();
        if n < FRAME_OVERHEAD {
            return Err(FrameError::TooShort(n));
        }
        if bytes[0] != MAGIC[0] || bytes[1] != MAGIC[1] {
            return Err(FrameError::BadMagic([bytes[0], bytes[1]]));
        }
        let declared: u16 = join_be16(bytes[3], bytes[4]);
        let actual: u16 = ((n - 2) as u64 % 0x1_0000) as u16;
        if declared != actual {
            return Err(FrameError::BadLength { declared, actual });
        }
        if bytes[n - 1] != TERMINATOR {
            return Err(FrameError::BadTerminator(bytes[n - 1]));
        }
        let got: u8 = bytes[n - 2];
        let computed: u8 = checksum(vstd::slice::slice_subrange(bytes, 2, n - 2));
        if got != computed {
            return Err(FrameError::BadChecksum { computed, got });
        }
        match Dir::from_byte(bytes[2]) {
            None => Err(FrameError::BadDir(bytes[2])),
            Some(dir) => Ok(
                Frame {
                    dir,
                    cmd: bytes[5],
                    payload: copy_bytes(vstd::slice::slice_subrange(bytes, 6, n - 2)),
                },
            ),
        }
    }

    /// `true` if this frame is a byte-for-byte echo of `req` with only `DIR`
    /// swapped.
    ///
    /// The checksums of such a pair differ by exactly 2, because only `DIR`
    /// changed.
    pub fn is_echo_of(&self, req: &Frame) -> (r: bool)
        ensures
            r == self@.echoes(req@),
    {
        self.dir == Dir::McuToHost && req.dir == Dir::HostToMcu && self.cmd == req.cmd
            && same_bytes(&self.payload, &req.payload)
    }

    /// One line about the frame: its direction, its command and its payload.
    pub fn describe(&self) -> (r: String)
        ensures
            r@ == frame_text(self@),
    {
        let mut s: String = "Frame { ".to_owned();
        match self.dir {
            Dir::HostToMcu => s.append("host->mcu"),
            Dir::McuToHost => s.append("mcu->host"),
        }
        s.append(" cmd=0x");
        push_hex_lower(&mut s, self.cmd as u64, 2);
        s.append(" payload=");
        s.append(hex(&self.payload).as_str());
        s.append(" }");
        s
    }
}

/// One line about a frame.
pub open spec fn frame_text(f: FrameView) -> Seq<char> {
    "Frame { "@ + (match f.dir {
        Dir::HostToMcu => "host->mcu"@,
        Dir::McuToHost => "mcu->host"@,
    }) + " cmd=0x"@ + text::hex_lower(f.cmd as nat, 2) + " payload="@ + hex_text(f.payload) + " }"@
}

/// The low byte of the sum of `body`.
pub fn checksum(body: &[u8]) -> (c: u8)
    ensures
        c == sum8(body@),
{
    let mut sum: u8 = 0;
    let mut i: usize = 0;
    while i < body.len()
        invariant
            0 <= i <= body.len(),
            sum == sum8(body@.take(i as int)),
        decreases body.len() - i,
    {
        assert(body@.take(i + 1).drop_last() =~= body@.take(i as int));
        sum = sum.wrapping_add(body[i]);
        i = i + 1;
    }
    assert(body@.take(body@.len() as int) =~= body@);
    sum
}

// ----------------------------------------------------------------- hex dumps

/// Bytes as two lower-case hexadecimal digits each, a space between each two.
pub open spec fn hex_text(b: Seq<u8>) -> Seq<char>
    decreases b.len(),
{
    if b.len() == 0 {
        seq![]
    } else if b.len() == 1 {
        text::hex_lower(b[0] as nat, 2)
    } else {
        hex_text(b.drop_last()).push(' ') + text::hex_lower(b.last() as nat, 2)
    }
}

/// The bytes that some words denote, or what is wrong with the first word
/// that denotes none.
pub open spec fn unhexed(ws: Seq<Seq<char>>) -> Result<Seq<u8>, Seq<char>>
    decreases ws.len(),
{
    if ws.len() == 0 {
        Ok(seq![])
    } else {
        match unhexed(ws.drop_last()) {
            Err(e) => Err(e),
            Ok(v) => match text::parsed_unsigned(ws.last(), 16, 255) {
                Some(n) => Ok(v.push(n as u8)),
                None => Err("bad hex byte "@ + text::quoted_str(ws.last())),
            },
        }
    }
}

/// Lower-case, space-separated hex.
pub fn hex(bytes: &[u8]) -> (s: String)
    ensures
        s@ == hex_text(bytes@),
{
    let mut s: String = String::new();
    let mut i: usize = 0;
    assert(s@ =~= hex_text(bytes@.take(0)));
    while i < bytes.len()
        invariant
            0 <= i <= bytes.len(),
            s@ == hex_text(bytes@.take(i as int)),
        decreases bytes.len() - i,
    {
        assert(bytes@.take(i + 1).drop_last() =~= bytes@.take(i as int));
        if i > 0 {
            s.push(' ');
        }
        push_hex_lower(&mut s, bytes[i] as u64, 2);
        assert(s@ =~= hex_text(bytes@.take(i + 1)));
        i = i + 1;
    }
    assert(bytes@.take(bytes@.len() as int) =~= bytes@);
    s
}

/// Once a word is bad, what follows it changes nothing.
proof fn lemma_unhexed_stops(ws: Seq<Seq<char>>, i: int)
    requires
        0 <= i <= ws.len(),
        unhexed(ws.take(i)) is Err,
    ensures
        unhexed(ws) == unhexed(ws.take(i)),
    decreases ws.len() - i,
{
    if i == ws.len() {
        assert(ws.take(i) =~= ws);
    } else {
        assert(ws.take(i + 1).drop_last() =~= ws.take(i));
        lemma_unhexed_stops(ws, i + 1);
    }
}

/// Parse a `"46 b9 …"` hex string.
pub fn unhex(s: &str) -> (r: Result<Vec<u8>, String>)
    ensures
        match r {
            Ok(v) => unhexed(text::words(s@)) == Ok::<Seq<u8>, Seq<char>>(v@),
            Err(e) => unhexed(text::words(s@)) == Err::<Seq<u8>, Seq<char>>(e@),
        },
{
    let tokens: Vec<Vec<char>> = split_words(&chars_of(s));
    let ghost ws = text::words(s@);
    let mut out: Vec<u8> = Vec::new();
    let mut i: usize = 0;
    while i < tokens.len()
        invariant
            0 <= i <= tokens.len(),
            text::views(tokens@) == ws,
            ws == text::words(s@),
            unhexed(ws.take(i as int)) == Ok::<Seq<u8>, Seq<char>>(out@),
        decreases tokens.len() - i,
    {
        proof {
            assert(ws.take(i + 1).drop_last() =~= ws.take(i as int));
            assert(ws.take(i + 1).last() == tokens@[i as int]@);
        }
        match parse_unsigned(&tokens[i], 16, 255) {
            Some(n) => {
                out.push(n as u8);
            },
            None => {
                let mut e: String = "bad hex byte ".to_owned();
                e.append(debug_str(string_of(&tokens[i]).as_str()).as_str());
                proof {
                    lemma_unhexed_stops(ws, i + 1);
                }
                return Err(e);
            },
        }
        i = i + 1;
    }
    assert(ws.take(ws.len() as int) =~= ws);
    Ok(out)
}

// -------------------------------------------------------------------- errors

#[derive(Clone, Copy, PartialEq, Eq, Debug)]
pub enum FrameError {
    TooShort(usize),
    BadMagic([u8; 2]),
    BadLength { declared: u16, actual: u16 },
    BadTerminator(u8),
    BadChecksum { computed: u8, got: u8 },
    BadDir(u8),
    /// `LEN` outside [`MIN_LEN_FIELD`, `MAX_LEN_FIELD`]: a mis-sync rather
    /// than a frame (see [`Receiver`]).
    ImplausibleLength(u16),
}

/// What a frame error says to a reader.
pub open spec fn frame_error_text(e: FrameError) -> Seq<char> {
    match e {
        FrameError::TooShort(n) => "frame too short ("@ + text::decimal(n as nat) + " bytes)"@,
        FrameError::BadMagic(m) => "bad magic "@ + text::hex_lower(m@[0] as nat, 2) + " "@ + text::hex_lower(
            m@[1] as nat,
            2,
        ),
        FrameError::BadLength { declared, actual } => "bad length: declared "@ + text::decimal(
            declared as nat,
        ) + ", actual "@ + text::decimal(actual as nat),
        FrameError::BadTerminator(b) => "bad terminator 0x"@ + text::hex_lower(b as nat, 2)
            + " (want 0x16)"@,
        FrameError::BadChecksum { computed, got } => "bad checksum: computed 0x"@ + text::hex_lower(
            computed as nat,
            2,
        ) + ", got 0x"@ + text::hex_lower(got as nat, 2),
        FrameError::BadDir(b) => "unknown direction byte 0x"@ + text::hex_lower(b as nat, 2),
        FrameError::ImplausibleLength(l) => "implausible LEN "@ + text::decimal(l as nat),
    }
}

impl FrameError {
    /// The error as a sentence.
    pub fn message(&self) -> (r: String)
        ensures
            r@ == frame_error_text(*self),
    {
        match self {
            FrameError::TooShort(n) => {
                let mut s: String = "frame too short (".to_owned();
                push_decimal(&mut s, *n as u64);
                s.append(" bytes)");
                s
            },
            FrameError::BadMagic(m) => {
                let mut s: String = "bad magic ".to_owned();
                push_hex_lower(&mut s, m[0] as u64, 2);
                s.append(" ");
                push_hex_lower(&mut s, m[1] as u64, 2);
                s
            },
            FrameError::BadLength { declared, actual } => {
                let mut s: String = "bad length: declared ".to_owned();
                push_decimal(&mut s, *declared as u64);
                s.append(", actual ");
                push_decimal(&mut s, *actual as u64);
                s
            },
            FrameError::BadTerminator(b) => {
                let mut s: String = "bad terminator 0x".to_owned();
                push_hex_lower(&mut s, *b as u64, 2);
                s.append(" (want 0x16)");
                s
            },
            FrameError::BadChecksum { computed, got } => {
                let mut s: String = "bad checksum: computed 0x".to_owned();
                push_hex_lower(&mut s, *computed as u64, 2);
                s.append(", got 0x");
                push_hex_lower(&mut s, *got as u64, 2);
                s
            },
            FrameError::BadDir(b) => {
                let mut s: String = "unknown direction byte 0x".to_owned();
                push_hex_lower(&mut s, *b as u64, 2);
                s
            },
            FrameError::ImplausibleLength(l) => {
                let mut s: String = "implausible LEN ".to_owned();
                push_decimal(&mut s, *l as u64);
                s
            },
        }
    }
}

// ------------------------------------------------------------------ receiver

/// What the receiver makes of the bytes it stands on.
pub enum Verdict {
    /// No frame starts here: the first byte is noise.
    Reject,
    /// A frame may start here; more bytes will tell.
    NeedMore,
    /// A frame header with a plausible length, and that many bytes behind it.
    Candidate(nat),
}

/// Does a frame start at the first byte of `b`? Only what is certain from the
/// bytes at hand is decided: the rest is left to later bytes.
pub open spec fn verdict(b: Seq<u8>) -> Verdict {
    if b.len() == 0 {
        Verdict::NeedMore
    } else if b[0] != 0x46 {
        Verdict::Reject
    } else if b.len() < 2 {
        Verdict::NeedMore
    } else if b[1] != 0xB9 {
        Verdict::Reject
    } else if b.len() < 5 {
        Verdict::NeedMore
    } else if !(MIN_LEN_FIELD <= be16(b[3], b[4]) <= MAX_LEN_FIELD) {
        Verdict::Reject
    } else if b.len() < be16(b[3], b[4]) + 2 {
        Verdict::NeedMore
    } else {
        Verdict::Candidate((be16(b[3], b[4]) + 2) as nat)
    }
}

/// How many bytes of noise `b` begins with.
pub open spec fn noise_len(b: Seq<u8>) -> nat
    decreases b.len(),
{
    if b.len() > 0 && verdict(b) is Reject {
        1 + noise_len(b.drop_first())
    } else {
        0
    }
}

/// A receiver: the bytes it holds, and those it has thrown away.
pub struct ReceiverView {
    pub buf: Seq<u8>,
    pub discarded: Seq<u8>,
}

/// What one pull hands out, how many bytes it throws away, and how many it
/// takes as a frame behind those.
pub struct Pull {
    pub out: Option<Result<FrameView, FrameError>>,
    pub dropped: nat,
    pub taken: nat,
}

/// What pulling a frame from buffered bytes comes to.
pub open spec fn pull(buf: Seq<u8>) -> Pull {
    let k = noise_len(buf);
    let rest = buf.skip(k as int);
    match verdict(rest) {
        Verdict::Candidate(n) => match decoded(rest.take(n as int)) {
            Ok(f) => Pull { out: Some(Ok(f)), dropped: k, taken: n },
            Err(e) => Pull { out: Some(Err(e)), dropped: k + 1, taken: 0 },
        },
        _ => Pull { out: None, dropped: k, taken: 0 },
    }
}

impl ReceiverView {
    /// The receiver after a pull.
    pub open spec fn pulled(self) -> ReceiverView {
        let p = pull(self.buf);
        ReceiverView {
            buf: self.buf.skip((p.dropped + p.taken) as int),
            discarded: self.discarded + self.buf.take(p.dropped as int),
        }
    }
}

/// Noise, and the bytes behind it, never outnumber the bytes there are; what
/// stands behind the noise is not noise.
pub(crate) proof fn lemma_noise_len(b: Seq<u8>)
    ensures
        noise_len(b) <= b.len(),
        !(verdict(b.skip(noise_len(b) as int)) is Reject),
    decreases b.len(),
{
    if b.len() > 0 && verdict(b) is Reject {
        lemma_noise_len(b.drop_first());
        let k = noise_len(b.drop_first()) as int;
        assert(b.drop_first().skip(k) =~= b.skip(k + 1));
    } else {
        assert(b.skip(0) =~= b);
    }
}

/// A pull uses no byte that is not there, and one that hands something out
/// uses at least one.
pub proof fn lemma_pull_bounds(buf: Seq<u8>)
    ensures
        pull(buf).dropped + pull(buf).taken <= buf.len(),
        pull(buf).out is Some ==> pull(buf).dropped + pull(buf).taken > 0,
{
    lemma_noise_len(buf);
}

/// A resynchronising byte-stream decoder.
///
/// The application on the chip prints on the same UART, so noise before a
/// frame is the normal case: while the host waits for a bootloader, an
/// application's output arrives misframed at another rate. Nothing keeps the
/// noise from holding `0x46` or `0xB9`, so a failed length or checksum check
/// re-hunts from the *next* byte rather than giving up or trusting the header.
pub struct Receiver {
    buf: Vec<u8>,
    discarded: Vec<u8>,
}

impl View for Receiver {
    type V = ReceiverView;

    closed spec fn view(&self) -> ReceiverView {
        ReceiverView { buf: self.buf@, discarded: self.discarded@ }
    }
}

impl Default for Receiver {
    fn default() -> (rx: Receiver)
        ensures
            rx@ == (ReceiverView { buf: seq![], discarded: seq![] }),
    {
        Receiver { buf: Vec::new(), discarded: Vec::new() }
    }
}

/// What stands at the front of the buffer once the noise is gone.
enum Hunt {
    NeedMore,
    Frame(usize),
}

impl Receiver {
    pub fn new() -> (rx: Receiver)
        ensures
            rx@ == (ReceiverView { buf: seq![], discarded: seq![] }),
    {
        Receiver::default()
    }

    /// Take in bytes as they come off the wire.
    pub fn feed(&mut self, bytes: &[u8])
        ensures
            final(self)@ == (ReceiverView { buf: old(self)@.buf + bytes@, ..old(self)@ }),
    {
        append_bytes(&mut self.buf, bytes);
    }

    /// Bytes thrown away since the last [`Receiver::take_discarded`], in
    /// order.
    pub fn take_discarded(&mut self) -> (d: Vec<u8>)
        ensures
            d@ == old(self)@.discarded,
            final(self)@ == (ReceiverView { discarded: seq![], ..old(self)@ }),
    {
        let mut taken: Vec<u8> = Vec::new();
        std::mem::swap(&mut taken, &mut self.discarded);
        taken
    }

    pub fn discarded_len(&self) -> (n: usize)
        ensures
            n == self@.discarded.len(),
    {
        self.discarded.len()
    }

    /// Bytes buffered but not yet forming a complete frame.
    pub fn pending(&self) -> (n: usize)
        ensures
            n == self@.buf.len(),
    {
        self.buf.len()
    }

    /// Pull the next complete, valid frame, discarding anything that is not
    /// one. Returns `None` when more bytes are needed.
    ///
    /// A structurally-plausible frame that fails validation is reported once
    /// as `Some(Err(..))` and the stream is advanced by a single byte, so the
    /// caller learns about corruption without losing the ability to resync.
    pub fn next_frame(&mut self) -> (r: Option<Result<Frame, FrameError>>)
        ensures
            match r {
                None => pull(old(self)@.buf).out is None,
                Some(res) => pull(old(self)@.buf).out == Some(ok_view(res)),
            },
            final(self)@ == old(self)@.pulled(),
    {
        let ghost start = self@;
        let ghost k = noise_len(start.buf) as int;
        match self.hunt() {
            Hunt::NeedMore => {
                assert(self@ == start.pulled());
                None
            },
            Hunt::Frame(n) => {
                let ghost rest = self.buf@;
                let res = Frame::decode(vstd::slice::slice_subrange(self.buf.as_slice(), 0, n));
                assert(rest.subrange(0, n as int) =~= rest.take(n as int));
                match res {
                    Ok(f) => {
                        let tail: Vec<u8> = self.buf.split_off(n);
                        self.buf = tail;
                        assert(self.buf@ =~= start.buf.skip(k + n));
                        Some(Ok(f))
                    },
                    Err(e) => {
                        // Drop only the leading 0x46 and keep hunting from
                        // inside the bad run.
                        let lead: u8 = self.buf.remove(0);
                        self.discarded.push(lead);
                        assert(self.buf@ =~= start.buf.skip(k + 1));
                        assert(self.discarded@ =~= start.discarded + start.buf.take(k + 1));
                        Some(Err(e))
                    },
                }
            },
        }
    }

    /// Drop the noise in front of the first possible frame.
    fn hunt(&mut self) -> (h: Hunt)
        ensures
            final(self).buf@ == old(self).buf@.skip(noise_len(old(self).buf@) as int),
            final(self).discarded@ == old(self).discarded@ + old(self).buf@.take(
                noise_len(old(self).buf@) as int,
            ),
            noise_len(old(self).buf@) <= old(self).buf@.len(),
            match h {
                Hunt::NeedMore => verdict(final(self).buf@) is NeedMore,
                Hunt::Frame(n) => verdict(final(self).buf@) == Verdict::Candidate(n as nat) && n
                    <= final(self).buf@.len(),
            },
    {
        let ghost buf0 = self.buf@;
        let ghost discarded0 = self.discarded@;
        let ghost mut k: int = 0;
        assert(buf0.skip(0) =~= buf0);
        assert(discarded0 + buf0.take(0) =~= discarded0);
        loop
            invariant
                0 <= k <= buf0.len(),
                self.buf@ == buf0.skip(k),
                self.discarded@ == discarded0 + buf0.take(k),
                noise_len(buf0) == k + noise_len(buf0.skip(k)),
                buf0 == old(self).buf@,
                discarded0 == old(self).discarded@,
            decreases self.buf@.len(),
        {
            if self.buf.len() == 0 {
                return Hunt::NeedMore;
            }
            let mut noise: bool = self.buf[0] != MAGIC[0];
            if !noise {
                if self.buf.len() < 2 {
                    return Hunt::NeedMore;
                }
                // A lone 0x46 in the noise is dropped by itself: the next byte
                // may be the real 0x46.
                noise = self.buf[1] != MAGIC[1];
            }
            if !noise {
                if self.buf.len() < 5 {
                    return Hunt::NeedMore;
                }
                let declared: u16 = join_be16(self.buf[3], self.buf[4]);
                if MIN_LEN_FIELD <= declared && declared <= MAX_LEN_FIELD {
                    let n: usize = declared as usize + 2;
                    if self.buf.len() < n {
                        return Hunt::NeedMore;
                    }
                    return Hunt::Frame(n);
                }
            }
            proof {
                let cur = buf0.skip(k);
                assert(verdict(cur) is Reject);
                assert(cur.drop_first() =~= buf0.skip(k + 1));
                assert(cur.remove(0) =~= buf0.skip(k + 1));
                assert(buf0.take(k + 1) =~= buf0.take(k).push(buf0[k]));
            }
            let lead: u8 = self.buf.remove(0);
            self.discarded.push(lead);
            proof {
                assert(self.discarded@ =~= discarded0 + buf0.take(k + 1));
                k = k + 1;
            }
        }
    }
}

} // verus!

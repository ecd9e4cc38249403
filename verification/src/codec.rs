//! Frame codec: encoding a payload into a framed byte sequence, and the
//! synchronization state machine that recovers frames from a possibly
//! misaligned byte stream.

use vstd::prelude::*;

verus! {

/// First byte of the fixed synchronization preamble.
pub const PREAMBLE_0: u8 = 0xF0;
/// Second byte of the fixed synchronization preamble.
pub const PREAMBLE_1: u8 = 0x0F;
/// Third byte of the fixed synchronization preamble.
pub const PREAMBLE_2: u8 = 0x0F;
/// Fourth byte of the fixed synchronization preamble.
pub const PREAMBLE_3: u8 = 0xF0;

/// On-wire overhead counted into the length field: 4 preamble bytes,
/// 2 length bytes and 4 trailer bytes.
pub const FRAME_OVERHEAD: u16 = 10;

/// Largest payload a single frame may carry.
pub const MAX_MTU: usize = 1500;

/// Largest total frame size: `MAX_MTU` plus the 10 bytes of overhead.
pub const MAX_FRAME_SIZE: usize = 1510;

/// The 4-byte trailer is a fixed sentinel, not a computed integrity code:
/// any 4 bytes are accepted on decode. This placeholder policy is kept on
/// purpose for wire compatibility; a computed checksum could replace these
/// constants (and the acceptance rule) without touching the synchronization
/// state machine.
pub const TRAILER_0: u8 = 0xCC;
/// Second trailer byte of the fixed sentinel.
pub const TRAILER_1: u8 = 0x32;
/// Third trailer byte of the fixed sentinel.
pub const TRAILER_2: u8 = 0xCC;
/// Fourth trailer byte of the fixed sentinel.
pub const TRAILER_3: u8 = 0x32;

/// Errors of the codec.
#[derive(Clone, Copy, Debug, PartialEq, Eq, Structural)]
pub enum ZError {
    /// Encode-time: the payload exceeds `MAX_MTU`; nothing is written.
    PayloadTooLarge,
    /// Decode-time: the destination buffer is smaller than `MAX_MTU`;
    /// nothing is read.
    BufferTooSmall,
    /// Decode-time: the length field is internally inconsistent (below the
    /// overhead) or implies a payload that cannot fit the destination.
    InvalidFrame,
    /// The stream ended inside a frame (the in-memory analogue of a short
    /// read on a live transport).
    TransportError,
}

/// State of the preamble hunt. `Seek<i>` means the next stream byte is
/// tested against the `i`-th preamble byte; `Done` means all four preamble
/// bytes have just been matched.
#[derive(Clone, Copy, Debug, PartialEq, Eq, Structural)]
pub enum SyncState {
    Seek0,
    Seek1,
    Seek2,
    Seek3,
    Done,
}

/// One transition of the preamble hunt.
///
/// On a mismatch in `Seek1`..`Seek3` the search restarts at `Seek0` with the
/// same byte as a fresh candidate start (so a genuine preamble beginning at
/// the mismatched byte is not lost). `Done` is absorbing.
pub open spec fn spec_sync_step(st: SyncState, b: u8) -> SyncState {
    match st {
        SyncState::Seek0 => if b == PREAMBLE_0 {
            SyncState::Seek1
        } else {
            SyncState::Seek0
        },
        SyncState::Seek1 => if b == PREAMBLE_1 {
            SyncState::Seek2
        } else if b == PREAMBLE_0 {
            SyncState::Seek1
        } else {
            SyncState::Seek0
        },
        SyncState::Seek2 => if b == PREAMBLE_2 {
            SyncState::Seek3
        } else if b == PREAMBLE_0 {
            SyncState::Seek1
        } else {
            SyncState::Seek0
        },
        SyncState::Seek3 => if b == PREAMBLE_3 {
            SyncState::Done
        } else {
            SyncState::Seek0
        },
        SyncState::Done => SyncState::Done,
    }
}

/// Feed one stream byte to the preamble hunt.
pub fn sync_step(st: SyncState, b: u8) -> (r: SyncState)
    ensures
        r == spec_sync_step(st, b),
{
    match st {
        SyncState::Seek0 => if b == PREAMBLE_0 {
            SyncState::Seek1
        } else {
            SyncState::Seek0
        },
        SyncState::Seek1 => if b == PREAMBLE_1 {
            SyncState::Seek2
        } else if b == PREAMBLE_0 {
            SyncState::Seek1
        } else {
            SyncState::Seek0
        },
        SyncState::Seek2 => if b == PREAMBLE_2 {
            SyncState::Seek3
        } else if b == PREAMBLE_0 {
            SyncState::Seek1
        } else {
            SyncState::Seek0
        },
        SyncState::Seek3 => if b == PREAMBLE_3 {
            SyncState::Done
        } else {
            SyncState::Seek0
        },
        SyncState::Done => SyncState::Done,
    }
}

/// State of the preamble hunt after feeding it every byte of `s`, starting
/// from `st`.
pub open spec fn scan_state(s: Seq<u8>, st: SyncState) -> SyncState
    decreases s.len(),
{
    if s.len() == 0 {
        st
    } else {
        scan_state(s.skip(1), spec_sync_step(st, s[0]))
    }
}

/// Number of bytes the preamble hunt consumes from `s`, starting in `st`,
/// before it completes; `None` if it never completes within `s`.
pub open spec fn hunt(s: Seq<u8>, st: SyncState) -> Option<int>
    decreases s.len(),
{
    if st == SyncState::Done {
        Some(0)
    } else if s.len() == 0 {
        None
    } else {
        match hunt(s.skip(1), spec_sync_step(st, s[0])) {
            Some(k) => Some(1 + k),
            None => None,
        }
    }
}

/// The framed byte sequence carrying payload `p`: preamble, little-endian
/// length field holding `p.len() + 10`, payload, trailer sentinel.
/// (Meaningful for `p.len() <= MAX_MTU`; the length field wraps above
/// `u16::MAX`, which the encoder never lets happen.)
pub open spec fn spec_encode(p: Seq<u8>) -> Seq<u8> {
    seq![
        PREAMBLE_0,
        PREAMBLE_1,
        PREAMBLE_2,
        PREAMBLE_3,
        (((p.len() + 10) as nat % 256) as u8),
        (((p.len() + 10) as nat / 256) as u8),
    ] + p + seq![TRAILER_0, TRAILER_1, TRAILER_2, TRAILER_3]
}

/// Build the framed byte sequence for `payload`.
///
/// Rejects payloads over `MAX_MTU` with `PayloadTooLarge` and produces
/// nothing in that case; otherwise the result is exactly the wire frame,
/// `spec_encode(payload@)`.
pub fn encode(payload: &Vec<u8>) -> (r: Result<Vec<u8>, ZError>)
    ensures
        payload@.len() <= MAX_MTU ==> (r matches Ok(f) && f@ == spec_encode(payload@)),
        payload@.len() > MAX_MTU ==> r == Err::<Vec<u8>, ZError>(ZError::PayloadTooLarge),
{
    if payload.len() > MAX_MTU {
        return Err(ZError::PayloadTooLarge);
    }
    let wire_size: u16 = (payload.len() as u16) + FRAME_OVERHEAD;
    let lo: u8 = (wire_size % 256) as u8;
    let hi: u8 = (wire_size / 256) as u8;
    let mut frame: Vec<u8> = Vec::new();
    frame.push(PREAMBLE_0);
    frame.push(PREAMBLE_1);
    frame.push(PREAMBLE_2);
    frame.push(PREAMBLE_3);
    frame.push(lo);
    frame.push(hi);
    let mut i: usize = 0;
    while i < payload.len()
        invariant
            i <= payload@.len(),
            payload@.len() <= MAX_MTU,
            frame@ == seq![
                PREAMBLE_0,
                PREAMBLE_1,
                PREAMBLE_2,
                PREAMBLE_3,
                lo,
                hi,
            ] + payload@.take(i as int),
        decreases payload@.len() - i,
    {
        frame.push(payload[i]);
        proof {
            assert(frame@ =~= seq![
                PREAMBLE_0,
                PREAMBLE_1,
                PREAMBLE_2,
                PREAMBLE_3,
                lo,
                hi,
            ] + payload@.take(i + 1));
        }
        i = i + 1;
    }
    frame.push(TRAILER_0);
    frame.push(TRAILER_1);
    frame.push(TRAILER_2);
    frame.push(TRAILER_3);
    proof {
        assert(payload@.take(payload@.len() as int) =~= payload@);
        assert(frame@ =~= spec_encode(payload@));
    }
    Ok(frame)
}

/// Outcome of decoding one frame from the front of a byte stream, together
/// with how many stream bytes the attempt consumes.
pub enum SpecRead {
    /// The stream ended while still hunting for a preamble: a zero-length
    /// result, every byte consumed.
    NoSync { consumed: int },
    /// A whole frame: its payload, and the bytes consumed up to and
    /// including its trailer.
    Frame { payload: Seq<u8>, consumed: int },
    /// A rejected or truncated frame. A bad length field consumes the hunt
    /// and the two length bytes, nothing beyond them; a truncated stream
    /// consumes everything.
    Fail { err: ZError, consumed: int },
}

/// What decoding one message from stream `s` into a destination of
/// capacity `cap` yields. The whole decode contract is stated through this
/// function.
pub open spec fn spec_read_msg(s: Seq<u8>, cap: nat) -> SpecRead {
    match hunt(s, SyncState::Seek0) {
        None => SpecRead::NoSync { consumed: s.len() as int },
        Some(k) => {
            let rest = s.skip(k);
            if rest.len() < 2 {
                SpecRead::Fail { err: ZError::TransportError, consumed: s.len() as int }
            } else {
                let size = rest[0] + 256 * rest[1];
                if size < FRAME_OVERHEAD {
                    SpecRead::Fail { err: ZError::InvalidFrame, consumed: k + 2 }
                } else if size - FRAME_OVERHEAD > cap {
                    SpecRead::Fail { err: ZError::InvalidFrame, consumed: k + 2 }
                } else if rest.len() < 2 + (size - FRAME_OVERHEAD) + 4 {
                    SpecRead::Fail { err: ZError::TransportError, consumed: s.len() as int }
                } else {
                    SpecRead::Frame {
                        payload: rest.subrange(2, 2 + (size - FRAME_OVERHEAD)),
                        consumed: k + 2 + (size - FRAME_OVERHEAD) + 4,
                    }
                }
            }
        },
    }
}

/// Validate a decoded length field against the destination capacity and
/// derive the payload size.
///
/// `b0` and `b1` are the two length bytes as read off the wire, low byte
/// first. A length below the 10-byte overhead, or a payload that cannot
/// fit the destination, is rejected with `InvalidFrame` — before any
/// payload byte is read.
pub fn frame_data_size(b0: u8, b1: u8, cap: usize) -> (r: Result<usize, ZError>)
    ensures
        ({
            let size = b0 + 256 * b1;
            &&& (size < FRAME_OVERHEAD || size - FRAME_OVERHEAD > cap) <==> r == Err::<
                usize,
                ZError,
            >(ZError::InvalidFrame)
            &&& (FRAME_OVERHEAD <= size && size - FRAME_OVERHEAD <= cap) <==> (r matches Ok(n)
                && n == size - FRAME_OVERHEAD)
        }),
{
    let size: u16 = (b0 as u16) + 256 * (b1 as u16);
    if size < FRAME_OVERHEAD {
        return Err(ZError::InvalidFrame);
    }
    let data_size: usize = (size - FRAME_OVERHEAD) as usize;
    if data_size > cap {
        return Err(ZError::InvalidFrame);
    }
    Ok(data_size)
}

/// Decode one message from `stream`, starting at `*pos`, into the front of
/// `buff`; advance `*pos` past the consumed bytes.
///
/// This is the synchronization state machine run against an in-memory
/// stream: it hunts for the preamble byte by byte (restarting on mismatch
/// with the mismatched byte as a fresh candidate), reads the little-endian
/// length field, validates it, copies the payload into `buff[0..n]` and
/// skips the 4 trailer bytes without validating them (the trailer is a
/// sentinel, not a checksum). A stream that ends during the hunt gives
/// `Ok(0)`: "no message this round", not an error. The exact outcome,
/// including the error cases and the bytes consumed, is
/// `spec_read_msg(stream@.skip(*old(pos)), old(buff)@.len())`.
///
/// A destination buffer under `MAX_MTU` bytes is rejected with
/// `BufferTooSmall` before any byte is consumed. Bytes of `buff` beyond
/// the returned length keep their old values, but callers should treat
/// them as undefined.
pub fn read_msg(stream: &Vec<u8>, pos: &mut usize, buff: &mut Vec<u8>) -> (r: Result<
    usize,
    ZError,
>)
    requires
        *old(pos) <= stream@.len(),
    ensures
        final(buff)@.len() == old(buff)@.len(),
        *final(pos) <= stream@.len(),
        old(buff)@.len() < MAX_MTU ==> (r == Err::<usize, ZError>(ZError::BufferTooSmall)
            && *final(pos) == *old(pos) && final(buff)@ == old(buff)@),
        old(buff)@.len() >= MAX_MTU ==> (match spec_read_msg(
            stream@.skip(*old(pos) as int),
            old(buff)@.len(),
        ) {
            SpecRead::NoSync { consumed } => (r == Ok::<usize, ZError>(0) && *final(pos) == *old(
                pos,
            ) + consumed && final(buff)@ == old(buff)@),
            SpecRead::Frame { payload, consumed } => (r matches Ok(n) && n == payload.len()
                && *final(pos) == *old(pos) + consumed && final(buff)@ == payload + old(
                buff,
            )@.skip(payload.len() as int)),
            SpecRead::Fail { err, consumed } => (r == Err::<usize, ZError>(err) && *final(pos)
                == *old(pos) + consumed && final(buff)@ == old(buff)@),
        }),
{
    if buff.len() < MAX_MTU {
        return Err(ZError::BufferTooSmall);
    }
    let start: usize = *pos;
    let ghost s0 = stream@.skip(start as int);
    let mut st: SyncState = SyncState::Seek0;
    let mut i: usize = start;
    while i < stream.len() && st != SyncState::Done
        invariant
            start <= i <= stream@.len(),
            s0 == stream@.skip(start as int),
            hunt(s0, SyncState::Seek0) == match hunt(stream@.skip(i as int), st) {
                Some(k) => Some(k + i - start),
                None => None::<int>,
            },
        decreases stream@.len() - i,
    {
        let b: u8 = stream[i];
        proof {
            assert(stream@.skip(i as int)[0] == b);
            assert(stream@.skip(i as int).skip(1) =~= stream@.skip(i + 1));
        }
        st = sync_step(st, b);
        i = i + 1;
    }
    if st != SyncState::Done {
        proof {
            assert(stream@.skip(i as int).len() == 0);
            assert(hunt(stream@.skip(i as int), st) is None);
        }
        *pos = i;
        return Ok(0);
    }
    let ghost k = i - start;
    proof {
        assert(hunt(stream@.skip(i as int), st) == Some(0int));
        assert(hunt(s0, SyncState::Seek0) == Some(k as int));
        assert(s0.skip(k as int) =~= stream@.skip(i as int));
    }
    if stream.len() - i < 2 {
        *pos = stream.len();
        return Err(ZError::TransportError);
    }
    let b0: u8 = stream[i];
    let b1: u8 = stream[i + 1];
    proof {
        assert(stream@.skip(i as int)[0] == b0);
        assert(stream@.skip(i as int)[1] == b1);
    }
    let data_size: usize = match frame_data_size(b0, b1, buff.len()) {
        Ok(n) => n,
        Err(e) => {
            *pos = i + 2;
            return Err(e);
        },
    };
    if stream.len() - (i + 2) < data_size + 4 {
        *pos = stream.len();
        return Err(ZError::TransportError);
    }
    let ghost buff0 = buff@;
    let mut j: usize = 0;
    while j < data_size
        invariant
            j <= data_size,
            i + 2 + data_size <= stream@.len(),
            stream@.len() <= usize::MAX,
            buff@.len() == buff0.len(),
            data_size <= buff0.len(),
            forall|t: int| 0 <= t < j ==> buff@[t] == stream@[i + 2 + t],
            forall|t: int| j <= t < buff@.len() ==> buff@[t] == buff0[t],
        decreases data_size - j,
    {
        let b: u8 = stream[i + 2 + j];
        buff.set(j, b);
        j = j + 1;
    }
    *pos = i + 2 + data_size + 4;
    proof {
        let rest = stream@.skip(i as int);
        let size = rest[0] + 256 * rest[1];
        assert(size == b0 + 256 * b1);
        assert(rest.subrange(2, 2 + data_size) =~= stream@.subrange(
            i + 2,
            i + 2 + data_size,
        ));
        assert(buff@ =~= rest.subrange(2, 2 + data_size) + buff0.skip(data_size as int));
    }
    Ok(data_size)
}

/// A stream that begins with the exact preamble completes the hunt in
/// exactly 4 bytes, whatever follows.
proof fn lemma_hunt_preamble(s: Seq<u8>)
    requires
        s.len() >= 4,
        s[0] == PREAMBLE_0,
        s[1] == PREAMBLE_1,
        s[2] == PREAMBLE_2,
        s[3] == PREAMBLE_3,
    ensures
        hunt(s, SyncState::Seek0) == Some(4int),
{
    assert(s.skip(1)[0] == s[1]);
    assert(s.skip(2)[0] == s[2]);
    assert(s.skip(3)[0] == s[3]);
    assert(s.skip(1).skip(1) =~= s.skip(2));
    assert(s.skip(2).skip(1) =~= s.skip(3));
    assert(s.skip(3).skip(1) =~= s.skip(4));
    assert(hunt(s.skip(4), SyncState::Done) == Some(0int));
    assert(hunt(s.skip(3), SyncState::Seek3) == Some(1int));
    assert(hunt(s.skip(2), SyncState::Seek2) == Some(2int));
    assert(hunt(s.skip(1), SyncState::Seek1) == Some(3int));
    assert(hunt(s, SyncState::Seek0) == Some(4int));
}

/// `Done` is absorbing for the scan.
proof fn lemma_scan_done(s: Seq<u8>)
    ensures
        scan_state(s, SyncState::Done) == SyncState::Done,
    decreases s.len(),
{
    if s.len() != 0 {
        lemma_scan_done(s.skip(1));
    }
}

/// A scan that does not end in `Done` never completed the hunt.
proof fn lemma_hunt_none(s: Seq<u8>, st: SyncState)
    requires
        scan_state(s, st) != SyncState::Done,
    ensures
        hunt(s, st) is None,
    decreases s.len(),
{
    if st == SyncState::Done {
        lemma_scan_done(s);
    } else if s.len() != 0 {
        lemma_hunt_none(s.skip(1), spec_sync_step(st, s[0]));
    }
}

/// Splitting a stream at a point the hunt has not yet passed: the hunt over
/// the concatenation is the hunt over the tail, started in the state the
/// head leaves behind, shifted by the head's length.
proof fn lemma_hunt_concat(a: Seq<u8>, b: Seq<u8>, st: SyncState)
    requires
        scan_state(a, st) != SyncState::Done,
    ensures
        hunt(a + b, st) == match hunt(b, scan_state(a, st)) {
            Some(k) => Some(a.len() + k),
            None => None::<int>,
        },
    decreases a.len(),
{
    if st == SyncState::Done {
        lemma_scan_done(a);
    } else if a.len() == 0 {
        assert(a + b =~= b);
    } else {
        let st2 = spec_sync_step(st, a[0]);
        assert((a + b).skip(1) =~= a.skip(1) + b);
        assert((a + b)[0] == a[0]);
        lemma_hunt_concat(a.skip(1), b, st2);
    }
}

/// After a completed hunt whose remainder is the body of an encoded frame
/// (length field, payload, trailer), the decode yields exactly that
/// payload.
proof fn lemma_read_after_hunt(s: Seq<u8>, k: int, p: Seq<u8>, cap: nat)
    requires
        p.len() <= MAX_MTU,
        cap >= MAX_MTU,
        0 <= k,
        hunt(s, SyncState::Seek0) == Some(k),
        s.skip(k) =~= spec_encode(p).skip(4),
    ensures
        spec_read_msg(s, cap) == (SpecRead::Frame { payload: p, consumed: k + 6 + p.len() }),
{
    let n = (p.len() + 10) as nat;
    let rest = s.skip(k);
    assert(spec_encode(p).len() == p.len() + 10);
    assert(rest.len() == 6 + p.len());
    assert(rest[0] == ((n % 256) as u8));
    assert(rest[1] == ((n / 256) as u8));
    vstd::arithmetic::div_mod::lemma_fundamental_div_mod(n as int, 256);
    assert(n / 256 < 256);
    assert(rest[0] + 256 * rest[1] == n);
    let size = rest[0] + 256 * rest[1];
    assert(size - FRAME_OVERHEAD == p.len());
    assert(rest.subrange(2, 2 + p.len() as int) =~= p) by {
        assert(forall|t: int|
            0 <= t < p.len() ==> #[trigger] rest.subrange(2, 2 + p.len() as int)[t]
                == spec_encode(p)[4 + 2 + t] == p[t]);
    }
}

/// Round trip: decoding an encoded frame from an otherwise clean stream
/// yields exactly the original payload, for every payload up to `MAX_MTU`
/// and every destination capacity of at least `MAX_MTU`, consuming the
/// whole frame of `p.len() + 10` bytes.
pub proof fn lemma_round_trip(p: Seq<u8>, cap: nat)
    requires
        p.len() <= MAX_MTU,
        cap >= MAX_MTU,
    ensures
        spec_read_msg(spec_encode(p), cap) == (SpecRead::Frame {
            payload: p,
            consumed: p.len() + 10 as int,
        }),
{
    let f = spec_encode(p);
    lemma_hunt_preamble(f);
    lemma_read_after_hunt(f, 4, p, cap);
}

/// Resynchronization: arbitrary noise that leaves the preamble hunt back at
/// its starting state, followed by a well-formed frame, decodes to exactly
/// that frame's payload. (Noise that ends in a proper prefix of the
/// preamble leaves the hunt mid-way and is excluded: it can splice with the
/// frame's own preamble and misplace the length field.)
pub proof fn lemma_resync(noise: Seq<u8>, p: Seq<u8>, cap: nat)
    requires
        scan_state(noise, SyncState::Seek0) == SyncState::Seek0,
        p.len() <= MAX_MTU,
        cap >= MAX_MTU,
    ensures
        spec_read_msg(noise + spec_encode(p), cap) == (SpecRead::Frame {
            payload: p,
            consumed: noise.len() + p.len() + 10 as int,
        }),
{
    let f = spec_encode(p);
    let s = noise + f;
    lemma_hunt_preamble(f);
    lemma_hunt_concat(noise, f, SyncState::Seek0);
    assert(hunt(s, SyncState::Seek0) == Some(noise.len() as int + 4));
    assert(s.skip(noise.len() as int + 4) =~= f.skip(4)) by {
        assert(forall|t: int|
            0 <= t < f.len() - 4 ==> #[trigger] s.skip(noise.len() as int + 4)[t]
                == s[noise.len() as int + 4 + t] == f[4 + t]);
    }
    lemma_read_after_hunt(s, noise.len() as int + 4, p, cap);
}

/// Corrupted length: when the two bytes after a found preamble spell a
/// length below the 10-byte overhead, the frame is rejected with
/// `InvalidFrame`, and the decode consumes nothing beyond the length field
/// itself — `k` bytes of hunt (noise plus preamble) and the 2 length
/// bytes.
pub proof fn lemma_corrupted_length_rejected(s: Seq<u8>, k: int, cap: nat)
    requires
        hunt(s, SyncState::Seek0) == Some(k),
        0 <= k,
        k + 2 <= s.len(),
        s.skip(k)[0] + 256 * s.skip(k)[1] < FRAME_OVERHEAD,
    ensures
        spec_read_msg(s, cap) == (SpecRead::Fail { err: ZError::InvalidFrame, consumed: k + 2 }),
{
}

/// A byte stream free of the preamble's first byte leaves the hunt at its
/// starting state: such noise satisfies the hypothesis of `lemma_resync`.
pub proof fn lemma_noise_without_preamble_start(noise: Seq<u8>)
    requires
        forall|t: int| 0 <= t < noise.len() ==> noise[t] != PREAMBLE_0,
    ensures
        scan_state(noise, SyncState::Seek0) == SyncState::Seek0,
    decreases noise.len(),
{
    if noise.len() != 0 {
        assert(spec_sync_step(SyncState::Seek0, noise[0]) == SyncState::Seek0);
        lemma_noise_without_preamble_start(noise.skip(1));
    }
}

/// Zero-length decode: a stream on which the preamble hunt never completes
/// — for instance one holding a single broken preamble, correct first
/// three bytes and a wrong fourth — yields the zero-length "no message"
/// outcome, not an error, consuming the whole stream; a later call on what
/// follows can still resynchronize (see `lemma_resync`).
pub proof fn lemma_no_sync(s: Seq<u8>, cap: nat)
    requires
        scan_state(s, SyncState::Seek0) != SyncState::Done,
    ensures
        spec_read_msg(s, cap) == (SpecRead::NoSync { consumed: s.len() as int }),
{
    lemma_hunt_none(s, SyncState::Seek0);
}

} // verus!


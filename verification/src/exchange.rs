//! Exchange-loop logic: the decisions of the two operating modes over a
//! framed link — server (receive, then echo) and client (periodic send,
//! await-or-timeout receive, with loss accounting and cancellation).
//!
//! The caller performs the I/O and the waiting; each round it hands the
//! outcome to these functions and carries out the returned action, so the
//! whole decision logic is verified while the transport stays outside.

use vstd::prelude::*;

use crate::codec::spec_encode;
use crate::codec::encode;
use crate::codec::ZError;
use crate::codec::MAX_MTU;

verus! {

/// A serial connection's configuration: the named port and its baud rate.
/// The live transport itself, and the scratch buffer used while decoding,
/// stay with the caller that owns the I/O.
pub struct ZSerial {
    port: String,
    baud_rate: u32,
}

impl ZSerial {
    /// The configured serial port name.
    pub closed spec fn spec_port(&self) -> Seq<char> {
        self.port@
    }

    /// The configured baud rate.
    pub closed spec fn spec_baud_rate(&self) -> u32 {
        self.baud_rate
    }

    /// Record a connection's configuration.
    pub fn new(port: String, baud_rate: u32) -> (r: Self)
        ensures
            r.spec_port() == port@,
            r.spec_baud_rate() == baud_rate,
    {
        ZSerial { port, baud_rate }
    }

    /// Gets the configured baud rate
    pub fn baud_rate(&self) -> (r: u32)
        ensures
            r == self.spec_baud_rate(),
    {
        self.baud_rate
    }

    /// Gets the configured serial port
    pub fn port(&self) -> (r: String)
        ensures
            r@ == self.spec_port(),
    {
        self.port.clone()
    }
}

/// One server round: what to do with the outcome of a decode.
///
/// A zero-length decode (the "no sync" path) is a no-op: no frame goes
/// out. A nonzero payload of at most `MAX_MTU` bytes is echoed back
/// unchanged, as exactly one outgoing frame carrying the identical bytes.
/// A longer payload cannot be framed and is rejected with
/// `PayloadTooLarge`, which the server loop treats as fatal.
pub fn server_step(buff: &Vec<u8>, len: usize) -> (r: Result<Option<Vec<u8>>, ZError>)
    requires
        len <= buff@.len(),
    ensures
        len == 0 ==> r == Ok::<Option<Vec<u8>>, ZError>(None),
        1 <= len <= MAX_MTU ==> (r matches Ok(out) && out matches Some(f) && f@ == spec_encode(
            buff@.take(len as int),
        )),
        len > MAX_MTU ==> r == Err::<Option<Vec<u8>>, ZError>(ZError::PayloadTooLarge),
{
    if len == 0 {
        return Ok(None);
    }
    let mut payload: Vec<u8> = Vec::new();
    let mut j: usize = 0;
    while j < len
        invariant
            j <= len <= buff@.len(),
            payload@ == buff@.take(j as int),
        decreases len - j,
    {
        payload.push(buff[j]);
        proof {
            assert(payload@ =~= buff@.take(j + 1));
        }
        j = j + 1;
    }
    match encode(&payload) {
        Ok(f) => Ok(Some(f)),
        Err(e) => Err(e),
    }
}

/// Client-mode counters: the sequence number of the next ping and the
/// number of rounds lost to a timeout. A fresh client starts at sequence 1
/// with nothing lost.
#[derive(Clone, Copy, Debug, PartialEq, Eq, Structural)]
pub struct ClientState {
    pub count: u64,
    pub lost: u64,
}

/// The outcome of one client round: exactly one of the three raced waits
/// finished first.
#[derive(Clone, Copy, Debug, PartialEq, Eq, Structural)]
pub enum ClientEvent {
    /// The decode completed (possibly with a zero-length "no sync"
    /// result).
    Response,
    /// The timeout elapsed before any decode completed.
    TimedOut,
    /// An external interrupt was received.
    Interrupted,
}

/// What the client loop does after a round.
#[derive(Clone, Copy, Debug, PartialEq, Eq, Structural)]
pub enum ClientAction {
    /// Sleep for the next interval and send the next ping.
    Continue,
    /// Print the final sent/lost tally and terminate.
    Stop,
}

/// Increment with wrap-around at the type's limit.
pub open spec fn wrap_inc(x: u64) -> u64 {
    if x == u64::MAX {
        0
    } else {
        (x + 1) as u64
    }
}

/// The client state before the first round.
pub open spec fn spec_client_init() -> ClientState {
    ClientState { count: 1, lost: 0 }
}

/// One client round as a pure transition: a response or a timeout advances
/// the sequence counter, a timeout also counts one loss, and an interrupt
/// changes nothing and stops the loop.
pub open spec fn spec_client_step(st: ClientState, ev: ClientEvent) -> (ClientState, ClientAction) {
    match ev {
        ClientEvent::Response => (
            ClientState { count: wrap_inc(st.count), lost: st.lost },
            ClientAction::Continue,
        ),
        ClientEvent::TimedOut => (
            ClientState { count: wrap_inc(st.count), lost: wrap_inc(st.lost) },
            ClientAction::Continue,
        ),
        ClientEvent::Interrupted => (st, ClientAction::Stop),
    }
}

/// The client state before the first round: sequence counter 1, no losses.
pub fn client_init() -> (r: ClientState)
    ensures
        r == spec_client_init(),
{
    ClientState { count: 1, lost: 0 }
}

/// Apply one client round to the counters and say how the loop goes on.
pub fn client_step(st: &mut ClientState, ev: ClientEvent) -> (r: ClientAction)
    ensures
        (*final(st), r) == spec_client_step(*old(st), ev),
{
    match ev {
        ClientEvent::Response => {
            st.count = if st.count == u64::MAX {
                0
            } else {
                st.count + 1
            };
            ClientAction::Continue
        },
        ClientEvent::TimedOut => {
            st.count = if st.count == u64::MAX {
                0
            } else {
                st.count + 1
            };
            st.lost = if st.lost == u64::MAX {
                0
            } else {
                st.lost + 1
            };
            ClientAction::Continue
        },
        ClientEvent::Interrupted => ClientAction::Stop,
    }
}

/// The client state after `k` rounds that all timed out, from `st`.
pub open spec fn spec_after_timeouts(st: ClientState, k: nat) -> ClientState
    decreases k,
{
    if k == 0 {
        st
    } else {
        spec_client_step(spec_after_timeouts(st, (k - 1) as nat), ClientEvent::TimedOut).0
    }
}

/// Loss accounting: if the peer never responds, then after `k` interval
/// ticks the lost counter reads `k` and the sequence counter reads
/// `k + 1`, starting from a fresh client. (Stated below the counters'
/// wrap-around point; at `u64::MAX` ticks the counters wrap instead.)
pub proof fn lemma_loss_accounting(k: nat)
    requires
        1 + k <= u64::MAX,
    ensures
        spec_after_timeouts(spec_client_init(), k).count == 1 + k,
        spec_after_timeouts(spec_client_init(), k).lost == k,
    decreases k,
{
    if k != 0 {
        lemma_loss_accounting((k - 1) as nat);
    }
}

/// Timeout for one client round, computed once before the loop: three
/// intervals when the interval is over half a second, else a fixed
/// two-second floor. All durations are in milliseconds.
pub fn timeout_millis(interval_millis: u64) -> (r: u64)
    requires
        interval_millis <= u64::MAX / 3,
    ensures
        interval_millis > 500 ==> r == 3 * interval_millis,
        interval_millis <= 500 ==> r == 2000,
{
    if interval_millis > 500 {
        3 * interval_millis
    } else {
        2000
    }
}

/// The ping payload carrying sequence counter `c`: its 8 bytes, least
/// significant first (a fixed-width little-endian encoding, so that both
/// ends agree whatever their native word size).
pub open spec fn spec_counter_bytes(c: u64) -> Seq<u8> {
    seq![
        (c & 0xFF) as u8,
        ((c >> 8) & 0xFF) as u8,
        ((c >> 16) & 0xFF) as u8,
        ((c >> 24) & 0xFF) as u8,
        ((c >> 32) & 0xFF) as u8,
        ((c >> 40) & 0xFF) as u8,
        ((c >> 48) & 0xFF) as u8,
        ((c >> 56) & 0xFF) as u8,
    ]
}

/// The counter an 8-byte ping payload carries, least significant byte
/// first.
pub open spec fn spec_counter_value(s: Seq<u8>) -> u64
    recommends
        s.len() == 8,
{
    ((s[0] as u64) | ((s[1] as u64) << 8) | ((s[2] as u64) << 16) | ((s[3] as u64) << 24) | ((
    s[4] as u64) << 32) | ((s[5] as u64) << 40) | ((s[6] as u64) << 48) | ((s[7] as u64) << 56))
}

/// Encode the sequence counter as the ping payload.
pub fn counter_payload(c: u64) -> (r: Vec<u8>)
    ensures
        r@ == spec_counter_bytes(c),
        r@.len() == 8,
{
    let mut v: Vec<u8> = Vec::new();
    v.push((c & 0xFF) as u8);
    v.push(((c >> 8) & 0xFF) as u8);
    v.push(((c >> 16) & 0xFF) as u8);
    v.push(((c >> 24) & 0xFF) as u8);
    v.push(((c >> 32) & 0xFF) as u8);
    v.push(((c >> 40) & 0xFF) as u8);
    v.push(((c >> 48) & 0xFF) as u8);
    v.push(((c >> 56) & 0xFF) as u8);
    proof {
        assert(v@ =~= spec_counter_bytes(c));
    }
    v
}

/// Read the sequence counter back out of a response payload; a payload of
/// any other width carries no counter.
pub fn counter_from_payload(b: &Vec<u8>, len: usize) -> (r: Option<u64>)
    requires
        len <= b@.len(),
    ensures
        len == 8 ==> r == Some(spec_counter_value(b@.take(8))),
        len != 8 ==> r is None,
{
    if len != 8 {
        return None;
    }
    let v: u64 = (b[0] as u64) | ((b[1] as u64) << 8) | ((b[2] as u64) << 16) | ((b[3] as u64)
        << 24) | ((b[4] as u64) << 32) | ((b[5] as u64) << 40) | ((b[6] as u64) << 48) | ((
    b[7] as u64) << 56);
    proof {
        assert(b@.take(8)[0] == b@[0]);
        assert(b@.take(8)[1] == b@[1]);
        assert(b@.take(8)[2] == b@[2]);
        assert(b@.take(8)[3] == b@[3]);
        assert(b@.take(8)[4] == b@[4]);
        assert(b@.take(8)[5] == b@[5]);
        assert(b@.take(8)[6] == b@[6]);
        assert(b@.take(8)[7] == b@[7]);
    }
    Some(v)
}

/// The counter encoding round-trips: reading the ping payload back gives
/// the counter that was sent.
pub proof fn lemma_counter_round_trip(c: u64)
    ensures
        spec_counter_value(spec_counter_bytes(c)) == c,
{
    let s = spec_counter_bytes(c);
    assert(s[0] == (c & 0xFF) as u8);
    assert(s[1] == ((c >> 8) & 0xFF) as u8);
    assert(s[2] == ((c >> 16) & 0xFF) as u8);
    assert(s[3] == ((c >> 24) & 0xFF) as u8);
    assert(s[4] == ((c >> 32) & 0xFF) as u8);
    assert(s[5] == ((c >> 40) & 0xFF) as u8);
    assert(s[6] == ((c >> 48) & 0xFF) as u8);
    assert(s[7] == ((c >> 56) & 0xFF) as u8);
    assert((((c & 0xFF) as u8 as u64) | ((((c >> 8) & 0xFF) as u8 as u64) << 8) | ((((c >> 16)
        & 0xFF) as u8 as u64) << 16) | ((((c >> 24) & 0xFF) as u8 as u64) << 24) | ((((c >> 32)
        & 0xFF) as u8 as u64) << 32) | ((((c >> 40) & 0xFF) as u8 as u64) << 40) | ((((c >> 48)
        & 0xFF) as u8 as u64) << 48) | ((((c >> 56) & 0xFF) as u8 as u64) << 56)) == c)
        by (bit_vector);
}

} // verus!

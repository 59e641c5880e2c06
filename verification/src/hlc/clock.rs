//! The clock state machine, its physical-clock seam, and its observations.
//!
//! Each event of the clock is a step of a state machine over [`ClockState`].
//! [`send_outcome`] says what a send event does for a given reading of the
//! physical clock, and [`receive_outcome`] what a receive event does. The
//! methods of [`HlcClock`] are proved against these two functions, and the
//! lemmas at the end of this module prove the guarantees of the algorithm over
//! them: minted stamps strictly increase, a received stamp sorts below every
//! stamp minted after it, logical time never goes back, and the self-fence
//! refuses exactly the stamps that are too far ahead.

use vstd::prelude::*;

use crate::hlc::error::HlcError;
use crate::hlc::stamp::{Hlc, WallMicros};
use crate::ids::NodeId;

verus! {

/// The maximum offset, in microseconds, that an [`HlcClock`] accepts from a
/// peer by default.
///
/// 500 milliseconds is wider than the offset a healthy NTP or PTP fleet holds,
/// and it is far below the offset a broken clock reports.
pub const DEFAULT_MAX_OFFSET: i64 = 500_000;

/// The source of physical time for an [`HlcClock`].
///
/// The clock reads this trait once per event. A test supplies a
/// [`ManualClock`], so the whole state machine runs without a real clock and
/// without a sleep. Production supplies a [`SystemClock`].
///
/// An implementor returns the current wall-clock time in microseconds since
/// the Unix epoch. The value should never go backwards, but the clock does not
/// depend on that: the logical time it keeps never goes backwards, whatever
/// the physical clock does.
pub trait PhysicalClock {
    /// The current wall-clock time, in microseconds since the Unix epoch.
    fn now_micros(&self) -> i64;
}

impl<C: PhysicalClock> PhysicalClock for &C {
    /// The reading of the clock that the reference points to.
    fn now_micros(&self) -> (r: i64)
        ensures
            call_ensures(C::now_micros, (*self,), r),
    {
        let read = C::now_micros;
        read(*self)
    }
}

// ---------------------------------------------------------------------------
// The host's clock
// ---------------------------------------------------------------------------

#[verifier::external_type_specification]
#[verifier::external_body]
pub struct ExSystemTime(std::time::SystemTime);

/// `std::time::SystemTime::now`: the host's wall clock. Nothing is claimed of
/// the reading.
#[verifier::external_body]
fn system_time_now() -> std::time::SystemTime {
    std::time::SystemTime::now()
}

/// `std::time::SystemTime::duration_since` against the Unix epoch: `Ok` with
/// the distance of an instant after the epoch, `Err` with the distance of one
/// before it, as the error's `duration` gives it. Nothing is claimed of the
/// value, which follows the host's clock.
#[verifier::external_body]
fn duration_since_unix_epoch(
    t: &std::time::SystemTime,
) -> Result<core::time::Duration, core::time::Duration> {
    match t.duration_since(std::time::SystemTime::UNIX_EPOCH) {
        Ok(after) => Ok(after),
        Err(before) => Err(before.duration()),
    }
}

/// `core::time::Duration::as_micros`: the whole microseconds of `d`. Nothing
/// is claimed of a duration that the host's clock gave.
#[verifier::external_body]
fn duration_as_micros(d: core::time::Duration) -> u128 {
    d.as_micros()
}

/// An offset from the Unix epoch as an `i64` count of microseconds. An offset
/// that the `i64` range cannot hold saturates, which keeps the stamp ordered
/// against every other stamp.
pub open spec fn saturated_unix_micros(after: bool, micros: nat) -> i64 {
    if after {
        if micros > i64::MAX {
            i64::MAX
        } else {
            micros as i64
        }
    } else {
        if micros > i64::MAX {
            i64::MIN
        } else {
            (-micros) as i64
        }
    }
}

/// The reading of a [`SystemClock`] for an instant `micros` microseconds after
/// (`after`) or before the Unix epoch.
pub fn saturate_unix_micros(after: bool, micros: u128) -> (r: i64)
    ensures
        r == saturated_unix_micros(after, micros as nat),
{
    if micros > 0x7fff_ffff_ffff_ffff {
        if after {
            i64::MAX
        } else {
            i64::MIN
        }
    } else {
        let m = micros as i64;
        if after {
            m
        } else {
            -m
        }
    }
}

/// The host's wall clock, read through `std::time::SystemTime`.
///
/// This is the physical clock a broker uses. `SystemTime` is not monotonic and
/// it can sit before the Unix epoch, so both directions get an answer and
/// neither one panics.
#[derive(Debug, Clone, Copy, Default)]
pub struct SystemClock;

impl PhysicalClock for SystemClock {
    fn now_micros(&self) -> i64 {
        let t = system_time_now();
        let (after, d) = match duration_since_unix_epoch(&t) {
            Ok(d) => (true, d),
            Err(d) => (false, d),
        };
        saturate_unix_micros(after, duration_as_micros(d))
    }
}

// ---------------------------------------------------------------------------
// A clock moved by hand
// ---------------------------------------------------------------------------

/// A physical clock a test moves by hand.
///
/// The clock holds one instant and returns it until the test changes it.
#[derive(Debug)]
pub struct ManualClock {
    micros: i64,
}

impl ManualClock {
    /// The instant the clock holds, in microseconds since the Unix epoch.
    pub closed spec fn reading(&self) -> i64 {
        self.micros
    }

    /// A clock stopped at `now`.
    pub fn new(now: WallMicros) -> (c: ManualClock)
        ensures
            c.reading() == now.0,
    {
        ManualClock { micros: now.get() }
    }

    /// Moves the clock to `now`. The new instant can be before the old one,
    /// which is how a test models a clock that jumps backwards.
    pub fn set(&mut self, now: WallMicros)
        ensures
            final(self).reading() == now.0,
    {
        self.micros = now.get();
    }

    /// Moves the clock forward by `by_micros`. A negative extent moves it
    /// backwards. The instant saturates at the ends of the `i64` range.
    pub fn advance(&mut self, by_micros: i64)
        ensures
            final(self).reading() == clamp_i64(old(self).reading() + by_micros),
    {
        self.micros = saturating_add_i64(self.micros, by_micros);
    }
}

impl PhysicalClock for ManualClock {
    fn now_micros(&self) -> (r: i64)
        ensures
            r == self.reading(),
    {
        self.micros
    }
}

// ---------------------------------------------------------------------------
// Saturating arithmetic
// ---------------------------------------------------------------------------

/// `v` pinned to the `i64` range.
pub open spec fn clamp_i64(v: int) -> i64 {
    if v > i64::MAX {
        i64::MAX
    } else if v < i64::MIN {
        i64::MIN
    } else {
        v as i64
    }
}

/// The larger of two `i64` values.
pub open spec fn max_i64(a: i64, b: i64) -> i64 {
    if a >= b {
        a
    } else {
        b
    }
}

/// `x + 1`, held at `u64::MAX`.
pub open spec fn saturating_inc(x: u64) -> u64 {
    if x == u64::MAX {
        x
    } else {
        (x + 1) as u64
    }
}

fn saturating_add_i64(a: i64, b: i64) -> (r: i64)
    ensures
        r == clamp_i64(a + b),
{
    let wide: i128 = a as i128 + b as i128;
    if wide > 0x7fff_ffff_ffff_ffff {
        i64::MAX
    } else if wide < -0x8000_0000_0000_0000 {
        i64::MIN
    } else {
        wide as i64
    }
}

fn saturating_sub_i64(a: i64, b: i64) -> (r: i64)
    ensures
        r == clamp_i64(a - b),
{
    let wide: i128 = a as i128 - b as i128;
    if wide > 0x7fff_ffff_ffff_ffff {
        i64::MAX
    } else if wide < -0x8000_0000_0000_0000 {
        i64::MIN
    } else {
        wide as i64
    }
}

fn saturating_inc_u64(x: u64) -> (r: u64)
    ensures
        r == saturating_inc(x),
{
    if x == u64::MAX {
        x
    } else {
        x + 1
    }
}

fn max_of(a: i64, b: i64) -> (r: i64)
    ensures
        r == max_i64(a, b),
{
    if a >= b {
        a
    } else {
        b
    }
}

// ---------------------------------------------------------------------------
// The state machine
// ---------------------------------------------------------------------------

/// The mutable part of an [`HlcClock`]: the last stamp it issued, and what it
/// has counted about its peers.
#[derive(Debug, Clone, Copy, PartialEq, Eq, Structural)]
pub struct ClockState {
    /// Wall time of the last stamp, in microseconds since the Unix epoch.
    pub wall: i64,
    /// Counter of the last stamp.
    pub counter: u32,
    /// Received stamps that pulled the clock forward.
    pub peer_advances: u64,
    /// Received stamps that the self-fence refused.
    pub refusals: u64,
    /// The largest peer-ahead delta seen, in microseconds.
    pub max_peer_ahead_micros: i64,
}

/// `(wall, counter)` sorts before `(wall2, counter2)`.
pub open spec fn pair_lt(wall: int, counter: int, wall2: int, counter2: int) -> bool {
    wall < wall2 || (wall == wall2 && counter < counter2)
}

/// `st` after it issued the stamp `(wall, counter)`.
pub open spec fn issued(st: ClockState, wall: i64, counter: u32) -> ClockState {
    ClockState {
        wall,
        counter,
        peer_advances: st.peer_advances,
        refusals: st.refusals,
        max_peer_ahead_micros: st.max_peer_ahead_micros,
    }
}

/// One above `c`, or `None` when `c` is at `u32::MAX`: the counter never wraps.
pub open spec fn next_count(c: u32) -> Option<u32> {
    if c == u32::MAX {
        None
    } else {
        Some((c + 1) as u32)
    }
}

/// The send event for the physical reading `physical`: the new state and the
/// stamp's wall time and counter, or the error.
///
/// The new wall time is the later of the logical wall time and the physical
/// clock. The counter goes up by one when the wall time did not move, and
/// back to zero when it did.
pub open spec fn send_outcome(st: ClockState, physical: i64) -> (
    ClockState,
    Result<(i64, u32), HlcError>,
) {
    let wall = max_i64(st.wall, physical);
    if wall == st.wall {
        match next_count(st.counter) {
            Some(c) => (issued(st, wall, c), Ok((wall, c))),
            None => (st, Err(HlcError::CounterOverflow)),
        }
    } else {
        (issued(st, wall, 0), Ok((wall, 0)))
    }
}

/// The counter of a receive event whose new wall time is `wall`: it follows
/// the source of that wall time.
pub open spec fn receive_count(
    local_wall: i64,
    local_counter: u32,
    peer_wall: i64,
    peer_counter: u32,
    wall: i64,
) -> Option<u32> {
    if wall == local_wall && wall == peer_wall {
        next_count(
            if local_counter >= peer_counter {
                local_counter
            } else {
                peer_counter
            },
        )
    } else if wall == local_wall {
        next_count(local_counter)
    } else if wall == peer_wall {
        next_count(peer_counter)
    } else {
        Some(0)
    }
}

/// The receive event of a peer stamp `(peer_wall, peer_counter)` for the
/// physical reading `physical`, under the maximum offset `max_offset`.
///
/// The peer-ahead delta always enters the maximum. A stamp more than
/// `max_offset` ahead of the physical clock is refused: only the refusal count
/// moves. Otherwise the new wall time is the latest of the logical wall time,
/// the peer's wall time and the physical clock, and the counter follows
/// [`receive_count`].
pub open spec fn receive_outcome(
    st: ClockState,
    max_offset: i64,
    physical: i64,
    peer_wall: i64,
    peer_counter: u32,
) -> (ClockState, Result<(i64, u32), HlcError>) {
    let ahead = clamp_i64(peer_wall - physical);
    let seen = ClockState {
        max_peer_ahead_micros: max_i64(st.max_peer_ahead_micros, ahead),
        ..st
    };
    if ahead > max_offset {
        (
            ClockState { refusals: saturating_inc(seen.refusals), ..seen },
            Err(HlcError::PeerTooFarAhead { ahead_micros: ahead, max_micros: max_offset }),
        )
    } else {
        let wall = max_i64(max_i64(st.wall, peer_wall), physical);
        match receive_count(st.wall, st.counter, peer_wall, peer_counter, wall) {
            None => (seen, Err(HlcError::CounterOverflow)),
            Some(c) => {
                let advances = if peer_wall > st.wall && peer_wall > physical {
                    saturating_inc(seen.peer_advances)
                } else {
                    seen.peer_advances
                };
                (
                    ClockState { wall, counter: c, peer_advances: advances, ..seen },
                    Ok((wall, c)),
                )
            },
        }
    }
}

/// A step's result as a stamp of `node`.
pub open spec fn stamped(r: Result<(i64, u32), HlcError>, node: NodeId) -> Result<Hlc, HlcError> {
    match r {
        Ok((w, c)) => Ok(Hlc { wall: WallMicros(w), counter: c, node }),
        Err(e) => Err(e),
    }
}

/// What an [`HlcClock`] has learned about clock skew in the cluster.
///
/// Every field is evidence measured on the data path. A record whose stamp
/// pulls the local clock forward by 40 milliseconds is direct evidence of 40
/// milliseconds of skew between this node and the node that wrote the record.
#[derive(Debug, Clone, Copy, PartialEq, Eq, Structural)]
pub struct ClockObservation {
    /// How far the logical clock leads the physical clock right now, in
    /// microseconds: the logical wall time minus the physical wall time. A
    /// negative value is normal, and it only means that the physical clock
    /// moved on since the last event.
    pub drift: i64,
    /// How many received stamps moved the local clock forward because the
    /// peer's wall time was ahead of both the local logical clock and the
    /// local physical clock.
    pub peer_advances: u64,
    /// How many received stamps the self-fence refused.
    pub refusals: u64,
    /// The largest positive delta, in microseconds, between a peer's wall time
    /// and the local physical clock, over every stamp this clock received.
    /// Refused stamps count here too. The value stays at zero while no peer is
    /// ahead.
    pub max_peer_ahead: i64,
}

/// The observation of `st` for the physical reading `physical`.
pub open spec fn observation_of(st: ClockState, physical: i64) -> ClockObservation {
    ClockObservation {
        drift: clamp_i64(st.wall - physical),
        peer_advances: st.peer_advances,
        refusals: st.refusals,
        max_peer_ahead: st.max_peer_ahead_micros,
    }
}

/// The next value of a logical counter.
pub fn next_counter(counter: u32) -> (r: Result<u32, HlcError>)
    ensures
        r == match next_count(counter) {
            Some(c) => Ok::<u32, HlcError>(c),
            None => Err(HlcError::CounterOverflow),
        },
{
    if counter == u32::MAX {
        Err(HlcError::CounterOverflow)
    } else {
        Ok(counter + 1)
    }
}

/// A hybrid logical clock for one node.
///
/// The clock holds a wall time and a logical counter. [`HlcClock::now`] is the
/// paper's send event and [`HlcClock::observe`] is its receive event. The pair
/// keeps two guarantees. The stamps one node mints strictly increase. A stamp
/// that a node received is always below every stamp that the node mints after
/// it, so the order the stamps give agrees with cause and effect.
///
/// The physical clock is a type parameter, so a test drives the whole state
/// machine with a [`ManualClock`] and no sleep. Each event also has a form
/// that takes the physical reading as an argument.
#[derive(Debug)]
pub struct HlcClock<C> {
    node: NodeId,
    physical: C,
    max_offset_micros: i64,
    state: ClockState,
}

impl<C> HlcClock<C> {
    /// The state of the state machine.
    pub closed spec fn clock_state(&self) -> ClockState {
        self.state
    }

    /// The maximum offset, in microseconds. It is never negative: a negative
    /// setting fences at zero.
    pub closed spec fn offset_limit(&self) -> i64 {
        max_i64(self.max_offset_micros, 0)
    }

    /// The maximum offset of every clock is at least zero.
    pub proof fn lemma_offset_limit_not_negative(c: &Self)
        ensures
            c.offset_limit() >= 0,
    {
    }

    /// The node the clock stamps for.
    pub closed spec fn node_id(&self) -> NodeId {
        self.node
    }

    /// The physical clock.
    pub closed spec fn physical_clock(&self) -> C {
        self.physical
    }
}

impl HlcClock<SystemClock> {
    /// A clock for `node` that reads the host's wall clock and fences at
    /// [`DEFAULT_MAX_OFFSET`].
    pub fn new(node: NodeId) -> (c: Self)
        ensures
            c.node_id() == node,
            c.offset_limit() == DEFAULT_MAX_OFFSET,
            call_ensures(SystemClock::now_micros, (&SystemClock,), c.clock_state().wall),
            c.clock_state().counter == 0,
            c.clock_state().peer_advances == 0,
            c.clock_state().refusals == 0,
            c.clock_state().max_peer_ahead_micros == 0,
    {
        Self::with_max_offset(node, SystemClock, DEFAULT_MAX_OFFSET)
    }
}

impl<C: PhysicalClock> HlcClock<C> {
    /// A clock for `node` that reads `physical` and fences at
    /// [`DEFAULT_MAX_OFFSET`].
    pub fn with_clock(node: NodeId, physical: C) -> (c: Self)
        ensures
            c.node_id() == node,
            c.physical_clock() == physical,
            c.offset_limit() == DEFAULT_MAX_OFFSET,
            call_ensures(C::now_micros, (&physical,), c.clock_state().wall),
            c.clock_state().counter == 0,
            c.clock_state().peer_advances == 0,
            c.clock_state().refusals == 0,
            c.clock_state().max_peer_ahead_micros == 0,
    {
        Self::with_max_offset(node, physical, DEFAULT_MAX_OFFSET)
    }

    /// A clock for `node` that reads `physical` and fences at `max_offset`
    /// microseconds.
    ///
    /// The clock starts at the current reading of `physical`, with the counter
    /// at zero. A negative `max_offset` has the same effect as zero: the clock
    /// then refuses every stamp whose wall time is above its physical clock.
    pub fn with_max_offset(node: NodeId, physical: C, max_offset: i64) -> (c: Self)
        ensures
            c.node_id() == node,
            c.physical_clock() == physical,
            c.offset_limit() == max_i64(max_offset, 0),
            call_ensures(C::now_micros, (&physical,), c.clock_state().wall),
            c.clock_state().counter == 0,
            c.clock_state().peer_advances == 0,
            c.clock_state().refusals == 0,
            c.clock_state().max_peer_ahead_micros == 0,
    {
        let read = C::now_micros;
        let wall = read(&physical);
        Self::starting_at(node, physical, max_offset, wall)
    }

    /// A clock for `node` that reads `physical`, fences at `max_offset`
    /// microseconds, and starts at the physical reading `wall`.
    pub fn starting_at(node: NodeId, physical: C, max_offset: i64, wall: i64) -> (c: Self)
        ensures
            c.node_id() == node,
            c.physical_clock() == physical,
            c.offset_limit() == max_i64(max_offset, 0),
            c.clock_state() == (ClockState {
                wall,
                counter: 0,
                peer_advances: 0,
                refusals: 0,
                max_peer_ahead_micros: 0,
            }),
    {
        HlcClock {
            node,
            physical,
            max_offset_micros: max_of(max_offset, 0),
            state: ClockState {
                wall,
                counter: 0,
                peer_advances: 0,
                refusals: 0,
                max_peer_ahead_micros: 0,
            },
        }
    }

    /// The node this clock stamps for.
    pub fn node(&self) -> (n: NodeId)
        ensures
            n == self.node_id(),
    {
        self.node
    }

    /// The maximum offset, in microseconds, that the self-fence allows.
    pub fn max_offset(&self) -> (m: i64)
        ensures
            m == self.offset_limit(),
            m >= 0,
    {
        max_of(self.max_offset_micros, 0)
    }

    /// The physical clock, to read it or move it.
    pub fn physical_mut(&mut self) -> (p: &mut C)
        ensures
            *p == old(self).physical_clock(),
            final(self).physical_clock() == *final(p),
            final(self).clock_state() == old(self).clock_state(),
            final(self).node_id() == old(self).node_id(),
            final(self).offset_limit() == old(self).offset_limit(),
    {
        &mut self.physical
    }

    /// The next stamp for a local event, such as a record this node produces.
    ///
    /// This is the paper's send event, for the current reading of the
    /// physical clock. Two calls never return the same stamp, whatever the
    /// physical clock does.
    ///
    /// Returns [`HlcError::CounterOverflow`] when the counter reaches
    /// `u32::MAX` inside one microsecond, rather than let the counter wrap.
    pub fn now(&mut self) -> (res: Result<Hlc, HlcError>)
        ensures
            exists|physical: i64|
                #![trigger send_outcome(old(self).clock_state(), physical)]
                call_ensures(C::now_micros, (&old(self).physical_clock(),), physical)
                    && final(self).clock_state() == send_outcome(old(self).clock_state(), physical).0
                    && res == stamped(
                    send_outcome(old(self).clock_state(), physical).1,
                    old(self).node_id(),
                ),
            final(self).node_id() == old(self).node_id(),
            final(self).offset_limit() == old(self).offset_limit(),
            final(self).physical_clock() == old(self).physical_clock(),
    {
        let read = C::now_micros;
        let physical = read(&self.physical);
        self.now_at(physical)
    }

    /// The send event for the physical reading `physical`.
    pub fn now_at(&mut self, physical: i64) -> (res: Result<Hlc, HlcError>)
        ensures
            final(self).clock_state() == send_outcome(old(self).clock_state(), physical).0,
            res == stamped(send_outcome(old(self).clock_state(), physical).1, old(self).node_id()),
            final(self).node_id() == old(self).node_id(),
            final(self).offset_limit() == old(self).offset_limit(),
            final(self).physical_clock() == old(self).physical_clock(),
    {
        let wall = max_of(self.state.wall, physical);
        let counter = if wall == self.state.wall {
            next_counter(self.state.counter)?
        } else {
            0
        };
        self.state.wall = wall;
        self.state.counter = counter;
        Ok(Hlc::new(WallMicros(wall), counter, self.node))
    }

    /// Merges a peer's stamp into this clock, and returns the stamp for the
    /// receive event.
    ///
    /// This is the paper's receive event, for the current reading of the
    /// physical clock. The returned stamp is always above `peer`, so the record
    /// this node writes next sorts after the record it read.
    ///
    /// The clock also fences itself. It refuses a stamp whose wall time is more
    /// than [`HlcClock::max_offset`] ahead of the local physical clock. It
    /// returns [`HlcError::PeerTooFarAhead`], and its logical time does not
    /// move. A hybrid logical clock adopts the highest wall time it sees, so
    /// one host with a broken clock would drag every node that reads its
    /// records into the future, and logical time never comes back. A stamp
    /// behind the local physical clock is always safe, and the clock always
    /// accepts it.
    ///
    /// Returns [`HlcError::PeerTooFarAhead`] when the self-fence refuses the
    /// stamp, and [`HlcError::CounterOverflow`] when the merged counter
    /// reaches `u32::MAX` inside one microsecond.
    pub fn observe(&mut self, peer: Hlc) -> (res: Result<Hlc, HlcError>)
        ensures
            exists|physical: i64|
                #![trigger receive_outcome(
                    old(self).clock_state(),
                    old(self).offset_limit(),
                    physical,
                    peer.wall.0,
                    peer.counter,
                )]
                call_ensures(C::now_micros, (&old(self).physical_clock(),), physical)
                    && final(self).clock_state() == receive_outcome(
                    old(self).clock_state(),
                    old(self).offset_limit(),
                    physical,
                    peer.wall.0,
                    peer.counter,
                ).0 && res == stamped(
                    receive_outcome(
                        old(self).clock_state(),
                        old(self).offset_limit(),
                        physical,
                        peer.wall.0,
                        peer.counter,
                    ).1,
                    old(self).node_id(),
                ),
            final(self).node_id() == old(self).node_id(),
            final(self).offset_limit() == old(self).offset_limit(),
            final(self).physical_clock() == old(self).physical_clock(),
    {
        let read = C::now_micros;
        let physical = read(&self.physical);
        self.observe_at(peer, physical)
    }

    /// The receive event of `peer` for the physical reading `physical`.
    pub fn observe_at(&mut self, peer: Hlc, physical: i64) -> (res: Result<Hlc, HlcError>)
        ensures
            final(self).clock_state() == receive_outcome(
                old(self).clock_state(),
                old(self).offset_limit(),
                physical,
                peer.wall.0,
                peer.counter,
            ).0,
            res == stamped(
                receive_outcome(
                    old(self).clock_state(),
                    old(self).offset_limit(),
                    physical,
                    peer.wall.0,
                    peer.counter,
                ).1,
                old(self).node_id(),
            ),
            final(self).node_id() == old(self).node_id(),
            final(self).offset_limit() == old(self).offset_limit(),
            final(self).physical_clock() == old(self).physical_clock(),
    {
        let peer_wall = peer.wall.get();
        let ahead_micros = saturating_sub_i64(peer_wall, physical);
        self.state.max_peer_ahead_micros = max_of(self.state.max_peer_ahead_micros, ahead_micros);
        let max_micros = max_of(self.max_offset_micros, 0);
        if ahead_micros > max_micros {
            self.state.refusals = saturating_inc_u64(self.state.refusals);
            return Err(HlcError::PeerTooFarAhead { ahead_micros, max_micros });
        }
        let local_wall = self.state.wall;
        let local_counter = self.state.counter;
        let wall = max_of(max_of(local_wall, peer_wall), physical);
        let counter = if wall == local_wall && wall == peer_wall {
            let larger = if local_counter >= peer.counter {
                local_counter
            } else {
                peer.counter
            };
            next_counter(larger)?
        } else if wall == local_wall {
            next_counter(local_counter)?
        } else if wall == peer_wall {
            next_counter(peer.counter)?
        } else {
            0
        };
        if peer_wall > local_wall && peer_wall > physical {
            self.state.peer_advances = saturating_inc_u64(self.state.peer_advances);
        }
        self.state.wall = wall;
        self.state.counter = counter;
        Ok(Hlc::new(WallMicros(wall), counter, self.node))
    }

    /// What this clock has learned about clock skew, for the current reading
    /// of the physical clock.
    pub fn observation(&self) -> (o: ClockObservation)
        ensures
            exists|physical: i64|
                call_ensures(C::now_micros, (&self.physical_clock(),), physical) && o
                    == #[trigger] observation_of(self.clock_state(), physical),
    {
        let read = C::now_micros;
        let physical = read(&self.physical);
        self.observation_at(physical)
    }

    /// What this clock has learned about clock skew, for the physical reading
    /// `physical`.
    pub fn observation_at(&self, physical: i64) -> (o: ClockObservation)
        ensures
            o == observation_of(self.clock_state(), physical),
    {
        ClockObservation {
            drift: saturating_sub_i64(self.state.wall, physical),
            peer_advances: self.state.peer_advances,
            refusals: self.state.refusals,
            max_peer_ahead: self.state.max_peer_ahead_micros,
        }
    }
}


// ---------------------------------------------------------------------------
// The guarantees of the algorithm
// ---------------------------------------------------------------------------

/// `(wall, counter)` of `a` is not below that of `b`.
pub open spec fn state_at_least(a: ClockState, b: ClockState) -> bool {
    !pair_lt(a.wall as int, a.counter as int, b.wall as int, b.counter as int)
}

/// One event of a clock: a send, or a receive of a peer's stamp, each with the
/// physical reading that the clock took for it.
pub enum ClockEvent {
    Send { physical: i64 },
    Receive { physical: i64, peer_wall: i64, peer_counter: u32 },
}

/// The state after one event, whether the event succeeded or failed.
pub open spec fn after_event(st: ClockState, max_offset: i64, e: ClockEvent) -> ClockState {
    match e {
        ClockEvent::Send { physical } => send_outcome(st, physical).0,
        ClockEvent::Receive { physical, peer_wall, peer_counter } => receive_outcome(
            st,
            max_offset,
            physical,
            peer_wall,
            peer_counter,
        ).0,
    }
}

/// The state after a run of events, one after another.
pub open spec fn after_events(st: ClockState, max_offset: i64, es: Seq<ClockEvent>) -> ClockState
    decreases es.len(),
{
    if es.len() == 0 {
        st
    } else {
        after_events(after_event(st, max_offset, es[0]), max_offset, es.drop_first())
    }
}

/// A send that succeeds issues a stamp strictly above the clock's last stamp,
/// at or after the physical reading, and that stamp becomes the clock's state.
/// A send that fails leaves the clock as it was, and fails only when the
/// counter is at `u32::MAX` and the physical clock did not move past the
/// logical wall time.
pub proof fn lemma_send_advances(st: ClockState, physical: i64)
    ensures
        send_outcome(st, physical).1 matches Ok((w, c)) ==> {
            &&& pair_lt(st.wall as int, st.counter as int, w as int, c as int)
            &&& w >= physical
            &&& send_outcome(st, physical).0 == issued(st, w, c)
        },
        send_outcome(st, physical).1 is Err ==> {
            &&& send_outcome(st, physical).0 == st
            &&& send_outcome(st, physical).1 == Err::<(i64, u32), HlcError>(
                HlcError::CounterOverflow,
            )
            &&& st.counter == u32::MAX
            &&& st.wall >= physical
        },
{
}

/// A receive that succeeds returns a stamp strictly above the peer's stamp and
/// strictly above the clock's last stamp, at or after the physical reading,
/// and that stamp becomes the clock's state.
pub proof fn lemma_receive_above_peer(
    st: ClockState,
    max_offset: i64,
    physical: i64,
    peer_wall: i64,
    peer_counter: u32,
)
    ensures
        receive_outcome(st, max_offset, physical, peer_wall, peer_counter).1 matches Ok((w, c))
            ==> {
            &&& pair_lt(peer_wall as int, peer_counter as int, w as int, c as int)
            &&& pair_lt(st.wall as int, st.counter as int, w as int, c as int)
            &&& w >= physical
            &&& receive_outcome(st, max_offset, physical, peer_wall, peer_counter).0.wall == w
            &&& receive_outcome(st, max_offset, physical, peer_wall, peer_counter).0.counter == c
        },
{
}

/// The self-fence refuses a stamp exactly when its wall time is more than the
/// maximum offset ahead of the physical clock. A refused stamp moves only the
/// refusal count and the largest peer-ahead delta: logical time stays put.
pub proof fn lemma_fence(
    st: ClockState,
    max_offset: i64,
    physical: i64,
    peer_wall: i64,
    peer_counter: u32,
)
    ensures
        ({
            let r = receive_outcome(st, max_offset, physical, peer_wall, peer_counter).1;
            r matches Err(HlcError::PeerTooFarAhead { .. })
        }) <==> clamp_i64(peer_wall - physical) > max_offset,
        clamp_i64(peer_wall - physical) > max_offset ==> {
            let st2 = receive_outcome(st, max_offset, physical, peer_wall, peer_counter).0;
            &&& receive_outcome(st, max_offset, physical, peer_wall, peer_counter).1 == Err::<
                (i64, u32),
                HlcError,
            >(
                HlcError::PeerTooFarAhead {
                    ahead_micros: clamp_i64(peer_wall - physical),
                    max_micros: max_offset,
                },
            )
            &&& st2.wall == st.wall
            &&& st2.counter == st.counter
            &&& st2.peer_advances == st.peer_advances
            &&& st2.refusals == saturating_inc(st.refusals)
        },
{
}

/// A stamp at or behind the local physical clock is always safe, and the
/// clock never refuses it.
pub proof fn lemma_behind_is_accepted(
    st: ClockState,
    max_offset: i64,
    physical: i64,
    peer_wall: i64,
    peer_counter: u32,
)
    requires
        max_offset >= 0,
        peer_wall <= physical,
    ensures
        !(receive_outcome(st, max_offset, physical, peer_wall, peer_counter).1 matches Err(
            HlcError::PeerTooFarAhead { .. },
        )),
{
}

/// A clock never refuses a stamp that is not ahead of its physical reading:
/// its fence limit is never negative.
pub proof fn lemma_clock_accepts_what_is_behind<C>(c: &HlcClock<C>, physical: i64, peer: Hlc)
    requires
        peer.wall.0 <= physical,
    ensures
        !(receive_outcome(c.clock_state(), c.offset_limit(), physical, peer.wall.0, peer.counter).1 matches Err(
            HlcError::PeerTooFarAhead { .. },
        )),
{
    HlcClock::<C>::lemma_offset_limit_not_negative(c);
    lemma_behind_is_accepted(c.clock_state(), c.offset_limit(), physical, peer.wall.0, peer.counter);
}

/// No event moves logical time back, whether it succeeds or fails, and no
/// event lowers a count or the largest peer-ahead delta. Every receive puts
/// its peer-ahead delta into that largest delta, refused or not.
pub proof fn lemma_event_never_goes_back(st: ClockState, max_offset: i64, e: ClockEvent)
    ensures
        state_at_least(after_event(st, max_offset, e), st),
        after_event(st, max_offset, e).peer_advances >= st.peer_advances,
        after_event(st, max_offset, e).refusals >= st.refusals,
        after_event(st, max_offset, e).max_peer_ahead_micros >= st.max_peer_ahead_micros,
        e matches ClockEvent::Receive { physical, peer_wall, .. } ==> after_event(
            st,
            max_offset,
            e,
        ).max_peer_ahead_micros >= clamp_i64(peer_wall - physical),
{
}

/// Logical time never goes back over any run of events.
pub proof fn lemma_run_never_goes_back(st: ClockState, max_offset: i64, es: Seq<ClockEvent>)
    ensures
        state_at_least(after_events(st, max_offset, es), st),
    decreases es.len(),
{
    if es.len() > 0 {
        let st1 = after_event(st, max_offset, es[0]);
        lemma_event_never_goes_back(st, max_offset, es[0]);
        lemma_run_never_goes_back(st1, max_offset, es.drop_first());
    }
}

/// The stamps one node mints strictly increase: a stamp that a send issues is
/// below the stamp of every later send that succeeds, whatever events come
/// between them.
pub proof fn lemma_sends_strictly_increase(
    st: ClockState,
    max_offset: i64,
    p1: i64,
    between: Seq<ClockEvent>,
    p2: i64,
)
    requires
        send_outcome(st, p1).1 is Ok,
        send_outcome(after_events(send_outcome(st, p1).0, max_offset, between), p2).1 is Ok,
    ensures
        ({
            let (w1, c1) = send_outcome(st, p1).1->Ok_0;
            let (w2, c2) = send_outcome(
                after_events(send_outcome(st, p1).0, max_offset, between),
                p2,
            ).1->Ok_0;
            pair_lt(w1 as int, c1 as int, w2 as int, c2 as int)
        }),
{
    let st1 = send_outcome(st, p1).0;
    lemma_send_advances(st, p1);
    lemma_run_never_goes_back(st1, max_offset, between);
    lemma_send_advances(after_events(st1, max_offset, between), p2);
}

/// A stamp that a node received sorts below every stamp that the node mints
/// after it, whatever events come between: the order of the stamps agrees
/// with cause and effect.
pub proof fn lemma_received_below_later_sends(
    st: ClockState,
    max_offset: i64,
    physical: i64,
    peer_wall: i64,
    peer_counter: u32,
    between: Seq<ClockEvent>,
    p2: i64,
)
    requires
        receive_outcome(st, max_offset, physical, peer_wall, peer_counter).1 is Ok,
        send_outcome(
            after_events(
                receive_outcome(st, max_offset, physical, peer_wall, peer_counter).0,
                max_offset,
                between,
            ),
            p2,
        ).1 is Ok,
    ensures
        ({
            let (w2, c2) = send_outcome(
                after_events(
                    receive_outcome(st, max_offset, physical, peer_wall, peer_counter).0,
                    max_offset,
                    between,
                ),
                p2,
            ).1->Ok_0;
            pair_lt(peer_wall as int, peer_counter as int, w2 as int, c2 as int)
        }),
{
    let st1 = receive_outcome(st, max_offset, physical, peer_wall, peer_counter).0;
    lemma_receive_above_peer(st, max_offset, physical, peer_wall, peer_counter);
    lemma_run_never_goes_back(st1, max_offset, between);
    lemma_send_advances(after_events(st1, max_offset, between), p2);
}

} // verus!

//! One relay session: how fast it may go, what is counted of it, and when it ends.
//!
//! Points in time are nanoseconds on a clock that does not run backwards.

use crate::relay_server::params::Params;
use crate::relay_server::store::accounts_write;
use crate::relay_server::{ListKind, RelayServer, ServerView};
use vstd::prelude::*;

verus! {

/// A relay session.
pub struct RelaySession {
    /// The address of the side that made the session.
    pub ip: String,
    /// The key of the session's account.
    pub id: String,
    /// The bandwidth of the session, in bits per second.
    pub single_bandwidth: u64,
    /// The bandwidth of the session once it is slowed down, in bits per second.
    pub limit_speed: u64,
    /// The mean speed above which the session is slowed down, in bits per millisecond.
    pub downgrade_threshold: u128,
    /// How long the session runs before its mean speed is looked at, in milliseconds.
    pub downgrade_start_check: u64,
    /// When the current interval began.
    pub tm: u64,
    /// The milliseconds of the intervals that were counted.
    pub elapsed: u64,
    /// The bits in all.
    pub total: u64,
    /// The bits of the current interval.
    pub total_s: u64,
    /// The highest speed of an interval, in bits per millisecond.
    pub highest_s: u64,
    /// Whether the session was too fast.
    pub downgrade: bool,
    /// Whether the address was last found on the blacklist.
    pub blacked: bool,
    /// When data last came in.
    pub last_recv_time: u64,
    /// When the lists were last asked for the address.
    pub last_ip_check: u64,
}

/// How a session's data is slowed down.
#[derive(Clone, Copy, Debug, PartialEq, Eq, Structural)]
pub enum Pace {
    /// To the bandwidth of the session.
    Single,
    /// To the speed of a session that is slowed down.
    Limited,
}

/// What is to be done with data that came in.
#[derive(Clone, Copy, Debug, PartialEq, Eq, Structural)]
pub struct DataStep {
    /// The bits to be counted against the limits.
    pub bits: u64,
    /// The limit of the session.
    pub pace: Pace,
    /// Whether there is anything to be handed to the other side.
    pub forward: bool,
}

/// What comes of the look that is taken at a session each second.
#[derive(Clone, Copy, Debug, PartialEq, Eq, Structural)]
pub enum TickStep {
    /// No data came for too long: the session ends with an error.
    Timeout,
    /// The address is not served any more: the session ends.
    Blocked,
    /// No data came since the last look.
    Idle,
    /// Data came, but the interval has not lasted for a millisecond: it goes on.
    Early,
    /// The interval was counted.
    Counted {
        /// Whether the session was found to be too fast for the first time.
        downgraded: bool,
    },
}

/// What a session's streams end it by.
#[derive(Clone, Copy, Debug, PartialEq, Eq, Structural)]
pub enum StreamEnd {
    /// A side has closed its stream.
    Closed,
    /// Data could not be received from a side.
    ReceiveFailed,
    /// Data could not be sent to a side.
    SendFailed,
}

/// Whether a session that its streams end has ended with an error: only sending can fail it.
pub fn session_end(why: StreamEnd) -> (failed: bool)
    ensures
        failed == (why is SendFailed),
{
    match why {
        StreamEnd::SendFailed => true,
        _ => false,
    }
}

/// Whole seconds from one point in time to another.
pub open spec fn seconds_between(from: u64, to: u64) -> int {
    (to - from) / 1_000_000_000
}

/// Whole milliseconds from one point in time to another.
pub open spec fn millis_between(from: u64, to: u64) -> int {
    (to - from) / 1_000_000
}

/// The mean speed above which a session is slowed down: the given hundredths of its bandwidth,
/// in bits per millisecond.
pub open spec fn threshold(params: Params) -> int {
    (params.single_bandwidth * params.downgrade_threshold_100) / 100_000
}

/// A session that begins.
pub open spec fn new_session(params: Params, ip: String, id: String, now: u64) -> RelaySession {
    RelaySession {
        ip,
        id,
        single_bandwidth: params.single_bandwidth,
        limit_speed: params.limit_speed,
        downgrade_threshold: threshold(params) as u128,
        downgrade_start_check: params.downgrade_start_check,
        tm: now,
        elapsed: 0,
        total: 0,
        total_s: 0,
        highest_s: 0,
        downgrade: false,
        blacked: false,
        last_recv_time: now,
        last_ip_check: now,
    }
}

impl RelaySession {
    /// What holds of a session throughout.
    pub open spec fn wf(self) -> bool {
        &&& self.elapsed <= self.tm / 1_000_000
        &&& self.total_s <= self.total
        &&& self.total_s > 0 ==> self.tm <= self.last_recv_time
    }

    /// The clock has not run back behind what the session has seen of it.
    pub open spec fn not_after(self, now: u64) -> bool {
        self.tm <= now && self.last_recv_time <= now && self.last_ip_check <= now
    }

    /// The limit that holds for the session.
    pub open spec fn pace(self) -> Pace {
        if self.blacked || self.downgrade {
            Pace::Limited
        } else {
            Pace::Single
        }
    }
}

/// A session after `len` bytes of data.
pub open spec fn after_data(s: RelaySession, now: u64, len: int) -> RelaySession {
    RelaySession {
        last_recv_time: now,
        total: (s.total + 8 * len) as u64,
        total_s: (s.total_s + 8 * len) as u64,
        ..s
    }
}

/// Whether no data came for more than half a minute.
pub open spec fn timed_out(s: RelaySession, now: u64) -> bool {
    seconds_between(s.last_recv_time, now) > 30
}

/// Whether the lists are to be asked again: every five seconds.
pub open spec fn check_due(s: RelaySession, now: u64) -> bool {
    seconds_between(s.last_ip_check, now) >= 5
}

/// Whether a look finds that the session goes on.
pub open spec fn goes_on(v: ServerView, s: RelaySession, now: u64) -> bool {
    !timed_out(s, now) && !(check_due(s, now) && v.blocklist.contains(s.ip@))
}

/// A session after the lists were asked, if that was due.
pub open spec fn after_check(v: ServerView, s: RelaySession, now: u64) -> RelaySession {
    if check_due(s, now) {
        RelaySession { blacked: v.blacklist.contains(s.ip@), last_ip_check: now, ..s }
    } else {
        s
    }
}

/// The speed of the current interval.
pub open spec fn interval_speed(s: RelaySession, now: u64) -> int {
    s.total_s as int / millis_between(s.tm, now)
}

/// Whether the mean speed is above the threshold, after the time from which it is looked at.
pub open spec fn too_fast(s: RelaySession, elapsed: int) -> bool {
    elapsed > s.downgrade_start_check && s.total > elapsed * s.downgrade_threshold
}

/// A session after an interval with data was counted.
pub open spec fn after_interval(s: RelaySession, now: u64) -> RelaySession {
    let elapsed = s.elapsed + millis_between(s.tm, now);
    let speed = interval_speed(s, now);
    RelaySession {
        tm: now,
        elapsed: elapsed as u64,
        total_s: 0,
        highest_s: if speed > s.highest_s { speed as u64 } else { s.highest_s },
        downgrade: s.downgrade || too_fast(s, elapsed),
        ..s
    }
}

/// Whether an interval has lasted for a millisecond, so that its speed can be told.
pub open spec fn has_lasted(s: RelaySession, now: u64) -> bool {
    millis_between(s.tm, now) > 0
}

/// A session after a look.
pub open spec fn after_tick(v: ServerView, s: RelaySession, now: u64) -> RelaySession {
    if !goes_on(v, s, now) {
        s
    } else if s.total_s == 0 {
        RelaySession { tm: now, ..after_check(v, s, now) }
    } else if !has_lasted(s, now) {
        after_check(v, s, now)
    } else {
        after_interval(after_check(v, s, now), now)
    }
}

/// What comes of a look.
pub open spec fn tick_step(v: ServerView, s: RelaySession, now: u64) -> TickStep {
    if timed_out(s, now) {
        TickStep::Timeout
    } else if !goes_on(v, s, now) {
        TickStep::Blocked
    } else if s.total_s == 0 {
        TickStep::Idle
    } else if !has_lasted(s, now) {
        TickStep::Early
    } else {
        TickStep::Counted { downgraded: after_interval(s, now).downgrade && !s.downgrade }
    }
}

/// The account of a session whose last interval was counted at `now`.
pub open spec fn account(s: RelaySession, now: u64) -> (u64, u64, u64, u64) {
    let done = after_interval(s, now);
    (done.elapsed, done.total, done.highest_s, interval_speed(s, now) as u64)
}

/// Whether a look counts an interval.
pub open spec fn counts(v: ServerView, s: RelaySession, now: u64) -> bool {
    goes_on(v, s, now) && s.total_s != 0 && has_lasted(s, now)
}

/// The server after a look: an interval that was counted goes into the session's account, if
/// there is one.
pub open spec fn server_after_tick(v: ServerView, s: RelaySession, now: u64) -> ServerView {
    if counts(v, s, now) && v.usage.contains_key(s.id@) {
        ServerView { usage: v.usage.insert(s.id@, account(s, now)), ..v }
    } else {
        v
    }
}

impl RelaySession {
    /// Whether the session can count that much data more.
    pub fn has_room(&self, len: usize) -> (yes: bool)
        ensures
            yes == (self.total + 8 * len <= u64::MAX),
    {
        (u64::MAX - self.total) / 8 >= len as u64
    }

    /// Counts data that came in.
    pub fn on_data(&mut self, now: u64, len: usize) -> (step: DataStep)
        requires
            old(self).wf(),
            old(self).not_after(now),
            old(self).total + 8 * len <= u64::MAX,
        ensures
            *final(self) == after_data(*old(self), now, len as int),
            final(self).wf(),
            final(self).not_after(now),
            step == (DataStep {
                bits: (8 * len) as u64,
                pace: old(self).pace(),
                forward: len != 0,
            }),
    {
        self.last_recv_time = now;
        let bits: u64 = len as u64 * 8;
        let pace = if self.blacked || self.downgrade {
            Pace::Limited
        } else {
            Pace::Single
        };
        self.total = self.total + bits;
        self.total_s = self.total_s + bits;
        DataStep { bits, pace, forward: len != 0 }
    }

    /// Counts an interval with data. Gives the interval's speed.
    fn count_interval(&mut self, now: u64) -> (speed: u64)
        requires
            old(self).wf(),
            old(self).not_after(now),
            old(self).total_s != 0,
            has_lasted(*old(self), now),
        ensures
            *final(self) == after_interval(*old(self), now),
            final(self).wf(),
            final(self).not_after(now),
            speed == interval_speed(*old(self), now),
    {
        let n: u64 = (now - self.tm) / 1_000_000;
        let speed: u64 = self.total_s / n;
        if speed > self.highest_s {
            self.highest_s = speed;
        }
        self.elapsed = self.elapsed + n;
        self.total_s = 0;
        self.tm = now;
        if self.elapsed > self.downgrade_start_check && !self.downgrade {
            let far: bool = match self.downgrade_threshold.checked_mul(self.elapsed as u128) {
                Some(limit) => self.total as u128 > limit,
                None => false,
            };
            proof {
                assert(self.elapsed * self.downgrade_threshold == self.downgrade_threshold
                    * self.elapsed) by (nonlinear_arith);
            }
            if far {
                self.downgrade = true;
            }
        }
        speed
    }
}

impl RelayServer {
    /// Begins a session.
    pub fn start_session(&self, ip: String, id: String, now: u64) -> (s: RelaySession)
        ensures
            s == new_session(self@.params, ip, id, now),
            s.wf(),
            s.not_after(now),
    {
        let params = self.params;
        let share: u128 = params.single_bandwidth as u128;
        let hundredths: u128 = params.downgrade_threshold_100 as u128;
        assert(0 <= share * hundredths <= u64::MAX * u64::MAX) by (nonlinear_arith)
            requires
                0 <= share <= u64::MAX,
                0 <= hundredths <= u64::MAX,
        ;
        RelaySession {
            ip,
            id,
            single_bandwidth: params.single_bandwidth,
            limit_speed: params.limit_speed,
            downgrade_threshold: share * hundredths / 100_000,
            downgrade_start_check: params.downgrade_start_check,
            tm: now,
            elapsed: 0,
            total: 0,
            total_s: 0,
            highest_s: 0,
            downgrade: false,
            blacked: false,
            last_recv_time: now,
            last_ip_check: now,
        }
    }

    /// Takes the look at a session that is due each second.
    pub fn relay_tick(&mut self, s: &mut RelaySession, now: u64) -> (step: TickStep)
        requires
            old(s).wf(),
            old(s).not_after(now),
        ensures
            step == tick_step(old(self)@, *old(s), now),
            *final(s) == after_tick(old(self)@, *old(s), now),
            final(self)@ == server_after_tick(old(self)@, *old(s), now),
            final(s).wf(),
            final(s).not_after(now),
    {
        if (now - s.last_recv_time) / 1_000_000_000 > 30 {
            return TickStep::Timeout;
        }
        if (now - s.last_ip_check) / 1_000_000_000 >= 5 {
            if self.is_listed(ListKind::Blocklist, s.ip.as_str()) {
                return TickStep::Blocked;
            }
            s.blacked = self.is_listed(ListKind::Blacklist, s.ip.as_str());
            s.last_ip_check = now;
        }
        if s.total_s == 0 {
            s.tm = now;
            return TickStep::Idle;
        }
        if (now - s.tm) / 1_000_000 == 0 {
            return TickStep::Early;
        }
        let before: bool = s.downgrade;
        let speed: u64 = s.count_interval(now);
        accounts_write(
            &mut self.usage,
            s.id.as_str(),
            (s.elapsed, s.total, s.highest_s, speed),
        );
        TickStep::Counted { downgraded: s.downgrade && !before }
    }
}

/// What can happen to a session.
pub enum SessionEvent {
    /// Data of so many bytes comes in.
    Data { now: u64, len: nat },
    /// A look is taken, with the server in some state.
    Tick { server: ServerView, now: u64 },
}

/// A session after an event.
pub open spec fn after_event(s: RelaySession, event: SessionEvent) -> RelaySession {
    match event {
        SessionEvent::Data { now, len } => after_data(s, now, len as int),
        SessionEvent::Tick { server, now } => after_tick(server, s, now),
    }
}

/// A session after a sequence of events.
pub open spec fn after_events(s: RelaySession, events: Seq<SessionEvent>) -> RelaySession
    decreases events.len(),
{
    if events.len() == 0 {
        s
    } else {
        after_event(after_events(s, events.drop_last()), events.last())
    }
}

/// The bytes of all data of a sequence of events.
pub open spec fn bytes_of(events: Seq<SessionEvent>) -> nat
    decreases events.len(),
{
    if events.len() == 0 {
        0
    } else {
        bytes_of(events.drop_last()) + match events.last() {
            SessionEvent::Data { now, len } => len,
            SessionEvent::Tick { server, now } => 0,
        }
    }
}

/// Whether an event can happen to a session: the clock has not run back, and the data can be
/// counted.
pub open spec fn can_happen(s: RelaySession, event: SessionEvent) -> bool {
    match event {
        SessionEvent::Data { now, len } => s.not_after(now) && s.total + 8 * len <= u64::MAX,
        SessionEvent::Tick { server, now } => s.not_after(now),
    }
}

/// Whether a sequence of events can happen to a session, one after the other.
pub open spec fn can_follow(s: RelaySession, events: Seq<SessionEvent>) -> bool
    decreases events.len(),
{
    events.len() > 0 ==> {
        &&& can_follow(s, events.drop_last())
        &&& can_happen(after_events(s, events.drop_last()), events.last())
    }
}

proof fn lemma_event(s: RelaySession, event: SessionEvent)
    requires
        s.wf(),
        can_happen(s, event),
    ensures
        after_event(s, event).wf(),
        after_event(s, event).highest_s >= s.highest_s,
        after_event(s, event).total == s.total + 8 * bytes_of(seq![event]),
        s.downgrade ==> after_event(s, event).downgrade,
{
    assert(seq![event].drop_last() == Seq::<SessionEvent>::empty());
    assert(bytes_of(Seq::<SessionEvent>::empty()) == 0);
    assert(seq![event].last() == event);
    if let SessionEvent::Tick { server, now } = event {
        if counts(server, s, now) {
            let (bits, millis) = (s.total_s as int, millis_between(s.tm, now));
            assert(0 <= bits / millis <= bits) by (nonlinear_arith)
                requires
                    bits >= 0,
                    millis > 0,
            ;
        }
    }
}

/// A session stays well formed, whatever happens to it.
pub proof fn lemma_stays_well_formed(s: RelaySession, events: Seq<SessionEvent>)
    requires
        s.wf(),
        can_follow(s, events),
    ensures
        after_events(s, events).wf(),
    decreases events.len(),
{
    if events.len() > 0 {
        lemma_stays_well_formed(s, events.drop_last());
        lemma_event(after_events(s, events.drop_last()), events.last());
    }
}

/// Whatever happens to a session, its total grows by eight bits for each byte, and by nothing
/// else.
pub proof fn lemma_every_byte_is_counted(s: RelaySession, events: Seq<SessionEvent>)
    requires
        s.wf(),
        can_follow(s, events),
    ensures
        after_events(s, events).total == s.total + 8 * bytes_of(events),
    decreases events.len(),
{
    if events.len() > 0 {
        lemma_every_byte_is_counted(s, events.drop_last());
        lemma_stays_well_formed(s, events.drop_last());
        lemma_event(after_events(s, events.drop_last()), events.last());
        assert(seq![events.last()].drop_last() == Seq::<SessionEvent>::empty());
        assert(bytes_of(seq![events.last()]) + bytes_of(events.drop_last()) == bytes_of(events));
    }
}

/// A session that was too fast once stays slowed down, whatever happens to it.
pub proof fn lemma_downgrade_is_for_good(s: RelaySession, events: Seq<SessionEvent>)
    requires
        s.wf(),
        s.downgrade,
        can_follow(s, events),
    ensures
        after_events(s, events).downgrade,
        after_events(s, events).pace() == Pace::Limited,
    decreases events.len(),
{
    if events.len() > 0 {
        lemma_downgrade_is_for_good(s, events.drop_last());
        lemma_stays_well_formed(s, events.drop_last());
        lemma_event(after_events(s, events.drop_last()), events.last());
    }
}

/// The highest speed of a session never falls.
pub proof fn lemma_highest_never_falls(s: RelaySession, events: Seq<SessionEvent>)
    requires
        s.wf(),
        can_follow(s, events),
    ensures
        after_events(s, events).highest_s >= s.highest_s,
    decreases events.len(),
{
    if events.len() > 0 {
        lemma_highest_never_falls(s, events.drop_last());
        lemma_stays_well_formed(s, events.drop_last());
        lemma_event(after_events(s, events.drop_last()), events.last());
    }
}

/// A session whose address is on the blocklist ends at the first look that is taken five seconds
/// after the lists were last asked, or later.
pub proof fn lemma_blocked_session_ends(v: ServerView, s: RelaySession, now: u64)
    requires
        s.not_after(now),
        v.blocklist.contains(s.ip@),
        now - s.last_ip_check >= 5_000_000_000,
    ensures
        tick_step(v, s, now) == TickStep::Timeout || tick_step(v, s, now) == TickStep::Blocked,
        server_after_tick(v, s, now) == v,
{
}

/// A session ends with an error at a look that finds 31 seconds without data or more, and at no
/// other one.
pub proof fn lemma_silent_session_ends(v: ServerView, s: RelaySession, now: u64)
    requires
        s.not_after(now),
    ensures
        tick_step(v, s, now) == TickStep::Timeout <==> now - s.last_recv_time >= 31_000_000_000,
{
}

/// A session that goes on after the lists were asked is slowed down if its address is on the
/// blacklist, and not on that account if it is not.
pub proof fn lemma_blacklist_sets_pace(v: ServerView, s: RelaySession, now: u64)
    requires
        s.not_after(now),
        goes_on(v, s, now),
        now - s.last_ip_check >= 5_000_000_000,
    ensures
        after_tick(v, s, now).pace() == Pace::Limited <==> v.blacklist.contains(s.ip@)
            || after_tick(v, s, now).downgrade,
{
}

/// Between two times of asking, what is on the lists does not matter to a session.
pub proof fn lemma_lists_are_asked_rarely(
    v: ServerView,
    w: ServerView,
    s: RelaySession,
    now: u64,
)
    requires
        s.not_after(now),
        now - s.last_ip_check < 5_000_000_000,
    ensures
        tick_step(v, s, now) == tick_step(w, s, now),
        after_tick(v, s, now) == after_tick(w, s, now),
{
}

/// A look within the first millisecond of an interval with data does no harm: the session goes on,
/// what the interval has counted is kept, and no account is written.
pub proof fn lemma_early_look_is_harmless(v: ServerView, s: RelaySession, now: u64)
    requires
        s.not_after(now),
        goes_on(v, s, now),
        s.total_s != 0,
        now - s.tm < 1_000_000,
    ensures
        tick_step(v, s, now) == TickStep::Early,
        after_tick(v, s, now) == after_check(v, s, now),
        after_tick(v, s, now).tm == s.tm,
        after_tick(v, s, now).total_s == s.total_s,
        server_after_tick(v, s, now) == v,
{
}

/// The account that a look writes has all bits of the session, and a highest speed that is at
/// least the last one and at least the highest of before.
pub proof fn lemma_account_is_true(s: RelaySession, now: u64)
    requires
        s.wf(),
        s.not_after(now),
        has_lasted(s, now),
    ensures
        account(s, now).0 == s.elapsed + millis_between(s.tm, now),
        account(s, now).1 == s.total,
        account(s, now).2 >= account(s, now).3,
        account(s, now).2 >= s.highest_s,
{
    let (bits, millis) = (s.total_s as int, millis_between(s.tm, now));
    assert(0 <= bits / millis <= bits) by (nonlinear_arith)
        requires
            bits >= 0,
            millis > 0,
    ;
}

/// A look leaves the accounts of all other sessions as they are, and everything else that the
/// server keeps.
pub proof fn lemma_tick_touches_one_account(
    v: ServerView,
    s: RelaySession,
    now: u64,
    other: Seq<char>,
)
    requires
        other != s.id@,
    ensures
        ({
            let w = server_after_tick(v, s, now);
            &&& w == (ServerView { usage: w.usage, ..v })
            &&& w.usage.contains_key(other) == v.usage.contains_key(other)
            &&& v.usage.contains_key(other) ==> w.usage[other] == v.usage[other]
            &&& w.usage.dom() == v.usage.dom()
        }),
{
    let w = server_after_tick(v, s, now);
    assert(w.usage.dom() =~= v.usage.dom());
}

} // verus!

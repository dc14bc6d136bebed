//! Laws of relay sessions.

use crate::relay_server::session::{
    after_events, bytes_of, can_follow, counts, interval_speed, lemma_every_byte_is_counted,
    lemma_stays_well_formed, millis_between, session_end, DataStep, Pace, RelaySession,
    SessionEvent, StreamEnd, TickStep,
};
use crate::relay_server::{RelayServer, ServerView};
use vstd::prelude::*;

verus! {

proof fn lemma_quotient(a: int, b: int)
    requires
        a >= 0,
        b > 0,
    ensures
        (a / b) * b <= a < (a / b + 1) * b,
        0 <= a / b <= a,
{
    assert((a / b) * b <= a < (a / b + 1) * b && 0 <= a / b <= a) by (nonlinear_arith)
        requires
            a >= 0,
            b > 0,
    ;
}

/// A session begins with nothing counted, at the pace of a single session, and with the parameters
/// that the server has at that time. Its threshold is the server's hundredths of its bandwidth, in
/// bits per millisecond, rounded down.
pub proof fn lemma_session_begins(
    server: &RelayServer,
    ip: String,
    id: String,
    now: u64,
    s: RelaySession,
)
    requires
        call_ensures(RelayServer::start_session, (server, ip, id, now), s),
    ensures
        s.ip == ip,
        s.id == id,
        s.elapsed == 0 && s.total == 0 && s.total_s == 0 && s.highest_s == 0,
        !s.downgrade && !s.blacked,
        s.tm == now && s.last_recv_time == now && s.last_ip_check == now,
        s.single_bandwidth == server@.params.single_bandwidth,
        s.limit_speed == server@.params.limit_speed,
        s.downgrade_start_check == server@.params.downgrade_start_check,
        s.downgrade_threshold * 100_000 <= server@.params.single_bandwidth
            * server@.params.downgrade_threshold_100 < (s.downgrade_threshold + 1) * 100_000,
{
    let (sb, d) = (
        server@.params.single_bandwidth as int,
        server@.params.downgrade_threshold_100 as int,
    );
    assert(0 <= sb * d <= u64::MAX * u64::MAX) by (nonlinear_arith)
        requires
            0 <= sb <= u64::MAX,
            0 <= d <= u64::MAX,
    ;
}

/// Data counts eight bits for each byte, in all and in the interval; it is paced by the single
/// limit unless the session is slowed down or on the blacklist, and handed on unless it is empty.
/// Nothing else of the session changes but when data last came.
pub proof fn lemma_data_is_counted(now: u64, len: usize)
    ensures
        forall|s: &mut RelaySession, step: DataStep| #[trigger]
            call_ensures(RelaySession::on_data, (s, now, len), step) && s.total_s <= s.total
                && s.total + 8 * len <= u64::MAX ==> {
                &&& final(s).total == s.total + 8 * len
                &&& final(s).total_s == s.total_s + 8 * len
                &&& *final(s) == (RelaySession {
                    total: final(s).total,
                    total_s: final(s).total_s,
                    last_recv_time: now,
                    ..*s
                })
                &&& step.bits == 8 * len
                &&& step.forward == (len > 0)
                &&& step.pace == (if s.blacked || s.downgrade {
                    Pace::Limited
                } else {
                    Pace::Single
                })
            },
{
}

/// A session has room for data as long as its bits in all can be held.
pub proof fn lemma_room(s: &RelaySession, len: usize, yes: bool)
    requires
        call_ensures(RelaySession::has_room, (s, len), yes),
    ensures
        yes == (s.total + 8 * len <= u64::MAX),
{
}

/// Only what could not be sent makes the end of a session an error.
pub proof fn lemma_only_sending_fails(why: StreamEnd, failed: bool)
    requires
        call_ensures(session_end, (why,), failed),
    ensures
        failed == (why != StreamEnd::Closed && why != StreamEnd::ReceiveFailed),
{
}

/// What a look finds: silence of 31 seconds; else, if the lists were last asked five seconds ago
/// or more, an address on the blocklist; else no data; else data in less than a millisecond; and
/// else an interval to be counted.
pub proof fn lemma_what_a_look_finds(now: u64)
    ensures
        forall|server: &mut RelayServer, s: &mut RelaySession, step: TickStep| #[trigger]
            call_ensures(RelayServer::relay_tick, (server, s, now), step) && s.tm <= now
                && s.last_recv_time <= now && s.last_ip_check <= now ==> {
                let silent = now - s.last_recv_time >= 31_000_000_000;
                let blocked = now - s.last_ip_check >= 5_000_000_000 && server@.blocklist.contains(
                    s.ip@,
                );
                &&& step is Timeout == silent
                &&& step is Blocked == (!silent && blocked)
                &&& step is Idle == (!silent && !blocked && s.total_s == 0)
                &&& step is Early == (!silent && !blocked && s.total_s > 0 && now - s.tm
                    < 1_000_000)
            },
{
}

/// What a look leaves as it is: a session that it ends, with all of the server; and of one that
/// goes on its address, its account's key, its parameters, its bits in all and when data last
/// came. The lists are asked once five seconds have passed, and only then.
pub proof fn lemma_what_a_look_leaves(now: u64)
    ensures
        forall|server: &mut RelayServer, s: &mut RelaySession, step: TickStep| #[trigger]
            call_ensures(RelayServer::relay_tick, (server, s, now), step) && s.tm <= now
                && s.last_recv_time <= now && s.last_ip_check <= now ==> {
                let due = now - s.last_ip_check >= 5_000_000_000;
                &&& step is Timeout || step is Blocked ==> *final(s) == *s && final(server)@
                    == server@
                &&& final(s).ip == s.ip && final(s).id == s.id
                &&& final(s).single_bandwidth == s.single_bandwidth
                &&& final(s).limit_speed == s.limit_speed
                &&& final(s).downgrade_threshold == s.downgrade_threshold
                &&& final(s).downgrade_start_check == s.downgrade_start_check
                &&& final(s).total == s.total
                &&& final(s).last_recv_time == s.last_recv_time
                &&& !(step is Timeout || step is Blocked) ==> {
                    &&& final(s).blacked == (if due {
                        server@.blacklist.contains(s.ip@)
                    } else {
                        s.blacked
                    })
                    &&& final(s).last_ip_check == (if due {
                        now
                    } else {
                        s.last_ip_check
                    })
                }
                &&& !(step is Counted) ==> {
                    &&& final(server)@ == server@
                    &&& final(s).elapsed == s.elapsed && final(s).total_s == s.total_s
                    &&& final(s).highest_s == s.highest_s && final(s).downgrade == s.downgrade
                    &&& final(s).tm == (if step is Idle {
                        now
                    } else {
                        s.tm
                    })
                }
            },
{
}

/// An interval that is counted adds its whole milliseconds to those of the session; its speed is
/// its bits by these milliseconds, rounded down, and the highest speed is the highest there was.
/// The account gets the session's milliseconds, its bits in all and the two speeds; no other
/// account and nothing else of the server changes.
pub proof fn lemma_what_is_counted(now: u64)
    ensures
        forall|server: &mut RelayServer, s: &mut RelaySession, step: TickStep| #[trigger]
            call_ensures(RelayServer::relay_tick, (server, s, now), step) && s.tm <= now
                && s.last_recv_time <= now && s.last_ip_check <= now && s.elapsed <= s.tm
                / 1_000_000 && step is Counted ==> {
                let n = final(s).elapsed - s.elapsed;
                &&& n * 1_000_000 <= now - s.tm < (n + 1) * 1_000_000
                &&& final(s).tm == now && final(s).total_s == 0
                &&& exists|speed: u64|
                    {
                        &&& #[trigger] (speed * n) <= s.total_s < (speed + 1) * n
                        &&& final(s).highest_s == (if speed > s.highest_s {
                            speed
                        } else {
                            s.highest_s
                        })
                        &&& final(server)@ == (if server@.usage.contains_key(s.id@) {
                            ServerView {
                                usage: server@.usage.insert(
                                    s.id@,
                                    (final(s).elapsed, s.total, final(s).highest_s, speed),
                                ),
                                ..server@
                            }
                        } else {
                            server@
                        })
                    }
            },
{
    assert forall|server: &mut RelayServer, s: &mut RelaySession, step: TickStep| #[trigger]
        call_ensures(RelayServer::relay_tick, (server, s, now), step) && s.tm <= now
            && s.last_recv_time <= now && s.last_ip_check <= now && s.elapsed <= s.tm / 1_000_000
            && step is Counted implies {
        let n = final(s).elapsed - s.elapsed;
        &&& n * 1_000_000 <= now - s.tm < (n + 1) * 1_000_000
        &&& final(s).tm == now && final(s).total_s == 0
        &&& exists|speed: u64|
            {
                &&& #[trigger] (speed * n) <= s.total_s < (speed + 1) * n
                &&& final(s).highest_s == (if speed > s.highest_s {
                    speed
                } else {
                    s.highest_s
                })
                &&& final(server)@ == (if server@.usage.contains_key(s.id@) {
                    ServerView {
                        usage: server@.usage.insert(
                            s.id@,
                            (final(s).elapsed, s.total, final(s).highest_s, speed),
                        ),
                        ..server@
                    }
                } else {
                    server@
                })
            }
    } by {
        let n = millis_between(s.tm, now);
        lemma_quotient(s.total_s as int, n);
        let speed = interval_speed(*s, now) as u64;
        assert(final(s).elapsed - s.elapsed == n);
        assert(speed * n <= s.total_s < (speed + 1) * n);
    }
}

/// A look slows a session down if and only if it counts an interval, the session was not slowed
/// down before, and with that interval its milliseconds are more than the start check and its
/// bits in all more than these milliseconds at the given hundredths of its bandwidth. `begun` is
/// the session as it began. How fast the interval itself was does not matter.
pub proof fn lemma_mean_speed_decides(
    server: &RelayServer,
    ip: String,
    id: String,
    begun_at: u64,
    begun: RelaySession,
    now: u64,
)
    requires
        call_ensures(RelayServer::start_session, (server, ip, id, begun_at), begun),
    ensures
        forall|later: &mut RelayServer, s: &mut RelaySession, step: TickStep| #[trigger]
            call_ensures(RelayServer::relay_tick, (later, s, now), step) && s.tm <= now
                && s.last_recv_time <= now && s.last_ip_check <= now && s.elapsed <= s.tm
                / 1_000_000 && s.downgrade_threshold == begun.downgrade_threshold
                && s.downgrade_start_check == begun.downgrade_start_check ==> {
                let params = server@.params;
                let limit = (params.single_bandwidth * params.downgrade_threshold_100) / 100_000;
                let millis = final(s).elapsed;
                let slowed = step is Counted && !s.downgrade && millis
                    > params.downgrade_start_check && s.total > millis * limit;
                &&& final(s).downgrade == (s.downgrade || slowed)
                &&& step == (TickStep::Counted { downgraded: true }) <==> slowed
            },
{
    lemma_session_begins(server, ip, id, begun_at, begun);
    let params = server@.params;
    let product = params.single_bandwidth * params.downgrade_threshold_100;
    assert(begun.downgrade_threshold == product / 100_000);
}

/// What happens to a session never changes its address, its account's key and its parameters,
/// whatever the server's parameters become.
pub proof fn lemma_parameters_are_fixed(s: RelaySession, events: Seq<SessionEvent>)
    ensures
        ({
            let after = after_events(s, events);
            &&& after.ip == s.ip && after.id == s.id
            &&& after.single_bandwidth == s.single_bandwidth
            &&& after.limit_speed == s.limit_speed
            &&& after.downgrade_threshold == s.downgrade_threshold
            &&& after.downgrade_start_check == s.downgrade_start_check
        }),
    decreases events.len(),
{
    if events.len() > 0 {
        lemma_parameters_are_fixed(s, events.drop_last());
    }
}

/// A session whose bits in all stay at or below what the threshold allows by the time that the
/// mean is looked at from is never slowed down, however they are spread over its intervals.
pub proof fn lemma_slow_session_is_never_slowed_down(s: RelaySession, events: Seq<SessionEvent>)
    requires
        s.wf(),
        can_follow(s, events),
        !s.downgrade,
        s.total + 8 * bytes_of(events) <= s.downgrade_start_check * s.downgrade_threshold,
    ensures
        !after_events(s, events).downgrade,
    decreases events.len(),
{
    if events.len() > 0 {
        let before = after_events(s, events.drop_last());
        assert(bytes_of(events.drop_last()) <= bytes_of(events));
        lemma_slow_session_is_never_slowed_down(s, events.drop_last());
        lemma_every_byte_is_counted(s, events.drop_last());
        lemma_stays_well_formed(s, events.drop_last());
        lemma_parameters_are_fixed(s, events.drop_last());
        if let SessionEvent::Tick { server, now } = events.last() {
            if counts(server, before, now) {
                let elapsed = before.elapsed + millis_between(before.tm, now);
                let (limit, start) = (
                    s.downgrade_threshold as int,
                    s.downgrade_start_check as int,
                );
                if elapsed > start {
                    assert(elapsed * limit >= start * limit) by (nonlinear_arith)
                        requires
                            elapsed > start,
                            limit >= 0,
                    ;
                }
            }
        }
    }
}

/// The time that is counted of a session is never more than the time that has passed.
pub proof fn lemma_time_is_not_invented(s: RelaySession, began: u64, events: Seq<SessionEvent>)
    requires
        s.wf(),
        can_follow(s, events),
        s.elapsed == 0,
        s.tm == began,
    ensures
        after_events(s, events).elapsed * 1_000_000 <= after_events(s, events).tm - began,
    decreases events.len(),
{
    if events.len() > 0 {
        lemma_time_is_not_invented(s, began, events.drop_last());
        lemma_stays_well_formed(s, events.drop_last());
    }
}

} // verus!

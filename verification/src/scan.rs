//! Active discovery: a burst of probes, and the decision when the answers have come.
//! Instants are nanoseconds on a clock that never goes back.
use crate::state::elapsed;
use crate::state::elapsed_nanos;
use vstd::prelude::*;

verus! {

/// How long a scan sleeps at most between two looks at the peers, in nanoseconds.
pub const LOOK_EVERY: u64 = 20_000_000;

/// After how many nanoseconds the probe is sent once more, in case one was lost.
pub const PROBE_AGAIN_AFTER: u64 = 60_000_000;

/// How many nanoseconds a scan takes at least, unless its ceiling is lower.
pub const LISTEN_AT_LEAST: u64 = 120_000_000;

/// After how many nanoseconds without a change in the number of peers the LAN is quiet.
pub const QUIET_AFTER: u64 = 130_000_000;

/// The greatest ceiling on a scan, in milliseconds.
pub const WAIT_MAX: u64 = 5000;

/// Where a scan stands.
#[derive(Clone, Copy)]
pub enum ScanPhase {
    /// The first probe is being sent.
    Probing,
    /// The scan sleeps.
    Sleeping,
    /// The probe is being sent once more; the scan had taken so long when it woke.
    ProbingAgain { taken: u64 },
}

/// A scan under way.
#[derive(Clone, Copy)]
pub struct Scan {
    /// When it began.
    pub start: u64,
    /// After how many nanoseconds it ends, whatever comes in.
    pub deadline: u64,
    /// The number of peers at the last look.
    pub count: usize,
    /// When that number last changed.
    pub changed: u64,
    /// Whether the probe has been sent once more.
    pub resent: bool,
    pub phase: ScanPhase,
}

/// What a scan does next.
#[derive(Clone, Copy)]
pub enum ScanAction {
    /// Send the probe.
    Probe,
    /// Wait for so many nanoseconds.
    Sleep(u64),
    /// End, with so many peers known.
    Done(usize),
}

/// The ceiling on a scan, in nanoseconds, for the one that was asked for in milliseconds.
pub open spec fn ceiling(wait_ms: u64) -> u64 {
    ((if wait_ms > WAIT_MAX {
        WAIT_MAX
    } else {
        wait_ms
    }) * 1_000_000) as u64
}

/// How many nanoseconds are left of a scan before its ceiling.
pub open spec fn left(scan: Scan, now: u64) -> u64 {
    if elapsed(scan.start, now) < scan.deadline {
        (scan.deadline - elapsed(scan.start, now)) as u64
    } else {
        0
    }
}

/// How long a scan with so many nanoseconds left sleeps.
pub open spec fn nap(rest: u64) -> u64 {
    if rest < LOOK_EVERY {
        rest
    } else {
        LOOK_EVERY
    }
}

/// A scan that begins; its probe is the first thing to send.
pub open spec fn begun(wait_ms: u64, now: u64) -> Scan {
    Scan {
        start: now,
        deadline: ceiling(wait_ms),
        count: 0,
        changed: now,
        resent: false,
        phase: ScanPhase::Probing,
    }
}

/// Whether a scan that had taken `taken` when it woke is over now: the ceiling is reached,
/// or the LAN is quiet and the scan has listened long enough.
pub open spec fn is_over(scan: Scan, taken: u64, now: u64) -> bool {
    ||| left(scan, now) == 0
    ||| taken >= LISTEN_AT_LEAST && elapsed(scan.changed, now) >= QUIET_AFTER
}

/// A scan after a look, and what it does next. It never sleeps beyond its ceiling.
pub open spec fn looked(scan: Scan, taken: u64, now: u64) -> (Scan, ScanAction) {
    (
        Scan { phase: ScanPhase::Sleeping, ..scan },
        if is_over(scan, taken, now) {
            ScanAction::Done(scan.count)
        } else {
            ScanAction::Sleep(nap(left(scan, now)))
        },
    )
}

/// A scan that has taken `taken`, and what it does next: it sends the probe that it owes, or
/// looks whether it is over.
pub open spec fn woken(scan: Scan, taken: u64, now: u64) -> (Scan, ScanAction) {
    if !scan.resent && taken >= PROBE_AGAIN_AFTER {
        (
            Scan { resent: true, phase: ScanPhase::ProbingAgain { taken }, ..scan },
            ScanAction::Probe,
        )
    } else {
        looked(scan, taken, now)
    }
}

/// A scan that has seen `count` peers.
pub open spec fn counted(scan: Scan, count: usize, now: u64) -> Scan {
    if count != scan.count {
        Scan { count, changed: now, ..scan }
    } else {
        scan
    }
}

/// A scan after what it did last is done, with `count` peers known, and what it does next.
pub open spec fn scanned(scan: Scan, count: usize, now: u64) -> (Scan, ScanAction) {
    let taken = elapsed(scan.start, now);
    match scan.phase {
        ScanPhase::Probing => {
            let scan = Scan { count, changed: now, ..scan };
            if left(scan, now) > 0 {
                looked(scan, taken, now)
            } else {
                woken(scan, taken, now)
            }
        },
        ScanPhase::Sleeping => woken(counted(scan, count, now), taken, now),
        ScanPhase::ProbingAgain { taken } => looked(scan, taken, now),
    }
}

/// Begins a scan with a ceiling of `wait_ms` milliseconds, or the greatest one where that is
/// less. Its probe is the first thing to send.
pub fn begin(wait_ms: u64, now: u64) -> (r: Scan)
    ensures
        r == begun(wait_ms, now),
{
    let ms: u64 = if wait_ms > WAIT_MAX {
        WAIT_MAX
    } else {
        wait_ms
    };
    Scan {
        start: now,
        deadline: ms * 1_000_000,
        count: 0,
        changed: now,
        resent: false,
        phase: ScanPhase::Probing,
    }
}

/// How many nanoseconds are left of a scan.
fn rest_of(scan: Scan, now: u64) -> (r: u64)
    ensures
        r == left(scan, now),
{
    scan.deadline.saturating_sub(elapsed_nanos(scan.start, now))
}

/// Looks whether a scan is over.
fn look(scan: Scan, taken: u64, now: u64) -> (r: (Scan, ScanAction))
    ensures
        r == looked(scan, taken, now),
{
    let rest: u64 = rest_of(scan, now);
    let quiet = taken >= LISTEN_AT_LEAST && elapsed_nanos(scan.changed, now) >= QUIET_AFTER;
    let next = Scan { phase: ScanPhase::Sleeping, ..scan };
    if rest == 0 || quiet {
        (next, ScanAction::Done(scan.count))
    } else if rest < LOOK_EVERY {
        (next, ScanAction::Sleep(rest))
    } else {
        (next, ScanAction::Sleep(LOOK_EVERY))
    }
}

/// Has a scan send the probe that it owes, or looks whether it is over.
fn wake(scan: Scan, taken: u64, now: u64) -> (r: (Scan, ScanAction))
    ensures
        r == woken(scan, taken, now),
{
    if !scan.resent && taken >= PROBE_AGAIN_AFTER {
        (
            Scan { resent: true, phase: ScanPhase::ProbingAgain { taken }, ..scan },
            ScanAction::Probe,
        )
    } else {
        look(scan, taken, now)
    }
}

/// Active discovery, step by step: after the probe is sent, or the sleep over, with
/// `count` peers known, says what to do next. It ends as soon as answers go quiet; the
/// time asked for is a ceiling, not a fixed wait, and no sleep goes beyond it. One more
/// probe covers the loss of a single packet.
pub fn discover(scan: Scan, count: usize, now: u64) -> (r: (Scan, ScanAction))
    ensures
        r == scanned(scan, count, now),
{
    let taken: u64 = elapsed_nanos(scan.start, now);
    match scan.phase {
        ScanPhase::Probing => {
            let seen = Scan { count, changed: now, ..scan };
            if rest_of(seen, now) > 0 {
                look(seen, taken, now)
            } else {
                wake(seen, taken, now)
            }
        },
        ScanPhase::Sleeping => {
            let seen = if count != scan.count {
                Scan { count, changed: now, ..scan }
            } else {
                scan
            };
            wake(seen, taken, now)
        },
        ScanPhase::ProbingAgain { taken } => look(scan, taken, now),
    }
}

/// What a scan does when it is told of one look after another: for each, the number of
/// peers known and the instant.
pub open spec fn actions(scan: Scan, looks: Seq<(usize, u64)>) -> Seq<ScanAction>
    decreases looks.len(),
{
    if looks.len() == 0 {
        Seq::empty()
    } else {
        let (next, action) = scanned(scan, looks[0].0, looks[0].1);
        seq![action] + actions(next, looks.drop_first())
    }
}

/// How many of the actions send a probe.
pub open spec fn probes(done: Seq<ScanAction>) -> nat {
    done.filter(|a: ScanAction| a is Probe).len()
}

proof fn probes_prepend(a: ScanAction, rest: Seq<ScanAction>)
    ensures
        probes(seq![a] + rest) == probes(rest) + if a is Probe {
            1nat
        } else {
            0
        },
{
    rest.lemma_filter_prepend(a, |a: ScanAction| a is Probe);
}

/// A scan sends its probe again once at most, however long it goes on.
pub proof fn probes_again_at_most_once(scan: Scan, looks: Seq<(usize, u64)>)
    ensures
        probes(actions(scan, looks)) <= if scan.resent {
            0nat
        } else {
            1
        },
    decreases looks.len(),
{
    if looks.len() == 0 {
        reveal(Seq::filter);
        assert(actions(scan, looks).filter(|a: ScanAction| a is Probe) =~= Seq::empty());
    } else {
        let (next, action) = scanned(scan, looks[0].0, looks[0].1);
        probes_again_at_most_once(next, looks.drop_first());
        probes_prepend(action, actions(next, looks.drop_first()));
    }
}

/// Whether a scan that sends its probe again has it noted.
spec fn noted(scan: Scan) -> bool {
    scan.phase is ProbingAgain ==> scan.resent
}

/// A scan with a ceiling of sixty milliseconds or more does not end before it has sent its
/// probe again.
proof fn probes_before_it_ends(scan: Scan, looks: Seq<(usize, u64)>, i: int)
    requires
        noted(scan),
        scan.deadline >= PROBE_AGAIN_AFTER,
        0 <= i < actions(scan, looks).len(),
        actions(scan, looks)[i] is Done,
    ensures
        scan.resent || probes(actions(scan, looks)) >= 1,
    decreases looks.len(),
{
    let (next, action) = scanned(scan, looks[0].0, looks[0].1);
    let rest = actions(next, looks.drop_first());
    probes_prepend(action, rest);
    if i > 0 {
        assert(actions(scan, looks)[i] == rest[i - 1]);
        probes_before_it_ends(next, looks.drop_first(), i - 1);
    }
}

/// A scan that was given sixty milliseconds or more sends exactly two probes by the time it
/// has ended, the one that it begins with and one more, whenever it is looked at.
pub proof fn sends_two_probes(wait_ms: u64, now: u64, looks: Seq<(usize, u64)>, i: int)
    requires
        wait_ms * 1_000_000 >= PROBE_AGAIN_AFTER,
        0 <= i < actions(begun(wait_ms, now), looks).len(),
        actions(begun(wait_ms, now), looks)[i] is Done,
    ensures
        1 + probes(actions(begun(wait_ms, now), looks)) == 2,
{
    probes_before_it_ends(begun(wait_ms, now), looks, i);
    probes_again_at_most_once(begun(wait_ms, now), looks);
}

/// The time asked for is a ceiling: a scan never sleeps beyond it, nor longer than between
/// two looks.
pub proof fn sleeps_within_the_ceiling(scan: Scan, count: usize, now: u64)
    ensures
        scanned(scan, count, now).1 matches ScanAction::Sleep(nanos) ==> elapsed(scan.start, now)
            + nanos <= scan.deadline,
        scanned(scan, count, now).1 matches ScanAction::Sleep(nanos) ==> 0 < nanos <= LOOK_EVERY,
{
}

/// How a scan ends, where sending takes no time and each sleep takes as long as it is meant
/// to: the number of peers that it tells, and when. `counts` are the numbers of peers known
/// at one look after the other; none where they are too few for the scan to end.
pub open spec fn ending(scan: Scan, counts: Seq<usize>, now: u64) -> Option<(usize, u64)>
    decreases counts.len(),
{
    if counts.len() == 0 {
        None
    } else {
        let (next, action) = scanned(scan, counts[0], now);
        match action {
            ScanAction::Done(n) => Some((n, now)),
            ScanAction::Probe => ending(next, counts.drop_first(), now),
            ScanAction::Sleep(nanos) => ending(
                next,
                counts.drop_first(),
                (now + nanos) as u64,
            ),
        }
    }
}

/// How many sleeps fit into the time that is left, the last of them perhaps shorter.
pub open spec fn naps(rest: u64) -> nat {
    if rest == 0 {
        0
    } else {
        (rest / LOOK_EVERY + 1) as nat
    }
}

/// A scan that has not passed its ceiling ends by it, after as many looks as there are
/// sleeps left, one more, and one for the probe that it still owes.
proof fn ends_by_its_deadline(scan: Scan, counts: Seq<usize>, now: u64)
    requires
        scan.start <= now <= scan.start + scan.deadline <= u64::MAX,
        counts.len() >= naps(left(scan, now)) + 1 + if scan.resent {
            0int
        } else {
            1
        },
    ensures
        ending(scan, counts, now) matches Some((_, end)) && now <= end <= scan.start
            + scan.deadline,
    decreases counts.len(),
{
    let (next, action) = scanned(scan, counts[0], now);
    match action {
        ScanAction::Done(_) => {},
        ScanAction::Probe => {
            ends_by_its_deadline(next, counts.drop_first(), now);
        },
        ScanAction::Sleep(nanos) => {
            let later = (now + nanos) as u64;
            assert(left(next, later) == left(scan, now) - nanos);
            ends_by_its_deadline(next, counts.drop_first(), later);
        },
    }
}

/// A scan ends within the time that was asked for, and within the greatest ceiling, however
/// the number of peers changes; sending is taken to take no time, and each sleep as long as
/// it is meant to.
pub proof fn ends_within_the_time_asked_for(wait_ms: u64, counts: Seq<usize>, now: u64)
    requires
        now + WAIT_MAX * 1_000_000 <= u64::MAX,
        counts.len() >= naps((WAIT_MAX * 1_000_000) as u64) + 2,
    ensures
        ending(begun(wait_ms, now), counts, now) matches Some((_, end)) && now <= end && end - now
            <= wait_ms * 1_000_000 && end - now <= WAIT_MAX * 1_000_000,
{
    ends_by_its_deadline(begun(wait_ms, now), counts, now);
}

/// A scan that has reached its ceiling ends, at once or after sending the probe that it still
/// owes.
pub proof fn ends_at_the_ceiling(scan: Scan, count: usize, now: u64, later_count: usize, later: u64)
    requires
        scan.phase !is ProbingAgain,
        elapsed(scan.start, now) >= scan.deadline,
        now <= later,
    ensures
        ({
            let (next, action) = scanned(scan, count, now);
            ||| action == ScanAction::Done(count)
            ||| action is Probe && !scan.resent && scanned(next, later_count, later).1
                == ScanAction::Done(count)
        }),
{
}

/// How long a scan had taken when it last woke.
pub open spec fn taken(scan: Scan, now: u64) -> u64 {
    match scan.phase {
        ScanPhase::ProbingAgain { taken } => taken,
        _ => elapsed(scan.start, now),
    }
}

/// A scan ends before its ceiling only when it has listened for its least time and the
/// number of peers has not changed for long enough.
pub proof fn ends_early_only_when_quiet(scan: Scan, count: usize, now: u64)
    requires
        scanned(scan, count, now).1 is Done,
        elapsed(scan.start, now) < scan.deadline,
    ensures
        taken(scan, now) >= LISTEN_AT_LEAST,
        scanned(scan, count, now).0.changed == scan.changed,
        elapsed(scan.changed, now) >= QUIET_AFTER,
{
}

/// A scan ends as soon as the LAN has gone quiet: a look at a scan that has listened long
/// enough and sees no change for long enough ends it, at once or after sending the probe
/// that it still owes.
pub proof fn ends_once_quiet(scan: Scan, now: u64, later_count: usize, later: u64)
    requires
        scan.phase is Sleeping,
        elapsed(scan.start, now) >= LISTEN_AT_LEAST,
        elapsed(scan.changed, now) >= QUIET_AFTER,
        now <= later,
    ensures
        ({
            let (next, action) = scanned(scan, scan.count, now);
            ||| action == ScanAction::Done(scan.count)
            ||| action is Probe && !scan.resent && scanned(next, later_count, later).1
                == ScanAction::Done(scan.count)
        }),
{
}

/// The ceiling is at most what was asked for and at most the greatest one, and is one of
/// the two.
pub proof fn ceiling_in_range(wait_ms: u64)
    ensures
        ceiling(wait_ms) <= wait_ms * 1_000_000,
        ceiling(wait_ms) <= WAIT_MAX * 1_000_000,
        wait_ms <= WAIT_MAX ==> ceiling(wait_ms) == wait_ms * 1_000_000,
        wait_ms >= WAIT_MAX ==> ceiling(wait_ms) == WAIT_MAX * 1_000_000,
{
}

/// A scan that ends tells the number of peers at its last look, and its beginning and its
/// ceiling never change.
pub proof fn keeps_its_bounds(scan: Scan, count: usize, now: u64)
    ensures
        scanned(scan, count, now).0.start == scan.start,
        scanned(scan, count, now).0.deadline == scan.deadline,
        scanned(scan, count, now).1 matches ScanAction::Done(n) ==> n == scanned(
            scan,
            count,
            now,
        ).0.count,
{
}

/// A scan begins now, with the time asked for as its ceiling, five seconds at most, and with
/// its second probe still to send.
pub proof fn a_scan_begins(wait_ms: u64, now: u64)
    ensures
        begun(wait_ms, now).start == now,
        wait_ms <= 5000 ==> begun(wait_ms, now).deadline == wait_ms * 1_000_000,
        wait_ms > 5000 ==> begun(wait_ms, now).deadline == 5_000_000_000,
        !begun(wait_ms, now).resent,
        begun(wait_ms, now).phase is Probing,
{
}

/// A scan takes every look into account: it has the number of peers that were there, and when
/// that number last changed.
pub proof fn a_look_is_noted(scan: Scan, count: usize, now: u64)
    ensures
        ({
            let next = scanned(scan, count, now).0;
            &&& next.start == scan.start
            &&& next.deadline == scan.deadline
            &&& scan.phase is Probing ==> next.count == count && next.changed == now
            &&& scan.phase is Sleeping ==> next.count == count
            &&& scan.phase is Sleeping && count != scan.count ==> next.changed == now
            &&& scan.phase is Sleeping && count == scan.count ==> next.changed == scan.changed
            &&& scan.phase is ProbingAgain ==> next.count == scan.count && next.changed
                == scan.changed
        }),
{
}

/// What a scan does next. It sends its second probe at the first look after sixty
/// milliseconds, also where its first probe took all the time. It ends where its time is up,
/// or where it has gone on for 120 milliseconds and the number of peers has stayed the same
/// for 130. Else it sleeps for twenty milliseconds, or for what is left where that is less.
pub proof fn what_a_scan_does_next(scan: Scan, count: usize, now: u64)
    ensures
        ({
            let (next, action) = scanned(scan, count, now);
            let gone: int = if scan.start <= now {
                now - scan.start
            } else {
                0
            };
            let still: int = if next.changed <= now {
                now - next.changed
            } else {
                0
            };
            let woke: int = match scan.phase {
                ScanPhase::ProbingAgain { taken } => taken as int,
                _ => gone,
            };
            let owes = !scan.resent && gone >= 60_000_000 && (scan.phase is Sleeping || (
            scan.phase is Probing && gone >= scan.deadline));
            let over = gone >= scan.deadline || (woke >= 120_000_000 && still >= 130_000_000);
            &&& owes <==> action is Probe
            &&& owes ==> next.resent && next.phase == (ScanPhase::ProbingAgain {
                taken: gone as u64,
            })
            &&& !owes ==> next.resent == scan.resent && next.phase is Sleeping
            &&& !owes && over <==> action is Done
            &&& !owes && over ==> action == ScanAction::Done(next.count)
            &&& !owes && !over && scan.deadline - gone >= 20_000_000 ==> action
                == ScanAction::Sleep(20_000_000)
            &&& !owes && !over && scan.deadline - gone < 20_000_000 ==> action == ScanAction::Sleep(
                (scan.deadline - gone) as u64,
            )
        }),
{
}

}

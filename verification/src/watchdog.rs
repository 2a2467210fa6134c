//! The shared per-command V8 watchdog, as a state machine.
//!
//! One watchdog bounds the running time of the current command. A command
//! arms it with a budget before it runs V8 code and disarms it afterwards;
//! the watchdog's worker wakes up, asks `watchdog_tick` what to do, and either
//! terminates the overrunning isolate or sleeps. Arming takes a fresh
//! generation number, and disarming clears the slot only if it still belongs
//! to that generation, so a late disarm can never clear a newer command's
//! slot. The watchdog remembers which armings it terminated until they are
//! disarmed, so that `disarm` can tell its caller to clear V8's termination
//! flag.
//!
//! Every operation requires and keeps `watchdog_wf`; a watchdog made by
//! `Watchdog::new` and changed only through these operations stays
//! well-formed.
//!
//! Times are instants of a monotonic clock, in nanoseconds since an origin
//! chosen by the caller; budgets and waits are durations in nanoseconds.

use vstd::prelude::*;

verus! {

/// The armed command: the instant its isolate must have stopped by, and the
/// generation under which it was armed.
#[derive(Debug, Clone, Copy, PartialEq, Eq, Structural)]
pub struct Slot {
    pub deadline: u64,
    pub gen: u64,
}

/// The watchdog's shared state: the armed slot, if any, the counter of
/// generations handed out so far, and the generations that the worker
/// terminated and that have not been disarmed yet.
#[derive(Debug)]
pub struct Watchdog {
    pub slot: Option<Slot>,
    pub gen: u64,
    pub terminated: Vec<u64>,
}

/// The abstract state of a watchdog.
pub struct WatchdogState {
    pub slot: Option<Slot>,
    pub gen: u64,
    pub terminated: Set<u64>,
}

impl View for Watchdog {
    type V = WatchdogState;

    open spec fn view(&self) -> WatchdogState {
        WatchdogState { slot: self.slot, gen: self.gen, terminated: self.terminated@.to_set() }
    }
}

/// Handle to an armed command; pass it to [`disarm`].
#[derive(Debug)]
pub struct Armed {
    pub gen: u64,
}

/// What the worker does after waking up at some instant.
#[derive(Debug, Clone, Copy, PartialEq, Eq, Structural)]
pub enum WakeAction {
    /// Nothing is armed: block until the next `arm`.
    Wait,
    /// The armed command still has time: sleep this long, or until notified.
    WaitFor(u64),
    /// The armed command of this generation overran: terminate its isolate,
    /// then block until the next `arm`.
    Terminate(u64),
}

/// What a disarm found.
#[derive(Debug, Clone, Copy, PartialEq, Eq, Structural)]
pub struct Disarmed {
    /// The worker had terminated this arming: the caller must clear V8's
    /// termination flag before the next command runs.
    pub fired: bool,
    /// The slot was still this arming's and has been cleared: the worker
    /// must be woken.
    pub cleared: bool,
}

/// Well-formedness: an armed slot belongs to the newest generation and has
/// not been terminated, and only generations handed out can be terminated.
pub open spec fn watchdog_wf(w: WatchdogState) -> bool {
    &&& w.slot matches Some(s) ==> s.gen == w.gen && w.gen > 0 && !w.terminated.contains(s.gen)
    &&& forall|g: u64| #[trigger] w.terminated.contains(g) ==> 1 <= g <= w.gen
}

/// The state after arming at `now` with `budget`.
pub open spec fn armed_state(w: WatchdogState, now: u64, budget: u64) -> WatchdogState {
    WatchdogState {
        slot: Some(Slot { deadline: (now + budget) as u64, gen: (w.gen + 1) as u64 }),
        gen: (w.gen + 1) as u64,
        terminated: w.terminated,
    }
}

/// The slot is still the one armed under generation `gen`.
pub open spec fn slot_is(w: WatchdogState, gen: u64) -> bool {
    w.slot matches Some(s) && s.gen == gen
}

/// The state after disarming generation `gen`: the slot is cleared only if it
/// is still that generation's, and the generation is forgotten as
/// terminated.
pub open spec fn disarmed_state(w: WatchdogState, gen: u64) -> WatchdogState {
    WatchdogState {
        slot: if slot_is(w, gen) {
            None
        } else {
            w.slot
        },
        gen: w.gen,
        terminated: w.terminated.remove(gen),
    }
}

/// What disarming generation `gen` reports.
pub open spec fn disarm_outcome(w: WatchdogState, gen: u64) -> Disarmed {
    Disarmed { fired: w.terminated.contains(gen), cleared: slot_is(w, gen) }
}

/// What the worker does when it wakes up at `now`.
pub open spec fn wake_action(w: WatchdogState, now: u64) -> WakeAction {
    match w.slot {
        None => WakeAction::Wait,
        Some(s) => if s.deadline <= now {
            WakeAction::Terminate(s.gen)
        } else {
            WakeAction::WaitFor((s.deadline - now) as u64)
        },
    }
}

/// The state after the worker wakes up at `now`: an overrun slot is cleared
/// and its generation recorded as terminated.
pub open spec fn woken_state(w: WatchdogState, now: u64) -> WatchdogState {
    match w.slot {
        Some(s) => if s.deadline <= now {
            WatchdogState { slot: None, gen: w.gen, terminated: w.terminated.insert(s.gen) }
        } else {
            w
        },
        None => w,
    }
}

impl Watchdog {
    /// A watchdog with nothing armed, nothing terminated and no generation
    /// handed out yet.
    pub fn new() -> (w: Watchdog)
        ensures
            w@.slot is None,
            w@.gen == 0,
            w@.terminated == Set::<u64>::empty(),
            watchdog_wf(w@),
    {
        let w = Watchdog { slot: None, gen: 0, terminated: Vec::new() };
        assert(w@.terminated =~= Set::<u64>::empty());
        w
    }
}

/// Arms the watchdog for the current command at instant `now`: if the
/// command is still running `budget` later, the worker terminates it.
/// Takes the next generation number; the worker must be woken.
pub fn arm(watchdog: &mut Watchdog, now: u64, budget: u64) -> (armed: Armed)
    requires
        watchdog_wf(old(watchdog)@),
        now + budget <= u64::MAX,
        old(watchdog).gen < u64::MAX,
    ensures
        watchdog_wf(final(watchdog)@),
        final(watchdog)@ == armed_state(old(watchdog)@, now, budget),
        armed.gen == final(watchdog).gen,
{
    let gen = watchdog.gen + 1;
    watchdog.gen = gen;
    watchdog.slot = Some(Slot { deadline: now + budget, gen });
    Armed { gen }
}

/// Disarms the command's watchdog. Reports whether the worker had already
/// terminated this arming, and whether the slot was still this arming's (it
/// is then cleared).
pub fn disarm(watchdog: &mut Watchdog, armed: Armed) -> (r: Disarmed)
    requires
        watchdog_wf(old(watchdog)@),
    ensures
        watchdog_wf(final(watchdog)@),
        r == disarm_outcome(old(watchdog)@, armed.gen),
        final(watchdog)@ == disarmed_state(old(watchdog)@, armed.gen),
{
    let ghost before = watchdog.terminated@;
    let cleared = match watchdog.slot {
        Some(s) => s.gen == armed.gen,
        None => false,
    };
    if cleared {
        watchdog.slot = None;
    }
    let mut fired = false;
    let mut kept: Vec<u64> = Vec::new();
    let mut i: usize = 0;
    while i < watchdog.terminated.len()
        invariant
            watchdog.terminated@ == before,
            i <= before.len(),
            fired == before.subrange(0, i as int).contains(armed.gen),
            forall|x: u64|
                kept@.contains(x) <==> (before.subrange(0, i as int).contains(x) && x
                    != armed.gen),
        decreases before.len() - i,
    {
        let g = watchdog.terminated[i];
        proof {
            lemma_push_contains(before.subrange(0, i as int), g);
            assert(before.subrange(0, i + 1) =~= before.subrange(0, i as int).push(g));
        }
        if g == armed.gen {
            fired = true;
        } else {
            proof {
                lemma_push_contains(kept@, g);
            }
            kept.push(g);
        }
        i = i + 1;
    }
    assert(before.subrange(0, before.len() as int) =~= before);
    watchdog.terminated = kept;
    assert(watchdog@.terminated =~= old(watchdog)@.terminated.remove(armed.gen));
    Disarmed { fired, cleared }
}

/// One wake-up of the watchdog's worker at instant `now`: decides whether the
/// armed command overran and how long to sleep next.
pub fn watchdog_tick(watchdog: &mut Watchdog, now: u64) -> (action: WakeAction)
    requires
        watchdog_wf(old(watchdog)@),
    ensures
        watchdog_wf(final(watchdog)@),
        action == wake_action(old(watchdog)@, now),
        final(watchdog)@ == woken_state(old(watchdog)@, now),
{
    match watchdog.slot {
        None => WakeAction::Wait,
        Some(s) => {
            if s.deadline <= now {
                watchdog.slot = None;
                let ghost prev = watchdog.terminated@;
                watchdog.terminated.push(s.gen);
                proof {
                    lemma_push_contains(prev, s.gen);
                }
                assert(watchdog@.terminated =~= old(watchdog)@.terminated.insert(s.gen));
                WakeAction::Terminate(s.gen)
            } else {
                WakeAction::WaitFor(s.deadline - now)
            }
        },
    }
}

/// An element is in a sequence with one more element pushed exactly when it
/// was in the sequence or is the pushed one.
proof fn lemma_push_contains(s: Seq<u64>, g: u64)
    ensures
        forall|x: u64| #[trigger] s.push(g).contains(x) <==> (s.contains(x) || x == g),
{
    assert forall|x: u64| #[trigger] s.push(g).contains(x) <==> (s.contains(x) || x == g) by {
        let t = s.push(g);
        if t.contains(x) {
            let j = choose|j: int| 0 <= j < t.len() && t[j] == x;
            if j < s.len() {
                assert(s[j] == x);
            }
        }
        if s.contains(x) {
            let j = choose|j: int| 0 <= j < s.len() && s[j] == x;
            assert(t[j] == x);
        }
        if x == g {
            assert(t[s.len() as int] == g);
        }
    }
}

/// The state after the worker wakes up at each of `times` in turn.
pub open spec fn after_wakeups(w: WatchdogState, times: Seq<u64>) -> WatchdogState
    decreases times.len(),
{
    if times.len() == 0 {
        w
    } else {
        after_wakeups(woken_state(w, times[0]), times.drop_first())
    }
}

/// One of the wake-ups at `times` terminated generation `gen`.
pub open spec fn terminated_during(w: WatchdogState, times: Seq<u64>, gen: u64) -> bool
    decreases times.len(),
{
    times.len() > 0 && (wake_action(w, times[0]) == WakeAction::Terminate(gen)
        || terminated_during(woken_state(w, times[0]), times.drop_first(), gen))
}

/// Some wake-up instant is at or after `deadline`.
pub open spec fn woke_by(times: Seq<u64>, deadline: u64) -> bool {
    exists|k: int| 0 <= k < times.len() && #[trigger] times[k] >= deadline
}

/// Every transition keeps the watchdog well-formed.
pub proof fn lemma_watchdog_wf_preserved(w: WatchdogState, now: u64, budget: u64, gen: u64)
    requires
        watchdog_wf(w),
        now + budget <= u64::MAX,
        w.gen < u64::MAX,
    ensures
        watchdog_wf(armed_state(w, now, budget)),
        watchdog_wf(disarmed_state(w, gen)),
        watchdog_wf(woken_state(w, now)),
{
}

/// Arming hands out a generation newer than every earlier one; disarming and
/// waking never change the generation counter.
pub proof fn lemma_generations_increase(w: WatchdogState, now: u64, budget: u64, gen: u64)
    requires
        now + budget <= u64::MAX,
        w.gen < u64::MAX,
    ensures
        armed_state(w, now, budget).gen == w.gen + 1,
        disarmed_state(w, gen).gen == w.gen,
        woken_state(w, now).gen == w.gen,
{
}

/// Disarming right after arming reports no termination and clears the slot
/// that the arming set.
pub proof fn lemma_arm_then_disarm(w: WatchdogState, now: u64, budget: u64)
    requires
        watchdog_wf(w),
        now + budget <= u64::MAX,
        w.gen < u64::MAX,
    ensures
        ({
            let a = armed_state(w, now, budget);
            &&& disarm_outcome(a, a.gen) == Disarmed { fired: false, cleared: true }
            &&& disarmed_state(a, a.gen).slot is None
        }),
{
}

/// A disarm under any generation other than the newest leaves the armed slot
/// alone: an older command cannot clear a newer command's slot.
pub proof fn lemma_stale_disarm_keeps_slot(w: WatchdogState, gen: u64)
    requires
        watchdog_wf(w),
        gen != w.gen,
    ensures
        disarmed_state(w, gen).slot == w.slot,
        !disarm_outcome(w, gen).cleared,
{
}

/// The worker terminates a command only at or after its deadline, and only
/// the command that is armed; before the deadline it sleeps exactly until the
/// deadline, and with nothing armed it blocks.
pub proof fn lemma_terminates_only_when_due(w: WatchdogState, now: u64)
    ensures
        w.slot is None ==> wake_action(w, now) == WakeAction::Wait,
        wake_action(w, now) matches WakeAction::Terminate(g) ==> (w.slot matches Some(s)
            && s.gen == g && s.deadline <= now),
        wake_action(w, now) matches WakeAction::WaitFor(d) ==> (w.slot matches Some(s) && now
            < s.deadline && now + d == s.deadline),
{
}

/// Once the worker has terminated an overrunning command, its disarm reports
/// the termination and finds no slot to clear, and the worker's next wake-up
/// just blocks.
pub proof fn lemma_after_termination(w: WatchdogState, now: u64, later: u64)
    requires
        watchdog_wf(w),
        wake_action(w, now) is Terminate,
    ensures
        ({
            let t = woken_state(w, now);
            let g = wake_action(w, now)->Terminate_0;
            &&& disarm_outcome(t, g) == Disarmed { fired: true, cleared: false }
            &&& wake_action(t, later) == WakeAction::Wait
        }),
{
}

/// Across any run of wake-ups, a generation is recorded as terminated exactly
/// when it was already, or when one of the wake-ups terminated it; and a
/// generation that is not armed is never terminated.
proof fn lemma_wakeups_record(w: WatchdogState, times: Seq<u64>, gen: u64)
    ensures
        after_wakeups(w, times).terminated.contains(gen) <==> (w.terminated.contains(gen)
            || terminated_during(w, times, gen)),
        !slot_is(w, gen) ==> !terminated_during(w, times, gen),
        slot_is(w, gen) && terminated_during(w, times, gen) ==> woke_by(
            times,
            w.slot->Some_0.deadline,
        ),
    decreases times.len(),
{
    if times.len() > 0 {
        let w1 = woken_state(w, times[0]);
        let rest = times.drop_first();
        lemma_wakeups_record(w1, rest, gen);
        if slot_is(w, gen) && terminated_during(w, times, gen) {
            if wake_action(w, times[0]) == WakeAction::Terminate(gen) {
                assert(times[0] >= w.slot->Some_0.deadline);
            } else {
                assert(w1 == w);
                let k = choose|k: int| 0 <= k < rest.len() && #[trigger] rest[k] >= w.slot->Some_0.deadline;
                assert(times[k + 1] == rest[k]);
            }
        }
    }
}

/// Whatever wake-ups happen between arming and disarming, the disarm reports
/// a termination exactly when one of them terminated this arming, and that
/// can only happen at a wake-up at or after the arming's deadline.
pub proof fn lemma_disarm_reports_termination(
    w: WatchdogState,
    now: u64,
    budget: u64,
    times: Seq<u64>,
)
    requires
        watchdog_wf(w),
        now + budget <= u64::MAX,
        w.gen < u64::MAX,
    ensures
        ({
            let a = armed_state(w, now, budget);
            let g = a.gen;
            &&& disarm_outcome(after_wakeups(a, times), g).fired == terminated_during(a, times, g)
            &&& terminated_during(a, times, g) ==> woke_by(times, (now + budget) as u64)
        }),
{
    let a = armed_state(w, now, budget);
    lemma_wakeups_record(a, times, a.gen);
}

} // verus!

//! The turn-taking that keeps the periodic and final reports of the sending
//! side's threads in order: one shared counter says whose report is next.

use vstd::prelude::*;

verus! {

/// Whose report comes next.
#[derive(Clone, Copy, Debug, PartialEq, Eq, Structural)]
pub enum PrintTurn {
    /// No report under way; the synchroniser may start the next round.
    Idle,
    /// The measuring thread's periodic report.
    Compute,
    /// The pinger's periodic report.
    Ping,
    /// The route tracer's periodic report.
    Route,
    /// The run stopped: the sending thread finishes next.
    SyncDone,
    /// The sending thread finished: the measuring thread's final report is next.
    SenderDone,
    /// The measuring thread's final report is out: the pinger's is next.
    ComputeDone,
    /// The pinger's final report is out: the route tracer's is next.
    PingDone,
    /// Every final report was printed.
    RouteDone,
}

impl PrintTurn {
    /// The value that the shared counter holds for this turn.
    pub open spec fn code(self) -> u16 {
        match self {
            PrintTurn::Idle => 0,
            PrintTurn::Compute => 1,
            PrintTurn::Ping => 2,
            PrintTurn::Route => 3,
            PrintTurn::SyncDone => 100,
            PrintTurn::SenderDone => 11,
            PrintTurn::ComputeDone => 12,
            PrintTurn::PingDone => 13,
            PrintTurn::RouteDone => 1000,
        }
    }

    /// The turn that a counter value stands for, if any.
    pub open spec fn spec_from_u16(v: u16) -> Option<PrintTurn> {
        if v == 0 {
            Some(PrintTurn::Idle)
        } else if v == 1 {
            Some(PrintTurn::Compute)
        } else if v == 2 {
            Some(PrintTurn::Ping)
        } else if v == 3 {
            Some(PrintTurn::Route)
        } else if v == 100 {
            Some(PrintTurn::SyncDone)
        } else if v == 11 {
            Some(PrintTurn::SenderDone)
        } else if v == 12 {
            Some(PrintTurn::ComputeDone)
        } else if v == 13 {
            Some(PrintTurn::PingDone)
        } else if v == 1000 {
            Some(PrintTurn::RouteDone)
        } else {
            None
        }
    }

    /// The turn after this one's report: the periodic round goes from the
    /// synchroniser to the measuring thread, the pinger, the route tracer and
    /// back; the final round goes from the synchroniser to the sending thread,
    /// the measuring thread, the pinger and the route tracer.
    pub open spec fn spec_next(self) -> PrintTurn {
        match self {
            PrintTurn::Idle => PrintTurn::Compute,
            PrintTurn::Compute => PrintTurn::Ping,
            PrintTurn::Ping => PrintTurn::Route,
            PrintTurn::Route => PrintTurn::Idle,
            PrintTurn::SyncDone => PrintTurn::SenderDone,
            PrintTurn::SenderDone => PrintTurn::ComputeDone,
            PrintTurn::ComputeDone => PrintTurn::PingDone,
            PrintTurn::PingDone => PrintTurn::RouteDone,
            PrintTurn::RouteDone => PrintTurn::RouteDone,
        }
    }

    /// The value that the shared counter holds for this turn.
    pub fn to_u16(self) -> (v: u16)
        ensures
            v == self.code(),
    {
        match self {
            PrintTurn::Idle => 0,
            PrintTurn::Compute => 1,
            PrintTurn::Ping => 2,
            PrintTurn::Route => 3,
            PrintTurn::SyncDone => 100,
            PrintTurn::SenderDone => 11,
            PrintTurn::ComputeDone => 12,
            PrintTurn::PingDone => 13,
            PrintTurn::RouteDone => 1000,
        }
    }

    /// The turn that a counter value stands for; `None` for any other value.
    pub fn from_u16(v: u16) -> (r: Option<PrintTurn>)
        ensures
            r == Self::spec_from_u16(v),
    {
        if v == 0 {
            Some(PrintTurn::Idle)
        } else if v == 1 {
            Some(PrintTurn::Compute)
        } else if v == 2 {
            Some(PrintTurn::Ping)
        } else if v == 3 {
            Some(PrintTurn::Route)
        } else if v == 100 {
            Some(PrintTurn::SyncDone)
        } else if v == 11 {
            Some(PrintTurn::SenderDone)
        } else if v == 12 {
            Some(PrintTurn::ComputeDone)
        } else if v == 13 {
            Some(PrintTurn::PingDone)
        } else if v == 1000 {
            Some(PrintTurn::RouteDone)
        } else {
            None
        }
    }

    /// The turn after this one's report.
    pub fn next(self) -> (t: PrintTurn)
        ensures
            t == self.spec_next(),
    {
        match self {
            PrintTurn::Idle => PrintTurn::Compute,
            PrintTurn::Compute => PrintTurn::Ping,
            PrintTurn::Ping => PrintTurn::Route,
            PrintTurn::Route => PrintTurn::Idle,
            PrintTurn::SyncDone => PrintTurn::SenderDone,
            PrintTurn::SenderDone => PrintTurn::ComputeDone,
            PrintTurn::ComputeDone => PrintTurn::PingDone,
            PrintTurn::PingDone => PrintTurn::RouteDone,
            PrintTurn::RouteDone => PrintTurn::RouteDone,
        }
    }
}

/// What the synchroniser does on one turn of its loop.
#[derive(Clone, Copy, Debug, PartialEq, Eq, Structural)]
pub enum SyncDecision {
    /// Start a periodic round: hand the turn to the measuring thread.
    Trigger,
    /// The run stopped and no round is under way: start the final round.
    Finish,
    /// Keep waiting.
    Wait,
}

impl SyncDecision {
    /// The turn that the synchroniser stores on this decision, if any.
    pub open spec fn stored(self) -> Option<PrintTurn> {
        match self {
            SyncDecision::Trigger => Some(PrintTurn::Compute),
            SyncDecision::Finish => Some(PrintTurn::SyncDone),
            SyncDecision::Wait => None,
        }
    }

    /// The turn that the synchroniser stores on this decision, if any.
    pub fn to_store(self) -> (r: Option<PrintTurn>)
        ensures
            r == self.stored(),
    {
        match self {
            SyncDecision::Trigger => Some(PrintTurn::Compute),
            SyncDecision::Finish => Some(PrintTurn::SyncDone),
            SyncDecision::Wait => None,
        }
    }
}

/// One step of the synchroniser, from the time of its last periodic round
/// (`last`, in milliseconds), whether the run goes on, the time now and the
/// shared counter: while the run goes on, a round starts when more than
/// 3000 ms passed since the last one and no round is under way; once it
/// stopped, the final round starts as soon as no round is under way. The
/// result is the time of the last round after the step, and the decision.
pub open spec fn sync_step(last: u128, running: bool, now_ms: u128, counter: u16) -> (u128, SyncDecision) {
    let idle = counter == PrintTurn::Idle.code();
    if running {
        if idle && now_ms > last + 3000 {
            (now_ms, SyncDecision::Trigger)
        } else {
            (last, SyncDecision::Wait)
        }
    } else if idle {
        (last, SyncDecision::Finish)
    } else {
        (last, SyncDecision::Wait)
    }
}

/// The time of the last periodic round after the steps `inputs` (each: the
/// run goes on, the time, the counter), from `start`.
pub open spec fn timer_after(start: u128, inputs: Seq<(bool, u128, u16)>) -> u128
    decreases inputs.len(),
{
    if inputs.len() == 0 {
        start
    } else {
        let i = inputs.last();
        sync_step(timer_after(start, inputs.drop_last()), i.0, i.1, i.2).0
    }
}

/// The decision of step `k` among `inputs`, from `start`.
pub open spec fn decision_at(start: u128, inputs: Seq<(bool, u128, u16)>, k: int) -> SyncDecision {
    let i = inputs[k];
    sync_step(timer_after(start, inputs.take(k)), i.0, i.1, i.2).1
}

/// The synchroniser's clock: when its last periodic round started (or, before
/// the first, when it started), in milliseconds.
pub struct SyncTimer {
    pub last_ms: u128,
}

impl SyncTimer {
    /// A synchroniser started at `now_ms`.
    pub fn new(now_ms: u128) -> (t: SyncTimer)
        ensures
            t.last_ms == now_ms,
    {
        SyncTimer { last_ms: now_ms }
    }

    /// One turn of the synchroniser's loop at time `now_ms`, with the run
    /// flag and the shared counter as read, as `sync_step` states it. A
    /// counter that stands for no turn is no idle turn.
    pub fn step(&mut self, running: bool, now_ms: u128, counter: u16) -> (d: SyncDecision)
        ensures
            (final(self).last_ms, d) == sync_step(old(self).last_ms, running, now_ms, counter),
    {
        let idle = counter == PrintTurn::Idle.to_u16();
        if running {
            if idle && now_ms > self.last_ms && now_ms - self.last_ms > 3000 {
                self.last_ms = now_ms;
                SyncDecision::Trigger
            } else {
                SyncDecision::Wait
            }
        } else if idle {
            SyncDecision::Finish
        } else {
            SyncDecision::Wait
        }
    }
}

/// A thread of the sending side that takes part in the reports.
#[derive(Clone, Copy, Debug, PartialEq, Eq, Structural)]
pub enum Role {
    /// The thread that sends the measured traffic.
    Sender,
    /// The thread that asks the receiver for its counts.
    Compute,
    /// The pinger.
    Ping,
    /// The route tracer.
    Route,
}

impl Role {
    /// The turn of this thread's periodic report; the sending thread has none.
    pub open spec fn periodic_turn(self) -> Option<PrintTurn> {
        match self {
            Role::Sender => None,
            Role::Compute => Some(PrintTurn::Compute),
            Role::Ping => Some(PrintTurn::Ping),
            Role::Route => Some(PrintTurn::Route),
        }
    }

    /// The turn of this thread's final report.
    pub open spec fn final_turn(self) -> PrintTurn {
        match self {
            Role::Sender => PrintTurn::SyncDone,
            Role::Compute => PrintTurn::SenderDone,
            Role::Ping => PrintTurn::ComputeDone,
            Role::Route => PrintTurn::PingDone,
        }
    }
}

/// What a thread does on one turn of its loop.
#[derive(Clone, Copy, Debug, PartialEq, Eq, Structural)]
pub enum TurnAction {
    /// The run goes on and it is not this thread's turn: do the thread's own
    /// work (send, ping, probe).
    Work,
    /// The run stopped and it is not this thread's turn: wait.
    Pause,
    /// Give the periodic report, then store `then`.
    Periodic { then: PrintTurn },
    /// Give the final report, then store `then` and stop.
    Final { then: PrintTurn },
    /// Store `then` without a report: a periodic turn of the route tracer
    /// that comes after the run stopped.
    PassOn { then: PrintTurn },
}

/// What `role` does when the run flag reads `running` and the shared counter
/// reads `counter`: its final report on its final turn; on its periodic turn,
/// its periodic report, or, for the route tracer once the run stopped, no
/// report (a periodic turn is served whether the run goes on or not, so that
/// a round under way when the run stops is finished); and otherwise its own
/// work while the run goes on. Each turn served is handed on to the next one.
pub open spec fn spec_turn_action(role: Role, running: bool, counter: u16) -> TurnAction {
    match PrintTurn::spec_from_u16(counter) {
        Some(t) => if t == role.final_turn() {
            TurnAction::Final { then: t.spec_next() }
        } else if role.periodic_turn() == Some(t) {
            if running || role != Role::Route {
                TurnAction::Periodic { then: t.spec_next() }
            } else {
                TurnAction::PassOn { then: t.spec_next() }
            }
        } else if running {
            TurnAction::Work
        } else {
            TurnAction::Pause
        },
        None => if running {
            TurnAction::Work
        } else {
            TurnAction::Pause
        },
    }
}

/// What `role` does on one turn of its loop, as `spec_turn_action` states it.
pub fn turn_action(role: Role, running: bool, counter: u16) -> (a: TurnAction)
    ensures
        a == spec_turn_action(role, running, counter),
        forall|t: PrintTurn|
            running && role.periodic_turn() == Some(t) && #[trigger] t.code() == counter ==> a == (
            TurnAction::Periodic { then: t.spec_next() }),
{
    let own = if running {
        TurnAction::Work
    } else {
        TurnAction::Pause
    };
    match PrintTurn::from_u16(counter) {
        Some(t) => {
            let final_turn = match role {
                Role::Sender => PrintTurn::SyncDone,
                Role::Compute => PrintTurn::SenderDone,
                Role::Ping => PrintTurn::ComputeDone,
                Role::Route => PrintTurn::PingDone,
            };
            let periodic = match role {
                Role::Sender => None,
                Role::Compute => Some(PrintTurn::Compute),
                Role::Ping => Some(PrintTurn::Ping),
                Role::Route => Some(PrintTurn::Route),
            };
            if t == final_turn {
                TurnAction::Final { then: t.next() }
            } else if periodic == Some(t) {
                let reports = match role {
                    Role::Route => running,
                    _ => true,
                };
                if reports {
                    TurnAction::Periodic { then: t.next() }
                } else {
                    TurnAction::PassOn { then: t.next() }
                }
            } else {
                own
            }
        },
        None => own,
    }
}

/// Every turn reads back from its counter value.
pub proof fn lemma_turn_roundtrip(t: PrintTurn)
    ensures
        PrintTurn::spec_from_u16(t.code()) == Some(t),
{
}

/// A periodic round hands the turn to the measuring thread, the pinger and the
/// route tracer, in that order, and comes back to idle.
pub proof fn lemma_periodic_round()
    ensures
        PrintTurn::Idle.spec_next() == PrintTurn::Compute,
        PrintTurn::Compute.spec_next() == PrintTurn::Ping,
        PrintTurn::Ping.spec_next() == PrintTurn::Route,
        PrintTurn::Route.spec_next() == PrintTurn::Idle,
{
}

/// The final round reaches every thread once, in the order sender, measuring
/// thread, pinger, route tracer, and then stays done.
pub proof fn lemma_final_round()
    ensures
        PrintTurn::SyncDone.spec_next().spec_next().spec_next().spec_next()
            == PrintTurn::RouteDone,
        PrintTurn::RouteDone.spec_next() == PrintTurn::RouteDone,
{
}

/// Over any run of the synchroniser's steps from `start`, the time of its last
/// round never goes back.
proof fn lemma_timer_monotone(start: u128, inputs: Seq<(bool, u128, u16)>, k1: int, k2: int)
    requires
        0 <= k1 <= k2 <= inputs.len(),
    ensures
        start <= timer_after(start, inputs.take(k1)) <= timer_after(start, inputs.take(k2)),
    decreases k2,
{
    if k2 > 0 {
        assert(inputs.take(k2).drop_last() =~= inputs.take(k2 - 1));
        if k1 < k2 {
            lemma_timer_monotone(start, inputs, k1, k2 - 1);
        } else {
            lemma_timer_monotone(start, inputs, k1 - 1, k2 - 1);
        }
    } else {
        assert(inputs.take(0) =~= Seq::<(bool, u128, u16)>::empty());
    }
}

/// The synchroniser starts periodic rounds more than 3000 ms apart, and the
/// first more than 3000 ms after it started: over any run of its steps, a
/// round starts at step `j` only more than 3000 ms after the start and after
/// the round of any earlier step `i`.
pub proof fn lemma_trigger_spacing(start: u128, inputs: Seq<(bool, u128, u16)>, i: int, j: int)
    requires
        0 <= i < j < inputs.len(),
        decision_at(start, inputs, i) == SyncDecision::Trigger,
        decision_at(start, inputs, j) == SyncDecision::Trigger,
    ensures
        inputs[j].1 > inputs[i].1 + 3000,
        inputs[i].1 > start + 3000,
{
    assert(inputs.take(i + 1).drop_last() =~= inputs.take(i));
    assert(inputs.take(i + 1).last() == inputs[i]);
    assert(timer_after(start, inputs.take(i + 1)) == inputs[i].1);
    lemma_timer_monotone(start, inputs, i + 1, j);
    lemma_timer_monotone(start, inputs, 0, i);
}

/// The synchroniser writes the shared counter only as a step from idle: to the
/// measuring thread's turn (1) while the run goes on, and to the final round
/// (100) once it stopped.
pub proof fn lemma_sync_writes(last: u128, running: bool, now_ms: u128, counter: u16)
    ensures
        sync_step(last, running, now_ms, counter).1.stored() matches Some(t) ==> counter == 0 && (
        if running {
            t == PrintTurn::Compute && t.code() == 1
        } else {
            t == PrintTurn::SyncDone && t.code() == 100
        }),
{
}

/// A thread writes the shared counter only to hand on its own turn: it reads
/// its periodic or final turn and stores the turn after it. Only the route
/// tracer hands a periodic turn on without a report, and only once the run
/// stopped.
pub proof fn lemma_turn_writes(role: Role, running: bool, counter: u16)
    ensures
        spec_turn_action(role, running, counter) matches TurnAction::Periodic { then } ==> exists|
            t: PrintTurn,
        |
            role.periodic_turn() == Some(t) && #[trigger] t.code() == counter && then == t.spec_next(),
        spec_turn_action(role, running, counter) matches TurnAction::PassOn { then } ==> role
            == Role::Route && !running && counter == PrintTurn::Route.code() && then
            == PrintTurn::Route.spec_next(),
        spec_turn_action(Role::Route, running, counter) is Periodic ==> running,
        spec_turn_action(role, running, counter) matches TurnAction::Final { then } ==> counter
            == role.final_turn().code() && then == role.final_turn().spec_next(),
{
    match PrintTurn::spec_from_u16(counter) {
        Some(t) => {
            assert(t.code() == counter);
        },
        None => {},
    }
}

/// The counter values that each thread reads and writes: the sending thread
/// 100 to 11; the measuring thread 1 to 2 and 11 to 12; the pinger 2 to 3 and
/// 12 to 13; the route tracer 3 to 0 (with or without its report) and 13 to
/// 1000.
pub proof fn lemma_turn_table(running: bool, counter: u16)
    ensures
        spec_turn_action(Role::Sender, running, counter) matches TurnAction::Final { then } ==> counter
            == 100 && then.code() == 11,
        !(spec_turn_action(Role::Sender, running, counter) is Periodic),
        spec_turn_action(Role::Compute, running, counter) matches TurnAction::Periodic { then } ==> counter
            == 1 && then.code() == 2,
        spec_turn_action(Role::Compute, running, counter) matches TurnAction::Final { then } ==> counter
            == 11 && then.code() == 12,
        spec_turn_action(Role::Ping, running, counter) matches TurnAction::Periodic { then } ==> counter
            == 2 && then.code() == 3,
        spec_turn_action(Role::Ping, running, counter) matches TurnAction::Final { then } ==> counter
            == 12 && then.code() == 13,
        spec_turn_action(Role::Route, running, counter) matches TurnAction::Periodic { then } ==> counter
            == 3 && then.code() == 0,
        spec_turn_action(Role::Route, running, counter) matches TurnAction::PassOn { then } ==> counter
            == 3 && then.code() == 0,
        spec_turn_action(Role::Route, running, counter) matches TurnAction::Final { then } ==> counter
            == 13 && then.code() == 1000,
{
}

/// The thread that the turn `t` waits for, once the run stopped; for idle, the
/// synchroniser waits, and the last turn waits for nobody.
pub open spec fn serving_role(t: PrintTurn) -> Role {
    match t {
        PrintTurn::Compute | PrintTurn::SenderDone => Role::Compute,
        PrintTurn::Ping | PrintTurn::ComputeDone => Role::Ping,
        PrintTurn::Route | PrintTurn::PingDone => Role::Route,
        _ => Role::Sender,
    }
}

/// Once the run stopped, every turn but the last is served: on idle the
/// synchroniser starts the final round, and on any other turn, a periodic
/// round still under way included, the thread it waits for hands the turn on
/// (with its report, but for the route tracer's periodic turn), so that the
/// final round reaches its end.
pub proof fn lemma_stopped_run_progresses(t: PrintTurn, last: u128, now_ms: u128)
    ensures
        t == PrintTurn::Idle ==> sync_step(last, false, now_ms, t.code()).1 == SyncDecision::Finish,
        t != PrintTurn::Idle && t != PrintTurn::RouteDone ==> (spec_turn_action(
            serving_role(t),
            false,
            t.code(),
        ) == TurnAction::Periodic { then: t.spec_next() } || spec_turn_action(
            serving_role(t),
            false,
            t.code(),
        ) == TurnAction::Final { then: t.spec_next() } || spec_turn_action(
            serving_role(t),
            false,
            t.code(),
        ) == TurnAction::PassOn { then: t.spec_next() }),
{
}

/// While the run goes on, a thread on its own periodic turn gives its periodic
/// report and hands the turn on; on its final turn, whether the run goes on or
/// not, it gives its final report and hands the turn on.
pub proof fn lemma_own_turn_served(role: Role, running: bool, t: PrintTurn)
    ensures
        running && role.periodic_turn() == Some(t) ==> spec_turn_action(role, running, t.code())
            == (TurnAction::Periodic { then: t.spec_next() }),
        t == role.final_turn() ==> spec_turn_action(role, running, t.code()) == (
        TurnAction::Final { then: t.spec_next() }),
        !running && role != Role::Route && role.periodic_turn() == Some(t) ==> spec_turn_action(
            role,
            running,
            t.code(),
        ) == (TurnAction::Periodic { then: t.spec_next() }),
{
    lemma_turn_roundtrip(t);
}

} // verus!

//! Interleavings of worker and controller turns, and what holds of every one
//! of them: cars are only ever released, the number of worker turns is
//! bounded by the cars waiting at the start, and the run flag only comes
//! down when a worker finds nothing to release.

use vstd::prelude::*;
use crate::direction::{Direction, TrafficLight};
use crate::intersection::Intersection;
use crate::simulation::{total_queued, LightPolicy, Simulation, SimulationView, WorkerAction};

verus! {

/// Who takes the next turn on the shared state.
#[derive(Clone, Copy, Debug, PartialEq, Eq, Structural)]
pub enum Actor {
    /// The light controller makes one pass.
    Controller,
    /// The worker of the intersection at this position takes one turn.
    Worker(usize),
}

/// A run in progress: the shared state, and for each worker whether it is
/// still at work. A worker that has stopped takes no further turn.
pub struct RunView {
    pub state: SimulationView,
    pub working: Seq<bool>,
}

/// What a replayed schedule did.
#[derive(Debug)]
pub struct RunReport {
    /// Destinations of the cars that left, in the order in which they left.
    pub moved_to: Vec<usize>,
    /// How many worker turns counted.
    pub worker_turns: usize,
    /// Whether every worker has stopped.
    pub finished: bool,
}

/// One round of turns over `count` intersections: a controller pass, then
/// the workers in order of position.
pub open spec fn round_robin(count: nat) -> Seq<Actor> {
    seq![Actor::Controller] + Seq::new(count, |i: int| Actor::Worker(i as usize))
}

/// `times` rounds, one after the other.
pub open spec fn rounds(count: nat, times: nat) -> Seq<Actor>
    decreases times,
{
    if times == 0 {
        Seq::empty()
    } else {
        rounds(count, (times - 1) as nat) + round_robin(count)
    }
}

/// How many workers are still at work.
pub open spec fn count_working(working: Seq<bool>) -> nat
    decreases working.len(),
{
    if working.len() == 0 {
        0
    } else {
        count_working(working.drop_last()) + if working.last() {
            1nat
        } else {
            0nat
        }
    }
}

impl RunView {
    /// The start of a run on `state`: every worker is at work.
    pub open spec fn start(state: SimulationView) -> RunView {
        RunView { state, working: Seq::new(state.network.len(), |i: int| true) }
    }

    /// There is one worker per intersection, and a worker has only stopped
    /// with the run flag down.
    pub open spec fn well_formed(self) -> bool {
        &&& self.working.len() == self.state.network.len()
        &&& forall|i: int| 0 <= i < self.working.len() && !self.working[i] ==> !self.state.running
    }

    /// `actor` is a worker that exists and is still at work, so its turn
    /// counts.
    pub open spec fn takes_turn(self, actor: Actor) -> bool {
        actor matches Actor::Worker(index) && index < self.working.len()
            && self.working[index as int]
    }

    /// The run after `actor` was scheduled. The controller makes a pass. A
    /// worker at work takes its turn and stops if the flag is down after it.
    /// A worker that has stopped, or that does not exist, changes nothing.
    pub open spec fn after(self, policy: LightPolicy, actor: Actor) -> RunView {
        match actor {
            Actor::Controller => RunView {
                state: self.state.after_controller_pass(policy),
                working: self.working,
            },
            Actor::Worker(index) => if self.takes_turn(actor) {
                let next = self.state.after_worker_turn(index as int);
                RunView { state: next, working: self.working.update(index as int, next.running) }
            } else {
                self
            },
        }
    }

    /// The destinations of the cars that leave when `actor` is scheduled.
    pub open spec fn released_by(self, actor: Actor) -> Seq<usize> {
        match actor {
            Actor::Controller => Seq::empty(),
            Actor::Worker(index) => if self.takes_turn(actor) {
                self.state.network[index as int].departures()
            } else {
                Seq::empty()
            },
        }
    }

    /// The run after a whole schedule, turn by turn.
    pub open spec fn after_all(self, policy: LightPolicy, schedule: Seq<Actor>) -> RunView
        decreases schedule.len(),
    {
        if schedule.len() == 0 {
            self
        } else {
            self.after_all(policy, schedule.drop_last()).after(policy, schedule.last())
        }
    }

    /// The destinations of all cars that leave during a schedule, in order.
    pub open spec fn released(self, policy: LightPolicy, schedule: Seq<Actor>) -> Seq<usize>
        decreases schedule.len(),
    {
        if schedule.len() == 0 {
            Seq::empty()
        } else {
            self.released(policy, schedule.drop_last()) + self.after_all(
                policy,
                schedule.drop_last(),
            ).released_by(schedule.last())
        }
    }

    /// How many turns of a schedule are worker turns that count.
    pub open spec fn worker_turns(self, policy: LightPolicy, schedule: Seq<Actor>) -> nat
        decreases schedule.len(),
    {
        if schedule.len() == 0 {
            0
        } else {
            self.worker_turns(policy, schedule.drop_last()) + if self.after_all(
                policy,
                schedule.drop_last(),
            ).takes_turn(schedule.last()) {
                1nat
            } else {
                0nat
            }
        }
    }

    /// Turn `at` of the schedule is a worker turn that counts and that finds
    /// no car to release: the turn that lowers the flag.
    pub open spec fn exhausted_at(self, policy: LightPolicy, schedule: Seq<Actor>, at: int)
        -> bool {
        let before = self.after_all(policy, schedule.take(at));
        &&& 0 <= at < schedule.len()
        &&& before.takes_turn(schedule[at])
        &&& schedule[at] matches Actor::Worker(index)
        &&& before.state.network[index as int].green_drained()
    }
}

impl SimulationView {
    /// Taking turns round by round from the start of a run on this state,
    /// `times` is the first number of rounds after which every worker has
    /// stopped; `end` is the state then, with the flag lowered by the
    /// coordinator, and `moved_to` lists the cars that left on the way.
    pub open spec fn completes_in(
        self,
        policy: LightPolicy,
        times: nat,
        end: SimulationView,
        moved_to: Seq<usize>,
    ) -> bool {
        let run = RunView::start(self);
        let count = self.network.len();
        &&& count_working(run.after_all(policy, rounds(count, times)).working) == 0
        &&& forall|earlier: nat|
            earlier < times ==> count_working(
                run.after_all(policy, #[trigger] rounds(count, earlier)).working,
            ) > 0
        &&& end == run.after_all(policy, rounds(count, times)).state.after_stop()
        &&& moved_to == run.released(policy, rounds(count, times))
    }
}

/// What one turn may do to one approach. Nothing redirects its cars and no
/// queue grows. A queue shrinks only by one car, only in a turn of the
/// worker that owns the approach, and only under a light that was green when
/// the turn began and is green when it ends.
pub open spec fn approach_kept(before: Direction, after: Direction, owner_worked: bool) -> bool {
    &&& after.connects_to == before.connects_to
    &&& after.cars <= before.cars
    &&& after.cars < before.cars ==> {
        &&& owner_worked
        &&& after.cars == before.cars - 1
        &&& before.traffic_light == TrafficLight::Green
        &&& after.traffic_light == TrafficLight::Green
    }
}

/// Replacing one intersection changes the network's total by the difference
/// of the two.
pub proof fn lemma_total_queued_update(network: Seq<Intersection>, at: int, put: Intersection)
    requires
        0 <= at < network.len(),
    ensures
        total_queued(network.update(at, put)) + network[at].queued() == total_queued(network)
            + put.queued(),
    decreases network.len(),
{
    let changed = network.update(at, put);
    if at == network.len() - 1 {
        assert(changed.drop_last() =~= network.drop_last());
    } else {
        assert(changed.drop_last() =~= network.drop_last().update(at, put));
        lemma_total_queued_update(network.drop_last(), at, put);
    }
}

/// Two networks whose intersections hold the same number of cars, position
/// by position, hold the same total.
pub proof fn lemma_total_queued_pointwise(left: Seq<Intersection>, right: Seq<Intersection>)
    requires
        left.len() == right.len(),
        forall|k: int| 0 <= k < left.len() ==> left[k].queued() == right[k].queued(),
    ensures
        total_queued(left) == total_queued(right),
    decreases left.len(),
{
    if left.len() > 0 {
        lemma_total_queued_pointwise(left.drop_last(), right.drop_last());
    }
}

/// A worker that stops leaves one fewer at work; one that goes on leaves
/// the count as it was.
pub proof fn lemma_count_working_update(working: Seq<bool>, at: int, goes_on: bool)
    requires
        0 <= at < working.len(),
        working[at],
    ensures
        count_working(working.update(at, goes_on)) + (if goes_on {
            0nat
        } else {
            1nat
        }) == count_working(working),
    decreases working.len(),
{
    let changed = working.update(at, goes_on);
    if at == working.len() - 1 {
        assert(changed.drop_last() =~= working.drop_last());
    } else {
        assert(changed.drop_last() =~= working.drop_last().update(at, goes_on));
        lemma_count_working_update(working.drop_last(), at, goes_on);
    }
}

/// One scheduled turn, whoever takes it: the run stays well formed, the
/// flag never goes back up, the cars that leave are exactly the cars that
/// the queues lose, and a worker turn that counts uses up a waiting car or
/// a worker.
pub proof fn lemma_turn(run: RunView, policy: LightPolicy, actor: Actor)
    requires
        run.well_formed(),
    ensures
        run.after(policy, actor).well_formed(),
        run.after(policy, actor).state.network.len() == run.state.network.len(),
        run.after(policy, actor).state.running ==> run.state.running,
        run.after(policy, actor).state.queued() + run.released_by(actor).len()
            == run.state.queued(),
        run.after(policy, actor).state.queued() + count_working(
            run.after(policy, actor).working,
        ) + (if run.takes_turn(actor) {
            1nat
        } else {
            0nat
        }) <= run.state.queued() + count_working(run.working),
{
    let next = run.after(policy, actor);
    match actor {
        Actor::Controller => {
            assert forall|k: int| 0 <= k < run.state.network.len() implies (
            #[trigger] next.state.network[k]).queued() == run.state.network[k].queued() by {
                crate::intersection::lemma_toggles_keep_queues(run.state.network[k]);
            }
            lemma_total_queued_pointwise(next.state.network, run.state.network);
        },
        Actor::Worker(index) => {
            if run.takes_turn(actor) {
                let crossing = run.state.network[index as int];
                lemma_total_queued_update(
                    run.state.network,
                    index as int,
                    crossing.after_release(),
                );
                lemma_count_working_update(run.working, index as int, next.state.running);
            }
        },
    }
}

/// Turns are taken whole. Whoever is scheduled, each approach in the network
/// is kept as `approach_kept` says; a worker changes no light, and the
/// controller changes no queue.
pub proof fn lemma_turn_keeps_approaches(
    run: RunView,
    policy: LightPolicy,
    actor: Actor,
    place: int,
    approach: int,
)
    requires
        run.well_formed(),
        0 <= place < run.state.network.len(),
        0 <= approach < 4,
    ensures
        run.after(policy, actor).state.network.len() == run.state.network.len(),
        run.after(policy, actor).state.network[place].id == run.state.network[place].id,
        approach_kept(
            run.state.network[place].approaches()[approach],
            run.after(policy, actor).state.network[place].approaches()[approach],
            run.takes_turn(actor) && actor == Actor::Worker(place as usize),
        ),
        actor is Worker ==> run.after(policy, actor).state.network[place].approaches()[approach].traffic_light
            == run.state.network[place].approaches()[approach].traffic_light,
        actor is Controller ==> run.after(policy, actor).state.network[place].approaches()[approach].cars
            == run.state.network[place].approaches()[approach].cars,
{
}

/// No interleaving lets a car leave under a light other than the one its
/// worker saw: at every turn of every schedule, each approach is kept as
/// `approach_kept` says.
pub proof fn lemma_schedule_keeps_approaches(
    run: RunView,
    policy: LightPolicy,
    schedule: Seq<Actor>,
    at: int,
    place: int,
    approach: int,
)
    requires
        run.well_formed(),
        0 <= at < schedule.len(),
        0 <= place < run.state.network.len(),
        0 <= approach < 4,
    ensures
        approach_kept(
            run.after_all(policy, schedule.take(at)).state.network[place].approaches()[approach],
            run.after_all(policy, schedule.take(at + 1)).state.network[place].approaches()[approach],
            run.after_all(policy, schedule.take(at)).takes_turn(schedule[at]) && schedule[at]
                == Actor::Worker(place as usize),
        ),
{
    let before = run.after_all(policy, schedule.take(at));
    assert(schedule.take(at + 1).drop_last() =~= schedule.take(at));
    lemma_cars_only_leave(run, policy, schedule.take(at));
    lemma_turn_keeps_approaches(before, policy, schedule[at], place, approach);
}

/// Once the lights of an intersection are paired, they stay paired: no
/// turn of any schedule parts them again.
pub proof fn lemma_schedule_keeps_pairing(
    run: RunView,
    policy: LightPolicy,
    schedule: Seq<Actor>,
    place: int,
)
    requires
        run.well_formed(),
        0 <= place < run.state.network.len(),
        run.state.network[place].lights_paired(),
    ensures
        run.after_all(policy, schedule).state.network[place].lights_paired(),
    decreases schedule.len(),
{
    if schedule.len() > 0 {
        lemma_cars_only_leave(run, policy, schedule.drop_last());
        lemma_schedule_keeps_pairing(run, policy, schedule.drop_last(), place);
    }
}

/// Over any schedule the run stays well formed, the flag never goes back
/// up, and the cars that left are exactly the cars that the queues lost.
pub proof fn lemma_cars_only_leave(run: RunView, policy: LightPolicy, schedule: Seq<Actor>)
    requires
        run.well_formed(),
    ensures
        run.after_all(policy, schedule).well_formed(),
        run.after_all(policy, schedule).state.network.len() == run.state.network.len(),
        run.after_all(policy, schedule).state.running ==> run.state.running,
        run.after_all(policy, schedule).state.queued() + run.released(policy, schedule).len()
            == run.state.queued(),
    decreases schedule.len(),
{
    if schedule.len() > 0 {
        lemma_cars_only_leave(run, policy, schedule.drop_last());
        lemma_turn(run.after_all(policy, schedule.drop_last()), policy, schedule.last());
    }
}

/// Every run ends. However the turns are interleaved and however long the
/// schedule is, the worker turns that count are at most the cars waiting at
/// the start plus the workers at work at the start: each such turn releases
/// a car or is that worker's last.
pub proof fn lemma_worker_turns_bounded(run: RunView, policy: LightPolicy, schedule: Seq<Actor>)
    requires
        run.well_formed(),
    ensures
        run.worker_turns(policy, schedule) + run.after_all(policy, schedule).state.queued()
            + count_working(run.after_all(policy, schedule).working) <= run.state.queued()
            + count_working(run.working),
        run.worker_turns(policy, schedule) <= run.state.queued() + count_working(run.working),
    decreases schedule.len(),
{
    if schedule.len() > 0 {
        lemma_cars_only_leave(run, policy, schedule.drop_last());
        lemma_worker_turns_bounded(run, policy, schedule.drop_last());
        lemma_turn(run.after_all(policy, schedule.drop_last()), policy, schedule.last());
    }
}

/// At the start of a run every worker is at work.
pub proof fn lemma_all_working(state: SimulationView)
    ensures
        RunView::start(state).well_formed(),
        count_working(RunView::start(state).working) == state.network.len(),
    decreases state.network.len(),
{
    let working = RunView::start(state).working;
    if working.len() > 0 {
        let shorter = SimulationView { network: state.network.drop_last(), running: state.running };
        assert(working.drop_last() =~= RunView::start(shorter).working);
        lemma_all_working(shorter);
    }
}

/// From the start of a run, no interleaving holds more worker turns that
/// count than there are cars waiting and intersections: running the workers
/// to completion always ends.
pub proof fn lemma_run_ends(state: SimulationView, policy: LightPolicy, schedule: Seq<Actor>)
    ensures
        RunView::start(state).worker_turns(policy, schedule) <= state.queued()
            + state.network.len(),
        RunView::start(state).after_all(policy, schedule).state.queued() <= state.queued(),
{
    lemma_all_working(state);
    lemma_worker_turns_bounded(RunView::start(state), policy, schedule);
    lemma_cars_only_leave(RunView::start(state), policy, schedule);
}

/// Only exhaustion lowers the flag. If the flag was up at the start of a
/// schedule and is down after it, then at some turn of the schedule a worker
/// at work found no green approach with a car waiting.
pub proof fn lemma_flag_lowered_by_exhaustion(
    run: RunView,
    policy: LightPolicy,
    schedule: Seq<Actor>,
)
    requires
        run.well_formed(),
        run.state.running,
        !run.after_all(policy, schedule).state.running,
    ensures
        exists|at: int| #[trigger] run.exhausted_at(policy, schedule, at),
    decreases schedule.len(),
{
    if schedule.len() > 0 {
        let shorter = schedule.drop_last();
        let before = run.after_all(policy, shorter);
        if before.state.running {
            let at = schedule.len() - 1;
            assert(schedule.take(at) =~= shorter);
            assert(run.exhausted_at(policy, schedule, at));
        } else {
            lemma_flag_lowered_by_exhaustion(run, policy, shorter);
            let at = choose|at: int| #[trigger] run.exhausted_at(policy, shorter, at);
            assert(shorter.take(at) =~= schedule.take(at));
            assert(run.exhausted_at(policy, schedule, at));
        }
    }
}

/// When the last worker of a run that started with the flag up has stopped,
/// the flag is down, and it was a worker's exhaustion that lowered it.
pub proof fn lemma_finished_by_exhaustion(
    state: SimulationView,
    policy: LightPolicy,
    schedule: Seq<Actor>,
)
    requires
        state.running,
        state.network.len() > 0,
        count_working(RunView::start(state).after_all(policy, schedule).working) == 0,
    ensures
        !RunView::start(state).after_all(policy, schedule).state.running,
        exists|at: int| #[trigger] RunView::start(state).exhausted_at(policy, schedule, at),
{
    let run = RunView::start(state);
    let end = run.after_all(policy, schedule);
    assert(run.well_formed());
    lemma_cars_only_leave(run, policy, schedule);
    lemma_none_working(end.working, 0);
    assert(!end.working[0]);
    lemma_flag_lowered_by_exhaustion(run, policy, schedule);
}

/// If every worker has stopped, then none is at work.
pub proof fn lemma_all_stopped(working: Seq<bool>)
    requires
        forall|at: int| 0 <= at < working.len() ==> !working[at],
    ensures
        count_working(working) == 0,
    decreases working.len(),
{
    if working.len() > 0 {
        lemma_all_stopped(working.drop_last());
    }
}

/// If no worker is at work, then each one has stopped.
pub proof fn lemma_none_working(working: Seq<bool>, at: int)
    requires
        0 <= at < working.len(),
        count_working(working) == 0,
    ensures
        !working[at],
    decreases working.len(),
{
    if at < working.len() - 1 {
        lemma_none_working(working.drop_last(), at);
    }
}

impl Simulation {
    /// Schedules `actor` once on a run in progress and appends the
    /// destinations of the cars that leave to `moved_to`. Returns whether a
    /// worker turn counted.
    fn take_turn(
        &mut self,
        working: &mut Vec<bool>,
        policy: LightPolicy,
        actor: Actor,
        moved_to: &mut Vec<usize>,
    ) -> (counted: bool)
        requires
            (RunView { state: old(self)@, working: old(working)@ }).well_formed(),
        ensures
            (RunView { state: final(self)@, working: final(working)@ }) == (RunView {
                state: old(self)@,
                working: old(working)@,
            }).after(policy, actor),
            final(moved_to)@ == old(moved_to)@ + (RunView {
                state: old(self)@,
                working: old(working)@,
            }).released_by(actor),
            counted == (RunView { state: old(self)@, working: old(working)@ }).takes_turn(actor),
    {
        match actor {
            Actor::Controller => {
                self.controller_pass(policy);
                assert(moved_to@ =~= old(moved_to)@ + Seq::<usize>::empty());
                false
            },
            Actor::Worker(index) => {
                if index < working.len() && working[index] {
                    let mut turn = self.worker_turn(index);
                    moved_to.append(&mut turn.moved_to);
                    match turn.action {
                        WorkerAction::Stop => {
                            working.set(index, false);
                        },
                        WorkerAction::Pause => {
                            assert(working@ =~= old(working)@.update(index as int, true));
                        },
                    }
                    true
                } else {
                    assert(moved_to@ =~= old(moved_to)@ + Seq::<usize>::empty());
                    false
                }
            },
        }
    }

    /// Replays one interleaving from the start of a run: every worker is at
    /// work, and the turns of `schedule` are taken one by one. A turn of a
    /// worker that has stopped, or of one that does not exist, is skipped.
    /// If every worker has stopped at the end, the coordinator lowers the
    /// flag, which matters only for a network without intersections.
    pub fn run_schedule(&mut self, policy: LightPolicy, schedule: &Vec<Actor>) -> (report:
        RunReport)
        ensures
            final(self)@ == ({
                let end = RunView::start(old(self)@).after_all(policy, schedule@);
                if count_working(end.working) == 0 {
                    end.state.after_stop()
                } else {
                    end.state
                }
            }),
            report.moved_to@ == RunView::start(old(self)@).released(policy, schedule@),
            report.worker_turns == RunView::start(old(self)@).worker_turns(policy, schedule@),
            report.finished == (count_working(
                RunView::start(old(self)@).after_all(policy, schedule@).working,
            ) == 0),
    {
        let ghost start = RunView::start(self@);
        let mut working = Simulation::all_working(self.intersections.len());
        let mut at_work: usize = working.len();
        let mut moved_to: Vec<usize> = Vec::new();
        let mut worker_turns: usize = 0;
        let mut at: usize = 0;
        assert(schedule@.take(0) =~= Seq::<Actor>::empty());
        assert(working@ =~= start.working);
        while at < schedule.len()
            invariant
                at <= schedule.len(),
                start.well_formed(),
                (RunView { state: self@, working: working@ }) == start.after_all(
                    policy,
                    schedule@.take(at as int),
                ),
                moved_to@ == start.released(policy, schedule@.take(at as int)),
                worker_turns == start.worker_turns(policy, schedule@.take(at as int)),
                worker_turns <= at,
                at_work == count_working(working@),
            decreases schedule.len() - at,
        {
            let ghost before = RunView { state: self@, working: working@ };
            let ghost done = schedule@.take(at as int);
            let actor = schedule[at];
            proof {
                lemma_cars_only_leave(start, policy, done);
                assert(schedule@.take(at + 1).drop_last() =~= done);
                if before.takes_turn(actor) {
                    lemma_count_working_update(
                        before.working,
                        actor->0 as int,
                        before.after(policy, actor).state.running,
                    );
                }
            }
            let counted = self.take_turn(&mut working, policy, actor, &mut moved_to);
            if counted {
                worker_turns += 1;
                if !self.running {
                    at_work -= 1;
                }
            }
            at += 1;
        }
        assert(schedule@.take(at as int) =~= schedule@);
        let finished = at_work == 0;
        if finished {
            self.stop();
        }
        RunReport { moved_to, worker_turns, finished }
    }

    /// Runs to the end, round by round: in each round the controller makes
    /// a pass, then every worker still at work takes a turn, in order of
    /// position. The rounds go on until every worker has stopped; then the
    /// coordinator lowers the flag. Returns the destinations of the cars that
    /// left, in the order in which they left.
    ///
    /// This always ends: a round uses up a waiting car or a worker.
    pub fn run_to_completion(&mut self, policy: LightPolicy) -> (moved_to: Vec<usize>)
        ensures
            exists|times: nat| #[trigger]
                old(self)@.completes_in(policy, times, final(self)@, moved_to@),
            !final(self)@.running,
            final(self)@.network.len() == old(self)@.network.len(),
            final(self)@.queued() + moved_to@.len() == old(self)@.queued(),
    {
        let ghost start = RunView::start(self@);
        let count = self.intersections.len();
        let mut working = Simulation::all_working(count);
        let mut at_work: usize = count;
        let mut moved_to: Vec<usize> = Vec::new();
        let ghost mut times: nat = 0;
        assert(working@ =~= start.working);
        while at_work > 0
            invariant
                start.well_formed(),
                count == start.state.network.len(),
                (RunView { state: self@, working: working@ }) == start.after_all(
                    policy,
                    rounds(count as nat, times),
                ),
                moved_to@ == start.released(policy, rounds(count as nat, times)),
                at_work == count_working(working@),
                forall|earlier: nat|
                    earlier < times ==> count_working(
                        start.after_all(policy, #[trigger] rounds(count as nat, earlier)).working,
                    ) > 0,
            decreases self@.queued() + at_work,
        {
            let ghost round_start = RunView { state: self@, working: working@ };
            let ghost mut done = rounds(count as nat, times);
            let ghost mut progressed = false;
            proof {
                lemma_cars_only_leave(start, policy, done);
                lemma_turn(round_start, policy, Actor::Controller);
                assert(done.push(Actor::Controller).drop_last() =~= done);
            }
            self.take_turn(&mut working, policy, Actor::Controller, &mut moved_to);
            proof {
                done = done.push(Actor::Controller);
                assert(done =~= rounds(count as nat, times) + round_robin(count as nat).take(1));
            }
            let mut k: usize = 0;
            while k < count
                invariant
                    k <= count,
                    start.well_formed(),
                    count == start.state.network.len(),
                    count == working@.len(),
                    done == rounds(count as nat, times) + round_robin(count as nat).take(k + 1),
                    (RunView { state: self@, working: working@ }) == start.after_all(policy, done),
                    moved_to@ == start.released(policy, done),
                    at_work == count_working(working@),
                    forall|j: int| k <= j < count ==> working@[j] == round_start.working[j],
                    !progressed ==> forall|j: int| 0 <= j < k ==> !round_start.working[j],
                    self@.queued() + at_work + (if progressed {
                        1nat
                    } else {
                        0nat
                    }) <= round_start.state.queued() + count_working(round_start.working),
                decreases count - k,
            {
                let ghost before = RunView { state: self@, working: working@ };
                let actor = Actor::Worker(k);
                proof {
                    lemma_cars_only_leave(start, policy, done);
                    lemma_turn(before, policy, actor);
                    assert(done.push(actor).drop_last() =~= done);
                    if before.takes_turn(actor) {
                        lemma_count_working_update(
                            before.working,
                            k as int,
                            before.after(policy, actor).state.running,
                        );
                    }
                }
                let counted = self.take_turn(&mut working, policy, actor, &mut moved_to);
                if counted && !self.running {
                    at_work -= 1;
                }
                proof {
                    if counted {
                        progressed = true;
                    }
                    done = done.push(actor);
                    assert(done =~= rounds(count as nat, times) + round_robin(count as nat).take(
                        k + 2,
                    ));
                }
                k += 1;
            }
            proof {
                assert(round_robin(count as nat).take(count + 1) =~= round_robin(count as nat));
                assert(done == rounds(count as nat, times + 1));
                if !progressed {
                    lemma_all_stopped(round_start.working);
                }
                times = times + 1;
            }
        }
        proof {
            lemma_cars_only_leave(start, policy, rounds(count as nat, times));
        }
        self.stop();
        assert(old(self)@.completes_in(policy, times, self@, moved_to@));
        moved_to
    }

    /// One flag per worker, all of them up.
    fn all_working(count: usize) -> (working: Vec<bool>)
        ensures
            working@ == Seq::new(count as nat, |i: int| true),
            count_working(working@) == count,
    {
        let mut working: Vec<bool> = Vec::new();
        while working.len() < count
            invariant
                working@.len() <= count,
                forall|i: int| 0 <= i < working@.len() ==> working@[i],
                count_working(working@) == working@.len(),
            decreases count - working@.len(),
        {
            let ghost before = working@;
            working.push(true);
            assert(working@.drop_last() =~= before);
        }
        assert(working@ =~= Seq::new(count as nat, |i: int| true));
        working
    }
}

} // verus!

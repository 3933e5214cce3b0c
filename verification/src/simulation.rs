//! The shared state of a run, the network and its run flag, and the turns
//! that workers and the light controller take on it.
//!
//! A turn is one call with the state borrowed exclusively, so turns never
//! overlap: a worker sees the lights of one moment for all four of its
//! attempts, and the controller never changes a light halfway through them.

use vstd::prelude::*;
use crate::intersection::Intersection;

verus! {

/// How the controller steers the lights. One policy is chosen for a run.
#[derive(Clone, Copy, Debug, PartialEq, Eq, Structural)]
pub enum LightPolicy {
    /// Switch every intersection on every pass, whatever is waiting.
    Sequential,
    /// Set an intersection's lights by demand, but only once its green side
    /// has drained.
    Efficient,
}

/// What a worker does after its turn.
#[derive(Clone, Copy, Debug, PartialEq, Eq, Structural)]
pub enum WorkerAction {
    /// The run goes on: give up the state, wait, and take another turn.
    Pause,
    /// The run flag is down: the worker is finished.
    Stop,
}

/// The outcome of one worker turn.
#[derive(Debug)]
pub struct WorkerTurn {
    /// Destinations of the cars that left during the turn, in order.
    pub moved_to: Vec<usize>,
    pub action: WorkerAction,
}

/// The network and the run flag, which workers and the controller share.
#[derive(Debug)]
pub struct Simulation {
    pub intersections: Vec<Intersection>,
    pub running: bool,
}

/// The shared state as plain values.
pub struct SimulationView {
    pub network: Seq<Intersection>,
    pub running: bool,
}

/// All cars waiting anywhere in the network.
pub open spec fn total_queued(network: Seq<Intersection>) -> nat
    decreases network.len(),
{
    if network.len() == 0 {
        0
    } else {
        total_queued(network.drop_last()) + network.last().queued()
    }
}

impl LightPolicy {
    /// One intersection after one controller pass under this policy.
    pub open spec fn applied(self, crossing: Intersection) -> Intersection {
        match self {
            LightPolicy::Sequential => crossing.after_toggle(),
            LightPolicy::Efficient => if crossing.green_drained() {
                crossing.after_priority_toggle()
            } else {
                crossing
            },
        }
    }

    /// Lets the policy act on one intersection: the sequential policy
    /// switches it; the efficient policy sets its lights by demand if no
    /// green approach has a car waiting, and otherwise leaves it alone.
    pub fn apply(self, crossing: &mut Intersection)
        ensures
            *final(crossing) == self.applied(*old(crossing)),
    {
        match self {
            LightPolicy::Sequential => {
                crossing.toggle_lights();
            },
            LightPolicy::Efficient => {
                if crossing.has_drained() {
                    crossing.toggle_lights_efficient();
                }
            },
        }
    }
}

impl SimulationView {
    /// The state after the worker of intersection `index` took a turn: each
    /// approach there had one attempt, and the flag stays up only if it was
    /// up and a car left.
    pub open spec fn after_worker_turn(self, index: int) -> SimulationView {
        SimulationView {
            network: self.network.update(index, self.network[index].after_release()),
            running: self.running && !self.network[index].green_drained(),
        }
    }

    /// The state after one controller pass: the policy acted on every
    /// intersection, and the flag is as it was.
    pub open spec fn after_controller_pass(self, policy: LightPolicy) -> SimulationView {
        SimulationView {
            network: Seq::new(self.network.len(), |k: int| policy.applied(self.network[k])),
            running: self.running,
        }
    }

    /// The state after the coordinator lowered the flag.
    pub open spec fn after_stop(self) -> SimulationView {
        SimulationView { network: self.network, running: false }
    }

    /// All cars waiting anywhere in the network.
    pub open spec fn queued(self) -> nat {
        total_queued(self.network)
    }
}

impl View for Simulation {
    type V = SimulationView;

    open spec fn view(&self) -> SimulationView {
        SimulationView { network: self.intersections@, running: self.running }
    }
}

impl Simulation {
    /// A run over the given network, with the flag up.
    pub fn new(intersections: Vec<Intersection>) -> (made: Self)
        ensures
            made@ == (SimulationView { network: intersections@, running: true }),
    {
        Simulation { intersections, running: true }
    }

    /// Whether the run goes on. The controller asks before each pass.
    pub fn is_running(&self) -> (up: bool)
        ensures
            up == self@.running,
    {
        self.running
    }

    /// Lowers the run flag; lowering it again changes nothing.
    pub fn stop(&mut self)
        ensures
            final(self)@ == old(self)@.after_stop(),
    {
        self.running = false;
    }

    /// One turn of the worker of intersection `index`: each approach gets
    /// one attempt to let a car go, in the fixed order. If no car left, the
    /// worker lowers the run flag. The worker then stops if the flag is down,
    /// whoever lowered it, and pauses otherwise.
    pub fn worker_turn(&mut self, index: usize) -> (turn: WorkerTurn)
        requires
            index < old(self)@.network.len(),
        ensures
            final(self)@ == old(self)@.after_worker_turn(index as int),
            turn.moved_to@ == old(self)@.network[index as int].departures(),
            turn.action == (if final(self)@.running {
                WorkerAction::Pause
            } else {
                WorkerAction::Stop
            }),
    {
        let mut crossing = self.intersections[index];
        let moved_to = crossing.release_cars();
        self.intersections.set(index, crossing);
        if moved_to.len() == 0 {
            self.running = false;
        }
        let action = if self.running {
            WorkerAction::Pause
        } else {
            WorkerAction::Stop
        };
        WorkerTurn { moved_to, action }
    }

    /// One pass of the light controller: the policy acts on every
    /// intersection. No queue and no flag is touched.
    pub fn controller_pass(&mut self, policy: LightPolicy)
        ensures
            final(self)@ == old(self)@.after_controller_pass(policy),
    {
        let count = self.intersections.len();
        let mut k: usize = 0;
        while k < count
            invariant
                k <= count,
                count == self.intersections@.len(),
                count == old(self).intersections@.len(),
                self.running == old(self).running,
                forall|j: int|
                    0 <= j < k ==> self.intersections@[j] == policy.applied(
                        old(self).intersections@[j],
                    ),
                forall|j: int|
                    k <= j < count ==> self.intersections@[j] == old(self).intersections@[j],
            decreases count - k,
        {
            let mut crossing = self.intersections[k];
            policy.apply(&mut crossing);
            self.intersections.set(k, crossing);
            k += 1;
        }
        assert(self@.network =~= old(self)@.after_controller_pass(policy).network);
    }
}

} // verus!

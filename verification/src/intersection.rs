//! A four-way intersection: its approaches, its two light policies and the
//! release of waiting cars.

use vstd::prelude::*;
use crate::direction::{Direction, TrafficLight};

verus! {

/// Four approaches around one crossing. North-south and east-west form the
/// two pairs that the light policies steer together.
#[derive(Clone, Copy, Debug, PartialEq, Eq, Structural)]
pub struct Intersection {
    pub id: usize,
    pub north_to_south: Direction,
    pub south_to_north: Direction,
    pub east_to_west: Direction,
    pub west_to_east: Direction,
}

impl Intersection {
    /// The same queues and destinations under the given pair of lights.
    pub open spec fn with_lights(self, north_south: TrafficLight, east_west: TrafficLight)
        -> Intersection {
        Intersection {
            id: self.id,
            north_to_south: self.north_to_south.with_light(north_south),
            south_to_north: self.south_to_north.with_light(north_south),
            east_to_west: self.east_to_west.with_light(east_west),
            west_to_east: self.west_to_east.with_light(east_west),
        }
    }

    /// Both approaches of each pair show the same light, and the two pairs
    /// show opposite lights.
    pub open spec fn lights_paired(self) -> bool {
        &&& self.south_to_north.traffic_light == self.north_to_south.traffic_light
        &&& self.west_to_east.traffic_light == self.east_to_west.traffic_light
        &&& self.east_to_west.traffic_light == self.north_to_south.traffic_light.flipped()
    }

    /// The intersection after the alternating policy has switched it: the
    /// north-south pair takes the opposite of what north-to-south showed, and
    /// east-west takes what north-to-south showed.
    pub open spec fn after_toggle(self) -> Intersection {
        self.with_lights(
            self.north_to_south.traffic_light.flipped(),
            self.north_to_south.traffic_light,
        )
    }

    /// Cars waiting on the north-south pair.
    pub open spec fn north_south_demand(self) -> int {
        self.north_to_south.cars + self.south_to_north.cars
    }

    /// Cars waiting on the east-west pair.
    pub open spec fn east_west_demand(self) -> int {
        self.east_to_west.cars + self.west_to_east.cars
    }

    /// North-south has at least as many cars waiting as east-west; a tie
    /// goes to north-south.
    pub open spec fn favors_north_south(self) -> bool {
        self.north_south_demand() >= self.east_west_demand()
    }

    /// The intersection after the demand policy has set its lights: green
    /// for the pair that demand favors, red for the other.
    pub open spec fn after_priority_toggle(self) -> Intersection {
        if self.favors_north_south() {
            self.with_lights(TrafficLight::Green, TrafficLight::Red)
        } else {
            self.with_lights(TrafficLight::Red, TrafficLight::Green)
        }
    }

    /// No approach that shows green has a car waiting: the green side has
    /// drained, and an attempt to release cars here moves none.
    pub open spec fn green_drained(self) -> bool {
        &&& !self.north_to_south.can_move()
        &&& !self.south_to_north.can_move()
        &&& !self.east_to_west.can_move()
        &&& !self.west_to_east.can_move()
    }

    /// The four approaches in the order in which a worker serves them:
    /// north-to-south, south-to-north, east-to-west, west-to-east.
    pub open spec fn approaches(self) -> Seq<Direction> {
        seq![self.north_to_south, self.south_to_north, self.east_to_west, self.west_to_east]
    }

    /// All cars waiting at the intersection.
    pub open spec fn queued(self) -> nat {
        (self.north_to_south.cars + self.south_to_north.cars + self.east_to_west.cars
            + self.west_to_east.cars) as nat
    }

    /// The intersection after each approach had one attempt to let a car go.
    pub open spec fn after_release(self) -> Intersection {
        Intersection {
            id: self.id,
            north_to_south: self.north_to_south.after_move(),
            south_to_north: self.south_to_north.after_move(),
            east_to_west: self.east_to_west.after_move(),
            west_to_east: self.west_to_east.after_move(),
        }
    }

    /// The destinations of the cars that one round of attempts releases, in
    /// the order north-to-south, south-to-north, east-to-west, west-to-east.
    pub open spec fn departures(self) -> Seq<usize> {
        self.north_to_south.departure() + self.south_to_north.departure()
            + self.east_to_west.departure() + self.west_to_east.departure()
    }

    /// Puts four approaches around a crossing, unchanged.
    pub fn new(id: usize, nts: Direction, stn: Direction, etw: Direction, wte: Direction) -> (made:
        Self)
        ensures
            made == (Intersection {
                id,
                north_to_south: nts,
                south_to_north: stn,
                east_to_west: etw,
                west_to_east: wte,
            }),
    {
        Self { id, north_to_south: nts, south_to_north: stn, east_to_west: etw, west_to_east: wte }
    }

    /// Lets one car leave `direction` if its light is green and a car is
    /// waiting, and says whether one left. The caller reports the departure
    /// towards `direction.connects_to`.
    pub fn move_cars(direction: &mut Direction) -> (moved: bool)
        ensures
            moved == old(direction).can_move(),
            *final(direction) == old(direction).after_move(),
            moved ==> final(direction).cars == old(direction).cars - 1,
            !moved ==> *final(direction) == *old(direction),
    {
        match direction.traffic_light {
            TrafficLight::Green => {
                if direction.cars > 0 {
                    direction.cars -= 1;
                    return true;
                }
            },
            TrafficLight::Red => {},
        }
        false
    }

    /// Gives each approach one attempt to let a car go, in the order
    /// north-to-south, south-to-north, east-to-west, west-to-east, and returns
    /// the destinations of the cars that left, in that order. Lights are not
    /// touched, and a queue shrinks only under a green light.
    pub fn release_cars(&mut self) -> (moved_to: Vec<usize>)
        ensures
            *final(self) == old(self).after_release(),
            moved_to@ == old(self).departures(),
            moved_to@.len() == 0 <==> old(self).green_drained(),
            final(self).queued() + moved_to@.len() == old(self).queued(),
    {
        let mut moved_to: Vec<usize> = Vec::new();
        if Intersection::move_cars(&mut self.north_to_south) {
            moved_to.push(self.north_to_south.connects_to);
        }
        if Intersection::move_cars(&mut self.south_to_north) {
            moved_to.push(self.south_to_north.connects_to);
        }
        if Intersection::move_cars(&mut self.east_to_west) {
            moved_to.push(self.east_to_west.connects_to);
        }
        if Intersection::move_cars(&mut self.west_to_east) {
            moved_to.push(self.west_to_east.connects_to);
        }
        moved_to
    }

    /// Switches the intersection to its other phase: if north-to-south was
    /// red, north-south turns green and east-west red; otherwise the reverse.
    /// Queues, destinations and the identifier stay as they were.
    pub fn toggle_lights(&mut self)
        ensures
            *final(self) == old(self).after_toggle(),
            final(self).lights_paired(),
    {
        match self.north_to_south.traffic_light {
            TrafficLight::Red => {
                self.north_to_south.traffic_light = TrafficLight::Green;
                self.south_to_north.traffic_light = TrafficLight::Green;
                self.east_to_west.traffic_light = TrafficLight::Red;
                self.west_to_east.traffic_light = TrafficLight::Red;
            },
            TrafficLight::Green => {
                self.north_to_south.traffic_light = TrafficLight::Red;
                self.south_to_north.traffic_light = TrafficLight::Red;
                self.east_to_west.traffic_light = TrafficLight::Green;
                self.west_to_east.traffic_light = TrafficLight::Green;
            },
        }
    }

    /// Whether demand favors the north-south pair. The sums are taken in a
    /// wider type, so no queue length overflows them.
    pub fn prioritize_direction(&self) -> (north_south: bool)
        ensures
            north_south == self.favors_north_south(),
    {
        let north_south_total: u128 = self.north_to_south.cars as u128
            + self.south_to_north.cars as u128;
        let east_west_total: u128 = self.east_to_west.cars as u128
            + self.west_to_east.cars as u128;

        north_south_total >= east_west_total
    }

    /// Whether the green side has drained: no approach that shows green has
    /// a car waiting.
    pub fn has_drained(&self) -> (drained: bool)
        ensures
            drained == self.green_drained(),
    {
        !Intersection::waits_at_green(&self.north_to_south)
            && !Intersection::waits_at_green(&self.south_to_north)
            && !Intersection::waits_at_green(&self.east_to_west)
            && !Intersection::waits_at_green(&self.west_to_east)
    }

    /// Whether a car could leave `direction` now.
    fn waits_at_green(direction: &Direction) -> (waiting: bool)
        ensures
            waiting == direction.can_move(),
    {
        match direction.traffic_light {
            TrafficLight::Green => direction.cars > 0,
            TrafficLight::Red => false,
        }
    }

    /// Sets the lights by demand: green for north-south and red for
    /// east-west if north-south has at least as many cars waiting, otherwise
    /// the reverse. Queues, destinations and the identifier stay as they were.
    pub fn toggle_lights_efficient(&mut self)
        ensures
            *final(self) == old(self).after_priority_toggle(),
            final(self).lights_paired(),
    {
        if self.prioritize_direction() {
            self.north_to_south.traffic_light = TrafficLight::Green;
            self.south_to_north.traffic_light = TrafficLight::Green;
            self.east_to_west.traffic_light = TrafficLight::Red;
            self.west_to_east.traffic_light = TrafficLight::Red;
        } else {
            self.north_to_south.traffic_light = TrafficLight::Red;
            self.south_to_north.traffic_light = TrafficLight::Red;
            self.east_to_west.traffic_light = TrafficLight::Green;
            self.west_to_east.traffic_light = TrafficLight::Green;
        }
    }
}

/// Two switches of the alternating policy bring an intersection whose lights
/// are paired back to exactly where it was.
pub proof fn lemma_toggle_twice_restores(crossing: Intersection)
    requires
        crossing.lights_paired(),
    ensures
        crossing.after_toggle().after_toggle() == crossing,
{
}

/// Whatever the lights were, one switch of the alternating policy pairs
/// them, so from then on every second switch restores the intersection.
pub proof fn lemma_toggle_pairs_lights(crossing: Intersection)
    ensures
        crossing.after_toggle().lights_paired(),
        crossing.after_toggle().after_toggle().after_toggle() == crossing.after_toggle(),
{
}

/// Setting the lights by demand a second time, with the queues unchanged,
/// changes nothing: the first call settles them.
pub proof fn lemma_priority_toggle_idempotent(crossing: Intersection)
    ensures
        crossing.after_priority_toggle().after_priority_toggle()
            == crossing.after_priority_toggle(),
{
}

/// Neither policy touches a queue: the cars waiting at an intersection are
/// the same before and after either one.
pub proof fn lemma_toggles_keep_queues(crossing: Intersection)
    ensures
        crossing.after_toggle().queued() == crossing.queued(),
        crossing.after_priority_toggle().queued() == crossing.queued(),
{
}

} // verus!

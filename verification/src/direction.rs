//! One approach of an intersection: its light, its queue and where its cars go.

use vstd::prelude::*;

verus! {

/// The phase shown to one approach: `Red` holds the queue, `Green` lets it go.
#[derive(Clone, Copy, Debug, PartialEq, Eq, Structural)]
pub enum TrafficLight {
    Red,
    Green,
}

impl TrafficLight {
    /// The other phase.
    pub open spec fn flipped(self) -> TrafficLight {
        match self {
            TrafficLight::Red => TrafficLight::Green,
            TrafficLight::Green => TrafficLight::Red,
        }
    }
}

/// One approach of an intersection.
///
/// `connects_to` names the intersection a departing car drives to; the
/// library never interprets it, so any value may stand for "leaves the
/// network".
#[derive(Clone, Copy, Debug, PartialEq, Eq, Structural)]
pub struct Direction {
    pub traffic_light: TrafficLight,
    pub cars: usize,
    pub connects_to: usize,
}

impl Direction {
    /// A car can leave exactly when the light is green and the queue is not empty.
    pub open spec fn can_move(self) -> bool {
        self.traffic_light == TrafficLight::Green && self.cars > 0
    }

    /// The approach after one attempt to let a car go.
    pub open spec fn after_move(self) -> Direction {
        if self.can_move() {
            Direction {
                traffic_light: self.traffic_light,
                cars: (self.cars - 1) as usize,
                connects_to: self.connects_to,
            }
        } else {
            self
        }
    }

    /// Where the car released by one attempt drives to: one destination if a
    /// car can leave, none otherwise.
    pub open spec fn departure(self) -> Seq<usize> {
        if self.can_move() {
            seq![self.connects_to]
        } else {
            Seq::empty()
        }
    }

    /// The same approach under another light.
    pub open spec fn with_light(self, light: TrafficLight) -> Direction {
        Direction { traffic_light: light, cars: self.cars, connects_to: self.connects_to }
    }
}

} // verus!

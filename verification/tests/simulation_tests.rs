use traffic_sim::TrafficLight::{Green, Red};
use traffic_sim::{
    Direction, Intersection, LightPolicy, Simulation, TrafficLight, WorkerAction,
};

fn crossing(id: usize, queues: [(TrafficLight, usize, usize); 4]) -> Intersection {
    let approach = |at: usize| Direction {
        traffic_light: queues[at].0,
        cars: queues[at].1,
        connects_to: queues[at].2,
    };
    Intersection::new(id, approach(0), approach(1), approach(2), approach(3))
}

fn city() -> Vec<Intersection> {
    vec![
        crossing(1, [(Red, 5, 4), (Green, 3, 0), (Green, 2, 2), (Red, 4, 0)]),
        crossing(2, [(Green, 6, 5), (Red, 1, 0), (Green, 3, 3), (Red, 2, 1)]),
        crossing(3, [(Red, 4, 6), (Green, 5, 0), (Red, 1, 0), (Green, 6, 2)]),
        crossing(4, [(Red, 3, 7), (Green, 4, 1), (Green, 2, 5), (Red, 1, 0)]),
        crossing(5, [(Green, 2, 8), (Red, 5, 2), (Green, 3, 6), (Red, 2, 4)]),
        crossing(6, [(Red, 4, 9), (Green, 6, 3), (Red, 2, 0), (Green, 5, 5)]),
        crossing(7, [(Green, 1, 0), (Red, 3, 4), (Green, 5, 8), (Red, 4, 0)]),
        crossing(8, [(Red, 6, 0), (Green, 2, 5), (Green, 3, 9), (Red, 1, 7)]),
        crossing(9, [(Red, 2, 0), (Green, 4, 6), (Red, 5, 0), (Green, 6, 8)]),
    ]
}

fn lights(crossing: &Intersection) -> [TrafficLight; 4] {
    [
        crossing.north_to_south.traffic_light,
        crossing.south_to_north.traffic_light,
        crossing.east_to_west.traffic_light,
        crossing.west_to_east.traffic_light,
    ]
}

fn queues(crossing: &Intersection) -> [usize; 4] {
    [
        crossing.north_to_south.cars,
        crossing.south_to_north.cars,
        crossing.east_to_west.cars,
        crossing.west_to_east.cars,
    ]
}

#[test]
fn new_simulation_starts_running() {
    let simulation = Simulation::new(city());
    assert!(simulation.is_running());
    assert!(simulation.running);
    assert_eq!(simulation.intersections, city());
}

#[test]
fn stop_lowers_the_flag_and_stays_down() {
    let mut simulation = Simulation::new(city());
    simulation.stop();
    assert!(!simulation.is_running());
    assert_eq!(simulation.intersections, city());
    simulation.stop();
    assert!(!simulation.is_running());
    assert_eq!(simulation.intersections, city());
}

#[test]
fn worker_turn_moves_one_car_per_green_approach() {
    let mut simulation = Simulation::new(vec![crossing(
        1,
        [(Red, 5, 4), (Green, 3, 0), (Green, 2, 2), (Red, 4, 0)],
    )]);
    let turn = simulation.worker_turn(0);
    assert_eq!(turn.moved_to, vec![0, 2]);
    assert_eq!(turn.action, WorkerAction::Pause);
    assert!(simulation.is_running());
    let served = &simulation.intersections[0];
    assert_eq!(served.south_to_north.cars, 2);
    assert_eq!(served.east_to_west.cars, 1);
    assert_eq!(served.north_to_south.cars, 5);
    assert_eq!(served.west_to_east.cars, 4);
    assert_eq!(lights(served), [Red, Green, Green, Red]);
}

#[test]
fn worker_turn_on_empty_queues_lowers_the_flag() {
    for shown in [[Red, Red, Red, Red], [Green, Green, Green, Green], [Red, Green, Green, Red]] {
        let empty = crossing(
            3,
            [(shown[0], 0, 1), (shown[1], 0, 2), (shown[2], 0, 3), (shown[3], 0, 4)],
        );
        let mut simulation = Simulation::new(vec![empty]);
        let turn = simulation.worker_turn(0);
        assert_eq!(turn.moved_to, Vec::<usize>::new());
        assert_eq!(turn.action, WorkerAction::Stop);
        assert!(!simulation.is_running());
        assert_eq!(simulation.intersections, vec![empty]);
    }
}

#[test]
fn worker_turn_with_cars_only_under_red_lowers_the_flag() {
    let held = crossing(3, [(Red, 4, 1), (Red, 1, 2), (Green, 0, 3), (Green, 0, 4)]);
    let mut simulation = Simulation::new(vec![held]);
    let turn = simulation.worker_turn(0);
    assert_eq!(turn.moved_to, Vec::<usize>::new());
    assert_eq!(turn.action, WorkerAction::Stop);
    assert!(!simulation.is_running());
    assert_eq!(simulation.intersections, vec![held]);
}

#[test]
fn worker_turn_touches_only_its_own_intersection() {
    let mut simulation = Simulation::new(city());
    let turn = simulation.worker_turn(2);
    assert_eq!(turn.moved_to, vec![0, 2]);
    assert_eq!(turn.action, WorkerAction::Pause);
    let before = city();
    for at in 0..before.len() {
        if at == 2 {
            assert_eq!(queues(&simulation.intersections[at]), [4, 4, 1, 5]);
            assert_eq!(lights(&simulation.intersections[at]), lights(&before[at]));
        } else {
            assert_eq!(simulation.intersections[at], before[at]);
        }
    }
}

#[test]
fn worker_turn_after_the_flag_came_down_still_moves_cars_and_stops() {
    let mut simulation = Simulation::new(city());
    simulation.stop();
    let turn = simulation.worker_turn(0);
    assert_eq!(turn.moved_to, vec![0, 2]);
    assert_eq!(turn.action, WorkerAction::Stop);
    assert!(!simulation.is_running());
    assert_eq!(queues(&simulation.intersections[0]), [5, 2, 1, 4]);
}

#[test]
fn exhaustion_at_one_intersection_stops_the_others() {
    let mut simulation = Simulation::new(vec![
        crossing(1, [(Green, 9, 0), (Green, 9, 0), (Red, 9, 0), (Red, 9, 0)]),
        crossing(2, [(Green, 0, 0), (Green, 0, 0), (Red, 9, 0), (Red, 9, 0)]),
    ]);
    assert_eq!(simulation.worker_turn(0).action, WorkerAction::Pause);
    assert_eq!(simulation.worker_turn(1).action, WorkerAction::Stop);
    let last = simulation.worker_turn(0);
    assert_eq!(last.moved_to, vec![0, 0]);
    assert_eq!(last.action, WorkerAction::Stop);
    assert_eq!(queues(&simulation.intersections[0]), [7, 7, 9, 9]);
}

#[test]
fn worker_turns_never_raise_the_total() {
    let mut simulation = Simulation::new(city());
    let total = |simulation: &Simulation| -> usize {
        simulation.intersections.iter().map(|at| queues(at).iter().sum::<usize>()).sum()
    };
    let mut left = total(&simulation);
    assert_eq!(left, 123);
    for round in 0..4 {
        for at in 0..9 {
            let moved = simulation.worker_turn(at).moved_to.len();
            assert_eq!(total(&simulation) + moved, left);
            left = total(&simulation);
        }
        assert!(round < 3 || !simulation.is_running());
    }
}

#[test]
fn sequential_pass_switches_every_intersection() {
    let mut simulation = Simulation::new(city());
    simulation.controller_pass(LightPolicy::Sequential);
    let expected = [
        [Green, Green, Red, Red],
        [Red, Red, Green, Green],
        [Green, Green, Red, Red],
        [Green, Green, Red, Red],
        [Red, Red, Green, Green],
        [Green, Green, Red, Red],
        [Red, Red, Green, Green],
        [Green, Green, Red, Red],
        [Green, Green, Red, Red],
    ];
    let before = city();
    for at in 0..9 {
        assert_eq!(lights(&simulation.intersections[at]), expected[at]);
        assert_eq!(queues(&simulation.intersections[at]), queues(&before[at]));
        assert_eq!(simulation.intersections[at].id, before[at].id);
    }
    assert!(simulation.is_running());
}

#[test]
fn sequential_pass_twice_restores_paired_lights() {
    let paired = vec![
        crossing(1, [(Red, 5, 4), (Red, 3, 0), (Green, 2, 2), (Green, 4, 0)]),
        crossing(2, [(Green, 0, 5), (Green, 0, 0), (Red, 3, 3), (Red, 2, 1)]),
    ];
    let mut simulation = Simulation::new(paired.clone());
    simulation.controller_pass(LightPolicy::Sequential);
    assert_ne!(simulation.intersections, paired);
    simulation.controller_pass(LightPolicy::Sequential);
    assert_eq!(simulation.intersections, paired);
}

#[test]
fn sequential_pass_ignores_the_flag_and_leaves_it() {
    let mut simulation = Simulation::new(city());
    simulation.stop();
    simulation.controller_pass(LightPolicy::Sequential);
    assert!(!simulation.is_running());
    assert_eq!(lights(&simulation.intersections[0]), [Green, Green, Red, Red]);
}

#[test]
fn efficient_pass_waits_for_the_green_side_to_drain() {
    let mut simulation = Simulation::new(city());
    simulation.controller_pass(LightPolicy::Efficient);
    assert_eq!(simulation.intersections, city());
    assert!(simulation.is_running());
}

#[test]
fn efficient_pass_sets_drained_intersections_by_demand() {
    let waiting = crossing(1, [(Green, 2, 0), (Green, 0, 0), (Red, 9, 0), (Red, 9, 0)]);
    let to_east_west = crossing(2, [(Green, 0, 0), (Green, 0, 0), (Red, 1, 0), (Red, 0, 0)]);
    let stays = crossing(3, [(Green, 0, 0), (Green, 0, 0), (Red, 0, 0), (Red, 0, 0)]);
    let to_north_south = crossing(4, [(Red, 3, 0), (Red, 1, 0), (Green, 0, 0), (Green, 0, 0)]);
    let unpaired = crossing(5, [(Red, 5, 4), (Green, 0, 0), (Green, 0, 2), (Red, 4, 0)]);
    let mut simulation =
        Simulation::new(vec![waiting, to_east_west, stays, to_north_south, unpaired]);
    simulation.controller_pass(LightPolicy::Efficient);
    let after = &simulation.intersections;
    assert_eq!(after[0], waiting);
    assert_eq!(lights(&after[1]), [Red, Red, Green, Green]);
    assert_eq!(after[2], stays);
    assert_eq!(lights(&after[3]), [Green, Green, Red, Red]);
    assert_eq!(lights(&after[4]), [Green, Green, Red, Red]);
    for at in 0..5 {
        assert_eq!(after[at].id, at + 1);
    }
    assert_eq!(queues(&after[1]), [0, 0, 1, 0]);
    assert_eq!(queues(&after[3]), [3, 1, 0, 0]);
    assert_eq!(queues(&after[4]), [5, 0, 0, 4]);
}

#[test]
fn efficient_pass_settles_and_then_changes_nothing() {
    let mut simulation = Simulation::new(vec![
        crossing(1, [(Red, 5, 4), (Green, 0, 0), (Green, 0, 2), (Red, 4, 0)]),
        crossing(2, [(Red, 0, 0), (Red, 2, 0), (Red, 3, 0), (Red, 0, 0)]),
    ]);
    simulation.controller_pass(LightPolicy::Efficient);
    let settled = simulation.intersections.clone();
    assert_eq!(lights(&settled[0]), [Green, Green, Red, Red]);
    assert_eq!(lights(&settled[1]), [Red, Red, Green, Green]);
    for _ in 0..3 {
        simulation.controller_pass(LightPolicy::Efficient);
        assert_eq!(simulation.intersections, settled);
    }
}

#[test]
fn policy_apply_acts_on_one_intersection() {
    let mut switched = crossing(1, [(Red, 5, 4), (Red, 3, 0), (Green, 2, 2), (Green, 4, 0)]);
    LightPolicy::Sequential.apply(&mut switched);
    assert_eq!(lights(&switched), [Green, Green, Red, Red]);

    let mut waiting = crossing(1, [(Red, 5, 4), (Red, 3, 0), (Green, 2, 2), (Green, 4, 0)]);
    LightPolicy::Efficient.apply(&mut waiting);
    assert_eq!(lights(&waiting), [Red, Red, Green, Green]);

    let mut drained = crossing(1, [(Red, 5, 4), (Red, 3, 0), (Green, 0, 2), (Green, 0, 0)]);
    LightPolicy::Efficient.apply(&mut drained);
    assert_eq!(lights(&drained), [Green, Green, Red, Red]);
    assert_eq!(queues(&drained), [5, 3, 0, 0]);
}

#[test]
fn passes_on_an_empty_network_change_nothing() {
    let mut simulation = Simulation::new(Vec::new());
    simulation.controller_pass(LightPolicy::Sequential);
    simulation.controller_pass(LightPolicy::Efficient);
    assert!(simulation.intersections.is_empty());
    assert!(simulation.is_running());
}

use wator::cell::{Cell, FishAttr};
use wator::driver::{Phase, Simulation};
use wator::rules::Config;
use wator::world::GridError;

#[test]
fn new_simulation_starts_running() {
    let mut rng = rand::thread_rng();
    let sim = Simulation::new(&mut rng, Config::standard(), 6, 4).unwrap();
    assert_eq!(sim.world.len(), 24);
    assert_eq!(sim.phase, Phase::Running);
    assert_eq!(sim.stats.chronon, 1);
    assert_eq!(sim.last_counts, None);
}

#[test]
fn new_simulation_rejects_empty_size() {
    let mut rng = rand::thread_rng();
    assert!(matches!(Simulation::new(&mut rng, Config::standard(), 0, 4), Err(GridError::EmptyDimension)));
}

#[test]
fn sharkless_simulation_ends_after_first_chronon() {
    let mut rng = rand::thread_rng();
    let mut sim = Simulation::new(&mut rng, Config::standard(), 3, 3).unwrap();
    sim.world = vec![Cell::Empty; 9];
    sim.world[4] = Cell::Fish(FishAttr { lived_chronons: 0, since_reproduced: 0 });
    let counts = sim.advance(&mut rng);
    assert_eq!(counts, (1, 0));
    assert_eq!(sim.phase, Phase::AllSharksDead);
    assert_eq!(sim.stats.chronon, 1);
    assert_eq!((sim.stats.min_fish, sim.stats.max_fish), (1, 1));
    assert_eq!((sim.stats.min_shark, sim.stats.max_shark), (0, 0));
}

#[test]
fn chronon_counts_up_from_second_step() {
    let mut rng = rand::thread_rng();
    let mut sim = Simulation::new(&mut rng, Config::standard(), 3, 3).unwrap();
    sim.world = vec![Cell::Empty; 9];
    sim.world[0] = Cell::Shark(wator::cell::SharkAttr { lived_chronons: 0, since_reproduced: 0, since_ate: 0 });
    let mut chronons = Vec::new();
    while sim.phase == Phase::Running {
        let (_, sharks) = sim.advance(&mut rng);
        chronons.push(sim.stats.chronon);
        assert_eq!(sim.last_counts.unwrap().1, sharks);
    }
    assert!(chronons.len() <= 9);
    let expected: Vec<usize> = (1..=chronons.len()).collect();
    assert_eq!(chronons, expected);
}

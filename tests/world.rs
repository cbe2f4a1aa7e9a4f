use wator::cell::{Cell, FishAttr, SharkAttr};
use wator::rules::Config;
use wator::stats::Stats;
use wator::world::{
    count_population, initialize, is_terminal, seed_cell, step, world_dimensions, GridError,
};

fn fish(lived: usize, since_reproduced: u8) -> Cell {
    Cell::Fish(FishAttr { lived_chronons: lived, since_reproduced })
}

fn shark(lived: usize, since_reproduced: u8, since_ate: u8) -> Cell {
    Cell::Shark(SharkAttr { lived_chronons: lived, since_reproduced, since_ate })
}

#[test]
fn counts_population() {
    let world = vec![fish(0, 0), Cell::Empty, shark(0, 0, 0), fish(1, 1), Cell::Empty];
    assert_eq!(count_population(&world), (2, 1));
    assert_eq!(count_population(&[]), (0, 0));
}

#[test]
fn terminal_iff_no_sharks() {
    assert!(is_terminal(0));
    assert!(!is_terminal(1));
}

#[test]
fn no_sharks_terminates_after_first_step() {
    let mut world = vec![Cell::Empty, fish(0, 0), Cell::Empty, fish(0, 0), Cell::Empty, Cell::Empty];
    let mut rng = rand::thread_rng();
    let (fish_count, sharks) = step(&mut rng, Config::standard(), &mut world, 3);
    assert_eq!(sharks, 0);
    assert_eq!(fish_count, 2);
    assert!(is_terminal(sharks));
}

#[test]
fn step_conserves_population() {
    let mut rng = rand::thread_rng();
    let mut world = initialize(&mut rng, 7, 5).unwrap();
    for _ in 0..20 {
        let (f, s) = step(&mut rng, Config::standard(), &mut world, 7);
        let empty = world.iter().filter(|c| c.is_empty()).count();
        assert_eq!(world.len(), 35);
        assert_eq!(f + s + empty, 35);
        assert_eq!(count_population(&world), (f, s));
    }
}

#[test]
fn lone_shark_starves_within_nine_chronons() {
    // A shark moved forward is animated again in the same pass, so it may
    // starve early, but never survives nine turns without eating.
    let mut world = vec![Cell::Empty; 9];
    world[0] = shark(0, 0, 0);
    let mut rng = rand::thread_rng();
    let mut last = (0, 1);
    for _ in 0..9 {
        last = step(&mut rng, Config::standard(), &mut world, 3);
    }
    assert_eq!(last, (0, 0));
    assert_eq!(world, vec![Cell::Empty; 9]);
}

#[test]
fn lone_fish_has_bred_after_eleven_chronons() {
    let mut world = vec![Cell::Empty; 9];
    world[4] = fish(0, 0);
    let mut rng = rand::thread_rng();
    let mut last = (1, 0);
    for _ in 0..11 {
        last = step(&mut rng, Config::standard(), &mut world, 3);
    }
    assert!(last.0 >= 2);
    assert_eq!(last.1, 0);
}

#[test]
fn seeds_by_draw() {
    assert_eq!(seed_cell(0), shark(0, 0, 0));
    assert_eq!(seed_cell(9), shark(0, 0, 0));
    assert_eq!(seed_cell(10), fish(0, 0));
    assert_eq!(seed_cell(49), fish(0, 0));
    assert_eq!(seed_cell(50), Cell::Empty);
    assert_eq!(seed_cell(99), Cell::Empty);
    assert_eq!(seed_cell(100), Cell::Empty);
}

#[test]
fn initialize_builds_newborns() {
    let mut rng = rand::thread_rng();
    let world = initialize(&mut rng, 4, 3).unwrap();
    assert_eq!(world.len(), 12);
    for c in &world {
        assert!(*c == Cell::Empty || *c == fish(0, 0) || *c == shark(0, 0, 0));
    }
}

#[test]
fn initialize_draws_vary() {
    let mut rng = rand::thread_rng();
    let world = initialize(&mut rng, 40, 40).unwrap();
    let (f, s) = count_population(&world);
    assert!(f > 0 && s > 0 && f + s < 1600);
}

#[test]
fn initialize_rejects_bad_sizes() {
    let mut rng = rand::thread_rng();
    assert_eq!(initialize(&mut rng, 0, 3), Err(GridError::EmptyDimension));
    assert_eq!(initialize(&mut rng, 3, 0), Err(GridError::EmptyDimension));
    assert_eq!(initialize(&mut rng, usize::MAX, 2), Err(GridError::TooLarge));
}

#[test]
fn stats_track_extremes() {
    let mut stats = Stats::new();
    assert_eq!(stats.chronon, 1);
    assert_eq!(stats.min_fish, usize::MAX);
    assert_eq!(stats.max_fish, 0);
    stats.record(10, 3);
    stats.record(7, 5);
    stats.record(12, 4);
    assert_eq!((stats.min_fish, stats.max_fish), (7, 12));
    assert_eq!((stats.min_shark, stats.max_shark), (3, 5));
    stats.next_chronon();
    assert_eq!(stats.chronon, 2);
}

#[test]
fn dimensions_from_terminal() {
    assert_eq!(world_dimensions(None), (80, 40));
    assert_eq!(world_dimensions(Some((161, 50))), (80, 48));
    assert_eq!(world_dimensions(Some((10, 1))), (5, 0));
}

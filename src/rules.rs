//! What one occupant does in one chronon: fish move to an empty neighbour and
//! breed; sharks hunt, move, breed and starve.
use vstd::prelude::*;
use rand::rngs::ThreadRng;
use rand::seq::IteratorRandom;
use crate::cell::{
    Cell, FishAttr, SharkAttr, newborn_fish, newborn_shark, FISH_BREED_INTERVAL,
    SHARK_BREED_INTERVAL, SHARK_STARVE_INTERVAL,
};
use crate::topology::{find_neighbours, is_rectangle, lists_neighbours, neighbor_indices};

verus! {

#[verifier::external_type_specification]
#[verifier::external_body]
pub struct ExThreadRng(ThreadRng);

/// Whether the grid wraps around at its edges unless configured otherwise.
pub const WRAP_WORLD: bool = true;

/// The tunable rules of the automaton.
#[derive(Clone, Copy, Debug, PartialEq, Eq, Structural)]
pub struct Config {
    /// A fish that has gone more chronons than this without breeding leaves
    /// a newborn behind when it next moves.
    pub fish_breed_interval: u8,
    /// The same for a shark.
    pub shark_breed_interval: u8,
    /// A shark that has gone more chronons than this without eating dies.
    pub shark_starve_interval: u8,
    /// Whether the grid wraps around at its edges.
    pub wrap: bool,
}

/// The classic settings: fish breed after 10 chronons, sharks after 14, and
/// sharks starve after 8, on a wrapping grid.
pub open spec fn standard_config() -> Config {
    Config {
        fish_breed_interval: FISH_BREED_INTERVAL,
        shark_breed_interval: SHARK_BREED_INTERVAL,
        shark_starve_interval: SHARK_STARVE_INTERVAL,
        wrap: WRAP_WORLD,
    }
}

impl Config {
    /// The classic settings.
    pub fn standard() -> (r: Config)
        ensures
            r == standard_config(),
    {
        Config {
            fish_breed_interval: FISH_BREED_INTERVAL,
            shark_breed_interval: SHARK_BREED_INTERVAL,
            shark_starve_interval: SHARK_STARVE_INTERVAL,
            wrap: WRAP_WORLD,
        }
    }
}

/// A fish one chronon older.
pub open spec fn aged_fish(a: FishAttr) -> FishAttr {
    FishAttr {
        lived_chronons: a.lived_chronons.saturating_add(1),
        since_reproduced: a.since_reproduced.saturating_add(1),
    }
}

/// A shark one chronon older and hungrier.
pub open spec fn aged_shark(a: SharkAttr) -> SharkAttr {
    SharkAttr {
        lived_chronons: a.lived_chronons.saturating_add(1),
        since_reproduced: a.since_reproduced.saturating_add(1),
        since_ate: a.since_ate.saturating_add(1),
    }
}

/// The grid after the fish at `i` takes its turn, moving to `dest` if any.
pub open spec fn fish_after(cfg: Config, s: Seq<Cell>, i: int, a: FishAttr, dest: Option<usize>) -> Seq<Cell> {
    let g = aged_fish(a);
    match dest {
        None => s.update(i, Cell::Fish(g)),
        Some(d) => if g.since_reproduced > cfg.fish_breed_interval {
            s.update(i, Cell::Fish(newborn_fish())).update(
                d as int,
                Cell::Fish(FishAttr { since_reproduced: 0, ..g }),
            )
        } else {
            s.update(i, Cell::Empty).update(d as int, Cell::Fish(g))
        },
    }
}

/// The grid after the shark at `i` takes its turn. If its hunger, one
/// chronon older, passes the starvation interval it dies, whatever is
/// around it; otherwise it eats at `prey` if any, else moves to `empty` if any.
pub open spec fn shark_after(
    cfg: Config,
    s: Seq<Cell>,
    i: int,
    a: SharkAttr,
    prey: Option<usize>,
    empty: Option<usize>,
) -> Seq<Cell> {
    let g = match prey {
        Some(_) => SharkAttr { since_ate: 0, ..aged_shark(a) },
        None => aged_shark(a),
    };
    let dest = match prey {
        Some(p) => Some(p),
        None => empty,
    };
    if aged_shark(a).since_ate > cfg.shark_starve_interval {
        s.update(i, Cell::Empty)
    } else {
        match dest {
            None => s.update(i, Cell::Shark(g)),
            Some(d) => if g.since_reproduced > cfg.shark_breed_interval {
                s.update(i, Cell::Shark(newborn_shark())).update(
                    d as int,
                    Cell::Shark(SharkAttr { since_reproduced: 0, ..g }),
                )
            } else {
                s.update(i, Cell::Empty).update(d as int, Cell::Shark(g))
            },
        }
    }
}

/// A cell that a fish may move to (`prey` false) or a shark may eat (`prey` true).
pub open spec fn sought(c: Cell, prey: bool) -> bool {
    if prey { c is Fish } else { c is Empty }
}

/// `d` is a possible outcome of looking around cell `i` for a sought cell:
/// nothing exactly when no neighbour is sought, else one sought neighbour.
pub open spec fn valid_choice(
    cfg: Config,
    s: Seq<Cell>,
    width: int,
    i: int,
    d: Option<usize>,
    prey: bool,
) -> bool {
    let nb = neighbor_indices(s.len() as int, width, i, cfg.wrap);
    match d {
        None => forall|k: int| 0 <= k < nb.len() ==> !sought(#[trigger] s[nb[k]], prey),
        Some(x) => exists|k: int| 0 <= k < nb.len() && nb[k] == x as int && sought(s[x as int], prey),
    }
}

/// A fish that moves once it is past its breeding interval leaves a newborn
/// fish where it was, and arrives with its breeding counter back at zero.
pub proof fn lemma_fish_breeds(cfg: Config, s: Seq<Cell>, i: int, a: FishAttr, d: usize)
    requires
        0 <= i < s.len(),
        0 <= d < s.len(),
        d != i,
        aged_fish(a).since_reproduced > cfg.fish_breed_interval,
    ensures
        fish_after(cfg, s, i, a, Some(d))[i] == Cell::Fish(newborn_fish()),
        fish_after(cfg, s, i, a, Some(d))[d as int] == Cell::Fish(
            FishAttr { lived_chronons: aged_fish(a).lived_chronons, since_reproduced: 0 },
        ),
{
}

/// A shark that moves, without starving, once it is past its breeding
/// interval leaves a newborn shark where it was, and arrives with its
/// breeding counter back at zero.
pub proof fn lemma_shark_breeds(
    cfg: Config,
    s: Seq<Cell>,
    i: int,
    a: SharkAttr,
    prey: Option<usize>,
    empty: Option<usize>,
    d: usize,
)
    requires
        0 <= i < s.len(),
        0 <= d < s.len(),
        d != i,
        prey == Some(d) || (prey is None && empty == Some(d)),
        aged_shark(a).since_ate <= cfg.shark_starve_interval,
        aged_shark(a).since_reproduced > cfg.shark_breed_interval,
    ensures
        shark_after(cfg, s, i, a, prey, empty)[i] == Cell::Shark(newborn_shark()),
        shark_after(cfg, s, i, a, prey, empty)[d as int] matches Cell::Shark(b) && b.since_reproduced == 0
            && b.lived_chronons == aged_shark(a).lived_chronons,
{
}

/// Relies on rand's `IteratorRandom::choose` over the items: `None` when there
/// are none, else one of them.
#[verifier::external_body]
fn choose_one(rng: &mut ThreadRng, items: &Vec<usize>) -> (r: Option<usize>)
    ensures
        r is None <==> items@.len() == 0,
        r matches Some(x) ==> items@.contains(x),
{
    items.iter().copied().choose(rng)
}

/// What `pick` returns from the neighbours of cell `i` is a valid choice there.
proof fn lemma_pick_is_choice(
    cfg: Config,
    s: Seq<Cell>,
    width: int,
    i: int,
    n: Seq<(usize, &Cell)>,
    d: Option<usize>,
    prey: bool,
)
    requires
        lists_neighbours(s, width, i, cfg.wrap, n),
        d is None <==> forall|k: int| 0 <= k < n.len() ==> !sought(*(#[trigger] n[k]).1, prey),
        d matches Some(x) ==> exists|k: int| 0 <= k < n.len() && n[k].0 == x && sought(*n[k].1, prey),
    ensures
        valid_choice(cfg, s, width, i, d, prey),
{
    let nb = neighbor_indices(s.len() as int, width, i, cfg.wrap);
    match d {
        None => {
            assert forall|k: int| 0 <= k < nb.len() implies !sought(#[trigger] s[nb[k]], prey) by {
                assert(n[k].0 as int == nb[k]);
            }
        },
        Some(x) => {
            let k = choose|k: int| 0 <= k < n.len() && n[k].0 == x && sought(*n[k].1, prey);
            assert(n[k].0 as int == nb[k]);
        },
    }
}

/// Picks at random one neighbour whose cell is sought.
fn pick(rng: &mut ThreadRng, n: &Vec<(usize, &Cell)>, prey: bool) -> (r: Option<usize>)
    ensures
        r is None <==> forall|k: int| 0 <= k < n@.len() ==> !sought(*(#[trigger] n@[k]).1, prey),
        r matches Some(x) ==> exists|k: int| 0 <= k < n@.len() && n@[k].0 == x && sought(*n@[k].1, prey),
{
    let mut candidates: Vec<usize> = Vec::new();
    let mut k: usize = 0;
    while k < n.len()
        invariant
            k <= n@.len(),
            forall|a: int| 0 <= a < candidates@.len() ==>
                exists|j: int| 0 <= j < k && n@[j].0 == #[trigger] candidates@[a] && sought(*n@[j].1, prey),
            forall|j: int| 0 <= j < k ==> (sought(*(#[trigger] n@[j]).1, prey) ==> candidates@.contains(n@[j].0)),
            candidates@.len() == 0 ==> forall|j: int| 0 <= j < k ==> !sought(*(#[trigger] n@[j]).1, prey),
        decreases n@.len() - k,
    {
        let c = n[k].1;
        let wanted = if prey { c.is_fish() } else { c.is_empty() };
        if wanted {
            let ghost before = candidates@;
            candidates.push(n[k].0);
            assert forall|j: int| 0 <= j <= k && sought(*(#[trigger] n@[j]).1, prey) implies
                candidates@.contains(n@[j].0) by {
                if j < k {
                    let a = choose|a: int| 0 <= a < before.len() && before[a] == n@[j].0;
                    assert(candidates@[a] == n@[j].0);
                } else {
                    assert(candidates@[candidates@.len() - 1] == n@[j].0);
                }
            }
        }
        k = k + 1;
    }
    let r = choose_one(rng, &candidates);
    proof {
        if let Some(x) = r {
            let a = choose|a: int| 0 <= a < candidates@.len() && candidates@[a] == x;
            assert(candidates@[a] == x);
        } else {
            assert forall|j: int| 0 <= j < n@.len() implies !sought(*(#[trigger] n@[j]).1, prey) by {
                if sought(*n@[j].1, prey) {
                    assert(candidates@.contains(n@[j].0));
                }
            }
        }
    }
    r
}

/// The fish at `i` ages by one chronon and moves to `dest` if one was found,
/// leaving a newborn behind when it is due to breed.
pub fn move_fish(cfg: Config, world: &mut Vec<Cell>, i: usize, attr: FishAttr, dest: Option<usize>)
    requires
        i < old(world)@.len(),
        dest matches Some(d) ==> d < old(world)@.len(),
    ensures
        final(world)@ == fish_after(cfg, old(world)@, i as int, attr, dest),
{
    let mut attr = attr;
    attr.lived_chronons = attr.lived_chronons.saturating_add(1);
    attr.since_reproduced = attr.since_reproduced.saturating_add(1);
    match dest {
        None => {
            world.set(i, Cell::Fish(attr));
        },
        Some(d) => {
            let baby = if attr.since_reproduced > cfg.fish_breed_interval {
                attr.since_reproduced = 0;
                Cell::Fish(FishAttr::newborn())
            } else {
                Cell::Empty
            };
            world.set(i, baby);
            world.set(d, Cell::Fish(attr));
        },
    }
}

/// The shark at `i` ages by one chronon. It dies if it has now gone too long
/// without eating, whatever is around it. Otherwise it eats at `prey` if one
/// was found, else moves to `empty` if one was found, and leaves a newborn
/// behind when it moves and is due to breed.
pub fn move_shark(
    cfg: Config,
    world: &mut Vec<Cell>,
    i: usize,
    attr: SharkAttr,
    prey: Option<usize>,
    empty: Option<usize>,
)
    requires
        i < old(world)@.len(),
        prey matches Some(d) ==> d < old(world)@.len(),
        empty matches Some(d) ==> d < old(world)@.len(),
    ensures
        final(world)@ == shark_after(cfg, old(world)@, i as int, attr, prey, empty),
{
    let mut attr = attr;
    attr.lived_chronons = attr.lived_chronons.saturating_add(1);
    attr.since_reproduced = attr.since_reproduced.saturating_add(1);
    attr.since_ate = attr.since_ate.saturating_add(1);
    if attr.since_ate > cfg.shark_starve_interval {
        world.set(i, Cell::Empty);
        return;
    }
    let dest = match prey {
        Some(p) => {
            attr.since_ate = 0;
            Some(p)
        },
        None => empty,
    };
    match dest {
        None => {
            world.set(i, Cell::Shark(attr));
        },
        Some(d) => {
            let baby = if attr.since_reproduced > cfg.shark_breed_interval {
                attr.since_reproduced = 0;
                Cell::Shark(SharkAttr::newborn())
            } else {
                Cell::Empty
            };
            world.set(i, baby);
            world.set(d, Cell::Shark(attr));
        },
    }
}

/// The fish at `i` takes its turn, moving to an empty neighbour chosen at random.
pub fn animate_fish(
    rng: &mut ThreadRng,
    cfg: Config,
    world: &mut Vec<Cell>,
    width: usize,
    i: usize,
    attr: FishAttr,
)
    requires
        is_rectangle(old(world)@.len() as int, width as int),
        i < old(world)@.len(),
    ensures
        final(world)@.len() == old(world)@.len(),
        exists|d: Option<usize>|
            valid_choice(cfg, old(world)@, width as int, i as int, d, false)
            && final(world)@ == #[trigger] fish_after(cfg, old(world)@, i as int, attr, d),
{
    let neighbours = find_neighbours(world.as_slice(), width, i, cfg.wrap);
    let dest = pick(rng, &neighbours, false);
    proof {
        lemma_pick_is_choice(cfg, world@, width as int, i as int, neighbours@, dest, false);
    }
    move_fish(cfg, world, i, attr, dest);
}

/// The shark at `i` takes its turn: it eats a neighbouring fish chosen at
/// random, or else moves to an empty neighbour chosen at random.
pub fn animate_shark(
    rng: &mut ThreadRng,
    cfg: Config,
    world: &mut Vec<Cell>,
    width: usize,
    i: usize,
    attr: SharkAttr,
)
    requires
        is_rectangle(old(world)@.len() as int, width as int),
        i < old(world)@.len(),
    ensures
        final(world)@.len() == old(world)@.len(),
        exists|p: Option<usize>, e: Option<usize>|
            valid_choice(cfg, old(world)@, width as int, i as int, p, true)
            && (p is None ==> valid_choice(cfg, old(world)@, width as int, i as int, e, false))
            && final(world)@ == #[trigger] shark_after(cfg, old(world)@, i as int, attr, p, e),
{
    let neighbours = find_neighbours(world.as_slice(), width, i, cfg.wrap);
    let prey = pick(rng, &neighbours, true);
    let empty = match prey {
        Some(_) => None,
        None => pick(rng, &neighbours, false),
    };
    proof {
        lemma_pick_is_choice(cfg, world@, width as int, i as int, neighbours@, prey, true);
        if prey is None {
            lemma_pick_is_choice(cfg, world@, width as int, i as int, neighbours@, empty, false);
        }
    }
    move_shark(cfg, world, i, attr, prey, empty);
}

} // verus!

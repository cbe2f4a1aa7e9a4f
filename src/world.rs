//! A whole chronon over the grid, population counts, and the initial grid.
use vstd::prelude::*;
use rand::distributions::Uniform;
use rand::rngs::ThreadRng;
use rand::Rng;
use crate::cell::{Cell, FishAttr, SharkAttr, newborn_fish, newborn_shark};
use crate::rules::{
    aged_fish, aged_shark, animate_fish, animate_shark, fish_after, lemma_fish_breeds,
    lemma_shark_breeds, shark_after, sought, valid_choice, Config,
};
use crate::topology::{is_rectangle, lemma_neighbours_inside, neighbor_indices};

verus! {

/// Number of fish in the grid.
pub open spec fn fish_count(s: Seq<Cell>) -> nat
    decreases s.len(),
{
    if s.len() == 0 { 0 } else { fish_count(s.drop_last()) + if s.last() is Fish { 1nat } else { 0 } }
}

/// Number of sharks in the grid.
pub open spec fn shark_count(s: Seq<Cell>) -> nat
    decreases s.len(),
{
    if s.len() == 0 { 0 } else { shark_count(s.drop_last()) + if s.last() is Shark { 1nat } else { 0 } }
}

/// Number of empty slots in the grid.
pub open spec fn empty_count(s: Seq<Cell>) -> nat
    decreases s.len(),
{
    if s.len() == 0 { 0 } else { empty_count(s.drop_last()) + if s.last() is Empty { 1nat } else { 0 } }
}

/// `after` is a possible grid once the occupant of slot `i` of `before` has
/// taken its turn (an empty slot does nothing).
pub open spec fn turn(cfg: Config, before: Seq<Cell>, width: int, i: int, after: Seq<Cell>) -> bool {
    &&& after.len() == before.len()
    &&& match before[i] {
        Cell::Empty => after == before,
        Cell::Fish(a) => exists|d: Option<usize>|
            valid_choice(cfg, before, width, i, d, false) && after == #[trigger] fish_after(cfg, before, i, a, d),
        Cell::Shark(a) => exists|p: Option<usize>, e: Option<usize>|
            valid_choice(cfg, before, width, i, p, true)
            && (p is None ==> valid_choice(cfg, before, width, i, e, false))
            && after == #[trigger] shark_after(cfg, before, i, a, p, e),
    }
}

/// A shark whose hunger passes the starvation interval this chronon leaves
/// its slot empty and touches nothing else, whether or not a fish or an
/// empty slot is beside it.
pub proof fn lemma_starving_shark_vacates(
    cfg: Config,
    before: Seq<Cell>,
    width: int,
    i: int,
    a: SharkAttr,
    after: Seq<Cell>,
)
    requires
        0 <= i < before.len(),
        before[i] == Cell::Shark(a),
        aged_shark(a).since_ate > cfg.shark_starve_interval,
        turn(cfg, before, width, i, after),
    ensures
        after == before.update(i, Cell::Empty),
{
    let (p, e) = choose|p: Option<usize>, e: Option<usize>|
        valid_choice(cfg, before, width, i, p, true)
        && (p is None ==> valid_choice(cfg, before, width, i, e, false))
        && after == #[trigger] shark_after(cfg, before, i, a, p, e);
}

/// A fish past its breeding interval that has an empty slot beside it moves
/// there with its breeding counter back at zero, and leaves a newborn fish
/// where it was; no other slot changes.
pub proof fn lemma_moving_fish_breeds(
    cfg: Config,
    before: Seq<Cell>,
    width: int,
    i: int,
    a: FishAttr,
    after: Seq<Cell>,
)
    requires
        is_rectangle(before.len() as int, width),
        0 <= i < before.len(),
        before[i] == Cell::Fish(a),
        aged_fish(a).since_reproduced > cfg.fish_breed_interval,
        !valid_choice(cfg, before, width, i, None, false),
        turn(cfg, before, width, i, after),
    ensures
        after[i] == Cell::Fish(newborn_fish()),
        exists|j: int| {
            &&& 0 <= j < before.len()
            &&& j != i
            &&& before[j] is Empty
            &&& #[trigger] after[j] == Cell::Fish(
                FishAttr { lived_chronons: aged_fish(a).lived_chronons, since_reproduced: 0 },
            )
            &&& forall|k: int| 0 <= k < before.len() && k != i && k != j ==> after[k] == before[k]
        },
{
    let d = choose|d: Option<usize>|
        valid_choice(cfg, before, width, i, d, false) && after == #[trigger] fish_after(cfg, before, i, a, d);
    let x = d->Some_0;
    let nb = neighbor_indices(before.len() as int, width, i, cfg.wrap);
    lemma_neighbours_inside(before.len() as int, width, i, cfg.wrap);
    let m = choose|m: int| 0 <= m < nb.len() && nb[m] == x as int && sought(before[x as int], false);
    assert(0 <= nb[m] < before.len());
    lemma_fish_breeds(cfg, before, i, a, x);
    assert(after[x as int] == Cell::Fish(
        FishAttr { lived_chronons: aged_fish(a).lived_chronons, since_reproduced: 0 },
    ));
}

/// A shark past its breeding interval that does not starve and has a fish
/// or an empty slot beside it moves there (to a fish if there is one) with
/// its breeding counter back at zero, and leaves a newborn shark where it
/// was; no other slot changes.
pub proof fn lemma_moving_shark_breeds(
    cfg: Config,
    before: Seq<Cell>,
    width: int,
    i: int,
    a: SharkAttr,
    after: Seq<Cell>,
)
    requires
        is_rectangle(before.len() as int, width),
        0 <= i < before.len(),
        before[i] == Cell::Shark(a),
        aged_shark(a).since_ate <= cfg.shark_starve_interval,
        aged_shark(a).since_reproduced > cfg.shark_breed_interval,
        !valid_choice(cfg, before, width, i, None, true) || !valid_choice(cfg, before, width, i, None, false),
        turn(cfg, before, width, i, after),
    ensures
        after[i] == Cell::Shark(newborn_shark()),
        exists|j: int| {
            &&& 0 <= j < before.len()
            &&& j != i
            &&& (if valid_choice(cfg, before, width, i, None, true) { before[j] is Empty } else { before[j] is Fish })
            &&& #[trigger] after[j] == Cell::Shark(SharkAttr {
                lived_chronons: aged_shark(a).lived_chronons,
                since_reproduced: 0,
                since_ate: if before[j] is Fish { 0 } else { aged_shark(a).since_ate },
            })
            &&& forall|k: int| 0 <= k < before.len() && k != i && k != j ==> after[k] == before[k]
        },
{
    let (p, e) = choose|p: Option<usize>, e: Option<usize>|
        valid_choice(cfg, before, width, i, p, true)
        && (p is None ==> valid_choice(cfg, before, width, i, e, false))
        && after == #[trigger] shark_after(cfg, before, i, a, p, e);
    let nb = neighbor_indices(before.len() as int, width, i, cfg.wrap);
    lemma_neighbours_inside(before.len() as int, width, i, cfg.wrap);
    let prey = p is Some;
    let x = if prey { p->Some_0 } else { e->Some_0 };
    let m = choose|m: int| 0 <= m < nb.len() && nb[m] == x as int && sought(before[x as int], prey);
    assert(0 <= nb[m] < before.len());
    assert(valid_choice(cfg, before, width, i, None, true) <==> !prey) by {
        if prey {
            assert(sought(before[nb[m]], true));
        }
    }
    lemma_shark_breeds(cfg, before, i, a, p, e, x);
    assert(after[x as int] == Cell::Shark(SharkAttr {
        lived_chronons: aged_shark(a).lived_chronons,
        since_reproduced: 0,
        since_ate: if before[x as int] is Fish { 0 } else { aged_shark(a).since_ate },
    }));
}

/// Sharks never appear where there were none: a chronon over a grid without
/// sharks leaves a grid without sharks.
pub proof fn lemma_no_shark_stays_extinct(cfg: Config, before: Seq<Cell>, width: int, after: Seq<Cell>)
    requires
        is_rectangle(before.len() as int, width),
        shark_count(before) == 0,
        chronon(cfg, before, width, after),
    ensures
        shark_count(after) == 0,
{
    let t = choose|t: Seq<Seq<Cell>>|
        is_trace(cfg, t, width) && t.len() == before.len() + 1 && t[0] == before && #[trigger] t.last() == after;
    lemma_no_shark(before);
    lemma_trace_keeps_no_shark(cfg, t, width, t.len() - 1);
    lemma_no_shark(after);
}

/// No turn changes the size of the grid.
proof fn lemma_trace_keeps_length(cfg: Config, t: Seq<Seq<Cell>>, width: int, k: int)
    requires
        is_trace(cfg, t, width),
        0 <= k < t.len(),
    ensures
        t[k].len() == t[0].len(),
    decreases k,
{
    if k > 0 {
        lemma_trace_keeps_length(cfg, t, width, k - 1);
        assert(turn(cfg, t[k - 1], width, k - 1, t[k]));
    }
}

/// A chronon conserves the number of slots: before and after it, fish,
/// sharks and empty slots add up to the size of the grid.
pub proof fn lemma_chronon_conserves_population(cfg: Config, before: Seq<Cell>, width: int, after: Seq<Cell>)
    requires
        chronon(cfg, before, width, after),
    ensures
        fish_count(before) + shark_count(before) + empty_count(before) == before.len(),
        fish_count(after) + shark_count(after) + empty_count(after) == before.len(),
{
    let t = choose|t: Seq<Seq<Cell>>|
        is_trace(cfg, t, width) && t.len() == before.len() + 1 && t[0] == before && #[trigger] t.last() == after;
    lemma_trace_keeps_length(cfg, t, width, t.len() - 1);
    lemma_population_partition(before);
    lemma_population_partition(after);
}

/// Along a chronon's turns, a grid without sharks stays without sharks.
proof fn lemma_trace_keeps_no_shark(cfg: Config, t: Seq<Seq<Cell>>, width: int, k: int)
    requires
        is_trace(cfg, t, width),
        0 <= k < t.len(),
        t[0].len() == t.len() - 1,
        is_rectangle(t[0].len() as int, width),
        forall|j: int| 0 <= j < t[0].len() ==> !(#[trigger] t[0][j] is Shark),
    ensures
        t[k].len() == t[0].len(),
        forall|j: int| 0 <= j < t[k].len() ==> !(#[trigger] t[k][j] is Shark),
    decreases k,
{
    if k > 0 {
        lemma_trace_keeps_no_shark(cfg, t, width, k - 1);
        let s = t[k - 1];
        let i = k - 1;
        assert(turn(cfg, s, width, i, t[k]));
        assert(!(s[i] is Shark));
        if let Cell::Fish(a) = s[i] {
            let d = choose|d: Option<usize>|
                valid_choice(cfg, s, width, i, d, false) && t[k] == #[trigger] fish_after(cfg, s, i, a, d);
            if let Some(x) = d {
                lemma_neighbours_inside(s.len() as int, width, i, cfg.wrap);
                let nb = neighbor_indices(s.len() as int, width, i, cfg.wrap);
                let m = choose|m: int| 0 <= m < nb.len() && nb[m] == x as int && sought(s[x as int], false);
                assert(0 <= nb[m] < s.len());
            }
        }
    }
}

/// No shark is counted exactly when no slot holds one.
pub proof fn lemma_no_shark(s: Seq<Cell>)
    ensures
        shark_count(s) == 0 <==> forall|j: int| 0 <= j < s.len() ==> !(#[trigger] s[j] is Shark),
    decreases s.len(),
{
    if s.len() > 0 {
        lemma_no_shark(s.drop_last());
        if shark_count(s) == 0 {
            assert forall|j: int| 0 <= j < s.len() implies !(#[trigger] s[j] is Shark) by {
                if j < s.len() - 1 {
                    assert(s[j] == s.drop_last()[j]);
                }
            }
        } else if forall|j: int| 0 <= j < s.len() ==> !(#[trigger] s[j] is Shark) {
            assert forall|j: int| 0 <= j < s.drop_last().len() implies !(#[trigger] s.drop_last()[j] is Shark) by {
                assert(s[j] == s.drop_last()[j]);
            }
        }
    }
}

/// `t` records a chronon: the grid after the turn of each slot in index
/// order, each turn seeing the grid that the turns before it left.
pub open spec fn is_trace(cfg: Config, t: Seq<Seq<Cell>>, width: int) -> bool {
    &&& t.len() >= 1
    &&& forall|k: int| 0 <= k < t.len() - 1 ==> turn(cfg, #[trigger] t[k], width, k, t[k + 1])
}

/// `after` is a possible grid one chronon after `before`.
pub open spec fn chronon(cfg: Config, before: Seq<Cell>, width: int, after: Seq<Cell>) -> bool {
    exists|t: Seq<Seq<Cell>>|
        is_trace(cfg, t, width) && t.len() == before.len() + 1 && t[0] == before && #[trigger] t.last() == after
}

/// The slot that a draw from `0..100` seeds: a shark below 10, a fish
/// below 50, else empty.
pub open spec fn seeded_cell(p: u32) -> Cell {
    if p < 10 {
        Cell::Shark(newborn_shark())
    } else if p < 50 {
        Cell::Fish(newborn_fish())
    } else {
        Cell::Empty
    }
}

/// A slot that some draw from `0..100` seeds.
pub open spec fn is_seed(c: Cell) -> bool {
    exists|p: u32| p < 100 && c == #[trigger] seeded_cell(p)
}

/// Why a grid cannot be built.
#[derive(Clone, Copy, Debug, PartialEq, Eq, Structural)]
pub enum GridError {
    /// The width or the height is zero.
    EmptyDimension,
    /// `width * height` does not fit in `usize`.
    TooLarge,
}

/// Advances the whole grid by one chronon: every occupied slot, in index
/// order, takes its turn on the grid as the turns before it left it.
pub fn animate(rng: &mut ThreadRng, cfg: Config, world: &mut Vec<Cell>, width: usize)
    requires
        is_rectangle(old(world)@.len() as int, width as int),
    ensures
        final(world)@.len() == old(world)@.len(),
        chronon(cfg, old(world)@, width as int, final(world)@),
{
    let ghost start = world@;
    let ghost mut t: Seq<Seq<Cell>> = seq![world@];
    let len = world.len();
    let mut i: usize = 0;
    while i < len
        invariant
            world@.len() == len,
            len == start.len(),
            i <= len,
            is_rectangle(len as int, width as int),
            is_trace(cfg, t, width as int),
            t.len() == i + 1,
            t[0] == start,
            t.last() == world@,
        decreases len - i,
    {
        let ghost before = world@;
        match world[i] {
            Cell::Fish(attr) => animate_fish(rng, cfg, world, width, i, attr),
            Cell::Shark(attr) => animate_shark(rng, cfg, world, width, i, attr),
            Cell::Empty => {},
        }
        proof {
            assert(turn(cfg, before, width as int, i as int, world@));
            let t0 = t;
            t = t.push(world@);
            assert forall|k: int| 0 <= k < t.len() - 1 implies turn(cfg, #[trigger] t[k], width as int, k, t[k + 1]) by {
                if k < t0.len() - 1 {
                    assert(t[k] == t0[k] && t[k + 1] == t0[k + 1]);
                } else {
                    assert(t[k] == before);
                }
            }
        }
        i = i + 1;
    }
    assert(t.len() == start.len() + 1 && t[0] == start && t.last() == world@);
}

/// Counts the fish and the sharks in the grid.
pub fn count_population(world: &[Cell]) -> (r: (usize, usize))
    ensures
        r.0 == fish_count(world@),
        r.1 == shark_count(world@),
{
    let mut fish: usize = 0;
    let mut sharks: usize = 0;
    let mut k: usize = 0;
    while k < world.len()
        invariant
            k <= world@.len(),
            fish == fish_count(world@.take(k as int)),
            sharks == shark_count(world@.take(k as int)),
            fish + sharks <= k,
        decreases world@.len() - k,
    {
        proof {
            assert(world@.take(k + 1).drop_last() == world@.take(k as int));
            lemma_population_partition(world@.take(k as int));
        }
        match world[k] {
            Cell::Fish(_) => fish = fish + 1,
            Cell::Shark(_) => sharks = sharks + 1,
            Cell::Empty => {},
        }
        k = k + 1;
    }
    assert(world@.take(world@.len() as int) == world@);
    (fish, sharks)
}

/// Every slot holds exactly one of a fish, a shark or nothing, so the three
/// counts add up to the size of the grid.
pub proof fn lemma_population_partition(s: Seq<Cell>)
    ensures
        fish_count(s) + shark_count(s) + empty_count(s) == s.len(),
    decreases s.len(),
{
    if s.len() > 0 {
        lemma_population_partition(s.drop_last());
    }
}

/// Advances the grid by one chronon and returns the numbers of fish and of
/// sharks after it.
pub fn step(rng: &mut ThreadRng, cfg: Config, world: &mut Vec<Cell>, width: usize) -> (r: (usize, usize))
    requires
        is_rectangle(old(world)@.len() as int, width as int),
    ensures
        final(world)@.len() == old(world)@.len(),
        chronon(cfg, old(world)@, width as int, final(world)@),
        r.0 == fish_count(final(world)@),
        r.1 == shark_count(final(world)@),
        r.0 + r.1 + empty_count(final(world)@) == old(world)@.len(),
{
    animate(rng, cfg, world, width);
    proof {
        lemma_population_partition(world@);
    }
    count_population(world.as_slice())
}

/// The simulation is over once no shark is left.
pub fn is_terminal(shark_count: usize) -> (r: bool)
    ensures
        r == (shark_count == 0),
{
    shark_count == 0
}

/// Relies on rand's `Uniform::new(low, high)` sampled with `Rng::sample`: a
/// number at least `low` and below `high` (it panics unless `low < high`).
#[verifier::external_body]
fn draw_in(rng: &mut ThreadRng, low: u32, high: u32) -> (r: u32)
    requires
        low < high,
    ensures
        low <= r < high,
{
    rng.sample(Uniform::new(low, high))
}

/// The slot seeded by a draw from `0..100`.
pub fn seed_cell(p: u32) -> (r: Cell)
    ensures
        r == seeded_cell(p),
{
    if p < 10 {
        Cell::Shark(SharkAttr::newborn())
    } else if p < 50 {
        Cell::Fish(FishAttr::newborn())
    } else {
        Cell::Empty
    }
}

/// A grid of `width * height` slots, each seeded independently by a random
/// draw from `0..100`: one in ten a shark, four in ten a fish, the rest empty.
pub fn initialize(rng: &mut ThreadRng, width: usize, height: usize) -> (r: Result<Vec<Cell>, GridError>)
    ensures
        (width == 0 || height == 0) <==> r == Err::<Vec<Cell>, GridError>(GridError::EmptyDimension),
        (width > 0 && height > 0 && width * height > usize::MAX) <==> r == Err::<Vec<Cell>, GridError>(GridError::TooLarge),
        r matches Ok(v) ==> {
            &&& v@.len() == width * height
            &&& is_rectangle(v@.len() as int, width as int)
            &&& forall|k: int| 0 <= k < v@.len() ==> is_seed(#[trigger] v@[k])
        },
{
    if width == 0 || height == 0 {
        return Err(GridError::EmptyDimension);
    }
    let len = match width.checked_mul(height) {
        Some(n) => n,
        None => return Err(GridError::TooLarge),
    };
    let mut world: Vec<Cell> = Vec::with_capacity(len);
    let mut k: usize = 0;
    while k < len
        invariant
            k <= len,
            world@.len() == k,
            forall|j: int| 0 <= j < k ==> is_seed(#[trigger] world@[j]),
        decreases len - k,
    {
        let p = draw_in(rng, 0, 100);
        world.push(seed_cell(p));
        assert(world@[k as int] == seeded_cell(p));
        k = k + 1;
    }
    assert(len as int % width as int == 0) by {
        vstd::arithmetic::div_mod::lemma_mod_multiples_basic(height as int, width as int);
        assert(len as int == height as int * width as int) by (nonlinear_arith)
            requires len as int == width as int * height as int;
    }
    Ok(world)
}

/// The grid size for a terminal of `columns` by `rows` characters, if known:
/// two columns per slot and two rows kept for the status line; 80 by 40
/// otherwise. A terminal under two rows gives no rows.
pub fn world_dimensions(terminal: Option<(u16, u16)>) -> (r: (usize, usize))
    ensures
        terminal is None ==> r == (80usize, 40usize),
        terminal matches Some((w, h)) ==> r.0 == w / 2 && r.1 == (if h >= 2 { h - 2 } else { 0 }),
{
    match terminal {
        Some((w, h)) => ((w / 2) as usize, h.saturating_sub(2) as usize),
        None => (80, 40),
    }
}

} // verus!

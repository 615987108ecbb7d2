use vstd::prelude::*;

verus! {

/// A cell of the unbounded Game of Life grid, as `(x, y)`.
pub type Cell = (i64, i64);

/// A Game of Life board: the set of live cells and the generation count.
///
/// `cells` lists each live cell once, in no particular order.
#[derive(Debug, Clone)]
pub struct GameOfLife {
    pub cells: Vec<Cell>,
    pub generation: u64,
}

/// Whether `cell` occurs in `cells`.
fn holds(cells: &Vec<Cell>, cell: Cell) -> (r: bool)
    ensures
        r == cells@.contains(cell),
{
    let mut i: usize = 0;
    while i < cells.len()
        invariant
            0 <= i <= cells.len(),
            forall|j: int| 0 <= j < i ==> cells@[j] != cell,
        decreases cells.len() - i,
    {
        if cells[i].0 == cell.0 && cells[i].1 == cell.1 {
            return true;
        }
        i += 1;
    }
    false
}

/// Whether `(x, y)` is a live cell of `live`; positions outside the `i64`
/// grid are never alive.
pub open spec fn alive_at(live: Set<Cell>, x: int, y: int) -> nat {
    if i64::MIN <= x <= i64::MAX && i64::MIN <= y <= i64::MAX && live.contains((x as i64, y as i64)) {
        1
    } else {
        0
    }
}

/// The number of live cells among the eight around `c`.
pub open spec fn neighbours(live: Set<Cell>, c: Cell) -> nat {
    let (x, y) = (c.0 as int, c.1 as int);
    alive_at(live, x - 1, y - 1) + alive_at(live, x - 1, y) + alive_at(live, x - 1, y + 1)
        + alive_at(live, x, y - 1) + alive_at(live, x, y + 1) + alive_at(live, x + 1, y - 1)
        + alive_at(live, x + 1, y) + alive_at(live, x + 1, y + 1)
}

/// Conway's rule: a cell is alive next generation when it has three live
/// neighbours, or two and is alive now.
pub open spec fn lives_on(live: Set<Cell>, c: Cell) -> bool {
    neighbours(live, c) == 3 || (live.contains(c) && neighbours(live, c) == 2)
}

/// The live cells of the next generation.
pub open spec fn next_generation(live: Set<Cell>) -> Set<Cell> {
    Set::new(|c: Cell| lives_on(live, c))
}

/// Whether `a` and `b` are the same cell or neighbours.
pub open spec fn adjacent(a: Cell, b: Cell) -> bool {
    -1 <= a.0 - b.0 <= 1 && -1 <= a.1 - b.1 <= 1
}

/// 1 when `(x, y)` is a live cell of `cells`, else 0.
fn alive_count(cells: &Vec<Cell>, x: i128, y: i128) -> (r: u8)
    ensures
        r == alive_at(cells@.to_set(), x as int, y as int),
{
    if x < i64::MIN as i128 || x > i64::MAX as i128 || y < i64::MIN as i128 || y > i64::MAX as i128 {
        return 0;
    }
    if holds(cells, (x as i64, y as i64)) {
        1
    } else {
        0
    }
}

/// The number of live neighbours of `c`.
fn count_neighbours(cells: &Vec<Cell>, c: Cell) -> (r: u8)
    ensures
        r == neighbours(cells@.to_set(), c),
{
    let x = c.0 as i128;
    let y = c.1 as i128;
    alive_count(cells, x - 1, y - 1) + alive_count(cells, x - 1, y) + alive_count(cells, x - 1, y + 1)
        + alive_count(cells, x, y - 1) + alive_count(cells, x, y + 1) + alive_count(cells, x + 1, y - 1)
        + alive_count(cells, x + 1, y) + alive_count(cells, x + 1, y + 1)
}

/// A cell that lives on is alive or next to a live cell.
proof fn lemma_lives_on_near_live(live: Set<Cell>, c: Cell)
    requires
        lives_on(live, c),
    ensures
        exists|l: Cell| #[trigger] live.contains(l) && adjacent(c, l),
{
    let (x, y) = (c.0 as int, c.1 as int);
    if alive_at(live, x - 1, y - 1) == 1 {
        assert(live.contains(((x - 1) as i64, (y - 1) as i64)) && adjacent(c, ((x - 1) as i64, (y - 1) as i64)));
    } else if alive_at(live, x - 1, y) == 1 {
        assert(live.contains(((x - 1) as i64, y as i64)) && adjacent(c, ((x - 1) as i64, y as i64)));
    } else if alive_at(live, x - 1, y + 1) == 1 {
        assert(live.contains(((x - 1) as i64, (y + 1) as i64)) && adjacent(c, ((x - 1) as i64, (y + 1) as i64)));
    } else if alive_at(live, x, y - 1) == 1 {
        assert(live.contains((x as i64, (y - 1) as i64)) && adjacent(c, (x as i64, (y - 1) as i64)));
    } else if alive_at(live, x, y + 1) == 1 {
        assert(live.contains((x as i64, (y + 1) as i64)) && adjacent(c, (x as i64, (y + 1) as i64)));
    } else if alive_at(live, x + 1, y - 1) == 1 {
        assert(live.contains(((x + 1) as i64, (y - 1) as i64)) && adjacent(c, ((x + 1) as i64, (y - 1) as i64)));
    } else if alive_at(live, x + 1, y) == 1 {
        assert(live.contains(((x + 1) as i64, y as i64)) && adjacent(c, ((x + 1) as i64, y as i64)));
    } else {
        assert(alive_at(live, x + 1, y + 1) == 1);
        assert(live.contains(((x + 1) as i64, (y + 1) as i64)) && adjacent(c, ((x + 1) as i64, (y + 1) as i64)));
    }
}

impl GameOfLife {
    /// The live cells as a set.
    pub open spec fn live(&self) -> Set<Cell> {
        self.cells@.to_set()
    }

    /// Each live cell is listed once.
    pub open spec fn wf(&self) -> bool {
        self.cells@.no_duplicates()
    }

    /// Brings `cells` to life; cells already alive stay alive.
    pub fn spawn(&mut self, cells: Vec<Cell>)
        ensures
            old(self).wf() ==> final(self).wf(),
            final(self).live() == old(self).live() + cells@.to_set(),
            final(self).generation == old(self).generation,
    {
        let ghost start = self.live();
        let mut i: usize = 0;
        while i < cells.len()
            invariant
                0 <= i <= cells.len(),
                old(self).wf() ==> self.wf(),
                self.live() == start + cells@.take(i as int).to_set(),
                self.generation == old(self).generation,
            decreases cells.len() - i,
        {
            let cell = cells[i];
            proof {
                assert(cells@.take(i + 1) =~= cells@.take(i as int).push(cell));
                cells@.take(i as int).lemma_push_to_set_commute(cell);
            }
            if !holds(&self.cells, cell) {
                let ghost before = self.cells@;
                self.cells.push(cell);
                proof {
                    before.lemma_push_to_set_commute(cell);
                }
                assert(self.live() =~= start + cells@.take(i + 1).to_set());
            } else {
                assert(self.live() =~= start + cells@.take(i + 1).to_set());
            }
            i += 1;
        }
        assert(cells@.take(cells.len() as int) =~= cells@);
    }

    /// Advances the board by one generation under Conway's rule; the
    /// generation count is left to the caller. Positions beyond the `i64`
    /// grid count as dead.
    pub fn process_tick(&mut self)
        ensures
            final(self).wf(),
            final(self).live() == next_generation(old(self).live()),
            final(self).generation == old(self).generation,
    {
        let ghost live = self.live();
        let mut next: Vec<Cell> = Vec::new();
        let mut i: usize = 0;
        while i < self.cells.len()
            invariant
                0 <= i <= self.cells.len(),
                live == self.cells@.to_set(),
                next@.no_duplicates(),
                forall|c: Cell| #[trigger] next@.contains(c) ==> lives_on(live, c),
                forall|c: Cell, j: int|
                    0 <= j < i && #[trigger] adjacent(c, self.cells@[j]) && lives_on(live, c) ==> next@.contains(c),
            decreases self.cells.len() - i,
        {
            let cell = self.cells[i];
            assert(live.contains(cell));
            let mut dx: i64 = -1;
            while dx <= 1
                invariant
                    -1 <= dx <= 2,
                    0 <= i < self.cells.len(),
                    cell == self.cells@[i as int],
                    live == self.cells@.to_set(),
                        next@.no_duplicates(),
                    forall|c: Cell| #[trigger] next@.contains(c) ==> lives_on(live, c),
                    forall|c: Cell, j: int|
                        0 <= j < i && #[trigger] adjacent(c, self.cells@[j]) && lives_on(live, c) ==> next@.contains(c),
                    forall|c: Cell|
                        adjacent(c, cell) && c.0 - cell.0 < dx && #[trigger] lives_on(live, c) ==> next@.contains(c),
                decreases 2 - dx,
            {
                let mut dy: i64 = -1;
                while dy <= 1
                    invariant
                        -1 <= dx <= 1,
                        -1 <= dy <= 2,
                        0 <= i < self.cells.len(),
                        cell == self.cells@[i as int],
                        live == self.cells@.to_set(),
                                    next@.no_duplicates(),
                        forall|c: Cell| #[trigger] next@.contains(c) ==> lives_on(live, c),
                        forall|c: Cell, j: int|
                            0 <= j < i && #[trigger] adjacent(c, self.cells@[j]) && lives_on(live, c) ==> next@.contains(c),
                        forall|c: Cell|
                            adjacent(c, cell) && c.0 - cell.0 < dx && #[trigger] lives_on(live, c) ==> next@.contains(c),
                        forall|c: Cell|
                            adjacent(c, cell) && c.0 - cell.0 == dx && c.1 - cell.1 < dy && #[trigger] lives_on(live, c)
                                ==> next@.contains(c),
                    decreases 2 - dy,
                {
                    let cx = cell.0 as i128 + dx as i128;
                    let cy = cell.1 as i128 + dy as i128;
                    let on_grid = i64::MIN as i128 <= cx && cx <= i64::MAX as i128
                        && i64::MIN as i128 <= cy && cy <= i64::MAX as i128;
                    if on_grid {
                        let candidate: Cell = (cx as i64, cy as i64);
                        let n = count_neighbours(&self.cells, candidate);
                        let alive = holds(&self.cells, candidate);
                        assert(alive == live.contains(candidate));
                        let ghost before = next@;
                        let rule = n == 3 || (n == 2 && alive);
                        assert(rule == lives_on(live, candidate));
                        if rule && !holds(&next, candidate) {
                            next.push(candidate);
                            assert forall|c: Cell| #[trigger] next@.contains(c) <==> (before.contains(c) || c == candidate) by {
                                if next@.contains(c) {
                                    let k = choose|k: int| 0 <= k < next@.len() && next@[k] == c;
                                    if k < before.len() {
                                        assert(before[k] == c);
                                    }
                                }
                                if before.contains(c) {
                                    let k = choose|k: int| 0 <= k < before.len() && before[k] == c;
                                    assert(next@[k] == c);
                                }
                                if c == candidate {
                                    assert(next@[before.len() as int] == c);
                                }
                            }
                        }
                        assert(lives_on(live, candidate) ==> next@.contains(candidate));
                    }
                    dy += 1;
                }
                dx += 1;
            }
            i += 1;
        }
        proof {
            assert forall|c: Cell| #[trigger] next@.contains(c) <==> lives_on(live, c) by {
                if lives_on(live, c) {
                    lemma_lives_on_near_live(live, c);
                    let l = choose|l: Cell| #[trigger] live.contains(l) && adjacent(c, l);
                    let j = choose|j: int| 0 <= j < self.cells@.len() && self.cells@[j] == l;
                    assert(adjacent(c, self.cells@[j]));
                }
            }
            assert(next@.to_set() =~= next_generation(live));
        }
        self.cells = next;
    }

    /// Kills `cells`; cells that were not alive are ignored.
    pub fn remove(&mut self, cells: Vec<Cell>)
        ensures
            final(self).wf(),
            final(self).live() == old(self).live() - cells@.to_set(),
            final(self).generation == old(self).generation,
    {
        let mut kept: Vec<Cell> = Vec::new();
        let mut i: usize = 0;
        while i < self.cells.len()
            invariant
                0 <= i <= self.cells.len(),
                self.generation == old(self).generation,
                self.cells@ == old(self).cells@,
                kept@.no_duplicates(),
                forall|c: Cell| kept@.contains(c) <==> (self.cells@.take(i as int).contains(c)
                    && !cells@.contains(c)),
            decreases self.cells.len() - i,
        {
            let cell = self.cells[i];
            proof {
                assert(self.cells@.take(i + 1) =~= self.cells@.take(i as int).push(cell));
            }
            let ghost kept_before = kept@;
            let ghost seen = self.cells@.take(i + 1);
            if !holds(&cells, cell) && !holds(&kept, cell) {
                kept.push(cell);
                assert(kept@ == kept_before.push(cell));
            }
            assert forall|c: Cell| kept@.contains(c) <==> (seen.contains(c) && !cells@.contains(c)) by {
                assert(seen.contains(c) <==> (self.cells@.take(i as int).contains(c) || c == cell)) by {
                    if seen.contains(c) {
                        let j = choose|j: int| 0 <= j < seen.len() && seen[j] == c;
                        if j < i {
                            assert(self.cells@.take(i as int)[j] == c);
                        }
                    }
                    if self.cells@.take(i as int).contains(c) {
                        let j = choose|j: int| 0 <= j < i && self.cells@.take(i as int)[j] == c;
                        assert(seen[j] == c);
                    }
                    if c == cell {
                        assert(seen[i as int] == c);
                    }
                }
                if kept@ != kept_before {
                    assert(kept@.contains(c) <==> (kept_before.contains(c) || c == cell)) by {
                        if kept@.contains(c) {
                            let j = choose|j: int| 0 <= j < kept@.len() && kept@[j] == c;
                            if j < kept_before.len() {
                                assert(kept_before[j] == c);
                            }
                        }
                        if kept_before.contains(c) {
                            let j = choose|j: int| 0 <= j < kept_before.len() && kept_before[j] == c;
                            assert(kept@[j] == c);
                        }
                        if c == cell {
                            assert(kept@[kept_before.len() as int] == c);
                        }
                    }
                }
            }
            i += 1;
        }
        assert(self.cells@.take(self.cells.len() as int) =~= self.cells@);
        self.cells = kept;
        assert(self.live() =~= old(self).live() - cells@.to_set());
    }
}

impl GameOfLife {
    /// The live cells of the default board: an R-pentomino near the origin.
    pub open spec fn default_cells() -> Set<Cell> {
        set![(1i64, -3i64), (2i64, -2i64), (2i64, -3i64), (2i64, -4i64), (3i64, -4i64)]
    }
}

impl Default for GameOfLife {
    /// An R-pentomino near the origin, at generation zero.
    fn default() -> (r: Self)
        ensures
            r.wf(),
            r.live() == GameOfLife::default_cells(),
            r.generation == 0,
    {
        let cells: Vec<Cell> = vec![(1, -3), (2, -2), (2, -3), (2, -4), (3, -4)];
        let r = GameOfLife { cells, generation: 0 };
        assert(r.live() =~= set![(1i64, -3i64), (2i64, -2i64), (2i64, -3i64), (2i64, -4i64), (3i64, -4i64)]) by {
            assert(r.cells@ =~= seq![(1i64, -3i64), (2i64, -2i64), (2i64, -3i64), (2i64, -4i64), (3i64, -4i64)]);
        }
        r
    }
}

} // verus!

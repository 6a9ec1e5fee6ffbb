use vstd::prelude::*;

use vstd::arithmetic::div_mod::lemma_fundamental_div_mod;

use crate::tile::Tile;

verus! {

/// An sRGB color with alpha, one byte per channel.
#[derive(Clone, Copy, Debug, PartialEq, Eq)]
pub struct LdtkColor {
    pub r: u8,
    pub g: u8,
    pub b: u8,
    pub a: u8,
}

/// One value an int grid layer may hold, as its layer definition describes it.
#[derive(Debug)]
pub struct LdtkGridValue {
    pub color: LdtkColor,
    pub identifier: Option<String>,
    pub tile: Option<Tile>,
    pub value: i64,
}

impl LdtkGridValue {
    /// A grid value with these parts.
    pub fn new(color: LdtkColor, identifier: Option<String>, tile: Option<Tile>, value: i64) -> (r: Self)
        ensures
            r == (LdtkGridValue { color, identifier, tile, value }),
    {
        LdtkGridValue { color, identifier, tile, value }
    }

    /// A copy of this grid value.
    pub fn copy(&self) -> (r: Self)
        ensures
            r == *self,
    {
        let identifier = match &self.identifier {
            Some(s) => Some(s.clone()),
            None => None,
        };
        LdtkGridValue { color: self.color, identifier, tile: self.tile, value: self.value }
    }
}

/// What an int grid reads from its layer definition.
#[derive(Debug)]
pub struct LayerGridDefinition {
    /// The width and height of a cell, in pixels.
    grid_cell_size: i64,
    /// The values an int grid cell may hold, each with its own `value`.
    int_grid_values: Vec<LdtkGridValue>,
}

/// No two grid values share a number.
pub open spec fn values_distinct(defs: Seq<LdtkGridValue>) -> bool {
    forall|a: int, b: int| 0 <= a < b < defs.len() ==> #[trigger] defs[a].value != #[trigger] defs[b].value
}

impl LayerGridDefinition {
    /// Each grid value is described once.
    #[verifier::type_invariant]
    closed spec fn values_unique(&self) -> bool {
        values_distinct(self.int_grid_values@)
    }

    /// The cell size, in pixels.
    pub closed spec fn cell_size(&self) -> i64 {
        self.grid_cell_size
    }

    /// The descriptions of the values a cell may hold.
    pub closed spec fn defs(&self) -> Seq<LdtkGridValue> {
        self.int_grid_values@
    }

    /// A layer definition with these parts, each value described once.
    pub fn new(grid_cell_size: i64, int_grid_values: Vec<LdtkGridValue>) -> (r: Self)
        requires
            values_distinct(int_grid_values@),
        ensures
            r.cell_size() == grid_cell_size,
            r.defs() == int_grid_values@,
            values_distinct(r.defs()),
    {
        LayerGridDefinition { grid_cell_size, int_grid_values }
    }

    /// The descriptions of the values a cell may hold.
    pub fn int_grid_values(&self) -> (r: &[LdtkGridValue])
        ensures
            r@ == self.defs(),
    {
        self.int_grid_values.as_slice()
    }
}

/// Why the values of an int grid could not be read.
#[derive(Debug, PartialEq, Eq)]
pub enum GridValueError {
    /// A cell holds a value that its layer definition does not describe.
    BadIntGridValue(i64),
}

/// The grid coordinates of the cell at `index` of the flat int grid, for a
/// grid of the given height (`size_y`): the column is the remainder and the
/// row the quotient, with Rust's division that rounds toward zero.
pub open spec fn cell_key(index: int, size_y: int) -> (int, int) {
    if size_y > 0 {
        (index % size_y, index / size_y)
    } else {
        (index % (-size_y), -(index / (-size_y)))
    }
}

/// The first description among `defs` of the value `v`.
pub open spec fn def_for(defs: Seq<LdtkGridValue>, v: i64) -> Option<LdtkGridValue>
    decreases defs.len(),
{
    if defs.len() == 0 {
        None
    } else if defs[0].value == v {
        Some(defs[0])
    } else {
        def_for(defs.drop_first(), v)
    }
}

/// The cells of `grid` holding a nonzero value, each with its coordinates and
/// the description of its value, in order; or the first nonzero value that
/// has no description.
pub open spec fn grid_cells(grid: Seq<i64>, size_y: int, defs: Seq<LdtkGridValue>) -> Result<
    Seq<((i64, i64), LdtkGridValue)>,
    i64,
>
    decreases grid.len(),
{
    if grid.len() == 0 {
        Ok(seq![])
    } else {
        match grid_cells(grid.drop_last(), size_y, defs) {
            Err(v) => Err(v),
            Ok(cells) => {
                let v = grid.last();
                if v == 0 {
                    Ok(cells)
                } else {
                    match def_for(defs, v) {
                        None => Err(v),
                        Some(d) => {
                            let k = cell_key(grid.len() - 1, size_y);
                            Ok(cells.push(((k.0 as i64, k.1 as i64), d)))
                        },
                    }
                }
            },
        }
    }
}

/// Whether a grid holds only zeroes.
pub open spec fn all_zero(grid: Seq<i64>) -> bool {
    forall|i: int| 0 <= i < grid.len() ==> grid[i] == 0
}

/// The values of the cells of an int grid layer.
#[derive(Debug)]
pub struct LdtkGridValues {
    size: (i64, i64),
    grid_cell_size: i64,
    values: Vec<((i64, i64), LdtkGridValue)>,
}

impl LdtkGridValues {
    /// The grid size this was read for.
    pub closed spec fn spec_size(&self) -> (i64, i64) {
        self.size
    }

    /// The cell size, in pixels.
    pub closed spec fn spec_grid_cell_size(&self) -> i64 {
        self.grid_cell_size
    }

    /// The nonzero cells, with their coordinates and descriptions, in grid order.
    pub closed spec fn cells(&self) -> Seq<((i64, i64), LdtkGridValue)> {
        self.values@
    }

    /// Each cell is held once.
    #[verifier::type_invariant]
    closed spec fn cells_unique(&self) -> bool {
        self.keys_distinct()
    }

    /// No two cells share coordinates.
    pub closed spec fn keys_distinct(&self) -> bool {
        forall|a: int, b: int| 0 <= a < b < self.values@.len() ==> #[trigger] self.values@[a].0
            != #[trigger] self.values@[b].0
    }

    /// Reads the values of an int grid: every nonzero cell of the flat grid
    /// `int_grid` (laid out by the grid height `size.1`) is described by the
    /// layer definition's value of the same number. A nonzero number the
    /// definition does not describe is an error.
    pub fn new(size: (i64, i64), int_grid: &[i64], layer_definition: &LayerGridDefinition) -> (r: Result<Self, GridValueError>)
        requires
            size.1 != 0 || all_zero(int_grid@),
            int_grid@.len() <= i64::MAX,
        ensures
            match grid_cells(int_grid@, size.1 as int, layer_definition.defs()) {
                Ok(cells) => r matches Ok(g) && g.cells() == cells && g.spec_size() == size
                    && g.spec_grid_cell_size() == layer_definition.cell_size() && g.keys_distinct(),
                Err(v) => r == Err::<Self, GridValueError>(GridValueError::BadIntGridValue(v)),
            },
    {
        let mut values: Vec<((i64, i64), LdtkGridValue)> = Vec::new();
        let mut i: usize = 0;
        let ghost defs = layer_definition.int_grid_values@;
        while i < int_grid.len()
            invariant
                i <= int_grid@.len(),
                size.1 != 0 || all_zero(int_grid@),
                defs == layer_definition.int_grid_values@,
                grid_cells(int_grid@.take(i as int), size.1 as int, defs) == Ok::<
                    Seq<((i64, i64), LdtkGridValue)>,
                    i64,
                >(values@),
                int_grid@.len() <= i64::MAX,
                forall|j: int| 0 <= j < values@.len() ==> exists|c: int|
                    0 <= c < i && #[trigger] values@[j].0.0 == cell_key(c, size.1 as int).0
                        && values@[j].0.1 == cell_key(c, size.1 as int).1,
                forall|a: int, b: int| 0 <= a < b < values@.len() ==> #[trigger] values@[a].0
                    != #[trigger] values@[b].0,
            decreases int_grid@.len() - i,
        {
            let v = int_grid[i];
            proof {
                assert(int_grid@.take(i + 1).drop_last() =~= int_grid@.take(i as int));
                assert(int_grid@.take(i + 1).last() == v);
            }
            if v != 0 {
                let key = grid_key(i as i64, size.1);
                match find_def(layer_definition.int_grid_values.as_slice(), v) {
                    None => {
                        proof {
                            lemma_grid_cells_prefix_err(int_grid@, size.1 as int, defs, i as int + 1);
                        }
                        return Err(GridValueError::BadIntGridValue(v));
                    },
                    Some(d) => {
                        proof {
                            assert forall|j: int| 0 <= j < values@.len() implies #[trigger] values@[j].0 != key by {
                                let c = choose|c: int| 0 <= c < i && #[trigger] values@[j].0.0 == cell_key(c, size.1 as int).0
                                    && values@[j].0.1 == cell_key(c, size.1 as int).1;
                                lemma_cell_key_distinct(c, i as int, size.1 as int);
                            }
                        }
                        values.push((key, d));
                        assert(values@[values@.len() - 1].0.0 == cell_key(i as int, size.1 as int).0);
                    },
                }
            }
            i = i + 1;
        }
        assert(int_grid@.take(int_grid@.len() as int) =~= int_grid@);
        Ok(LdtkGridValues { size, grid_cell_size: layer_definition.grid_cell_size, values })
    }

    /// The description of the value of the cell at `grid`, if it is nonzero.
    pub fn get(&self, grid: (i64, i64)) -> (r: Option<&LdtkGridValue>)
        ensures
            match r {
                Some(v) => exists|j: int| 0 <= j < self.cells().len() && #[trigger] self.cells()[j] == (grid, *v),
                None => forall|j: int| 0 <= j < self.cells().len() ==> (#[trigger] self.cells()[j]).0 != grid,
            },
    {
        let mut i: usize = 0;
        while i < self.values.len()
            invariant
                i <= self.values@.len(),
                forall|j: int| 0 <= j < i ==> (#[trigger] self.values@[j]).0 != grid,
            decreases self.values@.len() - i,
        {
            let k = self.values[i].0;
            if k.0 == grid.0 && k.1 == grid.1 {
                assert(self.cells()[i as int] == (grid, self.values@[i as int].1));
                return Some(&self.values[i].1);
            }
            i = i + 1;
        }
        None
    }

    /// The width and height of a cell, in pixels.
    pub fn grid_cell_size(&self) -> (r: i64)
        ensures
            r == self.spec_grid_cell_size(),
    {
        self.grid_cell_size
    }

    /// Every nonzero cell with its coordinates and description, in grid order.
    pub fn enumerate(&self) -> (r: &[((i64, i64), LdtkGridValue)])
        ensures
            r@ == self.cells(),
    {
        self.values.as_slice()
    }
}

/// The grid coordinates of the cell at `index` (see [`cell_key`]).
pub fn grid_key(index: i64, size_y: i64) -> (r: (i64, i64))
    requires
        index >= 0,
        size_y != 0,
    ensures
        r.0 == cell_key(index as int, size_y as int).0,
        r.1 == cell_key(index as int, size_y as int).1,
{
    if size_y > 0 {
        (index % size_y, index / size_y)
    } else if size_y == i64::MIN {
        assert(index as int % (-(size_y as int)) == index) by {
            vstd::arithmetic::div_mod::lemma_small_mod(index as nat, (-(size_y as int)) as nat);
        }
        assert(index as int / (-(size_y as int)) == 0) by {
            vstd::arithmetic::div_mod::lemma_basic_div(index as int, -(size_y as int));
        }
        (index, 0)
    } else {
        let d = -size_y;
        (index % d, -(index / d))
    }
}

/// The first description among `defs` of the value `v`, copied.
pub fn find_def(defs: &[LdtkGridValue], v: i64) -> (r: Option<LdtkGridValue>)
    ensures
        r == def_for(defs@, v),
{
    let mut i: usize = 0;
    assert(defs@.skip(0) =~= defs@);
    while i < defs.len()
        invariant
            i <= defs@.len(),
            def_for(defs@, v) == def_for(defs@.skip(i as int), v),
        decreases defs@.len() - i,
    {
        proof {
            assert(defs@.skip(i as int).drop_first() =~= defs@.skip(i + 1));
        }
        if defs[i].value == v {
            return Some(defs[i].copy());
        }
        i = i + 1;
    }
    None
}

/// Different cells of a grid have different coordinates.
pub proof fn lemma_cell_key_distinct(a: int, b: int, size_y: int)
    requires
        0 <= a,
        0 <= b,
        a != b,
        size_y != 0,
    ensures
        cell_key(a, size_y) != cell_key(b, size_y),
{
    let d = if size_y > 0 { size_y } else { -size_y };
    lemma_fundamental_div_mod(a, d);
    lemma_fundamental_div_mod(b, d);
    if cell_key(a, size_y) == cell_key(b, size_y) {
        assert(a % d == b % d);
        assert(a / d == b / d);
        assert(d * (a / d) == d * (b / d));
    }
}

/// An error in a prefix of the grid is an error of the whole grid.
pub proof fn lemma_grid_cells_prefix_err(grid: Seq<i64>, size_y: int, defs: Seq<LdtkGridValue>, k: int)
    requires
        0 <= k <= grid.len(),
        grid_cells(grid.take(k), size_y, defs) is Err,
    ensures
        grid_cells(grid, size_y, defs) == grid_cells(grid.take(k), size_y, defs),
    decreases grid.len() - k,
{
    if k < grid.len() {
        assert(grid.take(k + 1).drop_last() =~= grid.take(k));
        lemma_grid_cells_prefix_err(grid, size_y, defs, k + 1);
    } else {
        assert(grid.take(k) =~= grid);
    }
}

/// Marks the int grid values of layers as read.
pub struct GridValuesPlugin;

/// The cell entry that the grid reading makes for the cell at `c`.
pub open spec fn cell_entry(grid: Seq<i64>, size_y: int, defs: Seq<LdtkGridValue>, c: int) -> (
    (i64, i64),
    LdtkGridValue,
) {
    let k = cell_key(c, size_y);
    ((k.0 as i64, k.1 as i64), def_for(defs, grid[c])->0)
}

/// Every cell read from a grid is the entry of one of its nonzero cells.
pub open spec fn cells_come_from_grid(grid: Seq<i64>, size_y: int, defs: Seq<LdtkGridValue>) -> bool {
    forall|j: int| 0 <= j < (grid_cells(grid, size_y, defs)->Ok_0).len() ==> #[trigger] entry_of_grid(
        (grid_cells(grid, size_y, defs)->Ok_0)[j],
        grid,
        size_y,
        defs,
    )
}

/// Whether `entry` is the entry of a nonzero cell of `grid`.
pub open spec fn entry_of_grid(
    entry: ((i64, i64), LdtkGridValue),
    grid: Seq<i64>,
    size_y: int,
    defs: Seq<LdtkGridValue>,
) -> bool {
    exists|c: int| 0 <= c < grid.len() && grid[c] != 0 && entry == #[trigger] cell_entry(grid, size_y, defs, c)
}

/// The cells read from a grid are exactly the entries of its nonzero cells,
/// each described.
pub proof fn lemma_grid_cells_members(grid: Seq<i64>, size_y: int, defs: Seq<LdtkGridValue>)
    requires
        grid_cells(grid, size_y, defs) is Ok,
    ensures
        forall|c: int| 0 <= c < grid.len() && grid[c] != 0 ==> def_for(defs, #[trigger] grid[c]) is Some,
        forall|c: int| 0 <= c < grid.len() && grid[c] != 0 ==> (grid_cells(grid, size_y, defs)->Ok_0).contains(
            #[trigger] cell_entry(grid, size_y, defs, c),
        ),
        cells_come_from_grid(grid, size_y, defs),
    decreases grid.len(),
{
    if grid.len() > 0 {
        let g = grid.drop_last();
        lemma_grid_cells_members(g, size_y, defs);
        let cells = grid_cells(g, size_y, defs)->Ok_0;
        let all = grid_cells(grid, size_y, defs)->Ok_0;
        let n = grid.len() - 1;
        assert forall|c: int| 0 <= c < n implies #[trigger] cell_entry(grid, size_y, defs, c) == cell_entry(g, size_y, defs, c) by {
            assert(grid[c] == g[c]);
        }
        assert forall|c: int| 0 <= c < grid.len() && grid[c] != 0 implies def_for(defs, #[trigger] grid[c]) is Some by {
            if c < n {
                assert(grid[c] == g[c]);
            }
        }
        assert forall|c: int| 0 <= c < grid.len() && grid[c] != 0 implies all.contains(
            #[trigger] cell_entry(grid, size_y, defs, c),
        ) by {
            if c < n {
                assert(grid[c] == g[c]);
                assert(cells.contains(cell_entry(g, size_y, defs, c)));
                let j = choose|j: int| 0 <= j < cells.len() && cells[j] == cell_entry(g, size_y, defs, c);
                if grid.last() != 0 {
                    assert(all == cells.push(cell_entry(grid, size_y, defs, n)));
                    assert(all[j] == cells[j]);
                } else {
                    assert(all == cells);
                }
            } else {
                assert(all == cells.push(cell_entry(grid, size_y, defs, n)));
                assert(all[cells.len() as int] == cell_entry(grid, size_y, defs, n));
            }
        }
        assert forall|j: int| 0 <= j < (grid_cells(grid, size_y, defs)->Ok_0).len() implies #[trigger] entry_of_grid(
            (grid_cells(grid, size_y, defs)->Ok_0)[j],
            grid,
            size_y,
            defs,
        ) by {
            if grid.last() != 0 {
                assert(all == cells.push(cell_entry(grid, size_y, defs, n)));
                if j < cells.len() {
                    assert(entry_of_grid(cells[j], g, size_y, defs));
                    let c = choose|c: int| 0 <= c < g.len() && g[c] != 0 && cells[j] == #[trigger] cell_entry(g, size_y, defs, c);
                    assert(grid[c] == g[c]);
                    assert((grid_cells(grid, size_y, defs)->Ok_0)[j] == cell_entry(grid, size_y, defs, c));
                } else {
                    assert((grid_cells(grid, size_y, defs)->Ok_0)[j] == cell_entry(grid, size_y, defs, n));
                }
            } else {
                assert(all == cells);
                assert(entry_of_grid(cells[j], g, size_y, defs));
                let c = choose|c: int| 0 <= c < g.len() && g[c] != 0 && cells[j] == #[trigger] cell_entry(g, size_y, defs, c);
                assert(grid[c] == g[c]);
                assert((grid_cells(grid, size_y, defs)->Ok_0)[j] == cell_entry(grid, size_y, defs, c));
            }
        }
        assert(cells_come_from_grid(grid, size_y, defs));
    } else {
        assert((grid_cells(grid, size_y, defs)->Ok_0).len() == 0);
    }
}

/// Reading an int grid keeps exactly its nonzero cells: the coordinates of
/// a nonzero cell lead to the description of its value, and no entry stands
/// at the coordinates of a zero cell.
pub proof fn law_grid_values_hold_exactly_the_nonzero_cells(
    grid: Seq<i64>,
    size_y: int,
    defs: Seq<LdtkGridValue>,
    c: int,
)
    requires
        grid_cells(grid, size_y, defs) is Ok,
        size_y != 0,
        0 <= c < grid.len(),
        grid.len() <= i64::MAX,
        i64::MIN <= size_y <= i64::MAX,
    ensures
        grid[c] != 0 ==> def_for(defs, grid[c]) is Some && (grid_cells(grid, size_y, defs)->Ok_0).contains(
            (
                (cell_key(c, size_y).0 as i64, cell_key(c, size_y).1 as i64),
                def_for(defs, grid[c])->0,
            ),
        ),
        grid[c] == 0 ==> forall|j: int| 0 <= j < (grid_cells(grid, size_y, defs)->Ok_0).len()
            ==> (#[trigger] (grid_cells(grid, size_y, defs)->Ok_0)[j]).0 != (
            cell_key(c, size_y).0 as i64,
            cell_key(c, size_y).1 as i64,
        ),
{
    lemma_grid_cells_members(grid, size_y, defs);
    if grid[c] != 0 {
        assert(cell_entry(grid, size_y, defs, c) == (
            (cell_key(c, size_y).0 as i64, cell_key(c, size_y).1 as i64),
            def_for(defs, grid[c])->0,
        ));
    } else {
        let cells = grid_cells(grid, size_y, defs)->Ok_0;
        assert forall|j: int| 0 <= j < cells.len() implies (#[trigger] cells[j]).0 != (
            cell_key(c, size_y).0 as i64,
            cell_key(c, size_y).1 as i64,
        ) by {
            assert(entry_of_grid(cells[j], grid, size_y, defs));
            let d = choose|d: int| 0 <= d < grid.len() && grid[d] != 0 && cells[j] == #[trigger] cell_entry(grid, size_y, defs, d);
            lemma_cell_key_distinct(c, d, size_y);
            lemma_cell_key_in_range(c, size_y);
            lemma_cell_key_in_range(d, size_y);
        }
    }
}

/// The coordinates of a cell fit in 64-bit integers.
pub proof fn lemma_cell_key_in_range(c: int, size_y: int)
    requires
        0 <= c <= i64::MAX,
        size_y != 0,
        i64::MIN <= size_y <= i64::MAX,
    ensures
        i64::MIN <= cell_key(c, size_y).0 <= i64::MAX,
        i64::MIN <= cell_key(c, size_y).1 <= i64::MAX,
{
    let d = if size_y > 0 { size_y } else { -size_y };
    lemma_fundamental_div_mod(c, d);
    vstd::arithmetic::div_mod::lemma_mod_pos_bound(c, d);
    vstd::arithmetic::div_mod::lemma_div_pos_is_pos(c, d);
    vstd::arithmetic::div_mod::lemma_div_is_ordered_by_denominator(c, 1, d);
    vstd::arithmetic::div_mod::lemma_div_basics(c);
}

} // verus!

use vstd::prelude::*;
use volatile::Volatile;
use crate::color::ACHColorCode;

verus! {

/// Number of rows of the display grid.
pub const BUFFER_HEIGHT: usize = 25;

/// Number of columns of the display grid.
pub const BUFFER_WIDTH: usize = 80;

/// One cell of the grid: a glyph byte and its color attribute.
#[derive(Debug, Clone, Copy, PartialEq, Eq, Structural)]
pub struct ACHCharacter {
    pub ascii: u8,
    pub color: ACHColorCode,
}

#[verifier::external_type_specification]
#[verifier::external_body]
#[verifier::reject_recursive_types(T)]
pub struct ExVolatile<T: Copy>(Volatile<T>);

/// The cell that a volatile slot holds.
pub uninterp spec fn volatile_value(v: Volatile<ACHCharacter>) -> ACHCharacter;

/// Relies on volatile's `Volatile::new`: the slot holds the given cell.
#[verifier::external_body]
fn volatile_new(c: ACHCharacter) -> (r: Volatile<ACHCharacter>)
    ensures
        volatile_value(r) == c,
{
    Volatile::new(c)
}

/// Relies on volatile's `Volatile::read`: a volatile load of the held cell.
#[verifier::external_body]
fn volatile_read(v: &Volatile<ACHCharacter>) -> (r: ACHCharacter)
    ensures
        r == volatile_value(*v),
{
    v.read()
}

/// Relies on volatile's `Volatile::write`: a volatile store, after which the
/// slot holds the given cell.
#[verifier::external_body]
fn volatile_write(v: &mut Volatile<ACHCharacter>, c: ACHCharacter)
    ensures
        volatile_value(*final(v)) == c,
{
    v.write(c)
}

/// A row of `BUFFER_WIDTH` copies of one cell.
pub open spec fn uniform_row(c: ACHCharacter) -> Seq<ACHCharacter> {
    Seq::new(BUFFER_WIDTH as nat, |j: int| c)
}

/// A grid of `BUFFER_HEIGHT` rows by `BUFFER_WIDTH` columns.
pub open spec fn grid_shaped(g: Seq<Seq<ACHCharacter>>) -> bool {
    &&& g.len() == BUFFER_HEIGHT
    &&& forall|i: int| 0 <= i < g.len() ==> (#[trigger] g[i]).len() == BUFFER_WIDTH
}

/// The grid of cells; every access to a cell is a volatile load or store.
pub struct ACHBuffer {
    chars: Vec<Vec<Volatile<ACHCharacter>>>,
}

impl View for ACHBuffer {
    type V = Seq<Seq<ACHCharacter>>;

    closed spec fn view(&self) -> Seq<Seq<ACHCharacter>> {
        self.chars@.map_values(|r: Vec<Volatile<ACHCharacter>>| r@.map_values(|v| volatile_value(v)))
    }
}

impl ACHBuffer {
    /// The grid has the fixed dimensions.
    pub open spec fn wf(&self) -> bool {
        grid_shaped(self@)
    }

    /// A grid whose every cell is `c`.
    pub fn new(c: ACHCharacter) -> (r: ACHBuffer)
        ensures
            r.wf(),
            r@ == Seq::new(BUFFER_HEIGHT as nat, |i: int| uniform_row(c)),
    {
        let mut chars: Vec<Vec<Volatile<ACHCharacter>>> = Vec::new();
        let mut i: usize = 0;
        while i < BUFFER_HEIGHT
            invariant
                i <= BUFFER_HEIGHT,
                chars@.len() == i,
                forall|k: int| 0 <= k < i ==> (#[trigger] chars@[k])@.map_values(|v| volatile_value(v)) == uniform_row(c),
            decreases BUFFER_HEIGHT - i,
        {
            let mut row: Vec<Volatile<ACHCharacter>> = Vec::new();
            let mut j: usize = 0;
            while j < BUFFER_WIDTH
                invariant
                    j <= BUFFER_WIDTH,
                    row@.len() == j,
                    forall|k: int| 0 <= k < j ==> volatile_value(#[trigger] row@[k]) == c,
                decreases BUFFER_WIDTH - j,
            {
                row.push(volatile_new(c));
                j = j + 1;
            }
            assert(row@.map_values(|v| volatile_value(v)) =~= uniform_row(c));
            chars.push(row);
            i = i + 1;
        }
        let r = ACHBuffer { chars };
        assert(r@ =~= Seq::new(BUFFER_HEIGHT as nat, |i: int| uniform_row(c)));
        r
    }

    /// The cell at (`row`, `col`), read with a volatile load.
    pub fn read(&self, row: usize, col: usize) -> (r: ACHCharacter)
        requires
            self.wf(),
            row < BUFFER_HEIGHT,
            col < BUFFER_WIDTH,
        ensures
            r == self@[row as int][col as int],
    {
        assert(self.chars@[row as int]@.len() == self@[row as int].len());
        volatile_read(&self.chars[row][col])
    }

    /// Stores `c` at (`row`, `col`) with a volatile store.
    pub fn write(&mut self, row: usize, col: usize, c: ACHCharacter)
        requires
            old(self).wf(),
            row < BUFFER_HEIGHT,
            col < BUFFER_WIDTH,
        ensures
            final(self).wf(),
            final(self)@ == old(self)@.update(row as int, old(self)@[row as int].update(col as int, c)),
    {
        assert(self.chars@[row as int]@.len() == self@[row as int].len());
        volatile_write(&mut self.chars[row][col], c);
        assert(self@ =~~= old(self)@.update(row as int, old(self)@[row as int].update(col as int, c)));
    }
}

} // verus!

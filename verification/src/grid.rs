use crate::math::{
    index_1d_to_2d, index_2d_to_1d, lemma_index_round_trip, lemma_small_mod_int, wrap_to_1d,
};
use vstd::prelude::*;

verus! {

/// The state of one LED: dark, or lit with an RGB color.
#[derive(Debug, Clone, Copy, PartialEq, Eq, Structural)]
pub enum Led {
    Off,
    Rgb(u8, u8, u8),
}

/// One cell of the grid: its fixed position and its LED state.
#[derive(Debug, Clone, Copy, PartialEq, Eq, Structural)]
pub struct Cell {
    pub x: usize,
    pub y: usize,
    pub led: Led,
}

/// A fixed-size rectangular grid of LED cells, stored row-major.
///
/// Reads and writes wrap their coordinates (`x` modulo `width`, `y` modulo
/// `height`) instead of rejecting them.
#[derive(Debug, Clone)]
pub struct Grid {
    pub width: usize,
    pub height: usize,
    pub values: Vec<Cell>,
}

impl Grid {
    /// Well-formedness: positive dimensions, one cell per position, and every
    /// cell stores the coordinates of its own position.
    pub open spec fn wf(&self) -> bool {
        &&& 0 < self.width
        &&& 0 < self.height
        &&& (self.width as int) * (self.height as int) <= usize::MAX
        &&& self.values.len() == (self.width as int) * (self.height as int)
        &&& forall|i: int|
            0 <= i < self.values.len() ==> (#[trigger] self.values[i]).x == i % (self.width as int)
                && self.values[i].y == i / (self.width as int)
    }

    /// The LED stored for the wrapped position `(x, y)`.
    pub open spec fn led_at(&self, x: int, y: int) -> Led {
        self.values[wrap_to_1d(x, y, self.width as int, self.height as int)].led
    }

    /// Creates a grid with every LED off and every cell labelled with its
    /// derived coordinates.
    pub fn new(width: usize, height: usize) -> (g: Grid)
        requires
            0 < width,
            0 < height,
            width * height <= usize::MAX,
        ensures
            g.wf(),
            g.width == width,
            g.height == height,
            forall|i: int| 0 <= i < g.values.len() ==> (#[trigger] g.values[i]).led == Led::Off,
    {
        let capacity = width * height;
        let mut values: Vec<Cell> = Vec::with_capacity(capacity);
        let mut i: usize = 0;
        while i < capacity
            invariant
                i <= capacity,
                capacity == (width as int) * (height as int),
                0 < width,
                values.len() == i,
                forall|j: int|
                    0 <= j < i ==> (#[trigger] values[j]).x == j % (width as int) && values[j].y
                        == j / (width as int) && values[j].led == Led::Off,
            decreases capacity - i,
        {
            let (x, y) = index_1d_to_2d(i, width, height);
            values.push(Cell { x, y, led: Led::Off });
            i = i + 1;
        }
        Grid { width, height, values }
    }

    /// The number of cells the grid holds.
    pub fn count(&self) -> (n: usize)
        requires
            self.wf(),
        ensures
            n == (self.width as int) * (self.height as int),
    {
        self.values.len()
    }

    /// Overwrites the LED of the cell at the wrapped position `(x, y)`; the
    /// cell's stored coordinates are left as they are.
    pub fn set(&mut self, x: usize, y: usize, led: Led)
        requires
            old(self).wf(),
        ensures
            final(self).wf(),
            final(self).width == old(self).width,
            final(self).height == old(self).height,
            final(self).values@ == old(self).values@.update(
                wrap_to_1d(x as int, y as int, old(self).width as int, old(self).height as int),
                (Cell {
                    led,
                    ..old(self).values@[wrap_to_1d(
                        x as int,
                        y as int,
                        old(self).width as int,
                        old(self).height as int,
                    )]
                }),
            ),
            final(self).led_at(x as int, y as int) == led,
            forall|i: int|
                0 <= i < old(self).values.len() && i != wrap_to_1d(
                    x as int,
                    y as int,
                    old(self).width as int,
                    old(self).height as int,
                ) ==> #[trigger] final(self).values[i] == old(self).values[i],
    {
        let idx = index_2d_to_1d(x, y, self.width, self.height);
        let old_cell = self.values[idx];
        self.values.set(idx, Cell { x: old_cell.x, y: old_cell.y, led });
    }

    /// Returns a copy of the cell at the wrapped position `(x, y)`.
    pub fn get(&self, x: usize, y: usize) -> (c: Cell)
        requires
            self.wf(),
        ensures
            c == self.values@[wrap_to_1d(
                x as int,
                y as int,
                self.width as int,
                self.height as int,
            )],
            c.led == self.led_at(x as int, y as int),
    {
        let idx = index_2d_to_1d(x, y, self.width, self.height);
        self.values[idx]
    }

    /// The cells in linear row-major order.
    pub fn iter(&self) -> (r: &Vec<Cell>)
        ensures
            r@ == self.values@,
    {
        &self.values
    }

    /// Mutable access to the cells, in the same linear order, for in-place
    /// update; the dimensions cannot change through it.
    pub fn iter_mut(&mut self) -> (r: &mut Vec<Cell>)
        ensures
            *r == old(self).values,
            final(self).width == old(self).width,
            final(self).height == old(self).height,
            final(self).values == *final(r),
    {
        &mut self.values
    }
}

/// On a well-formed grid, reading back in-bounds coordinates finds a cell that
/// carries exactly those coordinates.
pub proof fn lemma_cell_keeps_position(g: Grid, x: int, y: int)
    requires
        g.wf(),
        0 <= x < g.width,
        0 <= y < g.height,
    ensures
        g.values[wrap_to_1d(x, y, g.width as int, g.height as int)].x == x,
        g.values[wrap_to_1d(x, y, g.width as int, g.height as int)].y == y,
{
    lemma_index_round_trip(x, y, g.width as int, g.height as int);
    lemma_small_mod_int(x, g.width as int);
    lemma_small_mod_int(y, g.height as int);
    assert(0 <= y * (g.width as int) + x < (g.width as int) * (g.height as int))
        by (nonlinear_arith)
        requires
            0 < g.width,
            0 < g.height,
            0 <= x < g.width,
            0 <= y < g.height,
    ;
    assert(wrap_to_1d(x, y, g.width as int, g.height as int) == y * (g.width as int) + x);
}

} // verus!

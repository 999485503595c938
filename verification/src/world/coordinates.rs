use vstd::prelude::*;

verus! {

/// Position of the robot on the map, addressed by row and column.
#[derive(Clone, Debug)]
pub struct Coordinate {
    pub row: usize,
    pub col: usize,
}

impl Coordinate {
    pub fn new(row: usize, col: usize) -> (c: Coordinate)
        ensures
            c.row == row,
            c.col == col,
    {
        Coordinate { row, col }
    }

    pub fn get_row(&self) -> (r: usize)
        ensures
            r == self.row,
    {
        self.row
    }

    pub fn get_col(&self) -> (c: usize)
        ensures
            c == self.col,
    {
        self.col
    }
}

} // verus!

//! The tape: program memory and the pointer into it.

use vstd::prelude::*;

verus! {

/// Mathematical model of a tape: its cells, left to right, and the index of
/// the cell under the pointer.
pub struct TapeView {
    pub cells: Seq<u8>,
    pub pointer: nat,
}

/// The cell value that follows `v`: one more, and 0 after 255.
pub open spec fn wrapping_succ(v: u8) -> u8 {
    ((v + 1) % 256) as u8
}

/// The cell value that precedes `v`: one less, and 255 before 0.
pub open spec fn wrapping_pred(v: u8) -> u8 {
    ((v + 255) % 256) as u8
}

impl TapeView {
    /// The pointer addresses an existing cell, so the tape is never empty.
    pub open spec fn wf(self) -> bool {
        self.pointer < self.cells.len()
    }

    /// A fresh tape: a single zero cell under the pointer.
    pub open spec fn blank() -> TapeView {
        TapeView { cells: seq![0u8], pointer: 0 }
    }

    /// The value of the cell under the pointer.
    pub open spec fn current(self) -> u8 {
        self.cells[self.pointer as int]
    }

    /// The tape with the current cell replaced by `v`.
    pub open spec fn with_current(self, v: u8) -> TapeView {
        TapeView { cells: self.cells.update(self.pointer as int, v), ..self }
    }

    /// The tape after adding one to the current cell, modulo 256.
    pub open spec fn incremented(self) -> TapeView {
        self.with_current(wrapping_succ(self.current()))
    }

    /// The tape after subtracting one from the current cell, modulo 256.
    pub open spec fn decremented(self) -> TapeView {
        self.with_current(wrapping_pred(self.current()))
    }

    /// The tape after the pointer moves one cell to the right. A zero cell is
    /// appended exactly when the pointer leaves the last existing cell.
    pub open spec fn moved_right(self) -> TapeView {
        TapeView {
            cells: if self.pointer + 1 < self.cells.len() {
                self.cells
            } else {
                self.cells.push(0u8)
            },
            pointer: self.pointer + 1,
        }
    }

    /// Whether the pointer can move left, that is, is not on the first cell.
    pub open spec fn can_move_left(self) -> bool {
        self.pointer > 0
    }

    /// The tape after the pointer moves one cell to the left.
    pub open spec fn moved_left(self) -> TapeView
        recommends
            self.can_move_left(),
    {
        TapeView { pointer: (self.pointer - 1) as nat, ..self }
    }

    /// The tape with the pointer placed on cell `index`.
    pub open spec fn pointed_at(self, index: nat) -> TapeView {
        TapeView { pointer: index, ..self }
    }
}

/// The pointer was asked to move left of the first cell.
#[derive(Clone, Copy, Debug, PartialEq, Eq, Structural)]
pub struct TapeUnderflow;

/// Program memory: a growable row of byte cells and the pointer to the
/// active one.
#[derive(Debug)]
pub struct Tape {
    /// The cells created so far, left to right.
    pub cells: Vec<u8>,
    /// Index of the active cell.
    pub pointer: usize,
}

impl View for Tape {
    type V = TapeView;

    open spec fn view(&self) -> TapeView {
        TapeView { cells: self.cells@, pointer: self.pointer as nat }
    }
}

impl Tape {
    /// The pointer addresses an existing cell.
    pub open spec fn wf(&self) -> bool {
        self@.wf()
    }

    /// Creates a tape of one zero cell with the pointer on it.
    pub fn new() -> (tape: Tape)
        ensures
            tape.wf(),
            tape@ == TapeView::blank(),
    {
        let mut cells: Vec<u8> = Vec::new();
        cells.push(0u8);
        Tape { cells, pointer: 0 }
    }

    /// Reads the cell under the pointer.
    pub fn current(&self) -> (value: u8)
        requires
            self.wf(),
        ensures
            value == self@.current(),
    {
        self.cells[self.pointer]
    }

    /// Reads the cell at `index`, wherever the pointer is.
    pub fn cell(&self, index: usize) -> (value: u8)
        requires
            index < self@.cells.len(),
        ensures
            value == self@.cells[index as int],
    {
        self.cells[index]
    }

    /// Adds one to the current cell; 255 wraps to 0.
    pub fn increment(&mut self)
        requires
            old(self).wf(),
        ensures
            final(self).wf(),
            final(self)@ == old(self)@.incremented(),
    {
        let value = self.cells[self.pointer];
        let next: u8 = if value == u8::MAX { u8::MIN } else { value + 1 };
        self.cells.set(self.pointer, next);
    }

    /// Subtracts one from the current cell; 0 wraps to 255.
    pub fn decrement(&mut self)
        requires
            old(self).wf(),
        ensures
            final(self).wf(),
            final(self)@ == old(self)@.decremented(),
    {
        let value = self.cells[self.pointer];
        let next: u8 = if value == u8::MIN { u8::MAX } else { value - 1 };
        self.cells.set(self.pointer, next);
    }

    /// Moves the pointer one cell to the right. When the pointer stood on the
    /// last cell, exactly one zero cell is appended first; no existing cell
    /// changes in either case.
    pub fn move_right(&mut self)
        requires
            old(self).wf(),
        ensures
            final(self).wf(),
            final(self)@ == old(self)@.moved_right(),
            final(self)@.pointer == old(self)@.pointer + 1,
            old(self)@.pointer + 1 == old(self)@.cells.len() ==> final(self)@.cells
                == old(self)@.cells.push(0u8),
            old(self)@.pointer + 1 < old(self)@.cells.len() ==> final(self)@.cells
                == old(self)@.cells,
    {
        let len = self.cells.len();
        if self.pointer + 1 == len {
            self.cells.push(0u8);
        }
        self.pointer = self.pointer + 1;
    }

    /// Moves the pointer one cell to the left, or reports an underflow and
    /// leaves the tape as it was when the pointer is on the first cell.
    pub fn move_left(&mut self) -> (moved: Result<(), TapeUnderflow>)
        requires
            old(self).wf(),
        ensures
            final(self).wf(),
            moved is Ok <==> old(self)@.can_move_left(),
            moved is Ok ==> final(self)@ == old(self)@.moved_left(),
            moved is Err ==> *final(self) == *old(self),
    {
        if self.pointer == 0 {
            Err(TapeUnderflow)
        } else {
            self.pointer = self.pointer - 1;
            Ok(())
        }
    }

    /// Places the pointer on the existing cell `index`.
    pub fn point_at(&mut self, index: usize)
        requires
            index < old(self)@.cells.len(),
        ensures
            final(self).wf(),
            final(self)@ == old(self)@.pointed_at(index as nat),
    {
        self.pointer = index;
    }
}

} // verus!

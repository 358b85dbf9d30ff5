//! Cursor tracking: the current position and the one before it.

use vstd::prelude::*;

verus! {

/// What a tracker knows: where the cursor is and where it was one move ago,
/// each as an `(x, y)` pair.
pub struct MouseView {
    pub position: (i16, i16),
    pub previous: (i16, i16),
}

impl MouseView {
    /// The tracker before any movement: both positions at the origin.
    pub open spec fn origin() -> MouseView {
        MouseView { position: (0, 0), previous: (0, 0) }
    }

    /// The tracker after the cursor has moved to `to`.
    pub open spec fn moved(self, to: (i16, i16)) -> MouseView {
        MouseView { position: to, previous: self.position }
    }

    /// Componentwise difference between the current and the previous position.
    pub open spec fn delta(self) -> (int, int) {
        (self.position.0 - self.previous.0, self.position.1 - self.previous.1)
    }

    /// The tracker after a whole sequence of moves, oldest first.
    pub open spec fn after(self, moves: Seq<(i16, i16)>) -> MouseView
        decreases moves.len(),
    {
        if moves.len() == 0 {
            self
        } else {
            self.after(moves.drop_last()).moved(moves.last())
        }
    }
}

/// Tracks the cursor in signed 16-bit window coordinates.
///
/// Coordinates are stored as reported: they may be negative or lie outside
/// the window, as happens while dragging past its border.
#[derive(Clone, Copy, Debug)]
pub struct Mouse {
    x: i16,
    y: i16,
    old_x: i16,
    old_y: i16,
}

impl View for Mouse {
    type V = MouseView;

    closed spec fn view(&self) -> MouseView {
        MouseView { position: (self.x, self.y), previous: (self.old_x, self.old_y) }
    }
}

impl Mouse {
    /// A tracker that has seen no movement yet.
    pub fn new() -> (m: Mouse)
        ensures
            m@ == MouseView::origin(),
    {
        Mouse { x: 0, y: 0, old_x: 0, old_y: 0 }
    }

    /// Records a move to `(x, y)`; the position held so far becomes the
    /// previous one.
    pub fn update_position(&mut self, x: i16, y: i16)
        ensures
            final(self)@ == old(self)@.moved((x, y)),
    {
        self.old_x = self.x;
        self.old_y = self.y;
        self.x = x;
        self.y = y;
    }

    /// How far the last move went, per axis.  The result is wide enough for
    /// the difference of any two 16-bit coordinates.
    pub fn get_delta(&self) -> (d: (i32, i32))
        ensures
            (d.0 as int, d.1 as int) == self@.delta(),
    {
        let x: i32 = self.x as i32;
        let y: i32 = self.y as i32;
        let old_x: i32 = self.old_x as i32;
        let old_y: i32 = self.old_y as i32;
        (x - old_x, y - old_y)
    }

    /// The current position.
    pub fn get_position(&self) -> (p: (i16, i16))
        ensures
            p == self@.position,
    {
        (self.x, self.y)
    }
}

/// After at least one move, the position is that of the last move and the
/// delta is the difference to the move before it, or to the starting position
/// where there was only one.
pub proof fn lemma_last_two_moves(start: MouseView, moves: Seq<(i16, i16)>)
    requires
        moves.len() >= 1,
    ensures
        start.after(moves).position == moves.last(),
        start.after(moves).previous == if moves.len() >= 2 {
            moves[moves.len() - 2]
        } else {
            start.position
        },
        start.after(moves).delta() == if moves.len() >= 2 {
            (moves.last().0 - moves[moves.len() - 2].0, moves.last().1 - moves[moves.len() - 2].1)
        } else {
            (moves.last().0 - start.position.0, moves.last().1 - start.position.1)
        },
    decreases moves.len(),
{
    let earlier = moves.drop_last();
    if earlier.len() >= 1 {
        lemma_last_two_moves(start, earlier);
        assert(earlier.last() == moves[moves.len() - 2]);
    } else {
        assert(start.after(earlier) == start);
    }
}

/// Before any move the tracker rests at the origin and its delta is zero.
pub proof fn lemma_no_move_no_delta()
    ensures
        MouseView::origin().after(Seq::empty()) == MouseView::origin(),
        MouseView::origin().delta() == (0int, 0int),
{
}

} // verus!

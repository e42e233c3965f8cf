//! A cursor over one axis of the board that understands optional wraparound.

use vstd::prelude::*;

verus! {

/// Vertical component of a walk over the board.
#[derive(Clone, Copy)]
pub enum Vertical {
    Up,
    Down,
    Straight,
}

/// Horizontal sense in which a cursor moves.
#[derive(Clone, Copy)]
pub enum Horizontal {
    Left,
    Right,
}

/// A position on an axis of `size` cells, which may be a ring.
#[derive(Clone, Copy)]
pub struct IndexRange {
    size: u16,
    is_cyclic: bool,
    cursor: u16,
}

/// Where `distance % size` steps in the sense `h` point to from `position`,
/// on a line that has no ends.
pub open spec fn unwrapped(size: int, position: int, distance: int, h: Horizontal) -> int {
    match h {
        Horizontal::Left => position - distance % size,
        Horizontal::Right => position + distance % size,
    }
}

/// The cell reached from `position` on an axis of `size` cells by `distance`
/// steps in the sense `h`. The distance is first reduced modulo `size`. A move
/// that stays on the axis lands where it points; one that crosses an end of
/// the axis re-enters at the other end on a ring and is blocked (`None`)
/// otherwise.
pub open spec fn destination(
    size: int,
    cyclic: bool,
    position: int,
    distance: int,
    h: Horizontal,
) -> Option<int> {
    let target = unwrapped(size, position, distance, h);
    if 0 <= target < size {
        Some(target)
    } else if cyclic {
        Some(
            match h {
                Horizontal::Left => target + size,
                Horizontal::Right => target - size,
            },
        )
    } else {
        None
    }
}

/// The position after `n` single steps to the right on a ring of `size`
/// cells, starting from `position`.
pub open spec fn steps_right(size: int, position: int, n: nat) -> int
    decreases n,
{
    if n == 0 {
        position
    } else {
        let before = steps_right(size, position, (n - 1) as nat);
        match destination(size, true, before, 1, Horizontal::Right) {
            Some(p) => p,
            None => position,
        }
    }
}

impl IndexRange {
    /// Number of cells on the axis.
    pub closed spec fn axis_size(&self) -> nat {
        self.size as nat
    }

    /// Whether the last cell is adjacent to the first.
    pub closed spec fn cyclic(&self) -> bool {
        self.is_cyclic
    }

    /// The cell the cursor stands on.
    pub closed spec fn position(&self) -> nat {
        self.cursor as nat
    }

    /// The axis has at least one cell and the cursor stands on one of them.
    pub open spec fn valid(&self) -> bool {
        0 < self.axis_size() && self.position() < self.axis_size()
    }

    /// Where `move_cursor(distance, h)` would take this cursor.
    pub open spec fn target(&self, distance: int, h: Horizontal) -> Option<int> {
        destination(self.axis_size() as int, self.cyclic(), self.position() as int, distance, h)
    }

    /// A cursor on the cell `cursor` of an axis of `size` cells.
    pub fn new(size: u16, is_cyclic: bool, cursor: u16) -> (r: Self)
        ensures
            r.axis_size() == size,
            r.cyclic() == is_cyclic,
            r.position() == cursor,
    {
        Self { size, is_cyclic, cursor }
    }

    /// Advances the cursor by `distance % size` cells in the sense `h`.
    /// Returns `false`, leaving the cursor where it was, when the move would
    /// leave an axis that is not a ring.
    pub fn move_cursor(&mut self, distance: u16, h: Horizontal) -> (moved: bool)
        requires
            old(self).valid(),
        ensures
            final(self).axis_size() == old(self).axis_size(),
            final(self).cyclic() == old(self).cyclic(),
            final(self).valid(),
            moved == old(self).target(distance as int, h).is_some(),
            final(self).position() as int == match old(self).target(distance as int, h) {
                Some(p) => p,
                None => old(self).position() as int,
            },
            !old(self).cyclic() ==> (moved <==> 0 <= unwrapped(
                old(self).axis_size() as int,
                old(self).position() as int,
                distance as int,
                h,
            ) < old(self).axis_size()),
    {
        let distance = distance % self.size;
        let crosses = match h {
            Horizontal::Left => distance > self.cursor,
            Horizontal::Right => distance >= self.size - self.cursor,
        };
        if crosses {
            if self.is_cyclic {
                self.cursor = match h {
                    Horizontal::Left => self.cursor + (self.size - distance),
                    Horizontal::Right => distance - (self.size - self.cursor),
                };
            } else {
                return false;
            }
        } else {
            self.cursor = match h {
                Horizontal::Left => self.cursor - distance,
                Horizontal::Right => self.cursor + distance,
            };
        }
        true
    }

    /// The cell the cursor stands on, as an index into the columns.
    pub fn as_usize(&self) -> (index: usize)
        ensures
            index == self.position(),
    {
        self.cursor as usize
    }
}

/// On an axis that is not a ring the cursor never leaves `[0, size)`, and a
/// move is blocked exactly when the cell it points to lies outside the axis.
pub proof fn lemma_blocked_iff_outside(size: int, position: int, distance: int, h: Horizontal)
    requires
        0 < size,
        0 <= position < size,
    ensures
        match destination(size, false, position, distance, h) {
            Some(p) => 0 <= p < size && p == unwrapped(size, position, distance, h),
            None => !(0 <= unwrapped(size, position, distance, h) < size),
        },
{
}

/// Whatever the axis, a cursor that moves lands on a cell of the axis, and on
/// a ring that cell is the unwrapped target modulo the size of the axis.
pub proof fn lemma_destination_on_axis(
    size: int,
    cyclic: bool,
    position: int,
    distance: int,
    h: Horizontal,
)
    requires
        0 < size,
        0 <= position < size,
    ensures
        match destination(size, cyclic, position, distance, h) {
            Some(p) => 0 <= p < size && p == unwrapped(size, position, distance, h) % size,
            None => !cyclic,
        },
{
    let target = unwrapped(size, position, distance, h);
    assert(0 <= distance % size < size) by {
        vstd::arithmetic::div_mod::lemma_mod_bound(distance, size);
    }
    if 0 <= target < size {
        vstd::arithmetic::div_mod::lemma_small_mod(target as nat, size as nat);
    } else if target < 0 {
        vstd::arithmetic::div_mod::lemma_small_mod((target + size) as nat, size as nat);
        vstd::arithmetic::div_mod::lemma_mod_add_multiples_vanish(target, size);
    } else {
        vstd::arithmetic::div_mod::lemma_small_mod((target - size) as nat, size as nat);
        vstd::arithmetic::div_mod::lemma_mod_sub_multiples_vanish(target, size);
    }
}

/// After `n` single steps to the right on a ring the cursor stands `n` cells
/// further, counted modulo the size of the ring.
pub proof fn lemma_steps_right(size: int, position: int, n: nat)
    requires
        0 < size,
        0 <= position < size,
    ensures
        steps_right(size, position, n) == (position + n) % size,
    decreases n,
{
    if n == 0 {
        vstd::arithmetic::div_mod::lemma_small_mod(position as nat, size as nat);
    } else {
        let before = steps_right(size, position, (n - 1) as nat);
        lemma_steps_right(size, position, (n - 1) as nat);
        lemma_destination_on_axis(size, true, before, 1, Horizontal::Right);
        vstd::arithmetic::div_mod::lemma_add_mod_noop(position + n - 1, 1, size);
        vstd::arithmetic::div_mod::lemma_mod_twice(position + n - 1, size);
        vstd::arithmetic::div_mod::lemma_add_mod_noop(before, 1int % size, size);
    }
}

/// On a ring, moving right by one cell exactly `size` times brings the cursor
/// back to the cell it started from.
pub proof fn lemma_full_turn(size: int, position: int)
    requires
        0 < size,
        0 <= position < size,
    ensures
        steps_right(size, position, size as nat) == position,
{
    lemma_steps_right(size, position, size as nat);
    vstd::arithmetic::div_mod::lemma_mod_add_multiples_vanish(position, size);
    vstd::arithmetic::div_mod::lemma_small_mod(position as nat, size as nat);
}

} // verus!

//! Relative pointer input: three-byte movement reports summed up into an
//! absolute position.
use vstd::prelude::*;
use crate::evdev::Position;
use crate::utils::fits_i32;

verus! {

/// The movement that one report describes.
#[derive(Clone, Copy, Debug, PartialEq, Eq, Structural)]
pub struct Diffs {
    pub x: i8,
    pub y: i8,
}

/// Reads the movement of a report: its second and third bytes, as signed
/// (two's complement) numbers.
pub fn parse(chunk: [u8; 3]) -> (r: Diffs)
    ensures
        r.x == chunk@[1] as i8,
        r.y == chunk@[2] as i8,
{
    Diffs { x: chunk[1] as i8, y: chunk[2] as i8 }
}

/// The position after moving from `p` by the movement of one report.
pub open spec fn mouse_step(p: Position, chunk: [u8; 3]) -> Position {
    Position { x: (p.x + chunk@[1] as i8) as i32, y: (p.y + chunk@[2] as i8) as i32 }
}

/// The position after a sequence of reports, starting at the origin.
pub open spec fn track(chunks: Seq<[u8; 3]>) -> Position
    decreases chunks.len(),
{
    if chunks.len() == 0 {
        Position { x: 0, y: 0 }
    } else {
        mouse_step(track(chunks.drop_last()), chunks.last())
    }
}

/// The horizontal movements of a sequence of reports, summed up.
pub open spec fn sum_dx(chunks: Seq<[u8; 3]>) -> int
    decreases chunks.len(),
{
    if chunks.len() == 0 {
        0
    } else {
        sum_dx(chunks.drop_last()) + chunks.last()@[1] as i8
    }
}

/// The vertical movements of a sequence of reports, summed up.
pub open spec fn sum_dy(chunks: Seq<[u8; 3]>) -> int
    decreases chunks.len(),
{
    if chunks.len() == 0 {
        0
    } else {
        sum_dy(chunks.drop_last()) + chunks.last()@[2] as i8
    }
}

/// The position after any number of reports is the sum of their movements,
/// as long as no partial sum leaves the range of the coordinates.
pub proof fn lemma_position_is_sum_of_movements(chunks: Seq<[u8; 3]>)
    requires
        forall|k: int|
            0 <= k <= chunks.len() ==> fits_i32(#[trigger] sum_dx(chunks.take(k))) && fits_i32(
                sum_dy(chunks.take(k)),
            ),
    ensures
        track(chunks) == (Position { x: sum_dx(chunks) as i32, y: sum_dy(chunks) as i32 }),
    decreases chunks.len(),
{
    assert(chunks.take(chunks.len() as int) =~= chunks);
    if chunks.len() > 0 {
        let prefix = chunks.drop_last();
        assert forall|k: int| 0 <= k <= prefix.len() implies fits_i32(
            #[trigger] sum_dx(prefix.take(k)),
        ) && fits_i32(sum_dy(prefix.take(k))) by {
            assert(prefix.take(k) =~= chunks.take(k));
        }
        assert(prefix.take(prefix.len() as int) =~= prefix);
        assert(fits_i32(sum_dx(chunks.take(prefix.len() as int))));
        assert(chunks.take(prefix.len() as int) =~= prefix);
        lemma_position_is_sum_of_movements(prefix);
    }
}

/// Sums up movement reports, starting at the origin; the starting position
/// is reported first.
pub struct MouseInput {
    first: bool,
    position: Position,
    reports: Ghost<Seq<[u8; 3]>>,
}

impl MouseInput {
    /// The position is where the reports applied so far lead.
    #[verifier::type_invariant]
    spec fn position_tracks_reports(&self) -> bool {
        self.position == track(self.reports@)
    }

    /// The reports applied so far, in order.
    pub closed spec fn spec_reports(&self) -> Seq<[u8; 3]> {
        self.reports@
    }

    /// Whether the starting position has not been reported yet.
    pub closed spec fn spec_first(&self) -> bool {
        self.first
    }

    pub closed spec fn spec_position(&self) -> Position {
        self.position
    }

    pub fn new() -> (r: MouseInput)
        ensures
            r.spec_first(),
            r.spec_position() == (Position { x: 0, y: 0 }),
            r.spec_reports() == Seq::<[u8; 3]>::empty(),
    {
        MouseInput { first: true, position: Position { x: 0, y: 0 }, reports: Ghost(Seq::empty()) }
    }

    /// Whether the next position to report is the starting position (which
    /// needs no report to be read).
    pub fn initial_pending(&self) -> (r: bool)
        ensures
            r == self.spec_first(),
    {
        self.first
    }

    /// Reports the starting position.
    pub fn take_initial(&mut self) -> (r: Position)
        requires
            old(self).spec_first(),
        ensures
            !final(self).spec_first(),
            final(self).spec_position() == old(self).spec_position(),
            final(self).spec_reports() == old(self).spec_reports(),
            final(self).spec_position() == track(final(self).spec_reports()),
            r == old(self).spec_position(),
    {
        proof {
            use_type_invariant(&*self);
        }
        self.first = false;
        self.position
    }

    /// Whether moving by `chunk` keeps both coordinates in range.
    pub fn can_apply(&self, chunk: [u8; 3]) -> (r: bool)
        ensures
            r == (fits_i32(self.spec_position().x + chunk@[1] as i8) && fits_i32(
                self.spec_position().y + chunk@[2] as i8,
            )),
    {
        let diff = parse(chunk);
        let x = self.position.x as i64 + diff.x as i64;
        let y = self.position.y as i64 + diff.y as i64;
        -2147483648 <= x && x <= 2147483647 && -2147483648 <= y && y <= 2147483647
    }

    /// Moves by the movement of `chunk` and reports the new position.
    pub fn apply_chunk(&mut self, chunk: [u8; 3]) -> (r: Position)
        requires
            fits_i32(old(self).spec_position().x + chunk@[1] as i8),
            fits_i32(old(self).spec_position().y + chunk@[2] as i8),
        ensures
            final(self).spec_first() == old(self).spec_first(),
            final(self).spec_position() == mouse_step(old(self).spec_position(), chunk),
            final(self).spec_reports() == old(self).spec_reports().push(chunk),
            final(self).spec_position() == track(final(self).spec_reports()),
            r == final(self).spec_position(),
    {
        proof {
            use_type_invariant(&*self);
        }
        let diff = parse(chunk);
        let position = Position { x: self.position.x + diff.x as i32, y: self.position.y + diff.y as i32 };
        let ghost reports = self.reports@.push(chunk);
        assert(reports.drop_last() =~= self.reports@);
        *self = MouseInput { first: self.first, position, reports: Ghost(reports) };
        position
    }
}

} // verus!

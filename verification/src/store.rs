//! The row store: the hex pane and the ASCII pane of one buffer, scrolled by
//! rotating both in lock-step. Scrolling is circular: there is no top or
//! bottom at which it stops.

use vstd::prelude::*;
use vstd::arithmetic::div_mod::*;
use crate::formatter::{ascii_pane, format_rows, hex_pane, paired, row_count};

verus! {

/// `s` with its last `n` items moved to the front, `n` taken modulo the
/// length. An empty sequence stays as it is.
pub open spec fn rotated_up<T>(s: Seq<T>, n: nat) -> Seq<T> {
    if s.len() == 0 {
        s
    } else {
        let k = s.len() - n % s.len();
        s.subrange(k, s.len() as int) + s.subrange(0, k)
    }
}

/// `s` with its first `n` items moved to the back, `n` taken modulo the
/// length. An empty sequence stays as it is.
pub open spec fn rotated_down<T>(s: Seq<T>, n: nat) -> Seq<T> {
    if s.len() == 0 {
        s
    } else {
        let k = (n % s.len()) as int;
        s.subrange(k, s.len() as int) + s.subrange(0, k)
    }
}

/// The amount by which a sequence of `len` items is rotated down to get what
/// rotating it up by `n` gives: the rest of the way round.
pub open spec fn opposite_amount(len: nat, n: nat) -> nat {
    if len == 0 {
        0
    } else {
        (len - n % len) as nat
    }
}

/// Which way the rows move.
#[derive(Clone, Copy, Debug, PartialEq, Eq, Structural)]
pub enum Direction {
    /// The last rows come to the front.
    Up,
    /// The first rows go to the back.
    Down,
}

/// The two panes as mathematical sequences of row texts.
pub struct Rows {
    /// The hex pane, one text per row.
    pub hex: Seq<Seq<char>>,
    /// The ASCII pane, one text per row.
    pub ascii: Seq<Seq<char>>,
}

impl Rows {
    /// No rows in either pane.
    pub open spec fn empty() -> Rows {
        Rows { hex: Seq::empty(), ascii: Seq::empty() }
    }

    /// The panes of a buffer as the formatter lays them out.
    pub open spec fn of_bytes(bytes: Seq<u8>) -> Rows {
        Rows { hex: hex_pane(bytes), ascii: ascii_pane(bytes) }
    }

    /// Both panes have the same number of rows, and row for row the hex text
    /// and the ASCII text render the same bytes.
    pub open spec fn in_step(self) -> bool {
        &&& self.hex.len() == self.ascii.len()
        &&& forall|i: int| 0 <= i < self.hex.len() ==> paired(#[trigger] self.hex[i], self.ascii[i])
    }

    /// Both panes with their last `n` rows moved to the front.
    pub open spec fn shifted_up(self, n: nat) -> Rows {
        Rows { hex: rotated_up(self.hex, n), ascii: rotated_up(self.ascii, n) }
    }

    /// Both panes with their first `n` rows moved to the back.
    pub open spec fn shifted_down(self, n: nat) -> Rows {
        Rows { hex: rotated_down(self.hex, n), ascii: rotated_down(self.ascii, n) }
    }

    /// Both panes shifted by `n` rows in the given direction.
    pub open spec fn shifted(self, direction: Direction, n: nat) -> Rows {
        match direction {
            Direction::Up => self.shifted_up(n),
            Direction::Down => self.shifted_down(n),
        }
    }

    /// Both panes after a run of shifts, applied first to last.
    pub open spec fn shifted_all(self, shifts: Seq<(Direction, nat)>) -> Rows
        decreases shifts.len(),
    {
        if shifts.len() == 0 {
            self
        } else {
            self.shifted_all(shifts.drop_last()).shifted(shifts.last().0, shifts.last().1)
        }
    }

    /// These rows are those of `base` in the order in which `base` has them,
    /// counted round the end, started at some row.
    pub open spec fn turned_from(self, base: Rows) -> bool {
        exists|k: nat| self == #[trigger] base.shifted_down(k)
    }
}

/// Rotating keeps the length.
pub proof fn lemma_rotation_len<T>(s: Seq<T>, n: nat)
    ensures
        rotated_up(s, n).len() == s.len(),
        rotated_down(s, n).len() == s.len(),
{
}

/// Where each item goes: after rotating down by `n`, place `i` holds what
/// stood `n` places further on, counted round the end; after rotating up,
/// what stood `n` places before.
pub proof fn lemma_rotation_index<T>(s: Seq<T>, n: nat, i: int)
    requires
        0 <= i < s.len(),
    ensures
        rotated_down(s, n)[i] == s[(i + n) % (s.len() as int)],
        rotated_up(s, n)[i] == s[(i - n) % (s.len() as int)],
{
    let len = s.len() as int;
    let k = n as int % len;
    lemma_add_mod_noop_right(i, n as int, len);
    lemma_sub_mod_noop_right(i, n as int, len);
    if i + k < len {
        lemma_small_mod((i + k) as nat, len as nat);
    } else {
        lemma_mod_add_multiples_vanish(i + k - len, len);
        lemma_small_mod((i + k - len) as nat, len as nat);
    }
    if i - k >= 0 {
        lemma_small_mod((i - k) as nat, len as nat);
    } else {
        lemma_mod_add_multiples_vanish(i - k, len);
        lemma_small_mod((i - k + len) as nat, len as nat);
    }
}

/// A sequence of at most one item is not changed by any rotation.
pub proof fn lemma_rotation_of_short<T>(s: Seq<T>, n: nat)
    requires
        s.len() <= 1,
    ensures
        rotated_up(s, n) == s,
        rotated_down(s, n) == s,
{
}

/// Rotating by nothing changes nothing.
pub proof fn lemma_rotation_by_zero<T>(s: Seq<T>)
    ensures
        rotated_up(s, 0) == s,
        rotated_down(s, 0) == s,
{
}

/// Rotating up by `n` and then down by `n` gives the sequence back, and so
/// does down and then up. This holds of every `n`, not only of those below
/// the length.
pub proof fn lemma_rotation_round_trip<T>(s: Seq<T>, n: nat)
    ensures
        rotated_down(rotated_up(s, n), n) == s,
        rotated_up(rotated_down(s, n), n) == s,
{
}

/// Rotating by the sequence's own length, in either direction, changes nothing.
pub proof fn lemma_rotation_full_turn<T>(s: Seq<T>)
    ensures
        rotated_up(s, s.len()) == s,
        rotated_down(s, s.len()) == s,
{
}

/// Two rotations in one direction are one rotation by the sum of the amounts.
pub proof fn lemma_rotations_add_up<T>(s: Seq<T>, a: nat, b: nat)
    ensures
        rotated_down(rotated_down(s, a), b) == rotated_down(s, a + b),
        rotated_up(rotated_up(s, a), b) == rotated_up(s, a + b),
{
    if s.len() > 0 {
        let len = s.len() as int;
        assert forall|i: int| 0 <= i < len implies rotated_down(rotated_down(s, a), b)[i]
            == rotated_down(s, a + b)[i] by {
            lemma_rotation_index(rotated_down(s, a), b, i);
            lemma_rotation_index(s, a, (i + b) % len);
            lemma_rotation_index(s, a + b, i);
            lemma_add_mod_noop_right(a as int, i + b, len);
        }
        assert forall|i: int| 0 <= i < len implies rotated_up(rotated_up(s, a), b)[i]
            == rotated_up(s, a + b)[i] by {
            lemma_rotation_index(rotated_up(s, a), b, i);
            lemma_rotation_index(s, a, (i - b) % len);
            lemma_rotation_index(s, a + b, i);
            lemma_sub_mod_noop(i - b, a as int, len);
            lemma_sub_mod_noop_right((i - b) % len, a as int, len);
        }
    }
}

/// Rotating up is rotating down the rest of the way round.
pub proof fn lemma_rotation_up_as_down<T>(s: Seq<T>, n: nat)
    ensures
        rotated_up(s, n) == rotated_down(s, opposite_amount(s.len(), n)),
{
    if s.len() > 0 {
        let len = s.len() as int;
        if n as int % len == 0 {
            lemma_mod_self_0(len);
        } else {
            lemma_small_mod((len - n as int % len) as nat, len as nat);
        }
    }
}

/// A formatted buffer is in step: the panes are equally long, with one row
/// for every sixteen bytes begun, and row `i` of each renders the same bytes.
pub proof fn lemma_formatted_rows_in_step(bytes: Seq<u8>)
    ensures
        Rows::of_bytes(bytes).in_step(),
        Rows::of_bytes(bytes).hex.len() == row_count(bytes.len()),
        Rows::of_bytes(bytes).ascii.len() == row_count(bytes.len()),
{
}

/// One shift never takes the panes out of step, whatever the amount and
/// whichever the direction: the number of rows stays what it was in both
/// panes, and each hex row keeps the ASCII row that renders the same bytes
/// beside it.
pub proof fn lemma_shift_keeps_in_step(rows: Rows, direction: Direction, n: nat)
    requires
        rows.in_step(),
    ensures
        rows.shifted(direction, n).in_step(),
        rows.shifted(direction, n).hex.len() == rows.hex.len(),
        rows.shifted(direction, n).ascii.len() == rows.ascii.len(),
{
}

/// No run of shifts, however long, takes the panes out of step.
pub proof fn lemma_shifts_keep_in_step(rows: Rows, shifts: Seq<(Direction, nat)>)
    requires
        rows.in_step(),
    ensures
        rows.shifted_all(shifts).in_step(),
        rows.shifted_all(shifts).hex.len() == rows.hex.len(),
        rows.shifted_all(shifts).ascii.len() == rows.ascii.len(),
    decreases shifts.len(),
{
    if shifts.len() > 0 {
        lemma_shifts_keep_in_step(rows, shifts.drop_last());
    }
}

/// The rows of any buffer, formatted and then shifted in any way, are in
/// step: the panes are equally long and row for row show the same bytes.
pub proof fn lemma_buffer_rows_stay_in_step(bytes: Seq<u8>, shifts: Seq<(Direction, nat)>)
    ensures
        Rows::of_bytes(bytes).shifted_all(shifts).in_step(),
        Rows::of_bytes(bytes).shifted_all(shifts).hex.len() == row_count(bytes.len()),
        Rows::of_bytes(bytes).shifted_all(shifts).ascii.len() == row_count(bytes.len()),
{
    lemma_shifts_keep_in_step(Rows::of_bytes(bytes), shifts);
}

/// A shift up followed by a shift down of the same amount restores both
/// panes exactly, and so does a shift down followed by a shift up.
pub proof fn lemma_shift_round_trip(rows: Rows, n: nat)
    ensures
        rows.shifted_up(n).shifted_down(n) == rows,
        rows.shifted_down(n).shifted_up(n) == rows,
{
    lemma_rotation_round_trip(rows.hex, n);
    lemma_rotation_round_trip(rows.ascii, n);
}

/// Shifting by the number of rows, in either direction, restores both panes.
pub proof fn lemma_shift_full_turn(rows: Rows)
    requires
        rows.hex.len() == rows.ascii.len(),
    ensures
        rows.shifted_up(rows.hex.len()) == rows,
        rows.shifted_down(rows.hex.len()) == rows,
{
    lemma_rotation_full_turn(rows.hex);
    lemma_rotation_full_turn(rows.ascii);
}

/// Shifts change nothing where there is at most one row.
pub proof fn lemma_shift_of_short(rows: Rows, direction: Direction, n: nat)
    requires
        rows.hex.len() <= 1,
        rows.ascii.len() <= 1,
    ensures
        rows.shifted(direction, n) == rows,
{
    lemma_rotation_of_short(rows.hex, n);
    lemma_rotation_of_short(rows.ascii, n);
}

/// Two shifts in one direction are one shift by the sum of the amounts, so
/// as many single steps as there are rows come back to where they started.
pub proof fn lemma_shifts_add_up(rows: Rows, a: nat, b: nat)
    ensures
        rows.shifted_down(a).shifted_down(b) == rows.shifted_down(a + b),
        rows.shifted_up(a).shifted_up(b) == rows.shifted_up(a + b),
{
    lemma_rotations_add_up(rows.hex, a, b);
    lemma_rotations_add_up(rows.ascii, a, b);
}

/// `count` shifts by one row each, all in one direction.
pub open spec fn single_steps(direction: Direction, count: nat) -> Seq<(Direction, nat)> {
    Seq::new(count, |i: int| (direction, 1nat))
}

/// Scrolling row by row goes round in a circle: `count` single steps in one
/// direction are one shift by `count`, and as many steps as there are rows
/// bring every row back to where it stood.
pub proof fn lemma_single_steps_come_round(rows: Rows, direction: Direction, count: nat)
    requires
        rows.hex.len() == rows.ascii.len(),
    ensures
        rows.shifted_all(single_steps(direction, count)) == rows.shifted(direction, count),
        count == rows.hex.len() ==> rows.shifted_all(single_steps(direction, count)) == rows,
    decreases count,
{
    if count > 0 {
        let before = (count - 1) as nat;
        lemma_single_steps_come_round(rows, direction, before);
        assert(single_steps(direction, count).drop_last() =~= single_steps(direction, before));
        lemma_shifts_add_up(rows, before, 1);
    }
    lemma_shift_full_turn(rows);
}

/// Rows that were not shifted stand in their own order.
pub proof fn lemma_unshifted_is_turned(base: Rows)
    ensures
        base.turned_from(base),
{
    lemma_rotation_by_zero(base.hex);
    lemma_rotation_by_zero(base.ascii);
    assert(base == base.shifted_down(0));
}

/// A shift changes where the rows start and nothing else: rows that stand in
/// the order of `base` still do after a shift by any amount in either
/// direction.
pub proof fn lemma_shift_keeps_order(rows: Rows, base: Rows, direction: Direction, n: nat)
    requires
        base.hex.len() == base.ascii.len(),
        rows.turned_from(base),
    ensures
        rows.shifted(direction, n).turned_from(base),
{
    let k = choose|k: nat| rows == #[trigger] base.shifted_down(k);
    match direction {
        Direction::Down => {
            lemma_shifts_add_up(base, k, n);
        },
        Direction::Up => {
            let m = opposite_amount(rows.hex.len(), n);
            lemma_rotation_up_as_down(rows.hex, n);
            lemma_rotation_up_as_down(rows.ascii, n);
            lemma_shifts_add_up(base, k, m);
        },
    }
}

/// Moves the first `k` items of `v` behind the others, keeping the order
/// within both parts.
fn rotate_left<T>(v: &mut Vec<T>, k: usize)
    requires
        k <= old(v)@.len(),
    ensures
        final(v)@ == old(v)@.subrange(k as int, old(v)@.len() as int) + old(v)@.subrange(
            0,
            k as int,
        ),
{
    let mut turned = v.split_off(k);
    turned.append(v);
    v.append(&mut turned);
}

/// The hex pane and the ASCII pane of one buffer. The two are always in
/// step: no operation moves a row of one pane without the same row of the
/// other.
pub struct RowStore {
    hex: Vec<String>,
    ascii: Vec<String>,
}

impl View for RowStore {
    type V = Rows;

    closed spec fn view(&self) -> Rows {
        Rows { hex: self.hex.deep_view(), ascii: self.ascii.deep_view() }
    }
}

impl RowStore {
    #[verifier::type_invariant]
    spec fn inv(self) -> bool {
        self@.in_step()
    }

    /// A store with no rows.
    pub fn new() -> (store: RowStore)
        ensures
            store@ == Rows::empty(),
            store@.in_step(),
    {
        let store = RowStore { hex: Vec::new(), ascii: Vec::new() };
        assert(store@.hex =~= Seq::empty() && store@.ascii =~= Seq::empty());
        store
    }

    /// The store of a buffer: its rows as the formatter lays them out, not yet
    /// shifted.
    pub fn from_bytes(bytes: &[u8]) -> (store: RowStore)
        ensures
            store@ == Rows::of_bytes(bytes@),
            store@.hex.len() == row_count(bytes@.len()),
            store@.ascii.len() == row_count(bytes@.len()),
            store@.in_step(),
    {
        let (hex, ascii) = format_rows(bytes);
        RowStore { hex, ascii }
    }

    /// A store of rows that were laid out elsewhere. The panes must be in step.
    pub fn from_rows(hex: Vec<String>, ascii: Vec<String>) -> (store: RowStore)
        requires
            (Rows { hex: hex.deep_view(), ascii: ascii.deep_view() }).in_step(),
        ensures
            store@ == (Rows { hex: hex.deep_view(), ascii: ascii.deep_view() }),
            store@.in_step(),
    {
        RowStore { hex, ascii }
    }

    /// Number of rows, the same in both panes.
    pub fn len(&self) -> (n: usize)
        ensures
            n == self@.hex.len(),
            n == self@.ascii.len(),
    {
        proof {
            use_type_invariant(self);
        }
        self.hex.len()
    }

    /// Whether there is no row at all.
    pub fn is_empty(&self) -> (empty: bool)
        ensures
            empty == (self@.hex.len() == 0),
            empty == (self@.ascii.len() == 0),
    {
        proof {
            use_type_invariant(self);
        }
        self.hex.len() == 0
    }

    /// The hex pane in its current order.
    pub fn hex_rows(&self) -> (rows: &Vec<String>)
        ensures
            rows.deep_view() == self@.hex,
            rows.len() == self@.hex.len(),
            forall|i: int| 0 <= i < rows.len() ==> (#[trigger] rows[i])@ == self@.hex[i],
            self@.in_step(),
    {
        proof {
            use_type_invariant(self);
        }
        &self.hex
    }

    /// The ASCII pane in its current order.
    pub fn ascii_rows(&self) -> (rows: &Vec<String>)
        ensures
            rows.deep_view() == self@.ascii,
            rows.len() == self@.ascii.len(),
            forall|i: int| 0 <= i < rows.len() ==> (#[trigger] rows[i])@ == self@.ascii[i],
            self@.in_step(),
    {
        proof {
            use_type_invariant(self);
        }
        &self.ascii
    }

    /// Scrolls by `n` rows in the given direction. Both panes are rotated
    /// here and nowhere else. The amount is taken modulo the number of rows,
    /// so zero and whole turns change nothing, nor does any amount on a store
    /// of at most one row.
    pub fn shift(&mut self, direction: Direction, n: usize)
        ensures
            final(self)@ == old(self)@.shifted(direction, n as nat),
            final(self)@.hex.len() == old(self)@.hex.len(),
            final(self)@.ascii.len() == old(self)@.ascii.len(),
            final(self)@.in_step(),
    {
        proof {
            use_type_invariant(&*self);
        }
        let len = self.hex.len();
        if len == 0 {
            return ;
        }
        let k = match direction {
            Direction::Up => len - n % len,
            Direction::Down => n % len,
        };
        let mut taken = RowStore::new();
        core::mem::swap(self, &mut taken);
        let RowStore { mut hex, mut ascii } = taken;
        rotate_left(&mut hex, k);
        rotate_left(&mut ascii, k);
        proof {
            let after = old(self)@.shifted(direction, n as nat);
            assert(hex.deep_view() =~= after.hex);
            assert(ascii.deep_view() =~= after.ascii);
        }
        *self = RowStore { hex, ascii };
    }

    /// Scrolls up by `n` rows: the last `n` rows of both panes move to the
    /// front.
    pub fn shift_up(&mut self, n: usize)
        ensures
            final(self)@ == old(self)@.shifted_up(n as nat),
            final(self)@.hex.len() == old(self)@.hex.len(),
            final(self)@.ascii.len() == old(self)@.ascii.len(),
            final(self)@.in_step(),
    {
        self.shift(Direction::Up, n);
    }

    /// Scrolls down by `n` rows: the first `n` rows of both panes move to the
    /// back.
    pub fn shift_down(&mut self, n: usize)
        ensures
            final(self)@ == old(self)@.shifted_down(n as nat),
            final(self)@.hex.len() == old(self)@.hex.len(),
            final(self)@.ascii.len() == old(self)@.ascii.len(),
            final(self)@.in_step(),
    {
        self.shift(Direction::Down, n);
    }
}

} // verus!

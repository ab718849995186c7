//! Round-robin choice of the next healthy backend.
//!
//! The selector keeps a cursor into the pool. A selection scans the pool
//! from the cursor, going round at most once, and takes the first member
//! that is `Healthy` at that moment; the cursor then moves to the place
//! after the member taken. With no healthy member the selection is
//! [`Selection::Unavailable`] and the cursor stays.

use crate::pool::{health_flags, BackendPool};
use vstd::arithmetic::div_mod::{
    lemma_add_mod_noop,
    lemma_mod_add_multiples_vanish,
    lemma_mod_pos_bound,
    lemma_mod_self_0,
    lemma_mod_twice,
    lemma_small_mod,
};
use vstd::prelude::*;

verus! {

/// The outcome of one selection.
#[derive(Clone, Copy, Debug, PartialEq, Eq, Structural)]
pub enum Selection {
    /// The pool member, by its index in pool order, that takes this turn.
    Backend(usize),
    /// No member of the pool is healthy.
    Unavailable,
}

impl View for Selection {
    type V = Option<int>;

    open spec fn view(&self) -> Option<int> {
        match self {
            Selection::Backend(index) => Some(*index as int),
            Selection::Unavailable => None,
        }
    }
}

/// The index reached `step` places after `start` in a ring of `len` places.
pub open spec fn ring_index(start: int, step: int, len: int) -> int {
    (start + step) % len
}

/// The number of steps from place `from` to place `to`, going round a
/// ring of `len` places in pool order.
pub open spec fn ring_distance(from: int, to: int, len: int) -> int {
    if to >= from {
        to - from
    } else {
        to - from + len
    }
}

/// The scan from `start` meets its first healthy member after passing
/// exactly `offset` unhealthy ones, without completing the round.
pub open spec fn first_healthy_at(healthy: Seq<bool>, start: int, offset: int) -> bool {
    &&& 0 <= offset < healthy.len()
    &&& healthy[ring_index(start, offset, healthy.len() as int)]
    &&& forall|j: int|
        0 <= j < offset ==> !healthy[#[trigger] ring_index(start, j, healthy.len() as int)]
}

/// The member that a selection takes when the cursor stands at `cursor`
/// and `healthy` tells, in pool order, which members are healthy: the
/// first healthy one at or after the cursor in ring order, if there is one.
pub open spec fn pick(healthy: Seq<bool>, cursor: int) -> Option<int> {
    let len = healthy.len() as int;
    let start = cursor % len;
    if len > 0 && exists|k: int| first_healthy_at(healthy, start, k) {
        Some(ring_index(start, choose|k: int| first_healthy_at(healthy, start, k), len))
    } else {
        None
    }
}

/// Where the cursor stands after that selection: one past the member
/// taken, or unmoved when none was.
pub open spec fn next_cursor(healthy: Seq<bool>, cursor: int) -> int {
    match pick(healthy, cursor) {
        Some(index) => (index + 1) % (healthy.len() as int),
        None => cursor,
    }
}

/// Where the cursor stands after `calls` selections in a row on a pool
/// whose health does not change meanwhile.
pub open spec fn cursor_after(healthy: Seq<bool>, cursor: int, calls: nat) -> int
    decreases calls,
{
    if calls == 0 {
        cursor
    } else {
        next_cursor(healthy, cursor_after(healthy, cursor, (calls - 1) as nat))
    }
}

/// What the selection after `turn` earlier ones returns, on a pool whose
/// health does not change meanwhile.
pub open spec fn nth_pick(healthy: Seq<bool>, cursor: int, turn: nat) -> Option<int> {
    pick(healthy, cursor_after(healthy, cursor, turn))
}

/// Every member is healthy.
pub open spec fn all_healthy(healthy: Seq<bool>) -> bool {
    forall|i: int| 0 <= i < healthy.len() ==> healthy[i]
}

/// No member is healthy.
pub open spec fn none_healthy(healthy: Seq<bool>) -> bool {
    forall|i: int| 0 <= i < healthy.len() ==> !healthy[i]
}

/// Within one round the ring index is the plain sum, reduced once.
pub proof fn lemma_ring_index_in_round(start: int, step: int, len: int)
    requires
        0 <= start < len,
        0 <= step < len,
    ensures
        ring_index(start, step, len) == if start + step < len {
            start + step
        } else {
            start + step - len
        },
        0 <= ring_index(start, step, len) < len,
{
    if start + step < len {
        lemma_small_mod((start + step) as nat, len as nat);
    } else {
        lemma_small_mod((start + step - len) as nat, len as nat);
        lemma_mod_add_multiples_vanish(start + step - len, len);
    }
}

/// One round from any start visits every place: place `index` is reached
/// after as many steps as it is distant from the start.
pub proof fn lemma_ring_reaches(start: int, index: int, len: int) -> (step: int)
    requires
        0 <= start < len,
        0 <= index < len,
    ensures
        0 <= step < len,
        ring_index(start, step, len) == index,
        step == ring_distance(start, index, len),
{
    let step = ring_distance(start, index, len);
    lemma_ring_index_in_round(start, step, len);
    step
}

/// The scan has one first healthy member at most.
pub proof fn lemma_first_healthy_unique(healthy: Seq<bool>, start: int, a: int, b: int)
    requires
        first_healthy_at(healthy, start, a),
        first_healthy_at(healthy, start, b),
    ensures
        a == b,
{
    if a < b {
        assert(!healthy[ring_index(start, a, healthy.len() as int)]);
    } else if b < a {
        assert(!healthy[ring_index(start, b, healthy.len() as int)]);
    }
}

/// If the scan from the cursor meets its first healthy member at `offset`,
/// that member is the one picked.
pub proof fn lemma_pick_hit(healthy: Seq<bool>, cursor: int, offset: int)
    requires
        healthy.len() > 0,
        first_healthy_at(healthy, cursor % (healthy.len() as int), offset),
    ensures
        pick(healthy, cursor) == Some(
            ring_index(cursor % (healthy.len() as int), offset, healthy.len() as int),
        ),
{
    let start = cursor % (healthy.len() as int);
    let chosen = choose|k: int| first_healthy_at(healthy, start, k);
    lemma_first_healthy_unique(healthy, start, chosen, offset);
}

/// If some member within `bound` steps of `start` is healthy, the scan has
/// a first healthy member.
proof fn lemma_scan_finds(healthy: Seq<bool>, start: int, bound: int) -> (offset: int)
    requires
        0 <= bound < healthy.len(),
        healthy[ring_index(start, bound, healthy.len() as int)],
    ensures
        first_healthy_at(healthy, start, offset),
        offset <= bound,
    decreases bound,
{
    let len = healthy.len() as int;
    if exists|j: int| 0 <= j < bound && healthy[#[trigger] ring_index(start, j, len)] {
        let j = choose|j: int| 0 <= j < bound && healthy[#[trigger] ring_index(start, j, len)];
        lemma_scan_finds(healthy, start, j)
    } else {
        bound
    }
}

/// What is picked is a healthy member of the pool, and the first one that
/// the scan from the cursor meets: every member between the cursor and it,
/// in ring order, is unhealthy. Nothing is picked only if no member is
/// healthy.
pub proof fn lemma_pick_sound(healthy: Seq<bool>, cursor: int)
    ensures
        match pick(healthy, cursor) {
            Some(index) => {
                let start = cursor % (healthy.len() as int);
                &&& 0 <= index < healthy.len()
                &&& healthy[index]
                &&& first_healthy_at(
                    healthy,
                    start,
                    ring_distance(start, index, healthy.len() as int),
                )
            },
            None => none_healthy(healthy),
        },
{
    let len = healthy.len() as int;
    if len > 0 {
        let start = cursor % len;
        lemma_mod_bound_any(cursor, len);
        match pick(healthy, cursor) {
            Some(index) => {
                let k = choose|k: int| first_healthy_at(healthy, start, k);
                lemma_ring_index_in_round(start, k, len);
            },
            None => {
                assert forall|i: int| 0 <= i < len implies !healthy[i] by {
                    if healthy[i] {
                        let step = lemma_ring_reaches(start, i, len);
                        let offset = lemma_scan_finds(healthy, start, step);
                        assert(false);
                    }
                }
            },
        }
    }
}

/// A remainder by a positive modulus lies in `0..len`, for any dividend.
proof fn lemma_mod_bound_any(x: int, len: int)
    requires
        len > 0,
    ensures
        0 <= x % len < len,
{
    vstd::arithmetic::div_mod::lemma_mod_bound(x, len);
}

/// A healthy member at the cursor is the one picked, and the cursor then
/// advances by exactly one place.
pub proof fn lemma_pick_at_cursor(healthy: Seq<bool>, cursor: int)
    requires
        healthy.len() > 0,
        cursor >= 0,
        healthy[cursor % (healthy.len() as int)],
    ensures
        pick(healthy, cursor) == Some(cursor % (healthy.len() as int)),
        next_cursor(healthy, cursor) == (cursor + 1) % (healthy.len() as int),
{
    let len = healthy.len() as int;
    let start = cursor % len;
    lemma_mod_pos_bound(cursor, len);
    lemma_ring_index_in_round(start, 0, len);
    assert(first_healthy_at(healthy, start, 0));
    lemma_pick_hit(healthy, cursor, 0);
    lemma_add_mod_noop(cursor, 1, len);
    lemma_add_mod_noop(start, 1, len);
    lemma_mod_twice(cursor, len);
}

/// Skipping the unhealthy: while the health of the pool does not change,
/// no selection, however many came before it, returns a member that is
/// not healthy.
pub proof fn lemma_skips_unhealthy(healthy: Seq<bool>, cursor: int, turn: nat, backend: int)
    requires
        0 <= backend < healthy.len(),
        !healthy[backend],
    ensures
        nth_pick(healthy, cursor, turn) != Some(backend),
{
    lemma_pick_sound(healthy, cursor_after(healthy, cursor, turn));
}

/// With no healthy member every selection is `Unavailable` and the cursor
/// never moves.
pub proof fn lemma_none_healthy_unavailable(healthy: Seq<bool>, cursor: int, turn: nat)
    requires
        none_healthy(healthy),
    ensures
        nth_pick(healthy, cursor, turn) is None,
        cursor_after(healthy, cursor, turn) == cursor,
    decreases turn,
{
    if turn > 0 {
        lemma_none_healthy_unavailable(healthy, cursor, (turn - 1) as nat);
    }
    lemma_pick_sound(healthy, cursor);
}

/// Round-robin fairness, turn by turn: while every member of a pool of
/// `K` is healthy and no health changes, the selection after `turn`
/// earlier ones returns the member `turn` places after the cursor in pool
/// order, going round.
pub proof fn lemma_fair_turn(healthy: Seq<bool>, cursor: int, turn: nat)
    requires
        healthy.len() > 0,
        all_healthy(healthy),
        cursor >= 0,
    ensures
        nth_pick(healthy, cursor, turn) == Some((cursor + turn) % (healthy.len() as int)),
        cursor_after(healthy, cursor, turn + 1) == (cursor + turn + 1) % (healthy.len() as int),
    decreases turn,
{
    let len = healthy.len() as int;
    let at = cursor_after(healthy, cursor, turn);
    if turn > 0 {
        lemma_fair_turn(healthy, cursor, (turn - 1) as nat);
    }
    // The scan starts at `(cursor + turn) % len` and stops there.
    lemma_mod_pos_bound(cursor + turn, len);
    lemma_mod_twice(cursor + turn, len);
    lemma_pick_at_cursor(healthy, at);
    lemma_add_mod_noop(at, 1, len);
    lemma_add_mod_noop(cursor + turn, 1, len);
}

/// Round-robin fairness over one round: while every member of a pool of
/// `K` is healthy and no health changes, `K` selections in a row return
/// each member exactly once, in pool order starting from the cursor.
///
/// Member `backend` is returned by the selection after `turn` earlier
/// ones, where `turn` is its distance from the cursor in ring order, and by
/// no other of the `K`.
pub proof fn lemma_fair_round(healthy: Seq<bool>, cursor: int, backend: int) -> (turn: nat)
    requires
        all_healthy(healthy),
        cursor >= 0,
        0 <= backend < healthy.len(),
    ensures
        turn < healthy.len(),
        ring_index(cursor % (healthy.len() as int), turn as int, healthy.len() as int) == backend,
        nth_pick(healthy, cursor, turn) == Some(backend),
        forall|other: nat|
            other < healthy.len() && other != turn ==> nth_pick(healthy, cursor, other) != Some(
                backend,
            ),
        cursor_after(healthy, cursor, healthy.len()) == cursor % (healthy.len() as int),
{
    let len = healthy.len() as int;
    let start = cursor % len;
    lemma_mod_pos_bound(cursor, len);
    let step = lemma_ring_reaches(start, backend, len);
    let turn = step as nat;
    lemma_fair_turn(healthy, cursor, turn);
    assert((cursor + turn) % len == backend) by {
        lemma_add_mod_noop(cursor, step, len);
        lemma_small_mod(turn, len as nat);
    }
    assert forall|other: nat| other < healthy.len() && other != turn implies nth_pick(
        healthy,
        cursor,
        other,
    ) != Some(backend) by {
        lemma_fair_turn(healthy, cursor, other);
        lemma_add_mod_noop(cursor, other as int, len);
        lemma_small_mod(other, len as nat);
        lemma_ring_index_in_round(start, other as int, len);
    }
    lemma_fair_turn(healthy, cursor, (len - 1) as nat);
    assert((cursor + len) % len == cursor % len) by {
        lemma_mod_add_multiples_vanish(cursor, len);
    }
    turn
}

/// The round-robin cursor.
#[derive(Debug)]
pub struct Selector {
    cursor: usize,
}

impl View for Selector {
    type V = int;

    closed spec fn view(&self) -> int {
        self.cursor as int
    }
}

impl Selector {
    /// A selector whose first scan starts at the head of the pool.
    pub fn new() -> (selector: Selector)
        ensures
            selector@ == 0,
    {
        Selector { cursor: 0 }
    }

    /// A selector whose first scan starts at place `cursor`, taken modulo
    /// the size of the pool it is used on.
    pub fn starting_at(cursor: usize) -> (selector: Selector)
        ensures
            selector@ == cursor,
    {
        Selector { cursor }
    }

    /// The place at which the next scan starts.
    pub fn cursor(&self) -> (cursor: usize)
        ensures
            cursor == self@,
    {
        self.cursor
    }

    /// Takes the next turn: the first member of `pool`, from the cursor on
    /// and going round once, that is healthy now.
    ///
    /// The cursor moves to the place after the member returned. When no
    /// member is healthy, and only then, the result is `Unavailable` and
    /// the cursor stays. The pool is only read.
    pub fn select(&mut self, pool: &BackendPool) -> (selection: Selection)
        ensures
            selection@ == pick(health_flags(pool@), old(self)@),
            final(self)@ == next_cursor(health_flags(pool@), old(self)@),
            selection matches Selection::Backend(index) ==> {
                let start = old(self)@ % (pool@.len() as int);
                &&& index < pool@.len()
                &&& pool@[index as int].is_healthy()
                &&& first_healthy_at(
                    health_flags(pool@),
                    start,
                    ring_distance(start, index as int, pool@.len() as int),
                )
            },
            selection is Unavailable <==> forall|i: int|
                0 <= i < pool@.len() ==> !(#[trigger] pool@[i]).is_healthy(),
    {
        let n = pool.len();
        let ghost healthy = health_flags(pool@);
        let ghost cursor = self@;
        if n == 0 {
            return Selection::Unavailable;
        }
        let start = self.cursor % n;
        let mut step: usize = 0;
        while step < n
            invariant
                n == pool@.len(),
                n > 0,
                start == cursor % (n as int),
                start < n,
                step <= n,
                healthy == health_flags(pool@),
                cursor == old(self)@,
                self@ == cursor,
                forall|j: int|
                    0 <= j < step ==> !healthy[#[trigger] ring_index(start as int, j, n as int)],
            decreases n - step,
        {
            let index = if step < n - start {
                start + step
            } else {
                step - (n - start)
            };
            proof {
                lemma_ring_index_in_round(start as int, step as int, n as int);
            }
            if pool.is_healthy(index) {
                proof {
                    assert(first_healthy_at(healthy, start as int, step as int));
                    lemma_pick_hit(healthy, cursor, step as int);
                    if index + 1 < n {
                        lemma_small_mod((index + 1) as nat, n as nat);
                    } else {
                        lemma_mod_self_0(n as int);
                    }
                }
                self.cursor = if index + 1 < n {
                    index + 1
                } else {
                    0
                };
                return Selection::Backend(index);
            }
            step += 1;
        }
        proof {
            assert forall|k: int| !first_healthy_at(healthy, start as int, k) by {
                if 0 <= k < n {
                    assert(!healthy[ring_index(start as int, k, n as int)]);
                }
            }
            assert forall|i: int| 0 <= i < pool@.len() implies !(#[trigger] pool@[i]).is_healthy(
            ) by {
                let reached = lemma_ring_reaches(start as int, i, n as int);
                assert(!healthy[ring_index(start as int, reached, n as int)]);
            }
        }
        Selection::Unavailable
    }
}

} // verus!

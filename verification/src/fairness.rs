//! Round-robin fairness among the healthy members of a pool.
//!
//! While the health of the pool does not change, the selections go
//! through the healthy members in ring order and leave none out: if `H`
//! members are healthy, `H` selections in a row return each of them
//! exactly once. [`lemma_fair_among_healthy`] states this; the rest of
//! the module counts healthy members along the way of the cursor.

use crate::selector::{
    cursor_after,
    first_healthy_at,
    lemma_pick_hit,
    lemma_ring_index_in_round,
    lemma_ring_reaches,
    nth_pick,
    pick,
    ring_distance,
    ring_index,
};
use vstd::arithmetic::div_mod::{
    lemma_add_mod_noop,
    lemma_mod_pos_bound,
    lemma_mod_twice,
    lemma_small_mod,
};
use vstd::prelude::*;

verus! {

/// Number of healthy members among the first `upto` of `flags`.
pub open spec fn healthy_before(flags: Seq<bool>, upto: int) -> nat
    decreases upto,
{
    if upto <= 0 {
        0
    } else {
        healthy_before(flags, upto - 1) + if flags[upto - 1] {
            1nat
        } else {
            0nat
        }
    }
}

/// Number of healthy members.
pub open spec fn healthy_count(flags: Seq<bool>) -> nat {
    healthy_before(flags, flags.len() as int)
}

/// The health flags in the order in which one round from `start` meets
/// the members.
pub open spec fn scan_order(healthy: Seq<bool>, start: int) -> Seq<bool> {
    Seq::new(healthy.len(), |j: int| healthy[ring_index(start, j, healthy.len() as int)])
}

/// Number of places that the cursor has moved on in the course of `calls`
/// selections in a row, on a pool whose health does not change meanwhile.
pub open spec fn travelled(healthy: Seq<bool>, cursor: int, calls: nat) -> int
    decreases calls,
{
    if calls == 0 {
        0
    } else {
        let len = healthy.len() as int;
        let before = cursor_after(healthy, cursor, (calls - 1) as nat);
        travelled(healthy, cursor, (calls - 1) as nat) + match pick(healthy, before) {
            Some(index) => ring_distance(before % len, index, len) + 1,
            None => 0,
        }
    }
}

/// A longer prefix holds at least as many healthy members.
proof fn lemma_count_monotone(flags: Seq<bool>, a: int, b: int)
    requires
        a <= b,
    ensures
        healthy_before(flags, a) <= healthy_before(flags, b),
    decreases b - a,
{
    if a < b {
        lemma_count_monotone(flags, a, b - 1);
    }
}

/// A stretch without a healthy member adds nothing to the count.
proof fn lemma_count_gap(flags: Seq<bool>, a: int, b: int)
    requires
        0 <= a <= b,
        forall|j: int| a <= j < b ==> !flags[j],
    ensures
        healthy_before(flags, b) == healthy_before(flags, a),
    decreases b - a,
{
    if a < b {
        lemma_count_gap(flags, a, b - 1);
    }
}

/// Where the count grows there is a healthy member; the result is the
/// first one at or after `a`.
proof fn lemma_count_finds(flags: Seq<bool>, a: int, b: int) -> (j: int)
    requires
        0 <= a <= b,
        healthy_before(flags, a) < healthy_before(flags, b),
    ensures
        a <= j < b,
        flags[j],
        forall|i: int| a <= i < j ==> !flags[i],
    decreases b - a,
{
    if flags[a] {
        a
    } else {
        assert(healthy_before(flags, a + 1) == healthy_before(flags, a));
        lemma_count_finds(flags, a + 1, b)
    }
}

/// Counting along two sequences joined end to end.
proof fn lemma_count_concat(a: Seq<bool>, b: Seq<bool>, upto: int)
    requires
        0 <= upto <= a.len() + b.len(),
    ensures
        healthy_before(a + b, upto) == if upto <= a.len() {
            healthy_before(a, upto)
        } else {
            healthy_count(a) + healthy_before(b, upto - a.len())
        },
    decreases upto,
{
    if upto > 0 {
        lemma_count_concat(a, b, upto - 1);
    }
}

/// A round meets as many healthy members from any start as from the head.
pub proof fn lemma_scan_order_count(healthy: Seq<bool>, start: int)
    requires
        0 <= start < healthy.len(),
    ensures
        healthy_count(scan_order(healthy, start)) == healthy_count(healthy),
{
    let len = healthy.len() as int;
    let head = healthy.subrange(0, start);
    let tail = healthy.subrange(start, len);
    assert(scan_order(healthy, start) =~= tail + head) by {
        assert forall|j: int| 0 <= j < len implies scan_order(healthy, start)[j] == (tail
            + head)[j] by {
            lemma_ring_index_in_round(start, j, len);
        }
    }
    assert(healthy =~= head + tail);
    lemma_count_concat(tail, head, len);
    lemma_count_concat(head, tail, len);
}

/// Going `a` places on and then `b` more is going `a + b` places on.
proof fn lemma_ring_compose(start: int, a: int, b: int, len: int)
    requires
        len > 0,
        0 <= b < len,
    ensures
        ring_index(ring_index(start, a, len), b, len) == ring_index(start, a + b, len),
{
    lemma_add_mod_noop(start + a, b, len);
    lemma_small_mod(b as nat, len as nat);
}

/// The way of the cursor: in the course of `calls` selections, no more
/// than there are healthy members, the cursor moves on by at most one
/// round, passes exactly `calls` healthy members, and the last selection
/// returns the member on the last place passed.
pub proof fn lemma_travel(healthy: Seq<bool>, cursor: int, calls: nat)
    requires
        healthy.len() > 0,
        cursor >= 0,
        calls <= healthy_count(healthy),
    ensures
        ({
            let len = healthy.len() as int;
            let start = cursor % len;
            let order = scan_order(healthy, start);
            let gone = travelled(healthy, cursor, calls);
            let after = cursor_after(healthy, cursor, calls);
            &&& 0 <= gone <= len
            &&& healthy_before(order, gone) == calls
            &&& after >= 0
            &&& after % len == (start + gone) % len
            &&& calls >= 1 ==> {
                &&& gone >= 1
                &&& order[gone - 1]
                &&& nth_pick(healthy, cursor, (calls - 1) as nat) == Some(
                    ring_index(start, gone - 1, len),
                )
            }
        }),
    decreases calls,
{
    let len = healthy.len() as int;
    let start = cursor % len;
    let order = scan_order(healthy, start);
    lemma_mod_pos_bound(cursor, len);
    if calls == 0 {
        lemma_mod_twice(cursor, len);
        lemma_small_mod(start as nat, len as nat);
    } else {
        let earlier = (calls - 1) as nat;
        lemma_travel(healthy, cursor, earlier);
        let gone = travelled(healthy, cursor, earlier);
        let before = cursor_after(healthy, cursor, earlier);
        lemma_scan_order_count(healthy, start);
        // Fewer healthy members are passed than there are: one lies ahead.
        let next = lemma_count_finds(order, gone, len);
        let steps = next - gone;
        let from = before % len;
        lemma_ring_index_in_round(start, gone, len);
        assert(from == ring_index(start, gone, len));
        assert(first_healthy_at(healthy, from, steps)) by {
            lemma_ring_compose(start, gone, steps, len);
            assert(order[next]);
            assert forall|i: int| 0 <= i < steps implies !healthy[#[trigger] ring_index(
                from,
                i,
                len,
            )] by {
                lemma_ring_compose(start, gone, i, len);
                assert(!order[gone + i]);
            }
        }
        lemma_pick_hit(healthy, before, steps);
        lemma_ring_compose(start, gone, steps, len);
        let index = ring_index(start, next, len);
        assert(pick(healthy, before) == Some(index));
        lemma_ring_index_in_round(from, steps, len);
        assert(ring_distance(from, index, len) == steps);
        assert(travelled(healthy, cursor, calls) == next + 1);
        lemma_count_gap(order, gone, next);
        assert(healthy_before(order, next + 1) == calls);
        lemma_ring_index_in_round(start, next, len);
        assert(cursor_after(healthy, cursor, calls) == (index + 1) % len);
        assert(cursor_after(healthy, cursor, calls) % len == (start + next + 1) % len) by {
            lemma_mod_pos_bound(index + 1, len);
            lemma_mod_twice(index + 1, len);
            lemma_small_mod(index as nat, len as nat);
            lemma_add_mod_noop(index, 1, len);
            lemma_add_mod_noop(start + next, 1, len);
            lemma_mod_twice(start + next, len);
        }
        lemma_mod_pos_bound(index + 1, len);
    }
}

/// Fairness among the healthy: while the health of the pool does not
/// change, as many selections in a row as there are healthy members
/// return each healthy member exactly once, in ring order from the
/// cursor.
///
/// The healthy member `backend` is returned by the selection after `turn`
/// earlier ones, where `turn` is the number of healthy members that the
/// scan from the cursor meets before it, and by no other of these
/// selections.
pub proof fn lemma_fair_among_healthy(healthy: Seq<bool>, cursor: int, backend: int) -> (turn: nat)
    requires
        cursor >= 0,
        0 <= backend < healthy.len(),
        healthy[backend],
    ensures
        ({
            let len = healthy.len() as int;
            let start = cursor % len;
            turn == healthy_before(scan_order(healthy, start), ring_distance(start, backend, len))
        }),
        turn < healthy_count(healthy),
        nth_pick(healthy, cursor, turn) == Some(backend),
        forall|other: nat|
            other < healthy_count(healthy) && other != turn ==> nth_pick(healthy, cursor, other)
                != Some(backend),
{
    let len = healthy.len() as int;
    let start = cursor % len;
    let order = scan_order(healthy, start);
    lemma_mod_pos_bound(cursor, len);
    let place = lemma_ring_reaches(start, backend, len);
    let turn = healthy_before(order, place);
    assert(order[place]);
    assert(healthy_before(order, place + 1) == turn + 1);
    lemma_scan_order_count(healthy, start);
    lemma_count_monotone(order, place + 1, len);
    lemma_travel(healthy, cursor, turn + 1);
    let gone = travelled(healthy, cursor, turn + 1);
    assert(gone - 1 == place) by {
        if gone - 1 < place {
            lemma_count_monotone(order, gone, place);
        } else if gone - 1 > place {
            lemma_count_monotone(order, place + 1, gone - 1);
            assert(healthy_before(order, gone) == healthy_before(order, gone - 1) + 1);
        }
    }
    assert forall|other: nat|
        other < healthy_count(healthy) && other != turn implies nth_pick(healthy, cursor, other)
        != Some(backend) by {
        lemma_travel(healthy, cursor, other + 1);
        let there = travelled(healthy, cursor, other + 1);
        assert(there != gone);
        lemma_ring_index_in_round(start, there - 1, len);
        lemma_ring_index_in_round(start, place, len);
    }
    turn
}

} // verus!

//! A bounded stack that overwrites its oldest element when it is full.
//!
//! Positions in the ring are "stamps": a single integer whose low bits are the
//! index of a slot and whose high bits count laps around the ring. One lap is
//! the smallest power of two greater than the capacity.

use core::ops::ControlFlow;
use vstd::prelude::*;

verus! {

/// `one_lap` is a nonzero power of two.
pub open spec fn is_lap_size(one_lap: u64) -> bool {
    one_lap != 0 && one_lap & ((one_lap - 1) as u64) == 0
}

/// The slot index encoded in the low bits of a stamp.
pub open spec fn index_bits(value: u64, one_lap: u64) -> u64 {
    value & ((one_lap - 1) as u64)
}

/// The lap encoded in the high bits of a stamp.
pub open spec fn lap_bits(value: u64, one_lap: u64) -> u64 {
    value & !((one_lap - 1) as u64)
}

/// The stamp one slot further: the next index, or index 0 of the next lap.
pub open spec fn next_value(value: u64, one_lap: u64, cap: u64) -> u64 {
    if index_bits(value, one_lap) + 1 < cap {
        (value + 1) as u64
    } else {
        (lap_bits(value, one_lap) + one_lap) as u64
    }
}

/// The stamp one slot back: the previous index, or the last index of the previous lap.
pub open spec fn prev_value(value: u64, one_lap: u64, cap: u64) -> u64 {
    if index_bits(value, one_lap) > 0 {
        (value - 1) as u64
    } else {
        ((lap_bits(value, one_lap) - one_lap) as u64) | ((cap - 1) as u64)
    }
}

/// A ring of `cap` slots addressed with laps of size `one_lap`.
pub open spec fn ring_params(one_lap: u64, cap: u64) -> bool {
    is_lap_size(one_lap) && 0 < cap && cap < one_lap
}

/// A stamp that addresses one of the `cap` slots.
pub open spec fn is_valid_stamp(value: u64, one_lap: u64, cap: u64) -> bool {
    ring_params(one_lap, cap) && index_bits(value, one_lap) < cap
}

/// Facts about the decomposition of a stamp into lap and index.
pub proof fn lemma_stamp_parts(v: u64, one_lap: u64)
    requires
        is_lap_size(one_lap),
    ensures
        index_bits(v, one_lap) < one_lap,
        lap_bits(v, one_lap) + index_bits(v, one_lap) == v,
        index_bits(lap_bits(v, one_lap), one_lap) == 0,
        (lap_bits(v, one_lap) + one_lap) as u64 != lap_bits(v, one_lap),
        index_bits((lap_bits(v, one_lap) + one_lap) as u64, one_lap) == 0,
        ((((lap_bits(v, one_lap) + one_lap) as u64) - one_lap) as u64) == lap_bits(v, one_lap),
        lap_bits(v, one_lap) + (one_lap - 1) <= u64::MAX,
{
    let m = (one_lap - 1) as u64;
    let i = v & m;
    let l = v & !m;
    assert(i < one_lap) by (bit_vector)
        requires
            one_lap != 0,
            m == (one_lap - 1) as u64,
            i == v & m,
    ;
    assert(l + i == v) by (bit_vector)
        requires
            m == (one_lap - 1) as u64,
            i == v & m,
            l == v & !m,
    ;
    assert(l & m == 0) by (bit_vector)
        requires
            l == v & !m,
    ;
    assert((l + one_lap) as u64 != l) by (bit_vector)
        requires
            one_lap != 0,
    ;
    assert(((l + one_lap) as u64) & m == 0) by (bit_vector)
        requires
            one_lap != 0,
            one_lap & m == 0,
            m == (one_lap - 1) as u64,
            l == v & !m,
    ;
    assert(((((l + one_lap) as u64) - one_lap) as u64) == l) by (bit_vector);
    assert(l + m <= 0xffff_ffff_ffff_ffffu64) by (bit_vector)
        requires
            l == v & !m,
    ;
}

/// Wrapping arithmetic on `u64` is arithmetic modulo 2^64.
pub proof fn lemma_wrapping(x: u64, y: u64)
    ensures
        x.wrapping_add(y) == (x + y) as u64,
        x.wrapping_sub(y) == (x - y) as u64,
{
    assert(x.wrapping_add(y) == (x + y) as u64) by (bit_vector);
    assert(x.wrapping_sub(y) == (x - y) as u64) by (bit_vector);
}

/// Two stamps with the same lap and the same index are equal.
pub proof fn lemma_stamp_eq(a: u64, b: u64, one_lap: u64)
    requires
        is_lap_size(one_lap),
        lap_bits(a, one_lap) == lap_bits(b, one_lap),
        index_bits(a, one_lap) == index_bits(b, one_lap),
    ensures
        a == b,
{
    lemma_stamp_parts(a, one_lap);
    lemma_stamp_parts(b, one_lap);
}

/// How `next_value` moves the index and the lap of a valid stamp.
pub proof fn lemma_next_parts(v: u64, one_lap: u64, cap: u64)
    requires
        is_valid_stamp(v, one_lap, cap),
    ensures
        is_valid_stamp(next_value(v, one_lap, cap), one_lap, cap),
        index_bits(v, one_lap) + 1 < cap ==> index_bits(next_value(v, one_lap, cap), one_lap)
            == index_bits(v, one_lap) + 1 && lap_bits(next_value(v, one_lap, cap), one_lap)
            == lap_bits(v, one_lap),
        index_bits(v, one_lap) + 1 >= cap ==> index_bits(next_value(v, one_lap, cap), one_lap)
            == 0 && lap_bits(next_value(v, one_lap, cap), one_lap) == (lap_bits(v, one_lap)
            + one_lap) as u64,
{
    let m = (one_lap - 1) as u64;
    let i = v & m;
    let l = v & !m;
    let n = next_value(v, one_lap, cap);
    if i + 1 < cap {
        assert((n & m) == i + 1 && (n & !m) == l) by (bit_vector)
            requires
                one_lap != 0,
                one_lap & m == 0,
                m == (one_lap - 1) as u64,
                i == v & m,
                l == v & !m,
                i + 1 < cap,
                cap < one_lap,
                n == (v + 1) as u64,
        ;
    } else {
        assert((n & m) == 0 && (n & !m) == n && n == (l + one_lap) as u64) by (bit_vector)
            requires
                one_lap != 0,
                one_lap & m == 0,
                m == (one_lap - 1) as u64,
                l == v & !m,
                n == (l + one_lap) as u64,
        ;
    }
}

/// How `prev_value` moves the index and the lap of a valid stamp.
pub proof fn lemma_prev_parts(v: u64, one_lap: u64, cap: u64)
    requires
        is_valid_stamp(v, one_lap, cap),
    ensures
        is_valid_stamp(prev_value(v, one_lap, cap), one_lap, cap),
        index_bits(v, one_lap) > 0 ==> index_bits(prev_value(v, one_lap, cap), one_lap)
            == index_bits(v, one_lap) - 1 && lap_bits(prev_value(v, one_lap, cap), one_lap)
            == lap_bits(v, one_lap),
        index_bits(v, one_lap) == 0 ==> index_bits(prev_value(v, one_lap, cap), one_lap) == cap
            - 1 && lap_bits(prev_value(v, one_lap, cap), one_lap) == (lap_bits(v, one_lap)
            - one_lap) as u64,
{
    let m = (one_lap - 1) as u64;
    let i = v & m;
    let l = v & !m;
    let p = prev_value(v, one_lap, cap);
    if i > 0 {
        assert((p & m) == i - 1 && (p & !m) == l) by (bit_vector)
            requires
                one_lap != 0,
                one_lap & m == 0,
                m == (one_lap - 1) as u64,
                i == v & m,
                l == v & !m,
                i > 0,
                p == (v - 1) as u64,
        ;
    } else {
        assert((p & m) == cap - 1 && (p & !m) == (l - one_lap) as u64) by (bit_vector)
            requires
                one_lap != 0,
                one_lap & m == 0,
                m == (one_lap - 1) as u64,
                l == v & !m,
                0 < cap,
                cap < one_lap,
                p == ((((l - one_lap) as u64) | ((cap - 1) as u64))),
        ;
    }
}

/// Stepping back undoes stepping forward: `prev(next(c)) == c`, and the step
/// forward always lands on another stamp.
pub proof fn lemma_prev_of_next(v: u64, one_lap: u64, cap: u64)
    requires
        is_valid_stamp(v, one_lap, cap),
    ensures
        is_valid_stamp(next_value(v, one_lap, cap), one_lap, cap),
        prev_value(next_value(v, one_lap, cap), one_lap, cap) == v,
        next_value(v, one_lap, cap) != v,
{
    let m = (one_lap - 1) as u64;
    let i = v & m;
    let l = v & !m;
    let n = next_value(v, one_lap, cap);
    let ni = n & m;
    let nl = n & !m;
    let p = prev_value(n, one_lap, cap);
    lemma_next_parts(v, one_lap, cap);
    assert(p == v && n != v) by (bit_vector)
        requires
            one_lap != 0,
            one_lap & m == 0,
            m == (one_lap - 1) as u64,
            0 < cap,
            cap < one_lap,
            i == v & m,
            l == v & !m,
            i < cap,
            n == (if i + 1 < cap {
                (v + 1) as u64
            } else {
                (l + one_lap) as u64
            }),
            ni == n & m,
            nl == n & !m,
            p == (if ni > 0 {
                (n - 1) as u64
            } else {
                (((nl - one_lap) as u64) | ((cap - 1) as u64))
            }),
    ;
}

/// Stepping forward undoes stepping back: `next(prev(c)) == c`.
pub proof fn lemma_next_of_prev(v: u64, one_lap: u64, cap: u64)
    requires
        is_valid_stamp(v, one_lap, cap),
    ensures
        is_valid_stamp(prev_value(v, one_lap, cap), one_lap, cap),
        next_value(prev_value(v, one_lap, cap), one_lap, cap) == v,
{
    let m = (one_lap - 1) as u64;
    let i = v & m;
    let l = v & !m;
    let p = prev_value(v, one_lap, cap);
    let pi = p & m;
    let pl = p & !m;
    let n = next_value(p, one_lap, cap);
    lemma_prev_parts(v, one_lap, cap);
    assert(n == v) by (bit_vector)
        requires
            one_lap != 0,
            one_lap & m == 0,
            m == (one_lap - 1) as u64,
            0 < cap,
            cap < one_lap,
            i == v & m,
            l == v & !m,
            i < cap,
            p == (if i > 0 {
                (v - 1) as u64
            } else {
                (((l - one_lap) as u64) | ((cap - 1) as u64))
            }),
            pi == p & m,
            pl == p & !m,
            n == (if pi + 1 < cap {
                (p + 1) as u64
            } else {
                (pl + one_lap) as u64
            }),
    ;
}

/// When the tail is exactly one lap ahead of the head, stepping both forward
/// keeps the tail one lap ahead, and the new head is the new tail minus a lap.
proof fn lemma_full_step(h: u64, t: u64, one_lap: u64, cap: u64)
    requires
        is_valid_stamp(h, one_lap, cap),
        is_valid_stamp(t, one_lap, cap),
        lap_bits(t, one_lap) == (lap_bits(h, one_lap) + one_lap) as u64,
        index_bits(t, one_lap) == index_bits(h, one_lap),
    ensures
        ((next_value(t, one_lap, cap) - one_lap) as u64) == next_value(h, one_lap, cap),
        lap_bits(next_value(t, one_lap, cap), one_lap) == (lap_bits(
            next_value(h, one_lap, cap),
            one_lap,
        ) + one_lap) as u64,
        index_bits(next_value(t, one_lap, cap), one_lap) == index_bits(
            next_value(h, one_lap, cap),
            one_lap,
        ),
{
    let m = (one_lap - 1) as u64;
    let hi = h & m;
    let hl = h & !m;
    let ti = t & m;
    let tl = t & !m;
    let nh = next_value(h, one_lap, cap);
    let nt = next_value(t, one_lap, cap);
    let nhl = nh & !m;
    let ntl = nt & !m;
    let nhi = nh & m;
    let nti = nt & m;
    assert(((nt - one_lap) as u64) == nh && ntl == (nhl + one_lap) as u64 && nti == nhi)
        by (bit_vector)
        requires
            one_lap != 0,
            one_lap & m == 0,
            m == (one_lap - 1) as u64,
            0 < cap,
            cap < one_lap,
            hi == h & m,
            hl == h & !m,
            ti == t & m,
            tl == t & !m,
            hi < cap,
            tl == (hl + one_lap) as u64,
            ti == hi,
            nh == (if hi + 1 < cap {
                (h + 1) as u64
            } else {
                (hl + one_lap) as u64
            }),
            nt == (if ti + 1 < cap {
                (t + 1) as u64
            } else {
                (tl + one_lap) as u64
            }),
            nhl == nh & !m,
            ntl == nt & !m,
            nhi == nh & m,
            nti == nt & m,
    ;
}

/// The smallest power of two at least `n`, found by doubling from one.
///
/// `n` is at most `2^63`, the largest power of two of a `u64`.
fn next_power_of_two(n: u64) -> (r: u64)
    requires
        n <= 0x8000_0000_0000_0000,
    ensures
        is_lap_size(r),
        n <= r,
        r == 1 || r / 2 < n,
{
    let mut p: u64 = 1;
    proof {
        assert(1u64 & ((1u64 - 1) as u64) == 0) by (bit_vector);
    }
    while p < n
        invariant
            is_lap_size(p),
            p == 1 || p / 2 < n,
            n <= 0x8000_0000_0000_0000,
        decreases 0x8000_0000_0000_0000 - p,
    {
        let m = (p - 1) as u64;
        assert(p <= 0x4000_0000_0000_0000 && ((p * 2) as u64) & (((p * 2) as u64 - 1) as u64) == 0)
            by (bit_vector)
            requires
                p != 0,
                p & m == 0,
                m == (p - 1) as u64,
                p < 0x8000_0000_0000_0000u64,
        ;
        p = p * 2;
    }
    p
}

/// A position in the ring: a stamp whose index and lap are read with a lap size.
#[derive(Clone, Copy, PartialEq, Eq, Debug)]
pub struct Cursor {
    pub value: u64,
}

impl Cursor {
    /// The slot index of the cursor.
    #[inline]
    pub fn index(&self, one_lap: u64) -> (r: u64)
        requires
            one_lap > 0,
        ensures
            r == index_bits(self.value, one_lap),
    {
        self.value & (one_lap - 1)
    }

    /// The lap of the cursor, in the high bits.
    #[inline]
    pub fn lap(&self, one_lap: u64) -> (r: u64)
        requires
            one_lap > 0,
        ensures
            r == lap_bits(self.value, one_lap),
    {
        self.value & !(one_lap - 1)
    }

    /// The cursor one slot back.
    #[inline]
    pub fn prev(&self, one_lap: u64, cap: usize) -> (r: Cursor)
        requires
            is_valid_stamp(self.value, one_lap, cap as u64),
        ensures
            r.value == prev_value(self.value, one_lap, cap as u64),
            is_valid_stamp(r.value, one_lap, cap as u64),
    {
        proof {
            lemma_prev_parts(self.value, one_lap, cap as u64);
            lemma_stamp_parts(self.value, one_lap);
            lemma_wrapping(lap_bits(self.value, one_lap), one_lap);
        }
        self.with_value(
            if self.index(one_lap) > 0 {
                // Same lap, decremented index.
                self.value - 1
            } else {
                // One lap back, index wraps around to cap - 1.
                self.lap(one_lap).wrapping_sub(one_lap) | (cap as u64 - 1)
            },
        )
    }

    /// The cursor one slot forward.
    #[inline]
    pub fn next(&self, one_lap: u64, cap: usize) -> (r: Cursor)
        requires
            is_valid_stamp(self.value, one_lap, cap as u64),
        ensures
            r.value == next_value(self.value, one_lap, cap as u64),
            is_valid_stamp(r.value, one_lap, cap as u64),
    {
        proof {
            lemma_next_parts(self.value, one_lap, cap as u64);
            lemma_stamp_parts(self.value, one_lap);
            lemma_wrapping(lap_bits(self.value, one_lap), one_lap);
        }
        self.with_value(
            if self.index(one_lap) + 1 < cap as u64 {
                // Same lap, incremented index.
                self.value + 1
            } else {
                // One lap forward, index wraps around to zero.
                self.lap(one_lap).wrapping_add(one_lap)
            },
        )
    }

    /// A cursor at another stamp.
    #[inline]
    pub fn with_value(&self, value: u64) -> (r: Cursor)
        ensures
            r.value == value,
    {
        Cursor { value }
    }
}

/// What a push does to the elements (bottom first) of a stack of capacity
/// `cap`: the new element goes on top, and the bottom one is pushed out and
/// handed back when the stack is full.
pub open spec fn push_spec<T>(items: Seq<T>, cap: nat, value: T) -> (Seq<T>, Option<T>) {
    if items.len() < cap {
        (items.push(value), None)
    } else {
        (items.drop_first().push(value), Some(items[0]))
    }
}

/// What a pop does to the elements of a stack: the top one comes off.
pub open spec fn pop_spec<T>(items: Seq<T>) -> (Seq<T>, Option<T>) {
    if items.len() == 0 {
        (items, None)
    } else {
        (items.drop_last(), Some(items.last()))
    }
}

/// What `retain_bottom` may have done, given the elements before and after:
/// it removed the `n` bottom elements, the check let every one of them go and
/// it stopped for the reason the checks give.
pub open spec fn retained_bottom<T, F: Fn(&T) -> ControlFlow<bool>>(
    before: Seq<T>,
    after: Seq<T>,
    check: F,
) -> bool {
    exists|n: int|
        0 <= n <= before.len() && after == before.skip(n) && (forall|i: int|
            0 <= i < n ==> #[trigger] let_go_at(check, before, i, n)) && (n < before.len()
            ==> kept(check, before[n]) || (n > 0 && stopped_after(check, before[n - 1])))
}

/// The check said `Continue(())` for `value`.
pub open spec fn continued<T, F: Fn(&T) -> ControlFlow<bool>>(check: F, value: T) -> bool {
    exists|r: ControlFlow<bool>|
        #[trigger] call_ensures(check, (&value,), r) && r is Continue
}

/// The check said `Break(true)` for `value`: keep it and stop.
pub open spec fn kept<T, F: Fn(&T) -> ControlFlow<bool>>(check: F, value: T) -> bool {
    exists|r: ControlFlow<bool>|
        #[trigger] call_ensures(check, (&value,), r) && (r matches ControlFlow::Break(b) && b)
}

/// The check said `Break(false)` for `value`: remove it and stop.
pub open spec fn stopped_after<T, F: Fn(&T) -> ControlFlow<bool>>(check: F, value: T) -> bool {
    exists|r: ControlFlow<bool>|
        #[trigger] call_ensures(check, (&value,), r) && (r matches ControlFlow::Break(b) && !b)
}

/// The `i`-th element was let go by the check, as one of `n` removed ones:
/// it said continue, or, for the last one, remove and stop.
pub open spec fn let_go_at<T, F: Fn(&T) -> ControlFlow<bool>>(
    check: F,
    items: Seq<T>,
    i: int,
    n: int,
) -> bool {
    continued(check, items[i]) || (i == n - 1 && stopped_after(check, items[i]))
}

/// A bounded stack of capacity `buffer.len()` held in a ring of slots.
///
/// `head` is the stamp of the bottom element and `tail` the stamp just above
/// the top one; a full stack has its tail exactly one lap ahead of its head.
pub struct Stack<T> {
    head: u64,
    tail: u64,
    buffer: Vec<Option<T>>,
    one_lap: u64,
}

impl<T> View for Stack<T> {
    type V = Seq<T>;

    /// The elements, bottom first.
    closed spec fn view(&self) -> Seq<T> {
        Seq::new(self.len_spec(), |k: int| self.buffer@[self.phys(k)]->Some_0)
    }
}

impl<T> Stack<T> {
    /// The number of slots.
    pub closed spec fn cap(&self) -> nat {
        self.buffer@.len()
    }

    closed spec fn hix(&self) -> int {
        index_bits(self.head, self.one_lap) as int
    }

    closed spec fn tix(&self) -> int {
        index_bits(self.tail, self.one_lap) as int
    }

    closed spec fn same_lap(&self) -> bool {
        lap_bits(self.tail, self.one_lap) == lap_bits(self.head, self.one_lap)
    }

    closed spec fn next_lap(&self) -> bool {
        lap_bits(self.tail, self.one_lap) == (lap_bits(self.head, self.one_lap)
            + self.one_lap) as u64
    }

    closed spec fn len_spec(&self) -> nat {
        if self.same_lap() {
            (self.tix() - self.hix()) as nat
        } else {
            (self.cap() - self.hix() + self.tix()) as nat
        }
    }

    /// The slot that holds the `k`-th element from the bottom.
    closed spec fn phys(&self, k: int) -> int {
        if self.hix() + k < self.cap() {
            self.hix() + k
        } else {
            self.hix() + k - self.cap()
        }
    }

    /// How far above the bottom slot `i` lies.
    closed spec fn offset(&self, i: int) -> int {
        if i >= self.hix() {
            i - self.hix()
        } else {
            i + self.cap() - self.hix()
        }
    }

    /// The well-formedness of the ring: valid stamps, the tail at most one lap
    /// ahead of the head, and exactly the slots between them occupied.
    pub closed spec fn wf(&self) -> bool {
        &&& 1 <= self.cap() < self.one_lap
        &&& ring_params(self.one_lap, self.cap() as u64)
        &&& is_valid_stamp(self.head, self.one_lap, self.cap() as u64)
        &&& is_valid_stamp(self.tail, self.one_lap, self.cap() as u64)
        &&& (self.same_lap() && self.hix() <= self.tix()) || (self.next_lap() && self.tix()
            <= self.hix())
        &&& forall|i: int|
            0 <= i < self.cap() ==> (#[trigger] self.buffer@[i] is Some <==> self.offset(i)
                < self.len_spec())
    }

    /// A stack never holds more elements than its capacity.
    pub proof fn lemma_len_bounded(&self)
        requires
            self.wf(),
        ensures
            self@.len() <= self.cap(),
    {
        self.lemma_wf_facts();
    }

    proof fn lemma_wf_facts(&self)
        requires
            self.wf(),
        ensures
            self.len_spec() <= self.cap(),
            self@.len() == self.len_spec(),
            !(self.same_lap() && self.next_lap()),
            self.same_lap() && self.hix() == self.tix() ==> self.tail == self.head,
            self.tail == self.head ==> self.same_lap() && self.hix() == self.tix(),
            self.next_lap() && self.hix() == self.tix() <==> self.len_spec() == self.cap(),
            self.tix() == self.phys(self.len_spec() as int) || self.len_spec() == self.cap(),
            self.len_spec() == self.cap() ==> self.tix() == self.hix(),
            forall|k: int| 0 <= k < self.cap() ==> 0 <= #[trigger] self.phys(k) < self.cap(),
            forall|k: int| 0 <= k < self.cap() ==> self.offset(#[trigger] self.phys(k)) == k,
            forall|k: int|
                0 <= k < self.len_spec() ==> (#[trigger] self.buffer@[self.phys(k)]) is Some,
    {
        lemma_stamp_parts(self.head, self.one_lap);
        lemma_stamp_parts(self.tail, self.one_lap);
        if self.tail == self.head {
            assert(self.same_lap());
        }
        if self.same_lap() && self.hix() == self.tix() {
            lemma_stamp_eq(self.tail, self.head, self.one_lap);
        }
        assert forall|k: int| 0 <= k < self.len_spec() implies (#[trigger] self.buffer@[self.phys(
            k,
        )]) is Some by {
            assert(self.offset(self.phys(k)) == k);
        }
    }

    /// A new stack with room for `cap` elements.
    ///
    /// The capacity must not be zero.
    pub fn new(cap: usize) -> (s: Self)
        requires
            cap >= 1,
            cap < 0x8000_0000_0000_0000,
        ensures
            s.wf(),
            s.cap() == cap,
            s@ == Seq::<T>::empty(),
    {
        let mut buffer: Vec<Option<T>> = Vec::new();
        let mut i: usize = 0;
        while i < cap
            invariant
                i <= cap,
                buffer@.len() == i,
                forall|j: int| 0 <= j < i ==> #[trigger] buffer@[j] is None,
            decreases cap - i,
        {
            buffer.push(None);
            i = i + 1;
        }
        // One lap is the smallest power of two greater than `cap`.
        let one_lap = next_power_of_two(cap as u64 + 1);
        let s = Stack { head: 0, tail: 0, buffer, one_lap };
        proof {
            let m = (one_lap - 1) as u64;
            assert(0u64 & m == 0 && 0u64 & !m == 0) by (bit_vector);
            assert(s.hix() == 0 && s.tix() == 0 && s.same_lap());
            assert(s@ =~= Seq::<T>::empty());
        }
        s
    }

    /// The capacity of the stack.
    #[inline]
    pub fn capacity(&self) -> (r: usize)
        ensures
            r == self.cap(),
    {
        self.buffer.len()
    }

    /// Returns `true` if the stack holds no element.
    #[inline]
    pub fn is_empty(&self) -> (r: bool)
        requires
            self.wf(),
        ensures
            r == (self@.len() == 0),
    {
        proof {
            self.lemma_wf_facts();
        }
        self.tail == self.head
    }

    /// Returns `true` if the stack holds `capacity()` elements.
    #[inline]
    pub fn is_full(&self) -> (r: bool)
        requires
            self.wf(),
        ensures
            r == (self@.len() == self.cap()),
    {
        proof {
            self.lemma_wf_facts();
            lemma_stamp_parts(self.head, self.one_lap);
            lemma_stamp_parts(self.tail, self.one_lap);
            let t = self.head.wrapping_add(self.one_lap);
            lemma_wrapping(self.head, self.one_lap);
            if t == self.tail {
                let m = (self.one_lap - 1) as u64;
                let h = self.head;
                let ol = self.one_lap;
                let hl = lap_bits(h, ol);
                let hi = index_bits(h, ol);
                assert((t & m) == hi && (t & !m) == (hl + ol) as u64) by (bit_vector)
                    requires
                        ol != 0,
                        ol & m == 0,
                        m == (ol - 1) as u64,
                        hi == h & m,
                        hl == h & !m,
                        t == (h + ol) as u64,
                ;
            }
            if self.len_spec() == self.cap() {
                let m = (self.one_lap - 1) as u64;
                let h = self.head;
                let tt = self.tail;
                let ol = self.one_lap;
                let hl = lap_bits(h, ol);
                let hi = index_bits(h, ol);
                assert(tt == (h + ol) as u64) by (bit_vector)
                    requires
                        ol != 0,
                        ol & m == 0,
                        m == (ol - 1) as u64,
                        hi == h & m,
                        hl == h & !m,
                        tt & m == hi,
                        tt & !m == (hl + ol) as u64,
                ;
            }
        }
        self.head.wrapping_add(self.one_lap) == self.tail
    }

    /// Returns the number of elements in the stack.
    #[inline]
    pub fn len(&self) -> (r: usize)
        requires
            self.wf(),
        ensures
            r == self@.len(),
    {
        let (len, _) = self.calculate_len(self.head, self.tail);
        len
    }

    /// Pushes an element onto the stack, replacing the oldest element if
    /// necessary: when the stack is full, the bottom element is removed and
    /// returned, otherwise `None` is returned.
    pub fn push(&mut self, value: T) -> (r: Option<T>)
        requires
            old(self).wf(),
        ensures
            final(self).wf(),
            final(self).cap() == old(self).cap(),
            (final(self)@, r) == push_spec(old(self)@, old(self).cap(), value),
    {
        proof {
            self.lemma_wf_facts();
            lemma_stamp_parts(self.head, self.one_lap);
            lemma_stamp_parts(self.tail, self.one_lap);
        }
        let ghost old_self = *self;
        let cap = self.buffer.len();
        let current = self.cursor(self.tail);
        let new_tail = self.next_cursor(&current);
        let index = current.index(self.one_lap) as usize;
        proof {
            lemma_next_parts(self.tail, self.one_lap, cap as u64);
        }
        if self.is_full() {
            // The oldest element is replaced: the head and the tail both move on.
            proof {
                lemma_full_step(self.head, self.tail, self.one_lap, cap as u64);
                lemma_next_parts(self.head, self.one_lap, cap as u64);
            }
            proof {
                lemma_wrapping(new_tail.value, self.one_lap);
            }
            let new_head = new_tail.value.wrapping_sub(self.one_lap);
            self.head = new_head;
            self.tail = new_tail.value;
            let old = self.take_slot(index);
            self.buffer.set(index, Some(value));
            proof {
                assert(old_self.phys(0) == index);
                lemma_stamp_parts(self.head, self.one_lap);
                assert(self.len_spec() == old_self.len_spec());
                assert forall|i: int| 0 <= i < self.cap() implies (#[trigger] self.buffer@[i] is Some
                    <==> self.offset(i) < self.len_spec()) by {
                    if i != index {
                        assert(old_self.buffer@[i] is Some);
                    }
                }
                assert forall|k: int| 0 <= k < self@.len() implies #[trigger] self@[k]
                    == old_self@.drop_first().push(value)[k] by {
                    if k < self@.len() - 1 {
                        assert(self.phys(k) == old_self.phys(k + 1));
                    } else {
                        assert(self.phys(k) == index);
                    }
                }
                assert(self@ =~= old_self@.drop_first().push(value));
            }
            old
        } else {
            // Write the value into the free slot above the top.
            self.tail = new_tail.value;
            self.buffer.set(index, Some(value));
            proof {
                if old_self.next_lap() {
                    assert(old_self.tix() + 1 < cap);
                }
                assert(self.len_spec() == old_self.len_spec() + 1);
                assert(old_self.phys(old_self.len_spec() as int) == index);
                assert forall|i: int| 0 <= i < self.cap() implies (#[trigger] self.buffer@[i] is Some
                    <==> self.offset(i) < self.len_spec()) by {
                    if i != index {
                        assert(old_self.buffer@[i] is Some <==> old_self.offset(i)
                            < old_self.len_spec());
                    }
                }
                assert forall|k: int| 0 <= k < self@.len() implies #[trigger] self@[k]
                    == old_self@.push(value)[k] by {
                    if k < old_self@.len() {
                        assert(self.phys(k) == old_self.phys(k));
                        assert(old_self.phys(k) != index);
                    }
                }
                assert(self@ =~= old_self@.push(value));
            }
            None
        }
    }

    /// Attempts to pop the element at the top of the stack; `None` when empty.
    pub fn pop(&mut self) -> (r: Option<T>)
        requires
            old(self).wf(),
        ensures
            final(self).wf(),
            final(self).cap() == old(self).cap(),
            (final(self)@, r) == pop_spec(old(self)@),
    {
        proof {
            self.lemma_wf_facts();
            lemma_stamp_parts(self.head, self.one_lap);
            lemma_stamp_parts(self.tail, self.one_lap);
        }
        let ghost old_self = *self;
        if self.tail == self.head {
            // If the tail equals the head, the stack is empty.
            return None;
        }
        let cap = self.buffer.len();
        let current = self.cursor(self.tail);
        let new_tail = self.prev_cursor(&current);
        let index = new_tail.index(self.one_lap) as usize;
        proof {
            lemma_prev_parts(self.tail, self.one_lap, cap as u64);
            if old_self.same_lap() && old_self.tix() == 0 {
                assert(old_self.hix() == 0);
            }
            lemma_stamp_parts(lap_bits(self.head, self.one_lap), self.one_lap);
        }
        self.tail = new_tail.value;
        let msg = self.take_slot(index);
        proof {
            assert(self.len_spec() + 1 == old_self.len_spec());
            assert(old_self.phys(old_self.len_spec() - 1) == index);
            assert forall|i: int| 0 <= i < self.cap() implies (#[trigger] self.buffer@[i] is Some
                <==> self.offset(i) < self.len_spec()) by {
                if i != index {
                    assert(old_self.buffer@[i] is Some <==> old_self.offset(i)
                        < old_self.len_spec());
                }
            }
            assert forall|k: int| 0 <= k < self@.len() implies #[trigger] self@[k]
                == old_self@.drop_last()[k] by {
                assert(self.phys(k) == old_self.phys(k));
                assert(old_self.phys(k) != index);
            }
            assert(self@ =~= old_self@.drop_last());
        }
        msg
    }

    /// Removes elements from the bottom of the stack while `check` lets them go.
    ///
    /// `check` is consulted on the bottom element: `Continue(())` removes it and
    /// goes on, `Break(false)` removes it and stops, `Break(true)` keeps it and
    /// stops. An empty stack stops the walk.
    pub fn retain_bottom<F: Fn(&T) -> ControlFlow<bool>>(&mut self, check: F)
        requires
            old(self).wf(),
            forall|v: &T| #[trigger] call_requires(check, (v,)),
        ensures
            final(self).wf(),
            final(self).cap() == old(self).cap(),
            retained_bottom(old(self)@, final(self)@, check),
    {
        let ghost before = self@;
        let ghost mut n: int = 0;
        let cap = self.buffer.len();
        loop
            invariant
                self.wf(),
                self.cap() == cap,
                cap == old(self).cap(),
                before == old(self)@,
                0 <= n <= before.len(),
                self@ == before.skip(n),
                forall|v: &T| #[trigger] call_requires(check, (v,)),
                forall|i: int| 0 <= i < n ==> #[trigger] continued(check, before[i]),
            ensures
                self.wf(),
                self.cap() == cap,
                retained_bottom(before, self@, check),
            decreases self@.len(),
        {
            proof {
                self.lemma_wf_facts();
                lemma_stamp_parts(self.head, self.one_lap);
                lemma_stamp_parts(self.tail, self.one_lap);
            }
            if self.tail == self.head {
                // If the tail equals the head, the stack is empty.
                proof {
                    assert(n == before.len());
                    assert forall|i: int| 0 <= i < n implies #[trigger] let_go_at(
                        check,
                        before,
                        i,
                        n,
                    ) by {
                        assert(continued(check, before[i]));
                    }
                }
                return;
            }
            let ghost old_self = *self;
            let index = self.cursor(self.head).index(self.one_lap) as usize;
            proof {
                assert(old_self.phys(0) == index);
                assert(self@[0] == before[n]);
            }
            let decision = match &self.buffer[index] {
                Some(v) => {
                    let d = check(v);
                    proof {
                        assert(*v == before[n]);
                        assert(call_ensures(check, (&before[n],), d));
                    }
                    d
                },
                None => {
                    proof {
                        assert(self.buffer@[index as int] is Some);
                    }
                    ControlFlow::Break(true)
                },
            };
            if let ControlFlow::Break(true) = decision {
                // Keep the element: the head stays where it was.
                proof {
                    assert(kept(check, before[n]));
                    assert forall|i: int| 0 <= i < n implies #[trigger] let_go_at(
                        check,
                        before,
                        i,
                        n,
                    ) by {
                        assert(continued(check, before[i]));
                    }
                }
                return;
            }
            self.pop_bottom();
            proof {
                assert(self@ =~= before.skip(n + 1));
            }
            if let ControlFlow::Break(false) = decision {
                proof {
                    assert(stopped_after(check, before[n]));
                    n = n + 1;
                    assert forall|i: int| 0 <= i < n implies #[trigger] let_go_at(
                        check,
                        before,
                        i,
                        n,
                    ) by {
                        if i < n - 1 {
                            assert(continued(check, before[i]));
                        }
                    }
                }
                return;
            }
            proof {
                assert(decision is Continue);
                assert(continued(check, before[n]));
                n = n + 1;
            }
        }
    }

    /// Removes the bottom element of a nonempty stack.
    fn pop_bottom(&mut self)
        requires
            old(self).wf(),
            old(self)@.len() > 0,
        ensures
            final(self).wf(),
            final(self).cap() == old(self).cap(),
            final(self)@ == old(self)@.drop_first(),
    {
        proof {
            self.lemma_wf_facts();
            lemma_stamp_parts(self.head, self.one_lap);
            lemma_stamp_parts(self.tail, self.one_lap);
        }
        let ghost old_self = *self;
        let cap = self.buffer.len();
        let cursor = self.cursor(self.head);
        let new = self.next_cursor(&cursor);
        let index = cursor.index(self.one_lap) as usize;
        proof {
            lemma_next_parts(self.head, self.one_lap, cap as u64);
            lemma_stamp_parts(lap_bits(self.head, self.one_lap), self.one_lap);
            if old_self.same_lap() {
                assert(old_self.hix() < old_self.tix());
            }
        }
        self.head = new.value;
        let _dropped = self.take_slot(index);
        proof {
            assert(self.len_spec() + 1 == old_self.len_spec());
            assert(old_self.phys(0) == index);
            assert forall|i: int| 0 <= i < self.cap() implies (#[trigger] self.buffer@[i] is Some
                <==> self.offset(i) < self.len_spec()) by {
                if i != index {
                    assert(old_self.buffer@[i] is Some <==> old_self.offset(i)
                        < old_self.len_spec());
                }
            }
            assert forall|k: int| 0 <= k < self@.len() implies #[trigger] self@[k]
                == old_self@.drop_first()[k] by {
                assert(self.phys(k) == old_self.phys(k + 1));
            }
            assert(self@ =~= old_self@.drop_first());
        }
    }

    /// Takes the value out of a slot, leaving it empty.
    fn take_slot(&mut self, index: usize) -> (r: Option<T>)
        requires
            index < old(self).buffer@.len(),
        ensures
            r == old(self).buffer@[index as int],
            final(self).buffer@ == old(self).buffer@.update(index as int, None),
            final(self).head == old(self).head,
            final(self).tail == old(self).tail,
            final(self).one_lap == old(self).one_lap,
    {
        let mut slot = None;
        core::mem::swap(&mut slot, &mut self.buffer[index]);
        slot
    }

    #[inline]
    fn cursor(&self, value: u64) -> (r: Cursor)
        ensures
            r.value == value,
    {
        Cursor { value }
    }

    #[inline]
    fn prev_cursor(&self, cursor: &Cursor) -> (r: Cursor)
        requires
            self.wf(),
            is_valid_stamp(cursor.value, self.one_lap, self.cap() as u64),
        ensures
            r.value == prev_value(cursor.value, self.one_lap, self.cap() as u64),
    {
        cursor.prev(self.one_lap, self.buffer.len())
    }

    #[inline]
    fn next_cursor(&self, cursor: &Cursor) -> (r: Cursor)
        requires
            self.wf(),
            is_valid_stamp(cursor.value, self.one_lap, self.cap() as u64),
        ensures
            r.value == next_value(cursor.value, self.one_lap, self.cap() as u64),
    {
        cursor.next(self.one_lap, self.buffer.len())
    }

    /// The number of elements between `head` and `tail`, and the index of the head.
    #[inline]
    fn calculate_len(&self, head: u64, tail: u64) -> (r: (usize, usize))
        requires
            self.wf(),
            head == self.head,
            tail == self.tail,
        ensures
            r.0 == self@.len(),
            r.1 == self.hix(),
    {
        proof {
            self.lemma_wf_facts();
            lemma_stamp_parts(head, self.one_lap);
            lemma_stamp_parts(tail, self.one_lap);
        }
        let cap = self.buffer.len() as u64;
        let hix = head & (self.one_lap - 1);
        let tix = tail & (self.one_lap - 1);
        assert(hix == self.hix() && tix == self.tix());
        assert(hix < self.cap() && tix < self.cap());

        let len = if hix < tix {
            tix - hix
        } else if hix > tix {
            cap - hix + tix
        } else if tail == head {
            0
        } else {
            cap
        };

        (len as usize, hix as usize)
    }
}

/// Pushing onto a stack that is not full and popping gives the pushed
/// element back and leaves the stack as it was.
pub proof fn law_pop_undoes_push<T>(items: Seq<T>, cap: nat, value: T)
    requires
        items.len() < cap,
    ensures
        pop_spec(push_spec(items, cap, value).0) == (items, Some(value)),
{
    assert(items.push(value).drop_last() =~= items);
}

/// A push never leaves more than `cap` elements, and on a full stack it keeps
/// the count at `cap` while handing back the oldest element.
pub proof fn law_push_bounded<T>(items: Seq<T>, cap: nat, value: T)
    requires
        items.len() <= cap,
        cap > 0,
    ensures
        push_spec(items, cap, value).0.len() <= cap,
        items.len() == cap ==> push_spec(items, cap, value).0.len() == cap && push_spec(
            items,
            cap,
            value,
        ).1 == Some(items[0]),
        push_spec(items, cap, value).0.last() == value,
{
}

/// The elements after a run of operations on a stack of capacity `cap`:
/// `Some(v)` pushes `v`, `None` pops.
pub open spec fn run_ops<T>(items: Seq<T>, cap: nat, ops: Seq<Option<T>>) -> Seq<T>
    decreases ops.len(),
{
    if ops.len() == 0 {
        items
    } else {
        let next = match ops[0] {
            Some(v) => push_spec(items, cap, v).0,
            None => pop_spec(items).0,
        };
        run_ops(next, cap, ops.drop_first())
    }
}

/// No run of pushes and pops takes a stack beyond its capacity.
pub proof fn law_ops_within_capacity<T>(items: Seq<T>, cap: nat, ops: Seq<Option<T>>)
    requires
        items.len() <= cap,
        cap > 0,
    ensures
        run_ops(items, cap, ops).len() <= cap,
    decreases ops.len(),
{
    if ops.len() > 0 {
        let next = match ops[0] {
            Some(v) => push_spec(items, cap, v).0,
            None => pop_spec(items).0,
        };
        assert(next.len() <= cap);
        law_ops_within_capacity(next, cap, ops.drop_first());
    }
}

} // verus!

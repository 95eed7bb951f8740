//! A bump allocator over one byte buffer.
//!
//! The `Bump` holds the bytes and hands out `Heap`s, each a range of the
//! buffer; a heap is acquired for a generation, which moves its own
//! generation one past the buffer's, and hands out smaller ranges. A heap
//! may be acquired again before the buffer ticks, but not once it fell
//! behind the buffer. Generations catch ranges used after the buffer moved
//! on: a range may only be read in the generation it was made in.

use vstd::prelude::*;

verus! {

/// The start, end and generation of a range.
pub type RangeView = (nat, nat, nat);

/// Splitting `at` bytes off the front of a range: `None` when the range is
/// shorter, otherwise the rest of the range and the front part.
pub open spec fn split_to_spec(r: RangeView, at: nat) -> Option<(RangeView, RangeView)> {
    if at > r.1 - r.0 {
        None
    } else {
        Some(((r.0 + at, r.1, r.2), (r.0, r.0 + at, r.2)))
    }
}

/// Giving a range back to the unassigned range: when it ends where the
/// unassigned range starts, the unassigned range grows back over it.
pub open spec fn dealloc_spec(unassigned: RangeView, range: RangeView) -> RangeView {
    if range.1 == unassigned.0 {
        (range.0, unassigned.1, unassigned.2)
    } else {
        unassigned
    }
}

/// A range view with `start <= end`.
pub open spec fn range_ok(r: RangeView) -> bool {
    r.0 <= r.1
}

/// Ticks the buffer's generation: ranges made before can no longer be read.
#[inline]
pub fn tick(bump: &mut Bump)
    requires
        old(bump).buffer_generation() < u64::MAX,
    ensures
        final(bump).buffer_generation() == old(bump).buffer_generation() + 1,
        final(bump).bytes() == old(bump).bytes(),
        final(bump).unassigned() == old(bump).unassigned(),
{
    bump.buffer.tick();
}

/// The allocator of the buffer's ranges, and the holder of its bytes.
pub struct Bump {
    buffer: Buffer,
    unassigned: Range,
}

impl Bump {
    /// The bytes of the buffer.
    pub closed spec fn bytes(&self) -> Seq<u8> {
        self.buffer.bytes@
    }

    /// The generation of the buffer.
    pub closed spec fn buffer_generation(&self) -> nat {
        self.buffer.generation.generation as nat
    }

    /// The part of the buffer not yet handed out.
    pub closed spec fn unassigned(&self) -> RangeView {
        self.unassigned@
    }

    /// A buffer of `len` zero bytes, none of it handed out.
    #[inline]
    pub fn new(len: u32) -> (b: Self)
        ensures
            b.bytes() == Seq::new(len as nat, |i: int| 0u8),
            b.buffer_generation() == 0,
            b.unassigned() == (0nat, len as nat, 0nat),
    {
        let buffer = Buffer::new(len);
        let unassigned = Range::new(0, len);
        Self { buffer, unassigned }
    }

    /// Ticks the generation of the unassigned range.
    #[inline]
    pub fn tick(&mut self)
        requires
            old(self).unassigned().2 < u64::MAX,
        ensures
            final(self).unassigned() == (old(self).unassigned().0, old(self).unassigned().1, old(self).unassigned().2 + 1),
            final(self).bytes() == old(self).bytes(),
            final(self).buffer_generation() == old(self).buffer_generation(),
    {
        proof {
            use_type_invariant(&self.unassigned);
        }
        self.unassigned.generation.tick();
    }

    /// Hands out a heap over the next `len` bytes; `None` when fewer are left.
    #[inline]
    pub fn allocate(&mut self, len: usize) -> (r: Option<Heap>)
        ensures
            final(self).bytes() == old(self).bytes(),
            final(self).buffer_generation() == old(self).buffer_generation(),
            match split_to_spec(old(self).unassigned(), len as nat) {
                None => r is None && final(self).unassigned() == old(self).unassigned(),
                Some((rest, taken)) => r is Some && final(self).unassigned() == rest
                    && r->Some_0.range() == taken,
            },
    {
        let range = self.unassigned.split_to(len)?;
        Some(Heap { range })
    }

    /// The bytes of a range, to read or write.
    ///
    /// The range must belong to the buffer's current generation and lie in the
    /// buffer.
    #[inline]
    pub fn get<'a>(&'a mut self, range: &Range) -> (r: &'a mut [u8])
        requires
            range@.2 == old(self).buffer_generation(),
            range@.1 <= old(self).bytes().len(),
        ensures
            r@ == old(self).bytes().subrange(range@.0 as int, range@.1 as int),
            final(self).bytes() == old(self).bytes().subrange(0, range@.0 as int) + final(r)@
                + old(self).bytes().subrange(range@.1 as int, old(self).bytes().len() as int),
            final(self).buffer_generation() == old(self).buffer_generation(),
            final(self).unassigned() == old(self).unassigned(),
    {
        self.buffer.get(range)
    }
}

/// A range of the buffer handed out by the `Bump`.
pub struct Heap {
    range: Range,
}

impl Heap {
    /// The range of the heap.
    pub closed spec fn range(&self) -> RangeView {
        self.range@
    }

    /// Starts this generation's allocations from the heap.
    ///
    /// The heap's generation must not be behind the buffer's, and must have
    /// room to move on. The
    /// returned allocator covers the whole heap, in the heap's previous
    /// generation; the heap moves to the generation after the buffer's.
    pub fn aquire(&mut self, bump: &Bump) -> (r: HeapBump)
        requires
            old(self).range().2 >= bump.buffer_generation(),
            bump.buffer_generation() < u64::MAX,
        ensures
            r.unassigned() == old(self).range(),
            final(self).range() == (old(self).range().0, old(self).range().1,
                bump.buffer_generation() + 1),
    {
        proof {
            use_type_invariant(&self.range);
        }
        let mut next = bump.buffer.generation();

        // make sure the heap hasn't been aquired multiple times in a generation
        self.range.generation.check_gte(&next);

        let unassigned = self.range.internal_clone();

        next.tick();
        self.range.generation = next;

        HeapBump { unassigned }
    }

    /// Starts this generation's allocations from the heap, as `aquire` does;
    /// `None`, leaving the heap as it was, when the heap is behind the
    /// buffer's generation or the generation cannot move on.
    pub fn try_aquire(&mut self, bump: &Bump) -> (r: Option<HeapBump>)
        ensures
            r is Some <==> (old(self).range().2 >= bump.buffer_generation()
                && bump.buffer_generation() < u64::MAX),
            r is None ==> final(self).range() == old(self).range(),
            r matches Some(hb) ==> hb.unassigned() == old(self).range() && final(self).range() == (
                old(self).range().0,
                old(self).range().1,
                bump.buffer_generation() + 1,
            ),
    {
        let current = bump.buffer.generation.generation;
        if self.range.generation.generation < current || current == u64::MAX {
            return None;
        }
        Some(self.aquire(bump))
    }

    /// The bytes of a range, to read or write (see `Bump::get`).
    #[inline]
    pub fn get<'a>(&self, bump: &'a mut Bump, range: &Range) -> (r: &'a mut [u8])
        requires
            range@.2 == old(bump).buffer_generation(),
            range@.1 <= old(bump).bytes().len(),
        ensures
            r@ == old(bump).bytes().subrange(range@.0 as int, range@.1 as int),
            final(bump).bytes() == old(bump).bytes().subrange(0, range@.0 as int) + final(r)@
                + old(bump).bytes().subrange(range@.1 as int, old(bump).bytes().len() as int),
            final(bump).buffer_generation() == old(bump).buffer_generation(),
            final(bump).unassigned() == old(bump).unassigned(),
    {
        bump.get(range)
    }
}

/// The allocations of one generation out of a heap.
pub struct HeapBump {
    unassigned: Range,
}

impl HeapBump {
    /// The part of the heap not yet handed out this generation.
    pub closed spec fn unassigned(&self) -> RangeView {
        self.unassigned@
    }

    /// Hands out the next `len` bytes; `None` when fewer are left.
    #[inline]
    pub fn allocate(&mut self, len: usize) -> (r: Option<Range>)
        ensures
            match split_to_spec(old(self).unassigned(), len as nat) {
                None => r is None && final(self).unassigned() == old(self).unassigned(),
                Some((rest, taken)) => r is Some && r->Some_0@ == taken && final(self).unassigned() == rest,
            },
    {
        self.unassigned.split_to(len)
    }

    /// Gives a range back. When it ends where the unassigned part starts, the
    /// last allocation is rolled back; otherwise the bytes come back at the
    /// next tick.
    ///
    /// The range must come from this generation.
    #[inline]
    pub fn dealloc(&mut self, range: Range)
        requires
            range@.2 == old(self).unassigned().2,
        ensures
            final(self).unassigned() == dealloc_spec(old(self).unassigned(), range@),
    {
        self.unassigned.generation.check(&range.generation);
        proof {
            use_type_invariant(&range);
            use_type_invariant(&self.unassigned);
        }

        // if the range extends the start of the unassigned range, then roll back the previous
        // allocation. Otherwise, wait until the next tick to reclaim it.
        if range.end == self.unassigned.start {
            self.unassigned.start = range.start;
        }
    }

    /// The bytes of a range, to read or write (see `Bump::get`).
    #[inline]
    pub fn get<'a>(&self, bump: &'a mut Bump, range: &Range) -> (r: &'a mut [u8])
        requires
            range@.2 == old(bump).buffer_generation(),
            range@.1 <= old(bump).bytes().len(),
        ensures
            r@ == old(bump).bytes().subrange(range@.0 as int, range@.1 as int),
            final(bump).bytes() == old(bump).bytes().subrange(0, range@.0 as int) + final(r)@
                + old(bump).bytes().subrange(range@.1 as int, old(bump).bytes().len() as int),
            final(bump).buffer_generation() == old(bump).buffer_generation(),
            final(bump).unassigned() == old(bump).unassigned(),
    {
        bump.get(range)
    }
}

/// A range `[start, end)` of the buffer, stamped with a generation.
#[derive(Debug)]
pub struct Range {
    start: u32,
    end: u32,
    generation: Generation,
}

impl View for Range {
    type V = RangeView;

    closed spec fn view(&self) -> RangeView {
        (self.start as nat, self.end as nat, self.generation.generation as nat)
    }
}

impl Range {
    #[verifier::type_invariant]
    closed spec fn inv(&self) -> bool {
        self.start <= self.end
    }

    #[inline]
    fn new(start: u32, end: u32) -> (r: Self)
        requires
            start <= end,
        ensures
            r@ == (start as nat, end as nat, 0nat),
    {
        Self { start, end, generation: Generation::initial() }
    }

    /// The number of bytes in the range.
    #[inline]
    pub fn len(&self) -> (r: usize)
        ensures
            r == self@.1 - self@.0,
    {
        proof {
            use_type_invariant(self);
        }
        (self.end - self.start) as usize
    }

    /// Returns `true` if the range holds no byte.
    #[inline]
    pub fn is_empty(&self) -> (r: bool)
        ensures
            r == (self@.0 == self@.1),
    {
        proof {
            use_type_invariant(self);
        }
        self.len() == 0
    }

    /// Splits off the first `at` bytes and returns them; `self` keeps the rest.
    /// Returns `None`, and leaves `self` as it is, when the range is shorter.
    #[inline]
    pub fn split_to(&mut self, at: usize) -> (r: Option<Self>)
        ensures
            match split_to_spec(old(self)@, at as nat) {
                None => r is None && final(self)@ == old(self)@,
                Some((rest, taken)) => r is Some && r->Some_0@ == taken && final(self)@ == rest,
            },
    {
        proof {
            use_type_invariant(&*self);
        }
        if at > self.len() {
            return None;
        }

        let at = self.start + at as u32;

        let other = Self { start: self.start, end: at, generation: self.generation };

        other.check();

        self.start = at;

        self.check();

        Some(other)
    }

    /// Splits off the bytes from `at` on and returns them; `self` keeps the
    /// first `at`. Returns `None`, and leaves `self` as it is, when the range is
    /// shorter.
    #[inline]
    pub fn split_off(&mut self, at: usize) -> (r: Option<Self>)
        ensures
            match split_to_spec(old(self)@, at as nat) {
                None => r is None && final(self)@ == old(self)@,
                Some((rest, taken)) => r is Some && r->Some_0@ == rest && final(self)@ == taken,
            },
    {
        let mut other = self.split_to(at)?;
        core::mem::swap(self, &mut other);
        Some(other)
    }

    /// Empties the range: it now starts at its end.
    #[inline]
    pub fn clear(&mut self)
        ensures
            final(self)@ == (old(self)@.1, old(self)@.1, old(self)@.2),
    {
        self.start = self.end;
    }

    #[inline]
    fn internal_clone(&self) -> (r: Self)
        ensures
            r@ == self@,
    {
        proof {
            use_type_invariant(self);
        }
        Self { start: self.start, end: self.end, generation: self.generation }
    }

    #[inline]
    fn check(&self) {
        proof {
            use_type_invariant(self);
        }
    }
}

/// The bytes of the buffer and the buffer's generation.
struct Buffer {
    bytes: Vec<u8>,
    generation: Generation,
}

impl Buffer {
    fn new(len: u32) -> (b: Self)
        ensures
            b.bytes@ == Seq::new(len as nat, |i: int| 0u8),
            b.generation.generation == 0,
    {
        let bytes = vec![0u8; len as usize];
        proof {
            assert(bytes@ =~= Seq::new(len as nat, |i: int| 0u8));
        }
        Self { bytes, generation: Generation::initial() }
    }

    #[inline]
    fn get<'a>(&'a mut self, range: &Range) -> (r: &'a mut [u8])
        requires
            range@.2 == old(self).generation.generation,
            range@.1 <= old(self).bytes@.len(),
        ensures
            r@ == old(self).bytes@.subrange(range@.0 as int, range@.1 as int),
            final(self).bytes@ == old(self).bytes@.subrange(0, range@.0 as int) + final(r)@
                + old(self).bytes@.subrange(range@.1 as int, old(self).bytes@.len() as int),
            final(self).generation == old(self).generation,
    {
        range.generation.check(&self.generation());
        proof {
            use_type_invariant(range);
        }
        let bytes = self.bytes.as_mut_slice();
        let (_, rest) = bytes.split_at_mut(range.start as usize);
        let (slice, _) = rest.split_at_mut((range.end - range.start) as usize);
        slice
    }

    #[inline]
    fn tick(&mut self)
        requires
            old(self).generation.generation < u64::MAX,
        ensures
            final(self).generation.generation == old(self).generation.generation + 1,
            final(self).bytes == old(self).bytes,
    {
        self.generation.generation = self.generation.generation + 1;
    }

    #[inline]
    fn generation(&self) -> (g: Generation)
        ensures
            g == self.generation,
    {
        self.generation
    }
}

/// A generation counter.
#[derive(Copy, Clone, Debug)]
struct Generation {
    generation: u64,
}

impl Generation {
    /// The first generation.
    #[inline]
    fn initial() -> (g: Self)
        ensures
            g.generation == 0,
    {
        Generation { generation: 0 }
    }

    #[inline]
    fn tick(&mut self)
        requires
            old(self).generation < u64::MAX,
        ensures
            final(self).generation == old(self).generation + 1,
        no_unwind
    {
        self.generation = self.generation + 1;
    }

    /// Checks that `self` is not behind `other`: the `requires` is the check.
    #[inline]
    fn check_gte(&self, other: &Self)
        requires
            self.generation >= other.generation,
    {
    }

    /// Checks that `self` is `other`: the `requires` is the check.
    #[inline]
    fn check(&self, other: &Self)
        requires
            self.generation == other.generation,
    {
    }
}

/// Giving back the range just handed out restores the allocator exactly.
pub proof fn law_dealloc_undoes_alloc(unassigned: RangeView, len: nat)
    requires
        range_ok(unassigned),
        split_to_spec(unassigned, len) is Some,
    ensures
        ({
            let (rest, taken) = split_to_spec(unassigned, len)->Some_0;
            dealloc_spec(rest, taken) == unassigned
        }),
{
}

/// Splitting partitions a range: the two parts are adjacent, ordered, in the
/// same generation, and together cover the range that was split.
pub proof fn law_split_partitions(r: RangeView, at: nat)
    requires
        range_ok(r),
        split_to_spec(r, at) is Some,
    ensures
        ({
            let (rest, taken) = split_to_spec(r, at)->Some_0;
            &&& range_ok(rest) && range_ok(taken)
            &&& taken.0 == r.0 && taken.1 == rest.0 && rest.1 == r.1
            &&& taken.2 == r.2 && rest.2 == r.2
            &&& (taken.1 - taken.0) == at
        }),
{
}

} // verus!

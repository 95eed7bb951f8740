//! Splits a payload into segments of a fixed size.

use vstd::prelude::*;

verus! {

/// The segments of `s` of `size` items each, the last one possibly shorter;
/// none when `s` is empty or `size` is zero.
pub open spec fn chunks<T>(s: Seq<T>, size: nat) -> Seq<Seq<T>>
    decreases s.len(),
{
    if size == 0 || s.len() == 0 {
        Seq::empty()
    } else {
        let n = if s.len() < size {
            s.len()
        } else {
            size
        };
        seq![s.take(n as int)] + chunks(s.skip(n as int), size)
    }
}

/// An iterator over the segments of a mutable slice: every segment has
/// `segment_size` items, but the last one may be shorter.
pub struct IterMut<'a, T> {
    items: &'a mut [T],
    segment_size: usize,
}

impl<'a, T> IterMut<'a, T> {
    /// The items not handed out yet.
    pub closed spec fn remaining(&self) -> Seq<T> {
        self.items@
    }

    /// The size of a segment.
    pub closed spec fn segment_size_spec(&self) -> nat {
        self.segment_size as nat
    }

    /// Segments of `segment_size` items.
    #[inline]
    pub fn new(items: &'a mut [T], segment_size: usize) -> (r: Self)
        ensures
            r.remaining() == old(items)@,
            r.segment_size_spec() == segment_size,
    {
        Self { items, segment_size }
    }

    /// All the items as one segment.
    #[inline]
    pub fn once(items: &'a mut [T]) -> (r: Self)
        ensures
            r.remaining() == old(items)@,
            r.segment_size_spec() == old(items)@.len(),
    {
        let segment_size = items.len();
        Self::new(items, segment_size)
    }

    /// No segment.
    #[inline]
    pub fn empty() -> (r: Self)
        ensures
            r.remaining() == Seq::<T>::empty(),
            r.segment_size_spec() == 0,
    {
        let items: &'a mut [T] = &mut [];
        Self::new(items, 0)
    }

    /// The next segment: the first `segment_size` remaining items, or fewer
    /// at the end; `None` when no item remains or segments are empty.
    #[inline]
    pub fn next(&mut self) -> (r: Option<&'a mut [T]>)
        ensures
            final(self).segment_size_spec() == old(self).segment_size_spec(),
            r is None <==> chunks(old(self).remaining(), old(self).segment_size_spec()).len() == 0,
            r matches Some(seg) ==> seg@ == chunks(
                old(self).remaining(),
                old(self).segment_size_spec(),
            )[0] && chunks(final(self).remaining(), old(self).segment_size_spec()) == chunks(
                old(self).remaining(),
                old(self).segment_size_spec(),
            ).drop_first(),
            ({
                let len = if old(self).remaining().len() < old(self).segment_size_spec() {
                    old(self).remaining().len()
                } else {
                    old(self).segment_size_spec()
                };
                if len == 0 {
                    r is None && final(self).remaining() == old(self).remaining()
                } else {
                    r is Some && r->Some_0@ == old(self).remaining().subrange(0, len as int)
                        && final(self).remaining() == old(self).remaining().subrange(
                        len as int,
                        old(self).remaining().len() as int,
                    )
                }
            }),
    {
        let len = if self.items.len() < self.segment_size {
            self.items.len()
        } else {
            self.segment_size
        };

        if len == 0 {
            return None;
        }

        let mut items: &'a mut [T] = &mut [];
        core::mem::swap(&mut items, &mut self.items);
        let (head, tail) = items.split_at_mut(len);
        self.items = tail;

        Some(head)
    }
}

/// The segments cover the items exactly, in order: concatenated they give
/// the items back, each holds at least one and at most `size` items, and
/// all but the last hold exactly `size`; there are `len / size` of them,
/// rounded up.
pub proof fn law_chunks_cover<T>(s: Seq<T>, size: nat)
    requires
        size > 0,
    ensures
        chunks(s, size).flatten() == s,
        chunks(s, size).len() == (s.len() + size - 1) / (size as int),
        forall|i: int|
            0 <= i < chunks(s, size).len() ==> 0 < #[trigger] chunks(s, size)[i].len() <= size,
        forall|i: int|
            0 <= i < chunks(s, size).len() - 1 ==> #[trigger] chunks(s, size)[i].len() == size,
    decreases s.len(),
{
    if s.len() == 0 {
        assert(chunks(s, size).flatten() =~= s);
        assert((s.len() + size - 1) / (size as int) == 0) by (nonlinear_arith)
            requires
                s.len() == 0,
                size > 0,
        ;
    } else {
        let n = if s.len() < size {
            s.len()
        } else {
            size
        };
        let rest = s.skip(n as int);
        law_chunks_cover(rest, size);
        let c = chunks(s, size);
        assert(c == seq![s.take(n as int)] + chunks(rest, size));
        assert(c.drop_first() =~= chunks(rest, size));
        assert(c.first() == s.take(n as int));
        assert(s.take(n as int) + rest =~= s);
        if s.len() < size {
            assert(rest.len() == 0);
            assert((s.len() + size - 1) / (size as int) == 1) by (nonlinear_arith)
                requires
                    0 < s.len() < size,
            ;
        } else {
            assert((s.len() + size - 1) / (size as int) == (rest.len() + size - 1) / (size as int)
                + 1) by (nonlinear_arith)
                requires
                    rest.len() == s.len() - size,
                    size > 0,
            ;
        }
        assert forall|i: int| 0 <= i < c.len() implies 0 < #[trigger] c[i].len() <= size by {
            if i > 0 {
                assert(c[i] == chunks(rest, size)[i - 1]);
            }
        }
        assert forall|i: int| 0 <= i < c.len() - 1 implies #[trigger] c[i].len() == size by {
            if i > 0 {
                assert(c[i] == chunks(rest, size)[i - 1]);
            } else {
                assert(rest.len() > 0);
            }
        }
    }
}

} // verus!

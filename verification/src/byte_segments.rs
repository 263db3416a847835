//! Packets assembled from up to eight byte slices without copying them.
use crate::codec::extend_bytes;
use crate::store::views;
use vstd::prelude::*;

verus! {

/// The index of the first non empty segment at or after `i`, or the number of
/// segments when there is none.
pub open spec fn first_filled(s: Seq<Seq<u8>>, i: nat) -> int
    decreases s.len() - i,
{
    if i >= s.len() {
        s.len() as int
    } else if s[i as int].len() > 0 {
        i as int
    } else {
        first_filled(s, i + 1)
    }
}

/// Eight byte slices, read in order as one sequence of bytes.
#[derive(Clone, Debug)]
pub struct ByteSegments<'a>(pub(crate) [&'a [u8]; 8]);

impl<'a> View for ByteSegments<'a> {
    type V = Seq<Seq<u8>>;

    closed spec fn view(&self) -> Seq<Seq<u8>> {
        views(self.0@)
    }
}

impl<'a> ByteSegments<'a> {
    /// The bytes of all segments, in order.
    pub open spec fn bytes(&self) -> Seq<u8> {
        self@.flatten()
    }

    /// Segments holding the given slices, in order, followed by empty ones.
    pub fn from_array<const N: usize>(segments: [&'a [u8]; N]) -> (r: Self)
        requires
            N < 8,
        ensures
            r@ == views(segments@) + Seq::new((8 - N) as nat, |i: int| Seq::<u8>::empty()),
    {
        let empty: &[u8] = &[];
        let mut r: [&'a [u8]; 8] = [empty; 8];
        let mut i: usize = 0;
        while i < N
            invariant
                i <= N < 8,
                forall|j: int| 0 <= j < i ==> r@[j]@ == segments@[j]@,
                forall|j: int| i <= j < 8 ==> r@[j]@.len() == 0,
            decreases N - i,
        {
            r[i] = segments[i];
            i = i + 1;
        }
        let out = ByteSegments(r);
        assert forall|j: int| 0 <= j < 8 implies #[trigger] out@[j] == (views(segments@) + Seq::new(
            (8 - N) as nat,
            |i: int| Seq::<u8>::empty(),
        ))[j] by {
            assert(out@[j] == r@[j]@);
            if j >= N {
                assert(r@[j]@ =~= Seq::<u8>::empty());
            }
        }
        assert(out@ =~= views(segments@) + Seq::new((8 - N) as nat, |i: int| Seq::<u8>::empty()));
        out
    }

    /// The eight segments.
    pub fn as_slice(&self) -> (r: &[&'a [u8]])
        ensures
            views(r@) == self@,
    {
        self.0.as_slice()
    }

    /// The segments with `head` in front and the last (empty) one dropped.
    pub fn push_front(self, head: &'a [u8]) -> (r: Self)
        requires
            self@[7].len() == 0,
        ensures
            r@ == seq![head@] + self@.take(7),
    {
        let s = self.0;
        let r = ByteSegments([head, s[0], s[1], s[2], s[3], s[4], s[5], s[6]]);
        assert(r@ =~= seq![head@] + self@.take(7));
        r
    }

    /// All bytes, copied into one buffer.
    pub fn to_bytes(self) -> (r: Box<[u8]>)
        ensures
            r@ == self.bytes(),
    {
        let mut v: Vec<u8> = Vec::new();
        self.write_into(&mut v);
        boxed(v)
    }

    /// Appends all bytes to `dest`.
    pub fn write_into(self, dest: &mut Vec<u8>)
        ensures
            final(dest)@ == old(dest)@ + self.bytes(),
    {
        let ghost start = dest@;
        let mut i: usize = 0;
        while i < 8
            invariant
                i <= 8,
                self@.len() == 8,
                dest@ == start + self@.take(i as int).flatten(),
            decreases 8 - i,
        {
            let seg = self.0[i];
            extend_bytes(dest, seg);
            proof {
                assert(self@.take(i + 1 as int) =~= self@.take(i as int).push(self@[i as int]));
                self@.take(i as int).lemma_flatten_push(self@[i as int]);
            }
            i = i + 1;
        }
        assert(self@.take(8) =~= self@);
    }

    /// The number of bytes, wrapping around at the size of `usize`.
    pub fn len(&self) -> (r: usize)
        ensures
            r as int == self.bytes().len() as int % (usize::MAX as int + 1),
    {
        let mut acc: usize = 0;
        let mut i: usize = 0;
        assert(self@.take(0) =~= Seq::<Seq<u8>>::empty());
        assert(self@.take(0).flatten().len() == 0);
        assert(0int % (usize::MAX as int + 1) == 0) by (nonlinear_arith);
        while i < 8
            invariant
                i <= 8,
                self@.len() == 8,
                acc as int == self@.take(i as int).flatten().len() as int % (usize::MAX as int
                    + 1),
            decreases 8 - i,
        {
            let l = self.0[i].len();
            let ghost t = self@.take(i as int).flatten().len() as int;
            proof {
                assert(self@.take(i + 1 as int) =~= self@.take(i as int).push(self@[i as int]));
                self@.take(i as int).lemma_flatten_push(self@[i as int]);
                lemma_wrapping_step(t, acc as int, l as int);
            }
            acc = acc.wrapping_add(l);
            i = i + 1;
        }
        assert(self@.take(8) =~= self@);
        acc
    }

    /// Every segment is empty.
    pub fn is_empty(&self) -> (r: bool)
        ensures
            r == (forall|i: int| 0 <= i < 8 ==> self@[i].len() == 0),
    {
        let mut i: usize = 0;
        while i < 8
            invariant
                i <= 8,
                self@.len() == 8,
                forall|j: int| 0 <= j < i ==> self@[j].len() == 0,
            decreases 8 - i,
        {
            assert(self@[i as int] == self.0@[i as int]@);
            if self.0[i].len() != 0 {
                return false;
            }
            i = i + 1;
        }
        true
    }

    /// The number of bytes left, as a lower and an upper bound (see [Self::len]).
    pub fn size_hint(&self) -> (r: (usize, Option<usize>))
        ensures
            r.0 as int == self.bytes().len() as int % (usize::MAX as int + 1),
            r.1 == Some(r.0),
    {
        let len = self.len();
        (len, Some(len))
    }

    /// Takes the next byte: the first byte of the first non empty segment.
    pub fn next(&mut self) -> (r: Option<u8>)
        ensures
            old(self).bytes().len() == 0 ==> r is None && final(self)@ == old(self)@,
            old(self).bytes().len() > 0 ==> {
                let k = first_filled(old(self)@, 0);
                &&& r == Some(old(self).bytes()[0])
                &&& 0 <= k < 8
                &&& final(self)@ == old(self)@.update(k, old(self)@[k].drop_first())
                &&& final(self).bytes() == old(self).bytes().drop_first()
            },
    {
        let ghost s = self@;
        proof {
            lemma_first_filled(s, 0);
        }
        let mut i: usize = 0;
        while i < 8
            invariant
                i <= 8,
                s == self@,
                s == old(self)@,
                s.len() == 8,
                forall|j: int| 0 <= j < i ==> s[j].len() == 0,
                first_filled(s, 0) == first_filled(s, i as nat),
            decreases 8 - i,
        {
            let seg = self.0[i];
            assert(seg@ == s[i as int]);
            if seg.len() > 0 {
                let h = seg[0];
                self.0[i] = &seg[1..seg.len()];
                proof {
                    assert(self@ =~= s.update(i as int, s[i as int].drop_first()));
                    lemma_take_first(s, i as int);
                }
                return Some(h);
            }
            i = i + 1;
        }
        proof {
            lemma_flatten_skip(s, 8);
            assert(s.skip(8) =~= Seq::<Seq<u8>>::empty());
        }
        None
    }
}

/// Segments made from slices read as the slices' bytes, one after the
/// other: the empty segments that fill up to eight add nothing.
pub proof fn law_from_array_bytes(segments: Seq<Seq<u8>>, n: nat)
    ensures
        (segments + Seq::new(n, |i: int| Seq::<u8>::empty())).flatten() == segments.flatten(),
    decreases n,
{
    let e = Seq::new(n, |i: int| Seq::<u8>::empty());
    if n == 0 {
        assert(segments + e =~= segments);
    } else {
        let e1 = Seq::new((n - 1) as nat, |i: int| Seq::<u8>::empty());
        law_from_array_bytes(segments, (n - 1) as nat);
        assert(segments + e =~= (segments + e1).push(Seq::<u8>::empty()));
        (segments + e1).lemma_flatten_push(Seq::<u8>::empty());
        assert((segments + e1).flatten() + Seq::<u8>::empty() =~= (segments + e1).flatten());
    }
}

/// Calls `Vec::into_boxed_slice`, which std documents as keeping the
/// vector's elements: the boxed slice holds the same bytes in the same order.
#[verifier::external_body]
fn boxed(v: Vec<u8>) -> (r: Box<[u8]>)
    ensures
        r@ == v@,
{
    v.into_boxed_slice()
}

/// One step of a wrapping sum: adding `l` to the wrapped partial sum of `t`.
proof fn lemma_wrapping_step(t: int, acc: int, l: int)
    requires
        0 <= t,
        0 <= l <= usize::MAX,
        acc == t % (usize::MAX as int + 1),
    ensures
        vstd::wrapping::usize_specs::wrapping_add(acc as usize, l as usize) as int == (t + l)
            % (usize::MAX as int + 1),
{
    let m = usize::MAX as int + 1;
    assert(0 <= acc < m) by (nonlinear_arith)
        requires
            acc == t % m,
            m > 0,
    ;
    vstd::arithmetic::div_mod::lemma_fundamental_div_mod(t, m);
    let q = t / m;
    if acc + l < m {
        vstd::arithmetic::div_mod::lemma_mod_add_multiples_vanish(acc + l, m);
        assert((t + l) % m == acc + l) by {
            assert(t + l == q * m + (acc + l));
            vstd::arithmetic::div_mod::lemma_mod_multiples_vanish(q, acc + l, m);
            vstd::arithmetic::div_mod::lemma_small_mod((acc + l) as nat, m as nat);
        }
    } else {
        assert((t + l) % m == acc + l - m) by {
            assert(t + l == (q + 1) * m + (acc + l - m)) by (nonlinear_arith)
                requires
                    t == m * q + acc,
            ;
            vstd::arithmetic::div_mod::lemma_mod_multiples_vanish(q + 1, acc + l - m, m);
            vstd::arithmetic::div_mod::lemma_small_mod((acc + l - m) as nat, m as nat);
        }
    }
}

/// `first_filled` points at a non empty segment, or past the end when all are
/// empty.
proof fn lemma_first_filled(s: Seq<Seq<u8>>, i: nat)
    requires
        i <= s.len(),
    ensures
        i <= first_filled(s, i) <= s.len(),
        first_filled(s, i) < s.len() ==> s[first_filled(s, i)].len() > 0,
        forall|j: int| i <= j < first_filled(s, i) ==> s[j].len() == 0,
    decreases s.len() - i,
{
    if i < s.len() && s[i as int].len() == 0 {
        lemma_first_filled(s, i + 1);
    }
}

/// Taking a byte from the first non empty segment `i` takes the first byte.
proof fn lemma_take_first(s: Seq<Seq<u8>>, i: int)
    requires
        0 <= i < s.len(),
        forall|j: int| 0 <= j < i ==> s[j].len() == 0,
        s[i].len() > 0,
        first_filled(s, 0) == first_filled(s, i as nat),
    ensures
        first_filled(s, 0) == i,
        s.flatten().len() > 0,
        s.flatten()[0] == s[i][0],
        s.update(i, s[i].drop_first()).flatten() == s.flatten().drop_first(),
{
    let t = s[i].drop_first();
    let u = s.update(i, t);
    lemma_flatten_skip(s, i);
    assert forall|j: int| 0 <= j < i implies u[j].len() == 0 by {
        assert(u[j] == s[j]);
    }
    lemma_flatten_skip(u, i);
    let rest = s.skip(i + 1).flatten();
    assert(s.skip(i).drop_first() =~= s.skip(i + 1));
    assert(u.skip(i).drop_first() =~= s.skip(i + 1));
    assert(s.skip(i).first() == s[i]);
    assert(u.skip(i).first() == t);
    assert(s.flatten() == s[i] + rest);
    assert(u.flatten() == t + rest);
    assert((s[i] + rest).drop_first() =~= t + rest);
}

/// Leading empty segments add nothing to the bytes.
proof fn lemma_flatten_skip(s: Seq<Seq<u8>>, k: int)
    requires
        0 <= k <= s.len(),
        forall|j: int| 0 <= j < k ==> s[j].len() == 0,
    ensures
        s.flatten() == s.skip(k).flatten(),
    decreases k,
{
    if k == 0 {
        assert(s.skip(0) =~= s);
    } else {
        let t = s.drop_first();
        assert forall|j: int| 0 <= j < k - 1 implies t[j].len() == 0 by {
            assert(t[j] == s[j + 1]);
        }
        lemma_flatten_skip(t, k - 1);
        assert(t.skip(k - 1) =~= s.skip(k));
        assert(s[0] =~= Seq::<u8>::empty());
        assert(s.flatten() == s.first() + t.flatten());
        assert(s.first() + t.flatten() =~= t.flatten());
    }
}

/// The bytes left after `k` calls of [ByteSegments::next] on segments holding
/// `b`: each call takes the first byte, if there is one.
pub open spec fn after_next(b: Seq<u8>, k: nat) -> Seq<u8>
    decreases k,
{
    if k == 0 {
        b
    } else {
        let p = after_next(b, (k - 1) as nat);
        if p.len() == 0 {
            p
        } else {
            p.drop_first()
        }
    }
}

/// What call `k` (from 0) of [ByteSegments::next] returns on segments holding `b`.
pub open spec fn nth_next(b: Seq<u8>, k: nat) -> Option<u8> {
    let p = after_next(b, k);
    if p.len() == 0 {
        None
    } else {
        Some(p[0])
    }
}

/// Calling `next` again and again yields the bytes of all segments in order
/// and then `None` forever; each call that yields a byte leaves one byte less.
pub proof fn law_next_run(b: Seq<u8>, k: nat)
    ensures
        k < b.len() ==> nth_next(b, k) == Some(b[k as int]),
        k >= b.len() ==> nth_next(b, k) is None,
        k <= b.len() ==> after_next(b, k) == b.skip(k as int),
        k <= b.len() ==> after_next(b, k).len() == b.len() - k,
    decreases k,
{
    if k == 0 {
        assert(b.skip(0) =~= b);
    } else {
        law_next_run(b, (k - 1) as nat);
        if k <= b.len() {
            assert(b.skip(k - 1).drop_first() =~= b.skip(k as int));
        } else if k - 1 == b.len() {
            assert(b.skip(b.len() as int).len() == 0);
        }
    }
}

} // verus!

//! A rooted space is a space with an 8 byte index in front:
//! `[depth, end offset of component 1, .., end offset of component 7]`,
//! which gives direct access to each component.
use crate::codec::{
    checked_prefix, checked_step, comp_enc, copy_bytes, encode, extend_bytes, header,
    lemma_checked_prefix, lemma_encode_len, lemma_encode_parse, lemma_encode_push,
    lemma_encode_take, lemma_parse_encode, parse, read_checked, valid_comp, valid_comps,
    walk_comps, walk_ok, Fault,
};
use crate::consts::{MAX_ROOTED_SPACENAME_SIZE, MAX_SPACENAME_COMPONENT_SIZE, MAX_SPACE_DEPTH, MAX_SPACENAME_SIZE};
use crate::space::{comps, fault_err, valid_space, Space, SpaceBuf, SpaceBytes, SpaceError};
use crate::store::{views, ByteStore};
use vstd::prelude::*;

verus! {

/// The space part of rooted bytes.
pub open spec fn rspace(r: Seq<u8>) -> Seq<u8> {
    if r.len() == 0 {
        Seq::empty()
    } else {
        r.skip(8)
    }
}

/// The `j`-th entry (0 to 8) of the offsets of the rooted bytes: 0, the seven
/// index bytes, and the size of the space (capped at 255).
pub open spec fn ridx(r: Seq<u8>, j: int) -> int {
    if r.len() == 0 || j == 0 {
        0
    } else if j == 8 {
        if r.len() - 8 > 255 {
            255
        } else {
            r.len() - 8
        }
    } else {
        r[j] as int
    }
}

/// The component count of the rooted bytes.
pub open spec fn rdepth(r: Seq<u8>) -> int {
    if r.len() == 0 {
        0
    } else {
        r[0] as int
    }
}

/// The index offsets are increasing and within the space.
pub open spec fn offsets_ok(r: Seq<u8>) -> bool {
    &&& (r.len() == 0 || r.len() >= 8)
    &&& forall|j: int|
        0 <= j < 8 ==> 0 <= #[trigger] ridx(r, j) <= ridx(r, j + 1) <= rspace(r).len()
}

/// The `j`-th segment of the space, as the index delimits it.
pub open spec fn rseg(r: Seq<u8>, j: int) -> Seq<u8> {
    rspace(r).subrange(ridx(r, j), ridx(r, j + 1))
}

/// The first component of encoded bytes.
pub open spec fn first_of(s: Seq<u8>) -> Seq<u8> {
    if s.len() == 0 {
        Seq::empty()
    } else {
        s.subrange(1, s[0] as int + 1)
    }
}

/// Reading the first component of the bytes stays within them.
pub open spec fn first_ok(s: Seq<u8>) -> bool {
    s.len() == 0 || s[0] as int + 1 <= s.len()
}

/// The `j`-th component, as the index delimits it.
pub open spec fn rcomp(r: Seq<u8>, j: int) -> Seq<u8> {
    first_of(rseg(r, j))
}

/// Every indexed segment can be read.
pub open spec fn comps_ok(r: Seq<u8>) -> bool {
    &&& offsets_ok(r)
    &&& forall|j: int| 0 <= j < 8 ==> first_ok(#[trigger] rseg(r, j))
}

/// The check of the index against the space, step `i` of 8: `rest` is the
/// space not read yet, `len` the expected count, `ptr` the bytes read. The
/// first missing component must be at the count; with all 8 present, the
/// count must be 8.
pub open spec fn rloop(r: Seq<u8>, rest: Seq<u8>, i: nat, len: int, ptr: int) -> Result<
    (),
    SpaceError,
>
    decreases 8 - i,
{
    if i >= 8 {
        if len != 8 {
            Err(SpaceError::EmptyComponentIdx)
        } else {
            Ok(())
        }
    } else {
        match checked_step(rest) {
            Some(Err(f)) => Err(fault_err(f)),
            Some(Ok((segm, next))) => if ridx(r, i as int + 1) != ptr + segm.len() {
                Err(SpaceError::BadOffset)
            } else {
                rloop(r, next, i + 1, len, ptr + segm.len())
            },
            None => if len != i {
                Err(SpaceError::EmptyComponentIdx)
            } else if ridx(r, i as int + 1) != ptr {
                Err(SpaceError::BadOffset)
            } else {
                rloop(r, rest, i + 1, len + 1, ptr)
            },
        }
    }
}

/// The result of checking rooted bytes.
pub open spec fn spec_rcheck(r: Seq<u8>) -> Result<(), SpaceError> {
    if r.len() == 0 {
        Ok(())
    } else if r.len() < 8 {
        Err(SpaceError::MissingIdx)
    } else if r.len() > MAX_ROOTED_SPACENAME_SIZE {
        Err(SpaceError::CapacityError)
    } else {
        rloop(r, r.skip(8), 0, r[0] as int, 0)
    }
}

/// The rooted bytes of a list of components (empty for no components).
pub open spec fn rooted_of(cs: Seq<Seq<u8>>) -> Seq<u8> {
    if cs.len() == 0 {
        Seq::empty()
    } else {
        header(cs) + encode(cs)
    }
}

/// Rooting a space: its first 8 components with their index.
pub open spec fn spec_rooted(b: Seq<u8>) -> Result<Seq<u8>, SpaceError> {
    if b.len() == 0 {
        Ok(Seq::empty())
    } else if b.len() > MAX_SPACENAME_SIZE {
        Err(SpaceError::CapacityError)
    } else {
        match checked_prefix(b, 8) {
            Err(f) => Err(fault_err(f)),
            Ok(cs) => Ok(rooted_of(cs)),
        }
    }
}

/// Appending a component to rooted bytes: the new bytes and the result.
pub open spec fn spec_rappend(r: Seq<u8>, c: Seq<u8>) -> (Seq<u8>, Result<(), SpaceError>) {
    if c.len() > MAX_SPACENAME_COMPONENT_SIZE {
        (r, Err(SpaceError::ComponentSize))
    } else if c.len() == 0 {
        (r, Err(SpaceError::ZeroComponent))
    } else {
        let bs = if r.len() == 0 {
            Seq::new(8, |j: int| 0u8)
        } else {
            r
        };
        if bs[0] >= MAX_SPACE_DEPTH {
            (bs, Err(SpaceError::MaxDepth))
        } else if bs.len() + c.len() + 1 > MAX_ROOTED_SPACENAME_SIZE {
            (bs, Err(SpaceError::CapacityError))
        } else {
            let n = bs[0] as int + 1;
            let nb = bs.update(0, n as u8) + comp_enc(c);
            (
                Seq::new(
                    nb.len(),
                    |j: int|
                        if n <= j < 8 {
                            (nb.len() - 8) as u8
                        } else {
                            nb[j]
                        },
                ),
                Ok(()),
            )
        }
    }
}

/// Appending components in turn, stopping at the first failure.
pub open spec fn spec_rappend_all(r: Seq<u8>, cs: Seq<Seq<u8>>) -> (Seq<u8>, Result<(), SpaceError>)
    decreases cs.len(),
{
    if cs.len() == 0 {
        (r, Ok(()))
    } else {
        let (nr, res) = spec_rappend(r, cs[0]);
        match res {
            Err(e) => (nr, Err(e)),
            Ok(_) => spec_rappend_all(nr, cs.drop_first()),
        }
    }
}

/// Rooted bytes that the append operations accept.
pub open spec fn appendable(r: Seq<u8>) -> bool {
    r.len() == 0 || r.len() >= 8
}

/// Rooted space bytes, held in a slice, a vector or an array.
#[derive(Copy, Clone, PartialEq, Eq, Debug)]
pub struct RootedSpaceBytes<X> {
    rooted_bytes: X,
}

/// Borrowed rooted space bytes.
pub type RootedSpace<'a> = RootedSpaceBytes<&'a [u8]>;

/// Owned rooted space bytes.
pub type RootedSpaceBuf = RootedSpaceBytes<Vec<u8>>;

/// Rooted space bytes held in an array.
pub type RootedStaticSpace<const U: usize> = RootedSpaceBytes<[u8; U]>;

impl<X: ByteStore> View for RootedSpaceBytes<X> {
    type V = Seq<u8>;

    closed spec fn view(&self) -> Seq<u8> {
        self.rooted_bytes.store_view()
    }
}

impl<X: ByteStore> RootedSpaceBytes<X> {
    /// A borrowed view.
    pub fn as_rooted(&self) -> (r: RootedSpace<'_>)
        ensures
            r@ == self@,
    {
        RootedSpaceBytes { rooted_bytes: self.rooted_bytes.store_bytes() }
    }
}

/// The rooted space of a single component.
pub fn rspace1<const C0: usize, const R: usize>(c0: &[u8; C0]) -> (r: RootedStaticSpace<R>)
    requires
        R == C0 + 9,
        0 < C0 < MAX_SPACENAME_COMPONENT_SIZE,
    ensures
        r@ == rooted_of(seq![c0@]),
        spec_rcheck(r@) is Ok,
{
    let mut r = [0u8; R];
    r[0] = 1;
    let mut i: usize = 1;
    while i < 8
        invariant
            R == C0 + 9,
            0 < C0 < 200,
            1 <= i <= 8,
            r@.len() == R,
            r@[0] == 1,
            forall|j: int| 1 <= j < i ==> r@[j] == (C0 + 1) as u8,
        decreases 8 - i,
    {
        r[i] = (C0 + 1) as u8;
        i = i + 1;
    }
    r[8] = C0 as u8;
    let mut k: usize = 0;
    while k < C0
        invariant
            R == C0 + 9,
            0 < C0 < 200,
            k <= C0,
            r@.len() == R,
            r@[0] == 1,
            r@[8] == C0 as u8,
            forall|j: int| 1 <= j < 8 ==> r@[j] == (C0 + 1) as u8,
            forall|j: int| 0 <= j < k ==> r@[9 + j] == c0@[j],
        decreases C0 - k,
    {
        r[9 + k] = c0[k];
        k = k + 1;
    }
    proof {
        let cs = seq![c0@];
        crate::codec::lemma_encode_single(c0@);
        assert(cs.take(1) =~= cs);
        assert(header(cs) + encode(cs) =~= r@);
        lemma_rooted_of_check(cs);
    }
    RootedSpaceBytes { rooted_bytes: r }
}

impl<const N: usize> RootedSpaceBytes<[u8; N]> {
    /// Checks that the bytes form a rooted space.
    pub fn from(b: [u8; N]) -> (r: Result<Self, SpaceError>)
        ensures
            match spec_rcheck(b@) {
                Ok(_) => r is Ok && r.unwrap()@ == b@,
                Err(e) => r == Err::<Self, SpaceError>(e),
            },
    {
        let p = RootedSpaceBytes { rooted_bytes: b.as_slice() };
        match p.check_components() {
            Err(e) => Err(e),
            Ok(_) => Ok(RootedSpaceBytes { rooted_bytes: b }),
        }
    }
}

impl RootedSpaceBuf {
    /// Bytes taken as they are, whether or not they form a rooted space.
    pub fn from_unchecked(rooted_bytes: Vec<u8>) -> (r: RootedSpaceBuf)
        ensures
            r@ == rooted_bytes@,
    {
        RootedSpaceBytes { rooted_bytes }
    }

    /// As [Self::try_append_component], for a component that fits.
    pub fn append(self, component: &[u8]) -> (r: RootedSpaceBuf)
        requires
            appendable(self@),
            spec_rappend(self@, component@).1 is Ok,
        ensures
            r@ == spec_rappend(self@, component@).0,
    {
        let mut s = self;
        match s.try_append_component(component) {
            Ok(()) => {},
            Err(_) => {
                assert(false);
            },
        }
        s
    }

    /// Appends a component and updates the index.
    pub fn try_append_component(&mut self, component: &[u8]) -> (r: Result<(), SpaceError>)
        requires
            appendable(old(self)@),
        ensures
            final(self)@ == spec_rappend(old(self)@, component@).0,
            r == spec_rappend(old(self)@, component@).1,
            appendable(final(self)@),
    {
        if component.len() > MAX_SPACENAME_COMPONENT_SIZE {
            return Err(SpaceError::ComponentSize);
        }
        if component.len() == 0 {
            return Err(SpaceError::ZeroComponent);
        }
        if self.rooted_bytes.len() == 0 {
            self.rooted_bytes = vec![0u8; 8];
            assert(self@ =~= Seq::new(8, |j: int| 0u8));
        }
        let ghost bs = self@;
        if self.rooted_bytes[0] >= MAX_SPACE_DEPTH as u8 {
            return Err(SpaceError::MaxDepth);
        }
        if self.rooted_bytes.len() >= MAX_ROOTED_SPACENAME_SIZE || component.len() + 1
            > MAX_ROOTED_SPACENAME_SIZE - self.rooted_bytes.len() {
            return Err(SpaceError::CapacityError);
        }
        let new_len = self.rooted_bytes[0] + 1;
        self.rooted_bytes.set(0, new_len);
        self.rooted_bytes.push(component.len() as u8);
        extend_bytes(&mut self.rooted_bytes, component);
        let ghost nb = self@;
        assert(nb =~= bs.update(0, new_len) + comp_enc(component@));
        let len = (self.rooted_bytes.len() - 8) as u8;
        let mut j: usize = new_len as usize;
        while j < 8
            invariant
                nb.len() >= 8,
                self@.len() == nb.len(),
                new_len as int <= j <= 8,
                len == (nb.len() - 8) as u8,
                forall|k: int|
                    0 <= k < nb.len() ==> #[trigger] self@[k] == if new_len <= k < j {
                        len
                    } else {
                        nb[k]
                    },
            decreases 8 - j,
        {
            self.rooted_bytes.set(j, len);
            j = j + 1;
        }
        assert(self@ =~= spec_rappend(old(self)@, component@).0);
        Ok(())
    }

    /// As [Self::try_join], for components that fit.
    pub fn join(self, i: Space<'_>) -> (r: RootedSpaceBuf)
        requires
            appendable(self@),
            walk_ok(i@),
            spec_rappend_all(self@, walk_comps(i@)).1 is Ok,
        ensures
            r@ == spec_rappend_all(self@, walk_comps(i@)).0,
    {
        match self.try_join(i) {
            Ok(r) => r,
            Err(_) => {
                assert(false);
                RootedSpaceBuf::new()
            },
        }
    }

    /// Appends the components of `i`.
    pub fn try_join(self, i: Space<'_>) -> (r: Result<RootedSpaceBuf, SpaceError>)
        requires
            appendable(self@),
            walk_ok(i@),
        ensures
            match spec_rappend_all(self@, walk_comps(i@)) {
                (nr, Ok(_)) => r is Ok && r.unwrap()@ == nr,
                (_, Err(e)) => r == Err::<RootedSpaceBuf, SpaceError>(e),
            },
    {
        let mut s = self;
        let comps = i.components_slices();
        match s.extend_from_iter(comps.as_slice()) {
            Ok(()) => Ok(s),
            Err(e) => Err(e),
        }
    }

    /// Appends each component in turn, stopping at the first failure (the
    /// components appended before it stay).
    pub fn extend_from_iter(&mut self, i: &[&[u8]]) -> (r: Result<(), SpaceError>)
        requires
            appendable(old(self)@),
        ensures
            final(self)@ == spec_rappend_all(old(self)@, views(i@)).0,
            r == spec_rappend_all(old(self)@, views(i@)).1,
            appendable(final(self)@),
    {
        let ghost cs = views(i@);
        let ghost orig = self@;
        let mut k: usize = 0;
        assert(cs.skip(0) =~= cs);
        while k < i.len()
            invariant
                orig == old(self)@,
                k <= i@.len(),
                cs == views(i@),
                appendable(self@),
                spec_rappend_all(orig, cs) == spec_rappend_all(self@, cs.skip(k as int)),
            decreases i@.len() - k,
        {
            proof {
                assert(cs.skip(k as int)[0] == i@[k as int]@);
                assert(cs.skip(k as int).drop_first() =~= cs.skip(k as int + 1));
            }
            let ghost before = self@;
            match self.try_append_component(i[k]) {
                Ok(()) => {},
                Err(e) => {
                    assert(spec_rappend_all(before, cs.skip(k as int)) == (self@, Err::<
                        (),
                        SpaceError,
                    >(e)));
                    return Err(e);
                },
            }
            k = k + 1;
        }
        assert(cs.skip(k as int).len() == 0);
        Ok(())
    }

    /// A rooted space made of the components.
    pub fn try_from_iter(iter: &[&[u8]]) -> (r: Result<RootedSpaceBuf, SpaceError>)
        ensures
            match spec_rappend_all(Seq::empty(), views(iter@)) {
                (nr, Ok(_)) => r is Ok && r.unwrap()@ == nr,
                (_, Err(e)) => r == Err::<RootedSpaceBuf, SpaceError>(e),
            },
    {
        let mut new = RootedSpaceBuf::new();
        match new.extend_from_iter(iter) {
            Ok(()) => Ok(new),
            Err(e) => Err(e),
        }
    }

    /// The empty rooted space.
    pub fn new() -> (r: RootedSpaceBuf)
        ensures
            r@ == Seq::<u8>::empty(),
    {
        RootedSpaceBytes { rooted_bytes: Vec::new() }
    }
}

impl<'a> RootedSpace<'a> {
    /// Checks that the bytes form a rooted space.
    pub fn from(b: &[u8]) -> (r: Result<RootedSpace<'_>, SpaceError>)
        ensures
            match spec_rcheck(b@) {
                Ok(_) => r is Ok && r.unwrap()@ == b@,
                Err(e) => r == Err::<RootedSpace<'_>, SpaceError>(e),
            },
    {
        let p = RootedSpaceBytes { rooted_bytes: b };
        match p.check_components() {
            Err(e) => Err(e),
            Ok(_) => Ok(p),
        }
    }

    /// Rooted space bytes, unchecked.
    pub fn from_unchecked(b: &'a [u8]) -> (r: RootedSpace<'a>)
        ensures
            r@ == b@,
    {
        RootedSpaceBytes { rooted_bytes: b }
    }

    /// An owned copy.
    pub fn into_buf(self) -> (r: RootedSpaceBuf)
        ensures
            r@ == self@,
    {
        RootedSpaceBytes { rooted_bytes: copy_bytes(self.rooted_bytes) }
    }

    /// The bytes, index included.
    pub fn rooted_bytes(self) -> (r: &'a [u8])
        ensures
            r@ == self@,
    {
        self.rooted_bytes
    }

    /// The empty rooted space.
    pub fn empty() -> (r: RootedSpace<'static>)
        ensures
            r@ == Seq::<u8>::empty(),
    {
        let e: &'static [u8] = &[];
        RootedSpaceBytes { rooted_bytes: e }
    }

    /// Checks the index against the components of the space.
    pub fn check_components(self) -> (r: Result<(), SpaceError>)
        ensures
            r == spec_rcheck(self@),
    {
        let b = self.rooted_bytes;
        if b.len() == 0 {
            return Ok(());
        }
        if b.len() < 8 {
            return Err(SpaceError::MissingIdx);
        }
        if b.len() > MAX_ROOTED_SPACENAME_SIZE {
            return Err(SpaceError::CapacityError);
        }
        let (len0, idx, space) = self.fields();
        let mut iter = space.space_bytes();
        let mut len: u8 = len0;
        let mut i: u8 = 0;
        let mut ptr: usize = 0;
        while i < 8
            invariant
                b@ == self@,
                8 <= b@.len() <= 250,
                idx@.len() == 9,
                forall|j: int| 0 <= j <= 8 ==> idx@[j] as int == ridx(b@, j),
                i <= 8,
                ptr as int + iter@.len() == b@.len() - 8,
                spec_rcheck(b@) == rloop(b@, iter@, i as nat, len as int, ptr as int),
            decreases 8 - i,
        {
            match read_checked(iter) {
                Some(Err(f)) => {
                    return Err(crate::space::from_fault(f));
                },
                Some(Ok((segm, next))) => {
                    assert(segm@.len() + next@.len() == iter@.len());
                    if idx[i as usize + 1] as usize != ptr + segm.len() {
                        return Err(SpaceError::BadOffset);
                    }
                    iter = next;
                    ptr = ptr + segm.len();
                },
                None => {
                    if len != i {
                        return Err(SpaceError::EmptyComponentIdx);
                    }
                    if idx[i as usize + 1] as usize != ptr {
                        return Err(SpaceError::BadOffset);
                    }
                    len = len + 1;
                },
            }
            i = i + 1;
        }
        if len != 8 {
            return Err(SpaceError::EmptyComponentIdx);
        }
        Ok(())
    }

    /// The space (without the index).
    pub fn space(self) -> (r: Space<'a>)
        requires
            self@.len() == 0 || self@.len() >= 8,
        ensures
            r@ == rspace(self@),
    {
        self.fields().2
    }

    /// The count byte, the offsets (0 to 8) and the space.
    pub fn fields(self) -> (r: (u8, [u8; 9], Space<'a>))
        requires
            self@.len() == 0 || self@.len() >= 8,
        ensures
            r.0 as int == rdepth(self@),
            forall|j: int| 0 <= j <= 8 ==> r.1@[j] as int == ridx(self@, j),
            r.1@.len() == 9,
            r.2@ == rspace(self@),
    {
        let b = self.rooted_bytes;
        if b.len() == 0 {
            return (0, [0u8; 9], Space::empty());
        }
        let (h, space) = b.split_at(8);
        let len: u8 = if space.len() > 255 {
            255
        } else {
            space.len() as u8
        };
        let idx: [u8; 9] = [0, h[1], h[2], h[3], h[4], h[5], h[6], h[7], len];
        (h[0], idx, Space::from_unchecked(space))
    }

    /// The component count.
    pub fn space_depth(self) -> (r: u8)
        ensures
            r as int == rdepth(self@),
    {
        if self.rooted_bytes.len() == 0 {
            0
        } else {
            self.rooted_bytes[0]
        }
    }

    /// The component count is zero.
    pub fn is_empty(self) -> (r: bool)
        ensures
            r == (rdepth(self@) == 0),
    {
        self.depth() == 0
    }

    /// The component count.
    pub fn depth(self) -> (r: usize)
        ensures
            r as int == rdepth(self@),
    {
        self.space_depth() as usize
    }

    /// The eight segments of the space, as the index delimits them.
    pub fn components(self) -> (r: [Space<'a>; 8])
        requires
            offsets_ok(self@),
        ensures
            forall|j: int| 0 <= j < 8 ==> (#[trigger] r@[j])@ == rseg(self@, j),
    {
        let b = self.rooted_bytes;
        if b.len() == 0 {
            let e = Space::from_unchecked(b);
            return [e, e, e, e, e, e, e, e];
        }
        [
            self.segment(0),
            self.segment(1),
            self.segment(2),
            self.segment(3),
            self.segment(4),
            self.segment(5),
            self.segment(6),
            self.segment(7),
        ]
    }

    /// The `j`-th segment of the space.
    fn segment(self, j: usize) -> (r: Space<'a>)
        requires
            j < 8,
            offsets_ok(self@),
        ensures
            r@ == rseg(self@, j as int),
    {
        let (_, idx, space) = self.fields();
        let sb = space.space_bytes();
        let lo = idx[j] as usize;
        let hi = idx[j + 1] as usize;
        proof {
            assert(0 <= ridx(self@, j as int) <= ridx(self@, j as int + 1) <= rspace(self@).len());
        }
        Space::from_unchecked(&sb[lo..hi])
    }

    /// The components that the count covers, as the index delimits them.
    pub fn iter(self) -> (r: Vec<&'a [u8]>)
        requires
            comps_ok(self@),
            rdepth(self@) <= 8,
        ensures
            r@.len() == rdepth(self@),
            forall|j: int| 0 <= j < r@.len() ==> (#[trigger] r@[j])@ == rcomp(self@, j),
    {
        let n = self.depth();
        let mut res: Vec<&'a [u8]> = Vec::new();
        let mut j: usize = 0;
        while j < n
            invariant
                n == rdepth(self@),
                n <= 8,
                comps_ok(self@),
                j <= n,
                res@.len() == j,
                forall|k: int| 0 <= k < j ==> (#[trigger] res@[k])@ == rcomp(self@, k),
            decreases n - j,
        {
            res.push(self.comp(j));
            j = j + 1;
        }
        res
    }

    /// The first component of each of the eight segments.
    pub fn comps_bytes(self) -> (r: [&'a [u8]; 8])
        requires
            comps_ok(self@),
        ensures
            forall|j: int| 0 <= j < 8 ==> (#[trigger] r@[j])@ == rcomp(self@, j),
    {
        [
            self.comp(0),
            self.comp(1),
            self.comp(2),
            self.comp(3),
            self.comp(4),
            self.comp(5),
            self.comp(6),
            self.comp(7),
        ]
    }

    /// The part of the space from the start of segment `r.start` to the end of
    /// segment `r.end - 1`.
    pub fn range(self, r: core::ops::Range<usize>) -> (out: Space<'a>)
        requires
            self@.len() == 0 || self@.len() >= 8,
            r.start <= 8,
            r.end <= 8,
            ridx(self@, r.start as int) <= ridx(self@, r.end as int) <= rspace(self@).len(),
        ensures
            out@ == rspace(self@).subrange(ridx(self@, r.start as int), ridx(self@, r.end as int)),
    {
        let (_, segm, bytes) = self.fields();
        let sb = bytes.space_bytes();
        let lo = segm[r.start] as usize;
        let hi = segm[r.end] as usize;
        Space::from_unchecked(&sb[lo..hi])
    }

    /// The last component that the count covers (the first for a count of 0).
    pub fn last(self) -> (r: &'a [u8])
        requires
            comps_ok(self@),
            rdepth(self@) <= 8,
        ensures
            r@ == rcomp(self@, if rdepth(self@) == 0 {
                0
            } else {
                rdepth(self@) - 1
            }),
    {
        let d = self.space_depth() as usize;
        let i = if d == 0 {
            0
        } else {
            d - 1
        };
        self.comp(i)
    }

    /// The `i`-th component.
    pub fn comp(self, i: usize) -> (r: &'a [u8])
        requires
            i < 8,
            comps_ok(self@),
        ensures
            r@ == rcomp(self@, i as int),
    {
        let s = self.segment(i);
        assert(first_ok(rseg(self@, i as int)));
        s.first()
    }

    /// The first component.
    pub fn comp0(self) -> (r: &'a [u8])
        requires
            comps_ok(self@),
        ensures
            r@ == rcomp(self@, 0),
    {
        self.comp(0)
    }

    /// The second component.
    pub fn comp1(self) -> (r: &'a [u8])
        requires
            comps_ok(self@),
        ensures
            r@ == rcomp(self@, 1),
    {
        self.comp(1)
    }

    /// The third component.
    pub fn comp2(self) -> (r: &'a [u8])
        requires
            comps_ok(self@),
        ensures
            r@ == rcomp(self@, 2),
    {
        self.comp(2)
    }

    /// The fourth component.
    pub fn comp3(self) -> (r: &'a [u8])
        requires
            comps_ok(self@),
        ensures
            r@ == rcomp(self@, 3),
    {
        self.comp(3)
    }

    /// The fifth component.
    pub fn comp4(self) -> (r: &'a [u8])
        requires
            comps_ok(self@),
        ensures
            r@ == rcomp(self@, 4),
    {
        self.comp(4)
    }

    /// The sixth component.
    pub fn comp5(self) -> (r: &'a [u8])
        requires
            comps_ok(self@),
        ensures
            r@ == rcomp(self@, 5),
    {
        self.comp(5)
    }

    /// The seventh component.
    pub fn comp6(self) -> (r: &'a [u8])
        requires
            comps_ok(self@),
        ensures
            r@ == rcomp(self@, 6),
    {
        self.comp(6)
    }

    /// The eighth component.
    pub fn comp7(self) -> (r: &'a [u8])
        requires
            comps_ok(self@),
        ensures
            r@ == rcomp(self@, 7),
    {
        self.comp(7)
    }
}

/// A rooted space made of the components.
pub fn rspace_buf(components: &[&[u8]]) -> (r: RootedSpaceBuf)
    requires
        spec_rappend_all(Seq::empty(), views(components@)).1 is Ok,
    ensures
        r@ == spec_rappend_all(Seq::empty(), views(components@)).0,
{
    match RootedSpaceBuf::try_from_iter(components) {
        Ok(r) => r,
        Err(_) => {
            assert(false);
            RootedSpaceBuf::new()
        },
    }
}

impl<'a> Space<'a> {
    /// As [Self::try_into_rooted], for spaces on which it succeeds.
    pub fn rooted(self) -> (r: RootedSpaceBuf)
        requires
            spec_rooted(self@) is Ok,
        ensures
            Ok::<Seq<u8>, SpaceError>(r@) == spec_rooted(self@),
    {
        match self.try_into_rooted() {
            Ok(r) => r,
            Err(_) => {
                assert(false);
                RootedSpaceBuf::new()
            },
        }
    }

    /// The rooted space of the first 8 components (further components are
    /// left out).
    pub fn try_into_rooted(self) -> (r: Result<RootedSpaceBuf, SpaceError>)
        ensures
            match spec_rooted(self@) {
                Ok(b) => r is Ok && r.unwrap()@ == b,
                Err(e) => r == Err::<RootedSpaceBuf, SpaceError>(e),
            },
    {
        let b = self.space_bytes();
        if b.len() == 0 {
            return Ok(RootedSpaceBuf::new());
        }
        if b.len() > MAX_SPACENAME_SIZE {
            return Err(SpaceError::CapacityError);
        }
        let mut comps: Vec<&[u8]> = Vec::new();
        let mut rest = b;
        let mut i: usize = 0;
        while i < 8
            invariant
                b@ == self@,
                i <= 8,
                comps@.len() <= i,
                b@.len() <= 242,
                rest@.len() <= b@.len(),
                checked_prefix(b@, 8) == match checked_prefix(rest@, (8 - i) as nat) {
                    Ok(cs) => Ok::<Seq<Seq<u8>>, Fault>(views(comps@) + cs),
                    Err(f) => Err(f),
                },
                encode(views(comps@)) + rest@ == b@,
                valid_comps(views(comps@)),
            decreases 8 - i,
        {
            match read_checked(rest) {
                None => {},
                Some(Err(f)) => {
                    assert(checked_prefix(rest@, (8 - i) as nat) == Err::<Seq<Seq<u8>>, Fault>(f));
                    assert(checked_prefix(b@, 8) == Err::<Seq<Seq<u8>>, Fault>(f));
                    return Err(crate::space::from_fault(f));
                },
                Some(Ok((segm, next))) => {
                    let c = &segm[1..segm.len()];
                    let ghost old_comps = views(comps@);
                    comps.push(c);
                    proof {
                        assert(views(comps@) =~= old_comps.push(c@));
                        lemma_encode_push(old_comps, c@);
                        assert(comp_enc(c@) =~= segm@);
                        assert(valid_comp(c@));
                        assert forall|j: int| 0 <= j < views(comps@).len() implies valid_comp(
                            #[trigger] views(comps@)[j],
                        ) by {
                            if j < old_comps.len() {
                                assert(views(comps@)[j] == old_comps[j]);
                            }
                        }
                        match checked_prefix(next@, (8 - i - 1) as nat) {
                            Ok(cs) => {
                                assert(old_comps + (seq![c@] + cs) =~= views(comps@) + cs);
                            },
                            Err(_) => {},
                        }
                    }
                    rest = next;
                },
            }
            proof {
                if checked_step(rest@) is None && i + 1 < 8 {
                    assert(checked_prefix(rest@, (8 - i - 1) as nat) == Ok::<
                        Seq<Seq<u8>>,
                        Fault,
                    >(Seq::empty()));
                }
            }
            i = i + 1;
        }
        proof {
            assert(views(comps@) + Seq::<Seq<u8>>::empty() =~= views(comps@));
        }
        let ghost cs = views(comps@);
        let n = comps.len();
        let mut data: Vec<u8> = Vec::new();
        data.push(n as u8);
        let mut j: usize = 1;
        let mut total: usize = 0;
        let mut k: usize = 0;
        proof {
            lemma_encode_len(cs);
            assert(cs.take(0) =~= Seq::<Seq<u8>>::empty());
        }
        while j < 8
            invariant
                1 <= j <= 8,
                n == cs.len(),
                n <= 8,
                cs == views(comps@),
                valid_comps(cs),
                encode(cs).len() <= 242,
                k == if j - 1 < n {
                    j - 1
                } else {
                    n as int
                },
                total == encode(cs.take(k as int)).len(),
                data@.len() == j,
                data@ == header(cs).subrange(0, j as int),
            decreases 8 - j,
        {
            if k < n {
                proof {
                    assert(cs.take(k as int + 1) =~= cs.take(k as int).push(cs[k as int]));
                    lemma_encode_push(cs.take(k as int), cs[k as int]);
                    lemma_encode_take(cs, k as int + 1);
                }
                total = total + comps[k].len() + 1;
                k = k + 1;
            }
            proof {
                lemma_encode_take(cs, k as int);
            }
            data.push(total as u8);
            proof {
                assert(data@ =~= header(cs).subrange(0, j as int + 1));
            }
            j = j + 1;
        }
        let mut m: usize = 0;
        while m < n
            invariant
                m <= n,
                n == cs.len(),
                cs == views(comps@),
                data@ == header(cs) + encode(cs.take(m as int)),
            decreases n - m,
        {
            let c = comps[m];
            let ghost before = data@;
            data.push(c.len() as u8);
            extend_bytes(&mut data, c);
            proof {
                assert(cs.take(m as int + 1) =~= cs.take(m as int).push(c@));
                lemma_encode_push(cs.take(m as int), c@);
                assert(data@ =~= header(cs) + encode(cs.take(m as int + 1)));
            }
            m = m + 1;
        }
        proof {
            assert(cs.take(n as int) =~= cs);
            assert(header(cs).len() == 8);
            if cs.len() == 0 {
                lemma_encode_len(cs);
            }
        }
        Ok(RootedSpaceBuf::from_unchecked(data))
    }
}

/// Rooting a space gives bytes that pass the rooted check.
pub proof fn law_rooted_checks(b: Seq<u8>)
    requires
        spec_rooted(b) is Ok,
    ensures
        spec_rcheck(spec_rooted(b).unwrap()) is Ok,
{
    if b.len() > 0 {
        lemma_checked_prefix(b, 8);
        let cs = checked_prefix(b, 8).unwrap();
        lemma_rooted_of_check(cs);
    }
}

/// The index of the rooted bytes of valid components delimits each component.
pub proof fn lemma_rooted_comp(cs: Seq<Seq<u8>>, j: int)
    requires
        valid_comps(cs),
        0 < cs.len() <= 8,
        encode(cs).len() <= MAX_SPACENAME_SIZE,
        0 <= j < cs.len(),
    ensures
        ridx(rooted_of(cs), j) == encode(cs.take(j)).len(),
        ridx(rooted_of(cs), j + 1) == encode(cs.take(j + 1)).len(),
        rseg(rooted_of(cs), j) == comp_enc(cs[j]),
        rcomp(rooted_of(cs), j) == cs[j],
{
    let r = rooted_of(cs);
    lemma_encode_len(cs);
    assert(rspace(r) =~= encode(cs));
    assert(cs.take(0) =~= Seq::<Seq<u8>>::empty());
    lemma_encode_take(cs, j);
    lemma_encode_take(cs, j + 1);
    assert(cs.take(j + 1) =~= cs.take(j).push(cs[j]));
    lemma_encode_push(cs.take(j), cs[j]);
    if j + 1 == 8 {
        assert(cs.take(j + 1) =~= cs);
    }
    if j + 1 == cs.len() {
        assert(cs.take(j + 1) =~= cs);
    }
    let lo = encode(cs.take(j)).len() as int;
    let hi = encode(cs.take(j + 1)).len() as int;
    assert(encode(cs) =~= encode(cs.take(j)) + comp_enc(cs[j]) + encode(cs.skip(j + 1)));
    assert(rspace(r).subrange(lo, hi) =~= comp_enc(cs[j]));
    crate::codec::lemma_comp_enc(cs[j]);
}

/// Rooting a valid space of at most 8 components keeps its bytes as the space
/// part, counts its components, and its index gives each component.
pub proof fn law_rooted_space(b: Seq<u8>)
    requires
        valid_space(b),
        comps(b).len() <= MAX_SPACE_DEPTH,
    ensures
        spec_rooted(b) is Ok,
        rspace(spec_rooted(b).unwrap()) == b,
        rdepth(spec_rooted(b).unwrap()) == comps(b).len(),
        forall|j: int|
            0 <= j < comps(b).len() ==> #[trigger] rcomp(spec_rooted(b).unwrap(), j) == comps(b)[j],
{
    lemma_checked_prefix(b, 8);
    lemma_encode_parse(b);
    let cs = comps(b);
    if b.len() > 0 {
        lemma_encode_len(cs);
        assert(rspace(rooted_of(cs)) =~= encode(cs));
        assert forall|j: int| 0 <= j < cs.len() implies #[trigger] rcomp(rooted_of(cs), j)
            == cs[j] by {
            lemma_rooted_comp(cs, j);
        }
    } else {
        assert(parse(b).unwrap() =~= Seq::<Seq<u8>>::empty());
    }
}

/// One append to the rooted bytes of valid components.
proof fn lemma_rappend_step(p: Seq<Seq<u8>>, c: Seq<u8>)
    requires
        valid_comps(p),
        valid_comp(c),
        p.len() < 8,
        encode(p).len() + c.len() + 1 <= MAX_SPACENAME_SIZE,
    ensures
        spec_rappend(rooted_of(p), c) == (rooted_of(p.push(c)), Ok::<(), SpaceError>(())),
{
    let r = rooted_of(p);
    let q = p.push(c);
    lemma_encode_len(p);
    lemma_encode_push(p, c);
    crate::codec::lemma_comp_enc(c);
    let bs = if r.len() == 0 {
        Seq::new(8, |j: int| 0u8)
    } else {
        r
    };
    assert(bs.len() == 8 + encode(p).len());
    assert(bs[0] == p.len()) by {
        if p.len() > 0 {
            assert(bs[0] == header(p)[0]);
        }
    }
    let n = bs[0] as int + 1;
    let nb = bs.update(0, n as u8) + comp_enc(c);
    let res = Seq::new(
        nb.len(),
        |j: int|
            if n <= j < 8 {
                (nb.len() - 8) as u8
            } else {
                nb[j]
            },
    );
    assert(spec_rappend(r, c) == (res, Ok::<(), SpaceError>(())));
    let want = header(q) + encode(q);
    assert(res.len() == want.len());
    assert forall|j: int| 0 <= j < res.len() implies res[j] == want[j] by {
        if j == 0 {
        } else if j < n {
            assert(p.len() > 0);
            assert(bs[j] == header(p)[j]);
            assert(q.take(j) =~= p.take(j));
        } else if j < 8 {
            assert(q.take(q.len() as int) =~= q);
        } else {
            assert(want[j] == encode(q)[j - 8]);
            assert(encode(q) == encode(p) + comp_enc(c));
            if j < bs.len() {
                assert(p.len() > 0);
                assert(nb[j] == bs[j]);
                assert(bs[j] == encode(p)[j - 8]);
            } else {
                assert(nb[j] == comp_enc(c)[j - bs.len()]);
            }
        }
    }
    assert(res =~= want);
}

/// Appending valid components to rooted bytes of valid components.
proof fn lemma_rappend_rooted(p: Seq<Seq<u8>>, q: Seq<Seq<u8>>)
    requires
        valid_comps(p),
        valid_comps(q),
        p.len() + q.len() <= 8,
        encode(p + q).len() <= MAX_SPACENAME_SIZE,
    ensures
        spec_rappend_all(rooted_of(p), q) == (rooted_of(p + q), Ok::<(), SpaceError>(())),
    decreases q.len(),
{
    if q.len() == 0 {
        assert(p + q =~= p);
    } else {
        let c = q[0];
        let p2 = p.push(c);
        let q2 = q.drop_first();
        assert(valid_comp(c));
        assert(p + q =~= p2 + q2);
        assert(valid_comps(p2)) by {
            assert forall|i: int| 0 <= i < p2.len() implies valid_comp(#[trigger] p2[i]) by {
                if i < p.len() {
                    assert(p2[i] == p[i]);
                }
            }
        }
        assert(valid_comps(q2)) by {
            assert forall|i: int| 0 <= i < q2.len() implies valid_comp(#[trigger] q2[i]) by {
                assert(q2[i] == q[i + 1]);
            }
        }
        crate::codec::lemma_encode_append(p2, q2);
        lemma_encode_push(p, c);
        lemma_rappend_step(p, c);
        lemma_rappend_rooted(p2, q2);
    }
}

/// Appending valid components (at most 8, fitting in 242 bytes) one by one to
/// the empty rooted space gives the rooted bytes of the components, which are
/// also what rooting their space gives.
pub proof fn law_rooted_by_appends(cs: Seq<Seq<u8>>)
    requires
        valid_comps(cs),
        cs.len() <= MAX_SPACE_DEPTH,
        encode(cs).len() <= MAX_SPACENAME_SIZE,
    ensures
        spec_rappend_all(Seq::empty(), cs) == (rooted_of(cs), Ok::<(), SpaceError>(())),
        spec_rooted(encode(cs)) == Ok::<Seq<u8>, SpaceError>(rooted_of(cs)),
{
    assert(Seq::<Seq<u8>>::empty() + cs =~= cs);
    assert(rooted_of(Seq::<Seq<u8>>::empty()) =~= Seq::<u8>::empty());
    assert(valid_comps(Seq::<Seq<u8>>::empty()));
    lemma_rappend_rooted(Seq::empty(), cs);
    lemma_parse_encode(cs);
    lemma_checked_prefix(encode(cs), 8);
    lemma_encode_len(cs);
    if cs.len() == 0 {
        assert(encode(cs) =~= Seq::<u8>::empty());
    }
}

/// The check loop from step `i` on passes over the space after `ptr` bytes:
/// the segments from `i` on are ordered and each can be read.
proof fn lemma_rloop_comps(r: Seq<u8>, rest: Seq<u8>, i: nat, len: int, ptr: int)
    requires
        8 <= r.len() <= MAX_ROOTED_SPACENAME_SIZE,
        i <= 8,
        rloop(r, rest, i, len, ptr) is Ok,
        0 <= ptr <= rspace(r).len(),
        rest == rspace(r).skip(ptr),
        ridx(r, i as int) == ptr,
    ensures
        forall|j: int| i <= j < 8 ==> #[trigger] ridx(r, j) <= ridx(r, j + 1),
        forall|j: int| i <= j <= 8 ==> #[trigger] ridx(r, j) <= rspace(r).len(),
        forall|j: int| i <= j < 8 ==> first_ok(#[trigger] rseg(r, j)),
    decreases 8 - i,
{
    if i < 8 {
        let sp = rspace(r);
        let st = checked_step(rest);
        let (n, next, len2) = if st is None {
            (0int, rest, len + 1)
        } else {
            let (segm, nx) = st.unwrap().unwrap();
            (segm.len() as int, nx, len)
        };
        assert(st is None || st.unwrap() is Ok);
        assert(ridx(r, i as int + 1) == ptr + n);
        assert(rloop(r, rest, i, len, ptr) == rloop(r, next, i + 1, len2, ptr + n));
        assert(n <= rest.len());
        assert(next =~= sp.skip(ptr + n));
        assert(first_ok(rseg(r, i as int))) by {
            if n > 0 {
                assert(rseg(r, i as int) =~= st.unwrap().unwrap().0);
            } else {
                assert(rseg(r, i as int) =~= Seq::<u8>::empty());
            }
        }
        lemma_rloop_comps(r, next, i + 1, len2, ptr + n);
    } else {
        assert(ridx(r, 8) == ptr);
    }
}

/// Rooted bytes that pass the check have readable components: every segment
/// that the index delimits is ordered and starts with a length that fits.
pub proof fn law_checked_comps(r: Seq<u8>)
    requires
        spec_rcheck(r) is Ok,
    ensures
        comps_ok(r),
{
    if r.len() > 0 {
        assert(r.skip(8) =~= rspace(r).skip(0));
        lemma_rloop_comps(r, r.skip(8), 0, r[0] as int, 0);
        assert forall|j: int| 0 <= j < 8 implies 0 <= #[trigger] ridx(r, j) <= ridx(r, j + 1)
            <= rspace(r).len() by {
            assert(ridx(r, j + 1) <= rspace(r).len());
        }
    } else {
        assert forall|j: int| 0 <= j < 8 implies first_ok(#[trigger] rseg(r, j)) by {
            assert(rseg(r, j) =~= Seq::<u8>::empty());
        }
    }
}

/// The rooted bytes of valid components (at most 8) pass the check.
pub proof fn lemma_rooted_of_check(cs: Seq<Seq<u8>>)
    requires
        valid_comps(cs),
        cs.len() <= 8,
        encode(cs).len() <= MAX_SPACENAME_SIZE,
    ensures
        spec_rcheck(rooted_of(cs)) is Ok,
{
    if cs.len() > 0 {
        let r = rooted_of(cs);
        lemma_encode_len(cs);
        assert(r.skip(8) =~= encode(cs));
        lemma_rloop_rooted(cs, 0);
        assert(cs.skip(0) =~= cs);
        assert(cs.take(0) =~= Seq::<Seq<u8>>::empty());
    }
}

/// The check loop over the rooted bytes of valid components, from step `i` on.
proof fn lemma_rloop_rooted(cs: Seq<Seq<u8>>, i: nat)
    requires
        valid_comps(cs),
        0 < cs.len() <= 8,
        encode(cs).len() <= MAX_SPACENAME_SIZE,
        i <= 8,
    ensures
        rloop(
            rooted_of(cs),
            encode(cs.skip(if i < cs.len() {
                i as int
            } else {
                cs.len() as int
            })),
            i,
            if i < cs.len() {
                cs.len() as int
            } else {
                i as int
            },
            encode(cs.take(if i < cs.len() {
                i as int
            } else {
                cs.len() as int
            })).len() as int,
        ) is Ok,
    decreases 8 - i,
{
    if i < 8 {
        lemma_rloop_rooted(cs, i + 1);
        let r = rooted_of(cs);
        let n = cs.len() as int;
        lemma_encode_len(cs);
        assert(r.len() == 8 + encode(cs).len());
        if i < n {
            let rest = encode(cs.skip(i as int));
            let c = cs[i as int];
            assert(cs.skip(i as int)[0] == c);
            assert(cs.skip(i as int).drop_first() =~= cs.skip(i as int + 1));
            assert(rest == comp_enc(c) + encode(cs.skip(i as int + 1)));
            crate::codec::lemma_comp_enc(c);
            assert(rest[0] == c.len());
            assert(rest.subrange(0, c.len() as int + 1) =~= comp_enc(c));
            assert(rest.skip(c.len() as int + 1) =~= encode(cs.skip(i as int + 1)));
            assert(cs.take(i as int + 1) =~= cs.take(i as int).push(c));
            lemma_encode_push(cs.take(i as int), c);
            lemma_encode_take(cs, i as int + 1);
            if i + 1 < 8 {
                assert(ridx(r, i as int + 1) == r[i as int + 1]);
                assert(r[i as int + 1] == header(cs)[i as int + 1]);
            } else {
                assert(cs.take(i as int + 1) =~= cs);
            }
        } else {
            assert(cs.skip(n) =~= Seq::<Seq<u8>>::empty());
            assert(encode(cs.skip(n)) =~= Seq::<u8>::empty());
            assert(cs.take(n) =~= cs);
            if i + 1 < 8 {
                assert(ridx(r, i as int + 1) == r[i as int + 1]);
                assert(r[i as int + 1] == header(cs)[i as int + 1]);
            }
        }
    }
}

} // verus!

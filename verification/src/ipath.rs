//! A indexed path is a path with an 8 byte index in front:
//! `[depth, end offset of component 1, .., end offset of component 7]`,
//! which gives direct access to each component.
use crate::codec::{
    checked_prefix, checked_step, comp_enc, copy_bytes, encode, extend_bytes, header,
    lemma_checked_prefix, lemma_encode_len, lemma_encode_parse, lemma_encode_push,
    lemma_encode_take, lemma_parse_encode, parse, read_checked, valid_comp, valid_comps,
    walk_comps, walk_ok, Fault,
};
use crate::consts::{MAX_IPATH_SIZE, MAX_SPATH_COMPONENT_SIZE, MAX_PATH_LEN, MAX_SPATH_SIZE};
use crate::spath::{comps, fault_err, valid_spath, SPath, SPathBuf, SPathBytes, PathError};
use crate::store::{views, ByteStore};
use vstd::prelude::*;

verus! {

/// The path part of indexed bytes.
pub open spec fn ispath(r: Seq<u8>) -> Seq<u8> {
    if r.len() == 0 {
        Seq::empty()
    } else {
        r.skip(8)
    }
}

/// The `j`-th entry (0 to 8) of the offsets of the indexed bytes: 0, the seven
/// index bytes, and the size of the path (capped at 255).
pub open spec fn iidx(r: Seq<u8>, j: int) -> int {
    if r.len() == 0 || j == 0 {
        0
    } else if j == 8 {
        if r.len() - 8 > 255 {
            255
        } else {
            r.len() - 8
        }
    } else {
        r[j] as int
    }
}

/// The component count of the indexed bytes.
pub open spec fn ilen(r: Seq<u8>) -> int {
    if r.len() == 0 {
        0
    } else {
        r[0] as int
    }
}

/// The index offsets are increasing and within the path.
pub open spec fn offsets_ok(r: Seq<u8>) -> bool {
    &&& (r.len() == 0 || r.len() >= 8)
    &&& forall|j: int|
        0 <= j < 8 ==> 0 <= #[trigger] iidx(r, j) <= iidx(r, j + 1) <= ispath(r).len()
}

/// The `j`-th segment of the path, as the index delimits it.
pub open spec fn iseg(r: Seq<u8>, j: int) -> Seq<u8> {
    ispath(r).subrange(iidx(r, j), iidx(r, j + 1))
}

/// The first component of encoded bytes.
pub open spec fn first_of(s: Seq<u8>) -> Seq<u8> {
    if s.len() == 0 {
        Seq::empty()
    } else {
        s.subrange(1, s[0] as int + 1)
    }
}

/// Reading the first component of the bytes stays within them.
pub open spec fn first_ok(s: Seq<u8>) -> bool {
    s.len() == 0 || s[0] as int + 1 <= s.len()
}

/// The `j`-th component, as the index delimits it.
pub open spec fn icomp(r: Seq<u8>, j: int) -> Seq<u8> {
    first_of(iseg(r, j))
}

/// Every indexed segment can be read.
pub open spec fn comps_ok(r: Seq<u8>) -> bool {
    &&& offsets_ok(r)
    &&& forall|j: int| 0 <= j < 8 ==> first_ok(#[trigger] iseg(r, j))
}

/// The check of the index against the path, step `i` of 8: `rest` is the
/// path not read yet, `len` the expected count, `ptr` the bytes read. The
/// first missing component must be at the count; with all 8 present, the
/// count must be 8.
pub open spec fn iloop(r: Seq<u8>, rest: Seq<u8>, i: nat, len: int, ptr: int) -> Result<
    (),
    PathError,
>
    decreases 8 - i,
{
    if i >= 8 {
        if len != 8 {
            Err(PathError::EmptyComponentIdx)
        } else {
            Ok(())
        }
    } else {
        match checked_step(rest) {
            Some(Err(f)) => Err(fault_err(f)),
            Some(Ok((segm, next))) => if iidx(r, i as int + 1) != ptr + segm.len() {
                Err(PathError::BadOffset)
            } else {
                iloop(r, next, i + 1, len, ptr + segm.len())
            },
            None => if len != i {
                Err(PathError::EmptyComponentIdx)
            } else if iidx(r, i as int + 1) != ptr {
                Err(PathError::BadOffset)
            } else {
                iloop(r, rest, i + 1, len + 1, ptr)
            },
        }
    }
}

/// The result of checking indexed bytes.
pub open spec fn spec_icheck(r: Seq<u8>) -> Result<(), PathError> {
    if r.len() == 0 {
        Ok(())
    } else if r.len() < 8 {
        Err(PathError::MissingIdx)
    } else if r.len() > MAX_IPATH_SIZE {
        Err(PathError::CapacityError)
    } else {
        iloop(r, r.skip(8), 0, r[0] as int, 0)
    }
}

/// The indexed bytes of a list of components (empty for no components).
pub open spec fn indexed_of(cs: Seq<Seq<u8>>) -> Seq<u8> {
    if cs.len() == 0 {
        Seq::empty()
    } else {
        header(cs) + encode(cs)
    }
}

/// Indexing a path: its first 8 components with their index.
pub open spec fn spec_ipath(b: Seq<u8>) -> Result<Seq<u8>, PathError> {
    if b.len() == 0 {
        Ok(Seq::empty())
    } else if b.len() > MAX_SPATH_SIZE {
        Err(PathError::CapacityError)
    } else {
        match checked_prefix(b, 8) {
            Err(f) => Err(fault_err(f)),
            Ok(cs) => Ok(indexed_of(cs)),
        }
    }
}

/// Appending a component to indexed bytes: the new bytes and the result.
pub open spec fn spec_iappend(r: Seq<u8>, c: Seq<u8>) -> (Seq<u8>, Result<(), PathError>) {
    if c.len() > MAX_SPATH_COMPONENT_SIZE {
        (r, Err(PathError::ComponentSize))
    } else if c.len() == 0 {
        (r, Err(PathError::ZeroComponent))
    } else {
        let bs = if r.len() == 0 {
            Seq::new(8, |j: int| 0u8)
        } else {
            r
        };
        if bs[0] >= MAX_PATH_LEN {
            (bs, Err(PathError::MaxLen))
        } else if bs.len() + c.len() + 1 > MAX_IPATH_SIZE {
            (bs, Err(PathError::CapacityError))
        } else {
            let n = bs[0] as int + 1;
            let nb = bs.update(0, n as u8) + comp_enc(c);
            (
                Seq::new(
                    nb.len(),
                    |j: int|
                        if n <= j < 8 {
                            (nb.len() - 8) as u8
                        } else {
                            nb[j]
                        },
                ),
                Ok(()),
            )
        }
    }
}

/// Appending components in turn, stopping at the first failure.
pub open spec fn spec_iappend_all(r: Seq<u8>, cs: Seq<Seq<u8>>) -> (Seq<u8>, Result<(), PathError>)
    decreases cs.len(),
{
    if cs.len() == 0 {
        (r, Ok(()))
    } else {
        let (nr, res) = spec_iappend(r, cs[0]);
        match res {
            Err(e) => (nr, Err(e)),
            Ok(_) => spec_iappend_all(nr, cs.drop_first()),
        }
    }
}

/// Indexed bytes that the append operations accept.
pub open spec fn appendable(r: Seq<u8>) -> bool {
    r.len() == 0 || r.len() >= 8
}

/// Indexed path bytes, held in a slice, a vector or an array.
#[derive(Copy, Clone, PartialEq, Eq, Debug)]
pub struct IPathBytes<X> {
    ipath_bytes: X,
}

/// Borrowed indexed path bytes.
pub type IPath<'a> = IPathBytes<&'a [u8]>;

/// Owned indexed path bytes.
pub type IPathBuf = IPathBytes<Vec<u8>>;

/// Indexed path bytes held in an array.
pub type IPathC<const U: usize> = IPathBytes<[u8; U]>;

impl<X: ByteStore> View for IPathBytes<X> {
    type V = Seq<u8>;

    closed spec fn view(&self) -> Seq<u8> {
        self.ipath_bytes.store_view()
    }
}

impl<X: ByteStore> IPathBytes<X> {
    /// A borrowed view.
    pub fn as_ipath(&self) -> (r: IPath<'_>)
        ensures
            r@ == self@,
    {
        IPathBytes { ipath_bytes: self.ipath_bytes.store_bytes() }
    }
}

/// The indexed path of a single component.
pub fn ipath1<const C0: usize, const R: usize>(c0: &[u8; C0]) -> (r: IPathC<R>)
    requires
        R == C0 + 9,
        0 < C0 < MAX_SPATH_COMPONENT_SIZE,
    ensures
        r@ == indexed_of(seq![c0@]),
        spec_icheck(r@) is Ok,
{
    let mut r = [0u8; R];
    r[0] = 1;
    let mut i: usize = 1;
    while i < 8
        invariant
            R == C0 + 9,
            0 < C0 < 200,
            1 <= i <= 8,
            r@.len() == R,
            r@[0] == 1,
            forall|j: int| 1 <= j < i ==> r@[j] == (C0 + 1) as u8,
        decreases 8 - i,
    {
        r[i] = (C0 + 1) as u8;
        i = i + 1;
    }
    r[8] = C0 as u8;
    let mut k: usize = 0;
    while k < C0
        invariant
            R == C0 + 9,
            0 < C0 < 200,
            k <= C0,
            r@.len() == R,
            r@[0] == 1,
            r@[8] == C0 as u8,
            forall|j: int| 1 <= j < 8 ==> r@[j] == (C0 + 1) as u8,
            forall|j: int| 0 <= j < k ==> r@[9 + j] == c0@[j],
        decreases C0 - k,
    {
        r[9 + k] = c0[k];
        k = k + 1;
    }
    proof {
        let cs = seq![c0@];
        crate::codec::lemma_encode_single(c0@);
        assert(cs.take(1) =~= cs);
        assert(header(cs) + encode(cs) =~= r@);
        lemma_indexed_of_check(cs);
    }
    IPathBytes { ipath_bytes: r }
}

impl<const N: usize> IPathBytes<[u8; N]> {
    /// Checks that the bytes form a indexed path.
    pub fn from(b: [u8; N]) -> (r: Result<Self, PathError>)
        ensures
            match spec_icheck(b@) {
                Ok(_) => r is Ok && r.unwrap()@ == b@,
                Err(e) => r == Err::<Self, PathError>(e),
            },
    {
        let p = IPathBytes { ipath_bytes: b.as_slice() };
        match p.check_components() {
            Err(e) => Err(e),
            Ok(_) => Ok(IPathBytes { ipath_bytes: b }),
        }
    }
}

impl IPathBuf {
    /// Bytes taken as they are, whether or not they form a indexed path.
    pub fn from_unchecked(ipath_bytes: Vec<u8>) -> (r: IPathBuf)
        ensures
            r@ == ipath_bytes@,
    {
        IPathBytes { ipath_bytes }
    }

    /// As [Self::try_append_component], for a component that fits.
    pub fn append(self, component: &[u8]) -> (r: IPathBuf)
        requires
            appendable(self@),
            spec_iappend(self@, component@).1 is Ok,
        ensures
            r@ == spec_iappend(self@, component@).0,
    {
        let mut s = self;
        match s.try_append_component(component) {
            Ok(()) => {},
            Err(_) => {
                assert(false);
            },
        }
        s
    }

    /// Appends a component and updates the index.
    pub fn try_append_component(&mut self, component: &[u8]) -> (r: Result<(), PathError>)
        requires
            appendable(old(self)@),
        ensures
            final(self)@ == spec_iappend(old(self)@, component@).0,
            r == spec_iappend(old(self)@, component@).1,
            appendable(final(self)@),
    {
        if component.len() > MAX_SPATH_COMPONENT_SIZE {
            return Err(PathError::ComponentSize);
        }
        if component.len() == 0 {
            return Err(PathError::ZeroComponent);
        }
        if self.ipath_bytes.len() == 0 {
            self.ipath_bytes = vec![0u8; 8];
            assert(self@ =~= Seq::new(8, |j: int| 0u8));
        }
        let ghost bs = self@;
        if self.ipath_bytes[0] >= MAX_PATH_LEN as u8 {
            return Err(PathError::MaxLen);
        }
        if self.ipath_bytes.len() >= MAX_IPATH_SIZE || component.len() + 1
            > MAX_IPATH_SIZE - self.ipath_bytes.len() {
            return Err(PathError::CapacityError);
        }
        let new_len = self.ipath_bytes[0] + 1;
        self.ipath_bytes.set(0, new_len);
        self.ipath_bytes.push(component.len() as u8);
        extend_bytes(&mut self.ipath_bytes, component);
        let ghost nb = self@;
        assert(nb =~= bs.update(0, new_len) + comp_enc(component@));
        let len = (self.ipath_bytes.len() - 8) as u8;
        let mut j: usize = new_len as usize;
        while j < 8
            invariant
                nb.len() >= 8,
                self@.len() == nb.len(),
                new_len as int <= j <= 8,
                len == (nb.len() - 8) as u8,
                forall|k: int|
                    0 <= k < nb.len() ==> #[trigger] self@[k] == if new_len <= k < j {
                        len
                    } else {
                        nb[k]
                    },
            decreases 8 - j,
        {
            self.ipath_bytes.set(j, len);
            j = j + 1;
        }
        assert(self@ =~= spec_iappend(old(self)@, component@).0);
        Ok(())
    }

    /// As [Self::try_join], for components that fit.
    pub fn join(self, i: SPath<'_>) -> (r: IPathBuf)
        requires
            appendable(self@),
            walk_ok(i@),
            spec_iappend_all(self@, walk_comps(i@)).1 is Ok,
        ensures
            r@ == spec_iappend_all(self@, walk_comps(i@)).0,
    {
        match self.try_join(i) {
            Ok(r) => r,
            Err(_) => {
                assert(false);
                IPathBuf::new()
            },
        }
    }

    /// Appends the components of `i`.
    pub fn try_join(self, i: SPath<'_>) -> (r: Result<IPathBuf, PathError>)
        requires
            appendable(self@),
            walk_ok(i@),
        ensures
            match spec_iappend_all(self@, walk_comps(i@)) {
                (nr, Ok(_)) => r is Ok && r.unwrap()@ == nr,
                (_, Err(e)) => r == Err::<IPathBuf, PathError>(e),
            },
    {
        let mut s = self;
        let comps = i.components_slices();
        match s.extend_from_iter(comps.as_slice()) {
            Ok(()) => Ok(s),
            Err(e) => Err(e),
        }
    }

    /// Appends each component in turn, stopping at the first failure (the
    /// components appended before it stay).
    pub fn extend_from_iter(&mut self, i: &[&[u8]]) -> (r: Result<(), PathError>)
        requires
            appendable(old(self)@),
        ensures
            final(self)@ == spec_iappend_all(old(self)@, views(i@)).0,
            r == spec_iappend_all(old(self)@, views(i@)).1,
            appendable(final(self)@),
    {
        let ghost cs = views(i@);
        let ghost orig = self@;
        let mut k: usize = 0;
        assert(cs.skip(0) =~= cs);
        while k < i.len()
            invariant
                orig == old(self)@,
                k <= i@.len(),
                cs == views(i@),
                appendable(self@),
                spec_iappend_all(orig, cs) == spec_iappend_all(self@, cs.skip(k as int)),
            decreases i@.len() - k,
        {
            proof {
                assert(cs.skip(k as int)[0] == i@[k as int]@);
                assert(cs.skip(k as int).drop_first() =~= cs.skip(k as int + 1));
            }
            let ghost before = self@;
            match self.try_append_component(i[k]) {
                Ok(()) => {},
                Err(e) => {
                    assert(spec_iappend_all(before, cs.skip(k as int)) == (self@, Err::<
                        (),
                        PathError,
                    >(e)));
                    return Err(e);
                },
            }
            k = k + 1;
        }
        assert(cs.skip(k as int).len() == 0);
        Ok(())
    }

    /// A indexed path made of the components.
    pub fn try_from_iter(iter: &[&[u8]]) -> (r: Result<IPathBuf, PathError>)
        ensures
            match spec_iappend_all(Seq::empty(), views(iter@)) {
                (nr, Ok(_)) => r is Ok && r.unwrap()@ == nr,
                (_, Err(e)) => r == Err::<IPathBuf, PathError>(e),
            },
    {
        let mut new = IPathBuf::new();
        match new.extend_from_iter(iter) {
            Ok(()) => Ok(new),
            Err(e) => Err(e),
        }
    }

    /// The empty indexed path.
    pub fn new() -> (r: IPathBuf)
        ensures
            r@ == Seq::<u8>::empty(),
    {
        IPathBytes { ipath_bytes: Vec::new() }
    }
}

impl<'a> IPath<'a> {
    /// Checks that the bytes form a indexed path.
    pub fn from(b: &[u8]) -> (r: Result<IPath<'_>, PathError>)
        ensures
            match spec_icheck(b@) {
                Ok(_) => r is Ok && r.unwrap()@ == b@,
                Err(e) => r == Err::<IPath<'_>, PathError>(e),
            },
    {
        let p = IPathBytes { ipath_bytes: b };
        match p.check_components() {
            Err(e) => Err(e),
            Ok(_) => Ok(p),
        }
    }

    /// Indexed path bytes, unchecked.
    pub fn from_unchecked(b: &'a [u8]) -> (r: IPath<'a>)
        ensures
            r@ == b@,
    {
        IPathBytes { ipath_bytes: b }
    }

    /// An owned copy.
    pub fn into_ipathbuf(self) -> (r: IPathBuf)
        ensures
            r@ == self@,
    {
        IPathBytes { ipath_bytes: copy_bytes(self.ipath_bytes) }
    }

    /// The bytes, index included.
    pub fn ipath_bytes(self) -> (r: &'a [u8])
        ensures
            r@ == self@,
    {
        self.ipath_bytes
    }

    /// The empty indexed path.
    pub fn empty() -> (r: IPath<'static>)
        ensures
            r@ == Seq::<u8>::empty(),
    {
        let e: &'static [u8] = &[];
        IPathBytes { ipath_bytes: e }
    }

    /// Checks the index against the components of the path.
    pub fn check_components(self) -> (r: Result<(), PathError>)
        ensures
            r == spec_icheck(self@),
    {
        let b = self.ipath_bytes;
        if b.len() == 0 {
            return Ok(());
        }
        if b.len() < 8 {
            return Err(PathError::MissingIdx);
        }
        if b.len() > MAX_IPATH_SIZE {
            return Err(PathError::CapacityError);
        }
        let (len0, idx, space) = self.fields();
        let mut iter = space.spath_bytes();
        let mut len: u8 = len0;
        let mut i: u8 = 0;
        let mut ptr: usize = 0;
        while i < 8
            invariant
                b@ == self@,
                8 <= b@.len() <= 250,
                idx@.len() == 9,
                forall|j: int| 0 <= j <= 8 ==> idx@[j] as int == iidx(b@, j),
                i <= 8,
                ptr as int + iter@.len() == b@.len() - 8,
                spec_icheck(b@) == iloop(b@, iter@, i as nat, len as int, ptr as int),
            decreases 8 - i,
        {
            match read_checked(iter) {
                Some(Err(f)) => {
                    return Err(crate::spath::from_fault(f));
                },
                Some(Ok((segm, next))) => {
                    assert(segm@.len() + next@.len() == iter@.len());
                    if idx[i as usize + 1] as usize != ptr + segm.len() {
                        return Err(PathError::BadOffset);
                    }
                    iter = next;
                    ptr = ptr + segm.len();
                },
                None => {
                    if len != i {
                        return Err(PathError::EmptyComponentIdx);
                    }
                    if idx[i as usize + 1] as usize != ptr {
                        return Err(PathError::BadOffset);
                    }
                    len = len + 1;
                },
            }
            i = i + 1;
        }
        if len != 8 {
            return Err(PathError::EmptyComponentIdx);
        }
        Ok(())
    }

    /// The path (without the index).
    pub fn spath(self) -> (r: SPath<'a>)
        requires
            self@.len() == 0 || self@.len() >= 8,
        ensures
            r@ == ispath(self@),
    {
        self.fields().2
    }

    /// The count byte, the offsets (0 to 8) and the path.
    pub fn fields(self) -> (r: (u8, [u8; 9], SPath<'a>))
        requires
            self@.len() == 0 || self@.len() >= 8,
        ensures
            r.0 as int == ilen(self@),
            forall|j: int| 0 <= j <= 8 ==> r.1@[j] as int == iidx(self@, j),
            r.1@.len() == 9,
            r.2@ == ispath(self@),
    {
        let b = self.ipath_bytes;
        if b.len() == 0 {
            return (0, [0u8; 9], SPath::empty());
        }
        let (h, space) = b.split_at(8);
        let len: u8 = if space.len() > 255 {
            255
        } else {
            space.len() as u8
        };
        let idx: [u8; 9] = [0, h[1], h[2], h[3], h[4], h[5], h[6], h[7], len];
        (h[0], idx, SPath::from_unchecked(space))
    }

    /// The component count.
    pub fn path_len(self) -> (r: u8)
        ensures
            r as int == ilen(self@),
    {
        if self.ipath_bytes.len() == 0 {
            0
        } else {
            self.ipath_bytes[0]
        }
    }

    /// The component count is zero.
    pub fn is_empty(self) -> (r: bool)
        ensures
            r == (ilen(self@) == 0),
    {
        self.len() == 0
    }

    /// The component count.
    pub fn len(self) -> (r: usize)
        ensures
            r as int == ilen(self@),
    {
        self.path_len() as usize
    }

    /// The eight segments of the path, as the index delimits them.
    pub fn components(self) -> (r: [SPath<'a>; 8])
        requires
            offsets_ok(self@),
        ensures
            forall|j: int| 0 <= j < 8 ==> (#[trigger] r@[j])@ == iseg(self@, j),
    {
        let b = self.ipath_bytes;
        if b.len() == 0 {
            let e = SPath::from_unchecked(b);
            return [e, e, e, e, e, e, e, e];
        }
        [
            self.segment(0),
            self.segment(1),
            self.segment(2),
            self.segment(3),
            self.segment(4),
            self.segment(5),
            self.segment(6),
            self.segment(7),
        ]
    }

    /// The `j`-th segment of the path.
    fn segment(self, j: usize) -> (r: SPath<'a>)
        requires
            j < 8,
            offsets_ok(self@),
        ensures
            r@ == iseg(self@, j as int),
    {
        let (_, idx, space) = self.fields();
        let sb = space.spath_bytes();
        let lo = idx[j] as usize;
        let hi = idx[j + 1] as usize;
        proof {
            assert(0 <= iidx(self@, j as int) <= iidx(self@, j as int + 1) <= ispath(self@).len());
        }
        SPath::from_unchecked(&sb[lo..hi])
    }

    /// The components that the count covers, as the index delimits them.
    pub fn iter(self) -> (r: Vec<&'a [u8]>)
        requires
            comps_ok(self@),
            ilen(self@) <= 8,
        ensures
            r@.len() == ilen(self@),
            forall|j: int| 0 <= j < r@.len() ==> (#[trigger] r@[j])@ == icomp(self@, j),
    {
        let n = self.len();
        let mut res: Vec<&'a [u8]> = Vec::new();
        let mut j: usize = 0;
        while j < n
            invariant
                n == ilen(self@),
                n <= 8,
                comps_ok(self@),
                j <= n,
                res@.len() == j,
                forall|k: int| 0 <= k < j ==> (#[trigger] res@[k])@ == icomp(self@, k),
            decreases n - j,
        {
            res.push(self.comp(j));
            j = j + 1;
        }
        res
    }

    /// The first component of each of the eight segments.
    pub fn comps_bytes(self) -> (r: [&'a [u8]; 8])
        requires
            comps_ok(self@),
        ensures
            forall|j: int| 0 <= j < 8 ==> (#[trigger] r@[j])@ == icomp(self@, j),
    {
        [
            self.comp(0),
            self.comp(1),
            self.comp(2),
            self.comp(3),
            self.comp(4),
            self.comp(5),
            self.comp(6),
            self.comp(7),
        ]
    }

    /// The part of the path from the start of segment `r.start` to the end of
    /// segment `r.end - 1`.
    pub fn range(self, r: core::ops::Range<usize>) -> (out: SPath<'a>)
        requires
            self@.len() == 0 || self@.len() >= 8,
            r.start <= 8,
            r.end <= 8,
            iidx(self@, r.start as int) <= iidx(self@, r.end as int) <= ispath(self@).len(),
        ensures
            out@ == ispath(self@).subrange(iidx(self@, r.start as int), iidx(self@, r.end as int)),
    {
        let (_, segm, bytes) = self.fields();
        let sb = bytes.spath_bytes();
        let lo = segm[r.start] as usize;
        let hi = segm[r.end] as usize;
        SPath::from_unchecked(&sb[lo..hi])
    }

    /// The last component that the count covers (the first for a count of 0).
    pub fn last(self) -> (r: &'a [u8])
        requires
            comps_ok(self@),
            ilen(self@) <= 8,
        ensures
            r@ == icomp(self@, if ilen(self@) == 0 {
                0
            } else {
                ilen(self@) - 1
            }),
    {
        let d = self.path_len() as usize;
        let i = if d == 0 {
            0
        } else {
            d - 1
        };
        self.comp(i)
    }

    /// The `i`-th component.
    pub fn comp(self, i: usize) -> (r: &'a [u8])
        requires
            i < 8,
            comps_ok(self@),
        ensures
            r@ == icomp(self@, i as int),
    {
        let s = self.segment(i);
        assert(first_ok(iseg(self@, i as int)));
        s.first()
    }

    /// The first component.
    pub fn path0(self) -> (r: &'a [u8])
        requires
            comps_ok(self@),
        ensures
            r@ == icomp(self@, 0),
    {
        self.comp(0)
    }

    /// The second component.
    pub fn path1(self) -> (r: &'a [u8])
        requires
            comps_ok(self@),
        ensures
            r@ == icomp(self@, 1),
    {
        self.comp(1)
    }

    /// The third component.
    pub fn path2(self) -> (r: &'a [u8])
        requires
            comps_ok(self@),
        ensures
            r@ == icomp(self@, 2),
    {
        self.comp(2)
    }

    /// The fourth component.
    pub fn path3(self) -> (r: &'a [u8])
        requires
            comps_ok(self@),
        ensures
            r@ == icomp(self@, 3),
    {
        self.comp(3)
    }

    /// The fifth component.
    pub fn path4(self) -> (r: &'a [u8])
        requires
            comps_ok(self@),
        ensures
            r@ == icomp(self@, 4),
    {
        self.comp(4)
    }

    /// The sixth component.
    pub fn path5(self) -> (r: &'a [u8])
        requires
            comps_ok(self@),
        ensures
            r@ == icomp(self@, 5),
    {
        self.comp(5)
    }

    /// The seventh component.
    pub fn path6(self) -> (r: &'a [u8])
        requires
            comps_ok(self@),
        ensures
            r@ == icomp(self@, 6),
    {
        self.comp(6)
    }

    /// The eighth component.
    pub fn path7(self) -> (r: &'a [u8])
        requires
            comps_ok(self@),
        ensures
            r@ == icomp(self@, 7),
    {
        self.comp(7)
    }
}

/// A indexed path made of the components.
pub fn ipath_buf(components: &[&[u8]]) -> (r: IPathBuf)
    requires
        spec_iappend_all(Seq::empty(), views(components@)).1 is Ok,
    ensures
        r@ == spec_iappend_all(Seq::empty(), views(components@)).0,
{
    match IPathBuf::try_from_iter(components) {
        Ok(r) => r,
        Err(_) => {
            assert(false);
            IPathBuf::new()
        },
    }
}

impl<'a> SPath<'a> {
    /// As [Self::try_into_indexed], for paths on which it succeeds.
    pub fn ipath(self) -> (r: IPathBuf)
        requires
            spec_ipath(self@) is Ok,
        ensures
            Ok::<Seq<u8>, PathError>(r@) == spec_ipath(self@),
    {
        match self.try_ipath() {
            Ok(r) => r,
            Err(_) => {
                assert(false);
                IPathBuf::new()
            },
        }
    }

    /// The indexed path of the first 8 components (further components are
    /// left out).
    pub fn try_ipath(self) -> (r: Result<IPathBuf, PathError>)
        ensures
            match spec_ipath(self@) {
                Ok(b) => r is Ok && r.unwrap()@ == b,
                Err(e) => r == Err::<IPathBuf, PathError>(e),
            },
    {
        let b = self.spath_bytes();
        if b.len() == 0 {
            return Ok(IPathBuf::new());
        }
        if b.len() > MAX_SPATH_SIZE {
            return Err(PathError::CapacityError);
        }
        let mut comps: Vec<&[u8]> = Vec::new();
        let mut rest = b;
        let mut i: usize = 0;
        while i < 8
            invariant
                b@ == self@,
                i <= 8,
                comps@.len() <= i,
                b@.len() <= 242,
                rest@.len() <= b@.len(),
                checked_prefix(b@, 8) == match checked_prefix(rest@, (8 - i) as nat) {
                    Ok(cs) => Ok::<Seq<Seq<u8>>, Fault>(views(comps@) + cs),
                    Err(f) => Err(f),
                },
                encode(views(comps@)) + rest@ == b@,
                valid_comps(views(comps@)),
            decreases 8 - i,
        {
            match read_checked(rest) {
                None => {},
                Some(Err(f)) => {
                    assert(checked_prefix(rest@, (8 - i) as nat) == Err::<Seq<Seq<u8>>, Fault>(f));
                    assert(checked_prefix(b@, 8) == Err::<Seq<Seq<u8>>, Fault>(f));
                    return Err(crate::spath::from_fault(f));
                },
                Some(Ok((segm, next))) => {
                    let c = &segm[1..segm.len()];
                    let ghost old_comps = views(comps@);
                    comps.push(c);
                    proof {
                        assert(views(comps@) =~= old_comps.push(c@));
                        lemma_encode_push(old_comps, c@);
                        assert(comp_enc(c@) =~= segm@);
                        assert(valid_comp(c@));
                        assert forall|j: int| 0 <= j < views(comps@).len() implies valid_comp(
                            #[trigger] views(comps@)[j],
                        ) by {
                            if j < old_comps.len() {
                                assert(views(comps@)[j] == old_comps[j]);
                            }
                        }
                        match checked_prefix(next@, (8 - i - 1) as nat) {
                            Ok(cs) => {
                                assert(old_comps + (seq![c@] + cs) =~= views(comps@) + cs);
                            },
                            Err(_) => {},
                        }
                    }
                    rest = next;
                },
            }
            proof {
                if checked_step(rest@) is None && i + 1 < 8 {
                    assert(checked_prefix(rest@, (8 - i - 1) as nat) == Ok::<
                        Seq<Seq<u8>>,
                        Fault,
                    >(Seq::empty()));
                }
            }
            i = i + 1;
        }
        proof {
            assert(views(comps@) + Seq::<Seq<u8>>::empty() =~= views(comps@));
        }
        let ghost cs = views(comps@);
        let n = comps.len();
        let mut data: Vec<u8> = Vec::new();
        data.push(n as u8);
        let mut j: usize = 1;
        let mut total: usize = 0;
        let mut k: usize = 0;
        proof {
            lemma_encode_len(cs);
            assert(cs.take(0) =~= Seq::<Seq<u8>>::empty());
        }
        while j < 8
            invariant
                1 <= j <= 8,
                n == cs.len(),
                n <= 8,
                cs == views(comps@),
                valid_comps(cs),
                encode(cs).len() <= 242,
                k == if j - 1 < n {
                    j - 1
                } else {
                    n as int
                },
                total == encode(cs.take(k as int)).len(),
                data@.len() == j,
                data@ == header(cs).subrange(0, j as int),
            decreases 8 - j,
        {
            if k < n {
                proof {
                    assert(cs.take(k as int + 1) =~= cs.take(k as int).push(cs[k as int]));
                    lemma_encode_push(cs.take(k as int), cs[k as int]);
                    lemma_encode_take(cs, k as int + 1);
                }
                total = total + comps[k].len() + 1;
                k = k + 1;
            }
            proof {
                lemma_encode_take(cs, k as int);
            }
            data.push(total as u8);
            proof {
                assert(data@ =~= header(cs).subrange(0, j as int + 1));
            }
            j = j + 1;
        }
        let mut m: usize = 0;
        while m < n
            invariant
                m <= n,
                n == cs.len(),
                cs == views(comps@),
                data@ == header(cs) + encode(cs.take(m as int)),
            decreases n - m,
        {
            let c = comps[m];
            let ghost before = data@;
            data.push(c.len() as u8);
            extend_bytes(&mut data, c);
            proof {
                assert(cs.take(m as int + 1) =~= cs.take(m as int).push(c@));
                lemma_encode_push(cs.take(m as int), c@);
                assert(data@ =~= header(cs) + encode(cs.take(m as int + 1)));
            }
            m = m + 1;
        }
        proof {
            assert(cs.take(n as int) =~= cs);
            assert(header(cs).len() == 8);
            if cs.len() == 0 {
                lemma_encode_len(cs);
            }
        }
        Ok(IPathBuf::from_unchecked(data))
    }
}

/// Indexing a path gives bytes that pass the indexed check.
pub proof fn law_indexed_checks(b: Seq<u8>)
    requires
        spec_ipath(b) is Ok,
    ensures
        spec_icheck(spec_ipath(b).unwrap()) is Ok,
{
    if b.len() > 0 {
        lemma_checked_prefix(b, 8);
        let cs = checked_prefix(b, 8).unwrap();
        lemma_indexed_of_check(cs);
    }
}

/// The index of the indexed bytes of valid components delimits each component.
pub proof fn lemma_indexed_comp(cs: Seq<Seq<u8>>, j: int)
    requires
        valid_comps(cs),
        0 < cs.len() <= 8,
        encode(cs).len() <= MAX_SPATH_SIZE,
        0 <= j < cs.len(),
    ensures
        iidx(indexed_of(cs), j) == encode(cs.take(j)).len(),
        iidx(indexed_of(cs), j + 1) == encode(cs.take(j + 1)).len(),
        iseg(indexed_of(cs), j) == comp_enc(cs[j]),
        icomp(indexed_of(cs), j) == cs[j],
{
    let r = indexed_of(cs);
    lemma_encode_len(cs);
    assert(ispath(r) =~= encode(cs));
    assert(cs.take(0) =~= Seq::<Seq<u8>>::empty());
    lemma_encode_take(cs, j);
    lemma_encode_take(cs, j + 1);
    assert(cs.take(j + 1) =~= cs.take(j).push(cs[j]));
    lemma_encode_push(cs.take(j), cs[j]);
    if j + 1 == 8 {
        assert(cs.take(j + 1) =~= cs);
    }
    if j + 1 == cs.len() {
        assert(cs.take(j + 1) =~= cs);
    }
    let lo = encode(cs.take(j)).len() as int;
    let hi = encode(cs.take(j + 1)).len() as int;
    assert(encode(cs) =~= encode(cs.take(j)) + comp_enc(cs[j]) + encode(cs.skip(j + 1)));
    assert(ispath(r).subrange(lo, hi) =~= comp_enc(cs[j]));
    crate::codec::lemma_comp_enc(cs[j]);
}

/// Rooting a valid path of at most 8 components keeps its bytes as the path
/// part, counts its components, and its index gives each component.
pub proof fn law_indexed_spath(b: Seq<u8>)
    requires
        valid_spath(b),
        comps(b).len() <= MAX_PATH_LEN,
    ensures
        spec_ipath(b) is Ok,
        ispath(spec_ipath(b).unwrap()) == b,
        ilen(spec_ipath(b).unwrap()) == comps(b).len(),
        forall|j: int|
            0 <= j < comps(b).len() ==> #[trigger] icomp(spec_ipath(b).unwrap(), j) == comps(b)[j],
{
    lemma_checked_prefix(b, 8);
    lemma_encode_parse(b);
    let cs = comps(b);
    if b.len() > 0 {
        lemma_encode_len(cs);
        assert(ispath(indexed_of(cs)) =~= encode(cs));
        assert forall|j: int| 0 <= j < cs.len() implies #[trigger] icomp(indexed_of(cs), j)
            == cs[j] by {
            lemma_indexed_comp(cs, j);
        }
    } else {
        assert(parse(b).unwrap() =~= Seq::<Seq<u8>>::empty());
    }
}

/// One append to the indexed bytes of valid components.
proof fn lemma_iappend_step(p: Seq<Seq<u8>>, c: Seq<u8>)
    requires
        valid_comps(p),
        valid_comp(c),
        p.len() < 8,
        encode(p).len() + c.len() + 1 <= MAX_SPATH_SIZE,
    ensures
        spec_iappend(indexed_of(p), c) == (indexed_of(p.push(c)), Ok::<(), PathError>(())),
{
    let r = indexed_of(p);
    let q = p.push(c);
    lemma_encode_len(p);
    lemma_encode_push(p, c);
    crate::codec::lemma_comp_enc(c);
    let bs = if r.len() == 0 {
        Seq::new(8, |j: int| 0u8)
    } else {
        r
    };
    assert(bs.len() == 8 + encode(p).len());
    assert(bs[0] == p.len()) by {
        if p.len() > 0 {
            assert(bs[0] == header(p)[0]);
        }
    }
    let n = bs[0] as int + 1;
    let nb = bs.update(0, n as u8) + comp_enc(c);
    let res = Seq::new(
        nb.len(),
        |j: int|
            if n <= j < 8 {
                (nb.len() - 8) as u8
            } else {
                nb[j]
            },
    );
    assert(spec_iappend(r, c) == (res, Ok::<(), PathError>(())));
    let want = header(q) + encode(q);
    assert(res.len() == want.len());
    assert forall|j: int| 0 <= j < res.len() implies res[j] == want[j] by {
        if j == 0 {
        } else if j < n {
            assert(p.len() > 0);
            assert(bs[j] == header(p)[j]);
            assert(q.take(j) =~= p.take(j));
        } else if j < 8 {
            assert(q.take(q.len() as int) =~= q);
        } else {
            assert(want[j] == encode(q)[j - 8]);
            assert(encode(q) == encode(p) + comp_enc(c));
            if j < bs.len() {
                assert(p.len() > 0);
                assert(nb[j] == bs[j]);
                assert(bs[j] == encode(p)[j - 8]);
            } else {
                assert(nb[j] == comp_enc(c)[j - bs.len()]);
            }
        }
    }
    assert(res =~= want);
}

/// Appending valid components to indexed bytes of valid components.
proof fn lemma_iappend_indexed(p: Seq<Seq<u8>>, q: Seq<Seq<u8>>)
    requires
        valid_comps(p),
        valid_comps(q),
        p.len() + q.len() <= 8,
        encode(p + q).len() <= MAX_SPATH_SIZE,
    ensures
        spec_iappend_all(indexed_of(p), q) == (indexed_of(p + q), Ok::<(), PathError>(())),
    decreases q.len(),
{
    if q.len() == 0 {
        assert(p + q =~= p);
    } else {
        let c = q[0];
        let p2 = p.push(c);
        let q2 = q.drop_first();
        assert(valid_comp(c));
        assert(p + q =~= p2 + q2);
        assert(valid_comps(p2)) by {
            assert forall|i: int| 0 <= i < p2.len() implies valid_comp(#[trigger] p2[i]) by {
                if i < p.len() {
                    assert(p2[i] == p[i]);
                }
            }
        }
        assert(valid_comps(q2)) by {
            assert forall|i: int| 0 <= i < q2.len() implies valid_comp(#[trigger] q2[i]) by {
                assert(q2[i] == q[i + 1]);
            }
        }
        crate::codec::lemma_encode_append(p2, q2);
        lemma_encode_push(p, c);
        lemma_iappend_step(p, c);
        lemma_iappend_indexed(p2, q2);
    }
}

/// Appending valid components (at most 8, fitting in 242 bytes) one by one to
/// the empty indexed path gives the indexed bytes of the components, which are
/// also what indexing their path gives.
pub proof fn law_indexed_by_appends(cs: Seq<Seq<u8>>)
    requires
        valid_comps(cs),
        cs.len() <= MAX_PATH_LEN,
        encode(cs).len() <= MAX_SPATH_SIZE,
    ensures
        spec_iappend_all(Seq::empty(), cs) == (indexed_of(cs), Ok::<(), PathError>(())),
        spec_ipath(encode(cs)) == Ok::<Seq<u8>, PathError>(indexed_of(cs)),
{
    assert(Seq::<Seq<u8>>::empty() + cs =~= cs);
    assert(indexed_of(Seq::<Seq<u8>>::empty()) =~= Seq::<u8>::empty());
    assert(valid_comps(Seq::<Seq<u8>>::empty()));
    lemma_iappend_indexed(Seq::empty(), cs);
    lemma_parse_encode(cs);
    lemma_checked_prefix(encode(cs), 8);
    lemma_encode_len(cs);
    if cs.len() == 0 {
        assert(encode(cs) =~= Seq::<u8>::empty());
    }
}

/// The check loop from step `i` on passes over the path after `ptr` bytes:
/// the segments from `i` on are ordered and each can be read.
proof fn lemma_iloop_comps(r: Seq<u8>, rest: Seq<u8>, i: nat, len: int, ptr: int)
    requires
        8 <= r.len() <= MAX_IPATH_SIZE,
        i <= 8,
        iloop(r, rest, i, len, ptr) is Ok,
        0 <= ptr <= ispath(r).len(),
        rest == ispath(r).skip(ptr),
        iidx(r, i as int) == ptr,
    ensures
        forall|j: int| i <= j < 8 ==> #[trigger] iidx(r, j) <= iidx(r, j + 1),
        forall|j: int| i <= j <= 8 ==> #[trigger] iidx(r, j) <= ispath(r).len(),
        forall|j: int| i <= j < 8 ==> first_ok(#[trigger] iseg(r, j)),
    decreases 8 - i,
{
    if i < 8 {
        let sp = ispath(r);
        let st = checked_step(rest);
        let (n, next, len2) = if st is None {
            (0int, rest, len + 1)
        } else {
            let (segm, nx) = st.unwrap().unwrap();
            (segm.len() as int, nx, len)
        };
        assert(st is None || st.unwrap() is Ok);
        assert(iidx(r, i as int + 1) == ptr + n);
        assert(iloop(r, rest, i, len, ptr) == iloop(r, next, i + 1, len2, ptr + n));
        assert(n <= rest.len());
        assert(next =~= sp.skip(ptr + n));
        assert(first_ok(iseg(r, i as int))) by {
            if n > 0 {
                assert(iseg(r, i as int) =~= st.unwrap().unwrap().0);
            } else {
                assert(iseg(r, i as int) =~= Seq::<u8>::empty());
            }
        }
        lemma_iloop_comps(r, next, i + 1, len2, ptr + n);
    } else {
        assert(iidx(r, 8) == ptr);
    }
}

/// Indexed bytes that pass the check have readable components: every segment
/// that the index delimits is ordered and starts with a length that fits.
pub proof fn law_checked_comps(r: Seq<u8>)
    requires
        spec_icheck(r) is Ok,
    ensures
        comps_ok(r),
{
    if r.len() > 0 {
        assert(r.skip(8) =~= ispath(r).skip(0));
        lemma_iloop_comps(r, r.skip(8), 0, r[0] as int, 0);
        assert forall|j: int| 0 <= j < 8 implies 0 <= #[trigger] iidx(r, j) <= iidx(r, j + 1)
            <= ispath(r).len() by {
            assert(iidx(r, j + 1) <= ispath(r).len());
        }
    } else {
        assert forall|j: int| 0 <= j < 8 implies first_ok(#[trigger] iseg(r, j)) by {
            assert(iseg(r, j) =~= Seq::<u8>::empty());
        }
    }
}

/// The indexed bytes of valid components (at most 8) pass the check.
pub proof fn lemma_indexed_of_check(cs: Seq<Seq<u8>>)
    requires
        valid_comps(cs),
        cs.len() <= 8,
        encode(cs).len() <= MAX_SPATH_SIZE,
    ensures
        spec_icheck(indexed_of(cs)) is Ok,
{
    if cs.len() > 0 {
        let r = indexed_of(cs);
        lemma_encode_len(cs);
        assert(r.skip(8) =~= encode(cs));
        lemma_iloop_indexed(cs, 0);
        assert(cs.skip(0) =~= cs);
        assert(cs.take(0) =~= Seq::<Seq<u8>>::empty());
    }
}

/// The check loop over the indexed bytes of valid components, from step `i` on.
proof fn lemma_iloop_indexed(cs: Seq<Seq<u8>>, i: nat)
    requires
        valid_comps(cs),
        0 < cs.len() <= 8,
        encode(cs).len() <= MAX_SPATH_SIZE,
        i <= 8,
    ensures
        iloop(
            indexed_of(cs),
            encode(cs.skip(if i < cs.len() {
                i as int
            } else {
                cs.len() as int
            })),
            i,
            if i < cs.len() {
                cs.len() as int
            } else {
                i as int
            },
            encode(cs.take(if i < cs.len() {
                i as int
            } else {
                cs.len() as int
            })).len() as int,
        ) is Ok,
    decreases 8 - i,
{
    if i < 8 {
        lemma_iloop_indexed(cs, i + 1);
        let r = indexed_of(cs);
        let n = cs.len() as int;
        lemma_encode_len(cs);
        assert(r.len() == 8 + encode(cs).len());
        if i < n {
            let rest = encode(cs.skip(i as int));
            let c = cs[i as int];
            assert(cs.skip(i as int)[0] == c);
            assert(cs.skip(i as int).drop_first() =~= cs.skip(i as int + 1));
            assert(rest == comp_enc(c) + encode(cs.skip(i as int + 1)));
            crate::codec::lemma_comp_enc(c);
            assert(rest[0] == c.len());
            assert(rest.subrange(0, c.len() as int + 1) =~= comp_enc(c));
            assert(rest.skip(c.len() as int + 1) =~= encode(cs.skip(i as int + 1)));
            assert(cs.take(i as int + 1) =~= cs.take(i as int).push(c));
            lemma_encode_push(cs.take(i as int), c);
            lemma_encode_take(cs, i as int + 1);
            if i + 1 < 8 {
                assert(iidx(r, i as int + 1) == r[i as int + 1]);
                assert(r[i as int + 1] == header(cs)[i as int + 1]);
            } else {
                assert(cs.take(i as int + 1) =~= cs);
            }
        } else {
            assert(cs.skip(n) =~= Seq::<Seq<u8>>::empty());
            assert(encode(cs.skip(n)) =~= Seq::<u8>::empty());
            assert(cs.take(n) =~= cs);
            if i + 1 < 8 {
                assert(iidx(r, i as int + 1) == r[i as int + 1]);
                assert(r[i as int + 1] == header(cs)[i as int + 1]);
            }
        }
    }
}

} // verus!

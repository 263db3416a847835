//! Serializable length delimited lists of byte components, e.g. /hello/world.
//!
//! [Path] and [SPathBuf] are similar to a borrowed and an owned path, except
//! that components are length delimited and may hold the null and '/' byte.
use crate::codec::{
    advance, chain_last, chain_ok, checked_step, comp_enc, copy_bytes, count_checked, encode,
    extend_bytes, lemma_chain_last, lemma_chain_last_parse, lemma_comp_enc, lemma_encode_len, lemma_encode_parse,
    lemma_encode_push, lemma_encode_take, lemma_parse_encode, lemma_walk_parse, lemma_walk_prefix, parse,
    read_checked, read_unchecked, shift, step, step_ok, valid_comp, valid_comps, walk,
    walk_comps, walk_count, walk_last_len, walk_ok, walk_rest, Fault,
};
use crate::consts::{MAX_SPATH_COMPONENT_SIZE, MAX_SPATH_SIZE, MAX_PATH_LEN};
use crate::store::{views, ByteStore};
use crate::array_vec::{comp_list, comp_list_new, comp_list_push};
use arrayvec::ArrayVec;
use vstd::prelude::*;

verus! {

/// Why bytes do not form a (indexed) path, or why an operation on one failed.
#[derive(Debug, PartialEq, Eq, Copy, Clone)]
pub enum PathError {
    /// More components than a path allows (8).
    MaxLen,
    /// A component above the size limit.
    ComponentSize,
    /// An empty component.
    ZeroComponent,
    /// A length byte that points past the end.
    TailLength,
    /// The result would exceed the maximum path size.
    CapacityError,
    /// An index that cannot be used.
    IdxError,
    /// A indexed path shorter than its 8 byte index.
    MissingIdx,
    /// The index count disagrees with the components.
    EmptyComponentIdx,
    /// An index offset disagrees with the components.
    BadOffset,
}

/// The path error for a decoding fault.
pub open spec fn fault_err(f: Fault) -> PathError {
    match f {
        Fault::ComponentSize => PathError::ComponentSize,
        Fault::ZeroComponent => PathError::ZeroComponent,
        Fault::TailLength => PathError::TailLength,
    }
}

/// The path error for a decoding fault.
pub(crate) fn from_fault(f: Fault) -> (e: PathError)
    ensures
        e == fault_err(f),
{
    match f {
        Fault::ComponentSize => PathError::ComponentSize,
        Fault::ZeroComponent => PathError::ZeroComponent,
        Fault::TailLength => PathError::TailLength,
    }
}

/// The result of checking bytes as a path: the number of components or why
/// they are not one.
pub open spec fn spec_check(b: Seq<u8>) -> Result<u8, PathError> {
    if b.len() > MAX_SPATH_SIZE {
        Err(PathError::CapacityError)
    } else {
        match parse(b) {
            Ok(cs) => if cs.len() > MAX_PATH_LEN {
                Err(PathError::MaxLen)
            } else {
                Ok(cs.len() as u8)
            },
            Err(f) => Err(fault_err(f)),
        }
    }
}

/// Bytes that form a path.
pub open spec fn valid_spath(b: Seq<u8>) -> bool {
    spec_check(b) is Ok
}

/// The components of a path.
pub open spec fn comps(b: Seq<u8>) -> Seq<Seq<u8>> {
    parse(b).unwrap()
}

/// Appending one component.
pub open spec fn spec_push(b: Seq<u8>, c: Seq<u8>) -> Result<Seq<u8>, PathError> {
    if c.len() > MAX_SPATH_COMPONENT_SIZE {
        Err(PathError::ComponentSize)
    } else if c.len() == 0 {
        Err(PathError::ZeroComponent)
    } else if b.len() + c.len() + 1 > MAX_SPATH_SIZE {
        Err(PathError::CapacityError)
    } else {
        Ok(b + comp_enc(c))
    }
}

/// Prepending one component.
pub open spec fn spec_push_front(b: Seq<u8>, c: Seq<u8>) -> Result<Seq<u8>, PathError> {
    if c.len() > MAX_SPATH_COMPONENT_SIZE {
        Err(PathError::ComponentSize)
    } else if c.len() == 0 {
        Err(PathError::ZeroComponent)
    } else if b.len() + c.len() + 1 > MAX_SPATH_SIZE {
        Err(PathError::CapacityError)
    } else {
        Ok(comp_enc(c) + b)
    }
}

/// Appending components one after the other, stopping at the first failure.
pub open spec fn spec_push_all(b: Seq<u8>, cs: Seq<Seq<u8>>) -> Result<Seq<u8>, PathError>
    decreases cs.len(),
{
    if cs.len() == 0 {
        Ok(b)
    } else {
        match spec_push(b, cs[0]) {
            Ok(nb) => spec_push_all(nb, cs.drop_first()),
            Err(e) => Err(e),
        }
    }
}

/// Extending a path with components: the appends, then the length limit.
pub open spec fn spec_extend(b: Seq<u8>, cs: Seq<Seq<u8>>) -> Result<Seq<u8>, PathError> {
    match spec_push_all(b, cs) {
        Err(e) => Err(e),
        Ok(nb) => if walk_comps(b).len() + cs.len() > MAX_PATH_LEN {
            Err(PathError::MaxLen)
        } else {
            Ok(nb)
        },
    }
}

/// Appending succeeds exactly when every component is valid and the result
/// fits, and then appends their encoding.
pub proof fn lemma_push_all(b: Seq<u8>, cs: Seq<Seq<u8>>)
    ensures
        spec_push_all(b, cs) is Ok <==> (valid_comps(cs) && (cs.len() == 0 || b.len() + encode(
            cs,
        ).len() <= MAX_SPATH_SIZE)),
        spec_push_all(b, cs) is Ok ==> spec_push_all(b, cs) == Ok::<Seq<u8>, PathError>(
            b + encode(cs),
        ),
    decreases cs.len(),
{
    if cs.len() == 0 {
        assert(b + encode(cs) =~= b);
    } else {
        let c = cs[0];
        let rest = cs.drop_first();
        let nb = b + comp_enc(c);
        assert(comp_enc(c).len() == c.len() + 1);
        assert(encode(cs) == comp_enc(c) + encode(rest));
        assert(encode(cs).len() == c.len() + 1 + encode(rest).len());
        if !valid_comp(c) {
            assert(!valid_comps(cs));
            assert(spec_push(b, c) is Err);
            assert(spec_push_all(b, cs) is Err);
        } else if b.len() + c.len() + 1 > MAX_SPATH_SIZE {
            assert(spec_push(b, c) is Err);
            assert(spec_push_all(b, cs) is Err);
        } else {
            lemma_push_all(nb, rest);
            lemma_encode_len(rest);
            assert(spec_push(b, c) == Ok::<Seq<u8>, PathError>(nb));
            assert(nb.len() == b.len() + c.len() + 1);
            assert(spec_push_all(b, cs) == spec_push_all(nb, rest));
            assert(valid_comps(cs) <==> valid_comps(rest)) by {
                if valid_comps(rest) {
                    assert forall|i: int| 0 <= i < cs.len() implies valid_comp(#[trigger] cs[i]) by {
                        if i > 0 {
                            assert(cs[i] == rest[i - 1]);
                        }
                    }
                }
                if valid_comps(cs) {
                    assert forall|i: int| 0 <= i < rest.len() implies valid_comp(#[trigger] rest[i]) by {
                        assert(rest[i] == cs[i + 1]);
                    }
                }
            }
            assert(nb + encode(rest) =~= b + encode(cs));
        }
    }
}

/// The result of an operation that yields a path, viewed as bytes.
pub open spec fn rview<X: ByteStore>(r: Result<SPathBytes<X>, PathError>) -> Result<
    Seq<u8>,
    PathError,
> {
    match r {
        Ok(s) => Ok(s@),
        Err(e) => Err(e),
    }
}

/// Length delimited bytes, held in a slice, a vector or an array.
#[derive(Copy, Clone, PartialEq, Eq, Debug)]
pub struct SPathBytes<X> {
    spath_bytes: X,
}

/// Borrowed path bytes (analogous to `&str`).
pub type SPath<'a> = SPathBytes<&'a [u8]>;

/// Owned path bytes (analogous to `String`).
pub type SPathBuf = SPathBytes<Vec<u8>>;

/// Path bytes held in an array.
pub type ConstSPath<const N: usize> = SPathBytes<[u8; N]>;

impl<X: ByteStore> View for SPathBytes<X> {
    type V = Seq<u8>;

    closed spec fn view(&self) -> Seq<u8> {
        self.spath_bytes.store_view()
    }
}

impl<X: ByteStore> SPathBytes<X> {
    /// An owned copy.
    pub fn into_spathbuf(&self) -> (r: SPathBuf)
        ensures
            r@ == self@,
    {
        SPathBytes { spath_bytes: copy_bytes(self.spath_bytes.store_bytes()) }
    }

    /// A borrowed view.
    pub fn as_spath(&self) -> (r: SPath<'_>)
        ensures
            r@ == self@,
    {
        SPathBytes { spath_bytes: self.spath_bytes.store_bytes() }
    }

    /// The bytes.
    pub fn as_bytes(&self) -> (r: &[u8])
        ensures
            r@ == self@,
    {
        self.spath_bytes.store_bytes()
    }

    /// The container.
    pub fn inner(&self) -> (r: &X)
        ensures
            r.store_view() == self@,
    {
        &self.spath_bytes
    }

    /// The container, taken out.
    pub fn unwrap(self) -> (r: X)
        ensures
            r.store_view() == self@,
    {
        self.spath_bytes
    }

    /// A new path made of these components followed by those of `path`.
    pub fn try_join(&self, path: SPath<'_>) -> (r: Result<SPathBuf, PathError>)
        requires
            walk_ok(self@),
            walk_ok(path@),
        ensures
            rview(r) == spec_extend(self@, walk_comps(path@)),
    {
        self.into_spathbuf().try_append(path)
    }

    /// As [Self::try_join], for arguments on which it succeeds.
    pub fn join(&self, path: SPath<'_>) -> (r: SPathBuf)
        requires
            walk_ok(self@),
            walk_ok(path@),
            spec_extend(self@, walk_comps(path@)) is Ok,
        ensures
            Ok::<Seq<u8>, PathError>(r@) == spec_extend(self@, walk_comps(path@)),
    {
        match self.try_join(path) {
            Ok(r) => r,
            Err(_) => {
                assert(false);
                SPathBuf::new()
            },
        }
    }
}

/// A path made of the components.
pub fn spath_buf(components: &[&[u8]]) -> (r: SPathBuf)
    requires
        spec_extend(Seq::empty(), views(components@)) is Ok,
    ensures
        Ok::<Seq<u8>, PathError>(r@) == spec_extend(Seq::empty(), views(components@)),
{
    SPathBuf::from(components)
}

impl<const N: usize> ConstSPath<N> {
    /// A path held in an array, for bytes that form a path.
    pub fn from_raw(bytes: [u8; N]) -> (r: ConstSPath<N>)
        requires
            valid_spath(bytes@),
        ensures
            r@ == bytes@,
    {
        SPathBytes { spath_bytes: bytes }
    }

    /// A borrowed view of a path that lives forever.
    pub fn as_static(&'static self) -> (r: SPath<'static>)
        ensures
            r@ == self@,
    {
        SPathBytes { spath_bytes: self.spath_bytes.as_slice() }
    }

    /// An owned copy.
    pub fn to_owned(&self) -> (r: SPathBuf)
        ensures
            r@ == self@,
    {
        SPathBytes { spath_bytes: copy_bytes(self.spath_bytes.as_slice()) }
    }
}

impl SPathBuf {
    /// The empty path.
    pub fn new() -> (r: SPathBuf)
        ensures
            r@ == Seq::<u8>::empty(),
    {
        SPathBytes { spath_bytes: Vec::new() }
    }

    /// Bytes taken as they are, whether or not they form a path.
    pub fn from_vec_unchecked(bytes: Vec<u8>) -> (r: SPathBuf)
        ensures
            r@ == bytes@,
    {
        SPathBytes { spath_bytes: bytes }
    }

    /// Appends each component in turn, then checks the length limit.
    pub fn extend_from_iter(self, i: &[&[u8]]) -> (r: Result<SPathBuf, PathError>)
        requires
            walk_ok(self@),
        ensures
            rview(r) == spec_extend(self@, views(i@)),
    {
        let ghost orig = self@;
        let ghost cs = views(i@);
        let mut depth = walk_count(self.spath_bytes.as_slice());
        proof {
            lemma_walk_prefix(orig);
        }
        let mut cur = self;
        let mut k: usize = 0;
        assert(cs.skip(0) =~= cs);
        while k < i.len()
            invariant
                orig == self@,
                k <= i@.len(),
                cs == views(i@),
                depth == walk_comps(orig).len() + k,
                walk_comps(orig).len() <= orig.len(),
                cur@.len() >= orig.len() + 2 * k,
                k > 0 ==> cur@.len() <= MAX_SPATH_SIZE,
                spec_push_all(orig, cs) == spec_push_all(cur@, cs.skip(k as int)),
            decreases i@.len() - k,
        {
            let c = i[k];
            proof {
                assert(cs.skip(k as int)[0] == c@);
                assert(cs.skip(k as int).drop_first() =~= cs.skip(k as int + 1));
            }
            match cur.try_push(c) {
                Ok(n) => {
                    cur = n;
                },
                Err(e) => {
                    assert(spec_push_all(orig, cs) == Err::<Seq<u8>, PathError>(e));
                    assert(spec_extend(orig, cs) == Err::<Seq<u8>, PathError>(e));
                    return Err(e);
                },
            }
            k = k + 1;
            depth = depth + 1;
        }
        proof {
            assert(cs.skip(k as int).len() == 0);
        }
        if depth > MAX_PATH_LEN {
            return Err(PathError::MaxLen);
        }
        Ok(cur)
    }

    /// A path made of the components.
    pub fn try_from_iter(iter: &[&[u8]]) -> (r: Result<SPathBuf, PathError>)
        ensures
            rview(r) == spec_extend(Seq::empty(), views(iter@)),
    {
        SPathBuf::new().extend_from_iter(iter)
    }

    /// As [Self::try_from_iter], for components that fit.
    pub fn from(iter: &[&[u8]]) -> (r: SPathBuf)
        requires
            spec_extend(Seq::empty(), views(iter@)) is Ok,
        ensures
            Ok::<Seq<u8>, PathError>(r@) == spec_extend(Seq::empty(), views(iter@)),
    {
        match SPathBuf::try_from_iter(iter) {
            Ok(r) => r,
            Err(_) => {
                assert(false);
                SPathBuf::new()
            },
        }
    }

    /// Removes the last component that the reader yields.
    pub fn truncate_last(&mut self)
        requires
            walk_ok(old(self)@),
        ensures
            walk_comps(old(self)@).len() == 0 ==> final(self)@ == old(self)@,
            walk_comps(old(self)@).len() > 0 ==> final(self)@ == old(self)@.subrange(
                0,
                old(self)@.len() - walk_comps(old(self)@).last().len() - 1,
            ),
            valid_spath(old(self)@) && old(self)@.len() > 0 ==> final(self)@ == encode(
                comps(old(self)@).drop_last(),
            ),
    {
        let ghost orig = self@;
        proof {
            lemma_walk_prefix(orig);
        }
        let last = walk_last_len(self.spath_bytes.as_slice());
        match last {
            None => {},
            Some(l) => {
                proof {
                    let cs = walk_comps(orig);
                    lemma_encode_push(cs.drop_last(), cs.last());
                    assert(cs.drop_last().push(cs.last()) =~= cs);
                    assert(orig == encode(cs.drop_last()) + comp_enc(cs.last()) + walk_rest(
                        orig,
                    ));
                }
                let n = self.spath_bytes.len() - (l + 1);
                self.spath_bytes.truncate(n);
                proof {
                    let cs = walk_comps(orig);
                    if valid_spath(orig) {
                        lemma_walk_parse(orig);
                        assert(walk_rest(orig) =~= Seq::<u8>::empty());
                        assert(self@ =~= encode(cs.drop_last()));
                    }
                }
            },
        }
    }

    /// The components, which are only returned for the empty path: for any
    /// other path the reader's tail is found non empty.
    pub fn components(&self) -> (r: Result<Vec<Vec<u8>>, PathError>)
        requires
            walk_ok(self@),
        ensures
            self@.len() == 0 ==> r is Ok && r.unwrap()@.len() == 0,
            self@.len() > 0 ==> r == Err::<Vec<Vec<u8>>, PathError>(PathError::TailLength),
    {
        let slices = self.as_spath().components_slices();
        let mut res: Vec<Vec<u8>> = Vec::new();
        let mut k: usize = 0;
        while k < slices.len()
            invariant
                k <= slices@.len(),
                res@.len() == k,
            decreases slices@.len() - k,
        {
            res.push(copy_bytes(slices[k]));
            k = k + 1;
        }
        if self.spath_bytes.len() == 0 {
            assert(walk_comps(self@).len() == 0);
            assert(views(slices@).len() == slices@.len());
            Ok(res)
        } else {
            Err(PathError::TailLength)
        }
    }

    /// As [Self::try_push], for a component that fits.
    pub fn push(self, s: &[u8]) -> (r: SPathBuf)
        requires
            spec_push(self@, s@) is Ok,
        ensures
            Ok::<Seq<u8>, PathError>(r@) == spec_push(self@, s@),
    {
        match self.try_push(s) {
            Ok(r) => r,
            Err(_) => {
                assert(false);
                SPathBuf::new()
            },
        }
    }

    /// Appends the components of `p`.
    pub fn try_append(self, p: SPath<'_>) -> (r: Result<SPathBuf, PathError>)
        requires
            walk_ok(self@),
            walk_ok(p@),
        ensures
            rview(r) == spec_extend(self@, walk_comps(p@)),
    {
        let comps = p.components_slices();
        self.extend_from_iter(comps.as_slice())
    }

    /// Prepends the bytes of `p`.
    pub fn try_prepend(self, p: SPath<'_>) -> (r: Result<SPathBuf, PathError>)
        ensures
            self@.len() + p@.len() > MAX_SPATH_SIZE ==> r == Err::<SPathBuf, PathError>(
                PathError::CapacityError,
            ),
            self@.len() + p@.len() <= MAX_SPATH_SIZE ==> r is Ok && r.unwrap()@ == p@
                + self@,
    {
        if p.spath_bytes.len() > MAX_SPATH_SIZE || self.spath_bytes.len()
            > MAX_SPATH_SIZE - p.spath_bytes.len() {
            return Err(PathError::CapacityError);
        }
        let mut v = copy_bytes(p.spath_bytes);
        extend_bytes(&mut v, self.spath_bytes.as_slice());
        Ok(SPathBytes { spath_bytes: v })
    }

    /// Appends one component.
    pub fn try_push(self, component: &[u8]) -> (r: Result<SPathBuf, PathError>)
        ensures
            rview(r) == spec_push(self@, component@),
    {
        if component.len() > MAX_SPATH_COMPONENT_SIZE {
            return Err(PathError::ComponentSize);
        }
        if component.len() == 0 {
            return Err(PathError::ZeroComponent);
        }
        if self.spath_bytes.len() >= MAX_SPATH_SIZE || component.len() + 1
            > MAX_SPATH_SIZE - self.spath_bytes.len() {
            return Err(PathError::CapacityError);
        }
        let mut v = self.spath_bytes;
        v.push(component.len() as u8);
        extend_bytes(&mut v, component);
        assert(v@ =~= self@ + comp_enc(component@));
        Ok(SPathBytes { spath_bytes: v })
    }

    /// As [Self::try_push_front], for a component that fits.
    pub fn push_front(self, component: &[u8]) -> (r: SPathBuf)
        requires
            spec_push_front(self@, component@) is Ok,
        ensures
            Ok::<Seq<u8>, PathError>(r@) == spec_push_front(self@, component@),
    {
        match self.try_push_front(component) {
            Ok(r) => r,
            Err(_) => {
                assert(false);
                SPathBuf::new()
            },
        }
    }

    /// Prepends one component.
    pub fn try_push_front(self, component: &[u8]) -> (r: Result<SPathBuf, PathError>)
        ensures
            rview(r) == spec_push_front(self@, component@),
    {
        if component.len() > MAX_SPATH_COMPONENT_SIZE {
            return Err(PathError::ComponentSize);
        }
        if component.len() == 0 {
            return Err(PathError::ZeroComponent);
        }
        if self.spath_bytes.len() >= MAX_SPATH_SIZE || component.len() + 1
            > MAX_SPATH_SIZE - self.spath_bytes.len() {
            return Err(PathError::CapacityError);
        }
        let mut v: Vec<u8> = Vec::new();
        v.push(component.len() as u8);
        extend_bytes(&mut v, component);
        extend_bytes(&mut v, self.spath_bytes.as_slice());
        assert(v@ =~= comp_enc(component@) + self@);
        Ok(SPathBytes { spath_bytes: v })
    }
}

impl<'a> SPath<'a> {
    /// The empty path.
    pub fn empty() -> (r: SPath<'static>)
        ensures
            r@ == Seq::<u8>::empty(),
    {
        let e: &'static [u8] = &[];
        SPathBytes { spath_bytes: e }
    }

    /// Bytes taken as they are, whether or not they form a path.
    pub fn from_unchecked(b: &'a [u8]) -> (r: SPath<'a>)
        ensures
            r@ == b@,
    {
        SPathBytes { spath_bytes: b }
    }

    /// Checks that the bytes form a path.
    pub fn from_slice(b: &[u8]) -> (r: Result<SPath<'_>, PathError>)
        ensures
            match spec_check(b@) {
                Ok(_) => r is Ok && r.unwrap()@ == b@,
                Err(e) => r == Err::<SPath<'_>, PathError>(e),
            },
    {
        let p = SPathBytes { spath_bytes: b };
        match p.check_components() {
            Err(e) => Err(e),
            Ok(_) => Ok(p),
        }
    }

    /// The bytes.
    pub fn spath_bytes(self) -> (r: &'a [u8])
        ensures
            r@ == self@,
    {
        self.spath_bytes
    }

    /// The components, as the reader yields them.
    pub fn components_slices(self) -> (r: Vec<&'a [u8]>)
        requires
            walk_ok(self@),
        ensures
            views(r@) == walk_comps(self@),
    {
        let mut rest = self.spath_bytes;
        let mut res: Vec<&'a [u8]> = Vec::new();
        loop
            invariant
                walk_ok(rest@),
                walk_comps(self@) == views(res@) + walk_comps(rest@),
            decreases rest@.len(),
        {
            match read_unchecked(rest) {
                None => {
                    assert(views(res@) + walk_comps(rest@) =~= views(res@));
                    return res;
                },
                Some((c, next)) => {
                    let ghost old_res = res@;
                    res.push(c);
                    proof {
                        assert(views(res@) =~= views(old_res).push(c@));
                        assert(walk_comps(rest@) == seq![c@] + walk_comps(next@));
                        assert(views(old_res) + walk_comps(rest@) =~= views(res@) + walk_comps(
                            next@,
                        ));
                    }
                    rest = next;
                },
            }
        }
    }

    /// The components, as the reader yields them, in an array vector.
    pub fn collect(self) -> (r: ArrayVec<&'a [u8], MAX_PATH_LEN>)
        requires
            walk_ok(self@),
            walk_comps(self@).len() <= MAX_PATH_LEN,
        ensures
            comp_list(r) == walk_comps(self@),
    {
        let mut rest = self.spath_bytes;
        let mut res = comp_list_new();
        loop
            invariant
                walk_ok(rest@),
                walk_comps(self@).len() <= MAX_PATH_LEN,
                walk_comps(self@) == comp_list(res) + walk_comps(rest@),
            decreases rest@.len(),
        {
            match read_unchecked(rest) {
                None => {
                    assert(comp_list(res) + walk_comps(rest@) =~= comp_list(res));
                    return res;
                },
                Some((c, next)) => {
                    proof {
                        assert(walk_comps(rest@) == seq![c@] + walk_comps(next@));
                    }
                    let ghost old_res = comp_list(res);
                    comp_list_push(&mut res, c);
                    proof {
                        assert(old_res + walk_comps(rest@) =~= comp_list(res) + walk_comps(
                            next@,
                        ));
                    }
                    rest = next;
                },
            }
        }
    }

    /// No bytes at all.
    pub fn is_empty(self) -> (r: bool)
        ensures
            r == (self@.len() == 0),
    {
        self.spath_bytes.len() == 0
    }

    /// The first component that the reader yields.
    pub fn head(self) -> (r: Option<&'a [u8]>)
        requires
            step_ok(self@),
        ensures
            match step(self@) {
                None => r is None,
                Some((c, _)) => r is Some && r.unwrap()@ == c,
            },
    {
        match read_unchecked(self.spath_bytes) {
            None => None,
            Some((c, _)) => Some(c),
        }
    }

    /// The path after the first component (or the path itself when the
    /// reader yields nothing).
    pub fn tail(self) -> (r: SPath<'a>)
        requires
            step_ok(self@),
        ensures
            match step(self@) {
                None => r@ == self@,
                Some((_, rest)) => r@ == rest,
            },
    {
        match read_unchecked(self.spath_bytes) {
            None => self,
            Some((_, rest)) => SPathBytes { spath_bytes: rest },
        }
    }

    /// The path without its last component, `None` for the empty path.
    pub fn parent(self) -> (r: Option<SPath<'a>>)
        requires
            chain_ok(self@),
        ensures
            self@.len() == 0 ==> r is None,
            self@.len() > 0 ==> r is Some && r.unwrap()@ == self@.subrange(0, chain_last(self@)),
            valid_spath(self@) && self@.len() > 0 ==> r is Some && r.unwrap()@ == encode(
                comps(self@).drop_last(),
            ),
    {
        if self.is_empty() {
            return None;
        }
        let r = self.split_last().0;
        proof {
            if valid_spath(self@) {
                lemma_chain_last_parse(self@);
                lemma_encode_parse(self@.subrange(0, chain_last(self@)));
            }
        }
        Some(r)
    }

    /// The parent and the last component.
    pub fn pop(self) -> (r: (SPath<'a>, Option<&'a [u8]>))
        requires
            chain_ok(self@),
            self@.len() > 0 ==> step_ok(self@.skip(chain_last(self@))),
        ensures
            r.0@ == self@.subrange(0, if self@.len() == 0 {
                0
            } else {
                chain_last(self@)
            }),
            self@.len() == 0 ==> r.1 is None,
            self@.len() > 0 ==> r.1 is Some && r.1.unwrap()@ == self@.skip(chain_last(self@) + 1),
            valid_spath(self@) && self@.len() > 0 ==> r.1 is Some && r.1.unwrap()@ == comps(
                self@,
            ).last(),
    {
        let (parent, last) = self.split_last();
        match last {
            None => (parent, None),
            Some(v) => {
                proof {
                    lemma_chain_last(self@);
                }
                match read_unchecked(v.spath_bytes) {
                    Some((c, _)) => {
                        proof {
                            assert(c@ =~= self@.skip(chain_last(self@) + 1));
                            if valid_spath(self@) {
                                lemma_chain_last_parse(self@);
                                lemma_comp_enc(comps(self@).last());
                            }
                        }
                        (parent, Some(c))
                    },
                    None => {
                        assert(false);
                        (parent, None)
                    },
                }
            },
        }
    }

    /// Splits off the last segment (length byte included).
    pub fn split_last(self) -> (r: (SPath<'a>, Option<SPath<'a>>))
        requires
            chain_ok(self@),
        ensures
            self@.len() == 0 ==> r.0@ == self@ && r.1 is None,
            self@.len() > 0 ==> r.0@ == self@.subrange(0, chain_last(self@)) && r.1 is Some
                && r.1.unwrap()@ == self@.skip(chain_last(self@)),
            valid_spath(self@) && self@.len() > 0 ==> parse(r.0@) == Ok::<
                Seq<Seq<u8>>,
                Fault,
            >(comps(self@).drop_last()) && r.1.unwrap()@ == comp_enc(comps(self@).last()),
    {
        let b = self.spath_bytes;
        if b.len() == 0 {
            return (self, None);
        }
        let mut pos: usize = 0;
        assert(b@.skip(0) =~= b@);
        loop
            invariant
                b@ == self@,
                pos < b@.len(),
                chain_ok(b@.skip(pos as int)),
                chain_last(b@) == pos + chain_last(b@.skip(pos as int)),
            ensures
                pos < b@.len(),
                chain_last(b@) == pos,
            decreases b@.len() - pos,
        {
            let len = b[pos] as usize;
            proof {
                assert(b@.skip(pos as int)[0] == b@[pos as int]);
            }
            if pos + len + 1 >= b.len() {
                break ;
            }
            proof {
                assert(b@.skip(pos as int).skip(len + 1) =~= b@.skip(pos + len + 1));
            }
            pos = pos + len + 1;
        }
        proof {
            if valid_spath(self@) {
                lemma_chain_last_parse(self@);
            }
        }
        let (a, c) = b.split_at(pos);
        (SPathBytes { spath_bytes: a }, Some(SPathBytes { spath_bytes: c }))
    }

    /// Checks that the bytes form a path and counts its components.
    pub fn check_components(self) -> (r: Result<u8, PathError>)
        ensures
            r == spec_check(self@),
    {
        match self.checked_iter() {
            Err(e) => Err(e),
            Ok(iter) => match count_checked(iter.spath.spath_bytes) {
                Ok(n) => if n as usize > MAX_PATH_LEN {
                    Err(PathError::MaxLen)
                } else {
                    Ok(n)
                },
                Err(f) => Err(from_fault(f)),
            },
        }
    }

    /// The first component and the rest, `None` for the empty path.
    pub fn split_first(self) -> (r: Option<(&'a [u8], SPath<'a>)>)
        requires
            self@.len() == 0 || self@[0] as int + 1 <= self@.len(),
        ensures
            self@.len() == 0 ==> r is None,
            self@.len() > 0 ==> r is Some && r.unwrap().0@ == self@.subrange(1, self@[0] + 1)
                && r.unwrap().1@ == self@.skip(self@[0] + 1),
    {
        let b = self.spath_bytes;
        if b.len() == 0 {
            return None;
        }
        let len = b[0] as usize;
        let bytes = &b[1..len + 1];
        Some((bytes, SPathBytes { spath_bytes: &b[len + 1..b.len()] }))
    }

    /// The first component (empty for the empty path).
    pub fn first(self) -> (r: &'a [u8])
        requires
            self@.len() == 0 || self@[0] as int + 1 <= self@.len(),
        ensures
            self@.len() == 0 ==> r@.len() == 0,
            self@.len() > 0 ==> r@ == self@.subrange(1, self@[0] + 1),
    {
        let b = self.spath_bytes;
        if b.len() == 0 {
            let e: &'a [u8] = &[];
            return e;
        }
        let len = b[0] as usize;
        &b[1..len + 1]
    }

    /// Splits after the first `n` components, or returns the path and the
    /// empty path when the reader yields fewer.
    pub fn split_at(self, n: usize) -> (r: (SPath<'a>, SPath<'a>))
        requires
            advance(self@, n as nat) is Some,
        ensures
            match advance(self@, n as nat).unwrap() {
                None => r.0@ == self@ && r.1@.len() == 0,
                Some(k) => r.0@ == self@.subrange(0, k as int) && r.1@ == self@.skip(k as int),
            },
    {
        let b = self.spath_bytes;
        let mut rest = b;
        let mut j: usize = 0;
        let mut consumed: usize = 0;
        let blen = b.len();
        assert(b@.skip(0) =~= b@);
        while j < n
            invariant
                blen == b@.len(),
                b@ == self@,
                j <= n,
                consumed + rest@.len() == b@.len(),
                rest@ == b@.skip(consumed as int),
                advance(rest@, (n - j) as nat) is Some,
                advance(b@, n as nat) == shift(advance(rest@, (n - j) as nat), consumed as nat),
            decreases n - j,
        {
            match read_unchecked(rest) {
                None => {
                    return (self, SPathBytes::empty());
                },
                Some((c, next)) => {
                    proof {
                        assert(c@.len() + 1 + next@.len() == rest@.len());
                        assert(next@ =~= b@.skip(consumed + c@.len() + 1));
                        let m = (n - j) as nat;
                        assert(advance(rest@, m) == shift(
                            advance(next@, (m - 1) as nat),
                            c@.len() + 1,
                        ));
                    }
                    consumed = consumed + c.len() + 1;
                    rest = next;
                },
            }
            j = j + 1;
        }
        self.byte_split_at(consumed)
    }

    /// Splits at a byte offset.
    pub fn byte_split_at(self, mid: usize) -> (r: (SPath<'a>, SPath<'a>))
        requires
            mid <= self@.len(),
        ensures
            r.0@ == self@.subrange(0, mid as int),
            r.1@ == self@.skip(mid as int),
    {
        let (a, b) = self.spath_bytes.split_at(mid);
        (SPathBytes { spath_bytes: a }, SPathBytes { spath_bytes: b })
    }

    /// The bytes from a byte offset on.
    pub fn byte_slice(self, i: usize) -> (r: SPath<'a>)
        requires
            i <= self@.len(),
        ensures
            r@ == self@.skip(i as int),
    {
        SPathBytes { spath_bytes: &self.spath_bytes[i..self.spath_bytes.len()] }
    }

    /// The bytes start with those of `prefix`.
    pub fn starts_with(self, prefix: SPath<'_>) -> (r: bool)
        ensures
            r == (prefix@.len() <= self@.len() && self@.subrange(0, prefix@.len() as int)
                == prefix@),
    {
        let a = self.spath_bytes;
        let p = prefix.spath_bytes;
        if p.len() > a.len() {
            return false;
        }
        let mut i: usize = 0;
        while i < p.len()
            invariant
                a@ == self@,
                p@ == prefix@,
                p@.len() <= a@.len(),
                i <= p@.len(),
                forall|j: int| 0 <= j < i ==> a@[j] == p@[j],
            decreases p@.len() - i,
        {
            if a[i] != p[i] {
                assert(a@.subrange(0, p@.len() as int)[i as int] != p@[i as int]);
                return false;
            }
            i = i + 1;
        }
        assert(a@.subrange(0, p@.len() as int) =~= p@);
        true
    }

    /// The bytes after `prefix`, if they start with it.
    pub fn strip_prefix(self, prefix: SPath<'_>) -> (r: Option<SPath<'a>>)
        ensures
            (prefix@.len() <= self@.len() && self@.subrange(0, prefix@.len() as int) == prefix@)
                ==> r is Some && r.unwrap()@ == self@.skip(prefix@.len() as int),
            !(prefix@.len() <= self@.len() && self@.subrange(0, prefix@.len() as int)
                == prefix@) ==> r is None,
    {
        if !self.starts_with(prefix) {
            return None;
        }
        Some(self.byte_slice(prefix.spath_bytes.len()))
    }

    /// The bytes after `prefix`, which they must start with.
    pub fn drop_prefix(self, prefix: SPath<'_>) -> (r: SPath<'a>)
        requires
            prefix@.len() <= self@.len() && self@.subrange(0, prefix@.len() as int) == prefix@,
        ensures
            r@ == self@.skip(prefix@.len() as int),
    {
        match self.strip_prefix(prefix) {
            Some(r) => r,
            None => {
                assert(false);
                self
            },
        }
    }

    /// The unchecked reader over the components.
    pub fn iter(self) -> (r: SPathIter<'a>)
        ensures
            r.rest_view() == self@,
    {
        SPathIter { spath: self }
    }

    /// The checked reader over the components, for paths within the size limit.
    pub fn checked_iter(self) -> (r: Result<CheckedSPathIter<'a>, PathError>)
        ensures
            self@.len() > MAX_SPATH_SIZE ==> r == Err::<CheckedSPathIter<'a>, PathError>(
                PathError::CapacityError,
            ),
            self@.len() <= MAX_SPATH_SIZE ==> r is Ok && r.unwrap().rest_view() == self@,
    {
        if self.spath_bytes.len() > MAX_SPATH_SIZE {
            return Err(PathError::CapacityError);
        }
        Ok(CheckedSPathIter { spath: self })
    }

    /// A cursor over the components, with the path up to each.
    pub fn track(self) -> (r: Track<'a>)
        ensures
            r.full_view() == self@,
            r.rest_view() == self@,
    {
        assert(self@.skip(0) =~= self@);
        Track { full: self, at: self }
    }

    /// Every prefix of the path that ends at a component boundary, shortest
    /// first, the empty path included: '/a/b/c' gives '', '/a', '/a/b',
    /// '/a/b/c'.
    pub fn scan_spaths(self) -> (r: Vec<SPath<'a>>)
        requires
            walk_ok(self@),
        ensures
            r@.len() == walk_comps(self@).len() + 1,
            forall|i: int|
                0 <= i < r@.len() ==> (#[trigger] r@[i])@ == encode(walk_comps(self@).take(i)),
    {
        let b = self.spath_bytes;
        let mut rest = b;
        let mut consumed: usize = 0;
        let mut res: Vec<SPath<'a>> = Vec::new();
        let blen = b.len();
        let ghost cs = walk_comps(b@);
        proof {
            lemma_walk_prefix(b@);
            assert(cs.take(0) =~= Seq::<Seq<u8>>::empty());
        }
        let (none, _) = b.split_at(0);
        proof {
            assert(none@ =~= encode(cs.take(0)));
        }
        res.push(SPathBytes { spath_bytes: none });
        loop
            invariant
                blen == b@.len(),
                b@ == self@,
                walk_ok(rest@),
                cs == walk_comps(b@),
                walk_ok(b@),
                valid_comps(cs),
                b@ == encode(cs) + walk_rest(b@),
                1 <= res@.len() <= cs.len() + 1,
                cs.skip(res@.len() - 1) == walk_comps(rest@),
                walk_rest(rest@) == walk_rest(b@),
                consumed == encode(cs.take(res@.len() - 1)).len(),
                rest@ == b@.skip(consumed as int),
                forall|i: int|
                    0 <= i < res@.len() ==> (#[trigger] res@[i])@ == encode(cs.take(i)),
            decreases rest@.len(),
        {
            match read_unchecked(rest) {
                None => {
                    proof {
                        assert(walk_comps(rest@).len() == 0);
                        assert(cs.skip(res@.len() - 1).len() == 0);
                    }
                    return res;
                },
                Some((c, next)) => {
                    let ghost k = res@.len() - 1;
                    proof {
                        assert(walk_comps(rest@) == seq![c@] + walk_comps(next@));
                        assert(cs.skip(k).len() > 0);
                        assert(c@.len() + 1 + next@.len() == rest@.len());
                        assert(cs.skip(k)[0] == c@);
                        assert(cs[k] == c@);
                        assert(cs.take(k + 1) =~= cs.take(k).push(c@));
                        lemma_encode_push(cs.take(k), c@);
                        assert(cs.skip(k + 1) =~= cs.skip(k).drop_first());
                        lemma_encode_take(cs, k + 1);
                        assert(encode(cs) + walk_rest(b@) =~= encode(cs.take(k + 1)) + (encode(
                            cs.skip(k + 1),
                        ) + walk_rest(b@)));
                        assert(encode(cs.take(k + 1)).len() <= b@.len());
                    }
                    consumed = consumed + c.len() + 1;
                    let (upto, _) = b.split_at(consumed);
                    proof {
                        assert(upto@ =~= encode(cs.take(k + 1)));
                    }
                    res.push(SPathBytes { spath_bytes: upto });
                    rest = next;
                    proof {
                        assert(rest@ =~= b@.skip(consumed as int));
                    }
                },
            }
        }
    }

    /// Byte size of the path. Not to be confused with its length.
    pub fn size(self) -> (r: usize)
        ensures
            r == self@.len(),
    {
        self.spath_bytes.len()
    }
}

// ---------------------------------------------------------------- laws

/// Building a path from components that are valid, at most 8 and fit in 242
/// bytes succeeds; the result is their encoding, it passes the check, and its
/// components read back are the same components.
pub proof fn law_build_roundtrip(cs: Seq<Seq<u8>>)
    requires
        valid_comps(cs),
        cs.len() <= MAX_PATH_LEN,
        encode(cs).len() <= MAX_SPATH_SIZE,
    ensures
        spec_extend(Seq::empty(), cs) == Ok::<Seq<u8>, PathError>(encode(cs)),
        spec_check(encode(cs)) == Ok::<u8, PathError>(cs.len() as u8),
        comps(encode(cs)) == cs,
        walk_comps(encode(cs)) == cs,
{
    lemma_push_all(Seq::empty(), cs);
    assert(Seq::<u8>::empty() + encode(cs) =~= encode(cs));
    lemma_parse_encode(cs);
    lemma_walk_parse(encode(cs));
    assert(walk_comps(Seq::<u8>::empty()).len() == 0);
}

/// Building a path from components succeeds exactly when they are valid, at
/// most 8 and fit in 242 bytes.
pub proof fn law_build_accepts(cs: Seq<Seq<u8>>)
    ensures
        spec_extend(Seq::empty(), cs) is Ok <==> (valid_comps(cs) && cs.len() <= MAX_PATH_LEN
            && encode(cs).len() <= MAX_SPATH_SIZE),
{
    lemma_push_all(Seq::empty(), cs);
    lemma_encode_len(cs);
    assert(walk_comps(Seq::<u8>::empty()).len() == 0);
}

/// A valid path is the encoding of its components, which are valid and are
/// what the unchecked reader yields.
pub proof fn law_decode_roundtrip(b: Seq<u8>)
    requires
        valid_spath(b),
    ensures
        encode(comps(b)) == b,
        valid_comps(comps(b)),
        walk_comps(b) == comps(b),
        spec_check(b) == Ok::<u8, PathError>(comps(b).len() as u8),
{
    lemma_encode_parse(b);
    lemma_walk_parse(b);
}

/// Joining two valid paths within the limits concatenates their bytes and
/// their components.
pub proof fn law_join(a: Seq<u8>, b: Seq<u8>)
    requires
        valid_spath(a),
        valid_spath(b),
        comps(a).len() + comps(b).len() <= MAX_PATH_LEN,
        a.len() + b.len() <= MAX_SPATH_SIZE,
    ensures
        spec_extend(a, walk_comps(b)) == Ok::<Seq<u8>, PathError>(a + b),
        valid_spath(a + b),
        comps(a + b) == comps(a) + comps(b),
{
    lemma_walk_parse(a);
    lemma_walk_parse(b);
    lemma_encode_parse(b);
    lemma_push_all(a, comps(b));
    crate::codec::lemma_parse_append(a, b);
}

/// Pushing a component onto a valid path of fewer than 8 components adds it
/// as the last component, and splitting off the last segment gives the path
/// and the component back.
pub proof fn law_push_split_last(a: Seq<u8>, c: Seq<u8>)
    requires
        valid_spath(a),
        comps(a).len() < MAX_PATH_LEN,
        spec_push(a, c) is Ok,
    ensures
        spec_push(a, c) == Ok::<Seq<u8>, PathError>(a + comp_enc(c)),
        valid_spath(a + comp_enc(c)),
        comps(a + comp_enc(c)) == comps(a).push(c),
        chain_ok(a + comp_enc(c)),
        (a + comp_enc(c)).subrange(0, chain_last(a + comp_enc(c))) == a,
        (a + comp_enc(c)).skip(chain_last(a + comp_enc(c))) == comp_enc(c),
{
    let nb = a + comp_enc(c);
    crate::codec::lemma_encode_single(c);
    assert(valid_comps(seq![c]));
    lemma_parse_encode(seq![c]);
    crate::codec::lemma_parse_append(a, comp_enc(c));
    assert(comps(a) + seq![c] =~= comps(a).push(c));
    crate::codec::lemma_chain_parse(nb);
    lemma_chain_last_parse(nb);
    assert(comps(nb).drop_last() =~= comps(a));
    lemma_encode_parse(nb.subrange(0, chain_last(nb)));
    lemma_encode_parse(a);
}

/// Pushing a component in front of a valid path of fewer than 8 components
/// succeeds exactly when the component is valid and the result fits; the
/// result is a valid path whose first component is the one pushed, followed
/// by the components of the path.
pub proof fn law_push_front(a: Seq<u8>, c: Seq<u8>)
    requires
        valid_spath(a),
        comps(a).len() < MAX_PATH_LEN,
    ensures
        spec_push_front(a, c) is Ok <==> (valid_comp(c) && a.len() + c.len() + 1
            <= MAX_SPATH_SIZE),
        spec_push_front(a, c) is Ok ==> {
            let r = spec_push_front(a, c).unwrap();
            &&& valid_spath(r)
            &&& comps(r) == seq![c] + comps(a)
            &&& comps(r)[0] == c
            &&& comps(r).len() == comps(a).len() + 1
        },
{
    if spec_push_front(a, c) is Ok {
        crate::codec::lemma_encode_single(c);
        assert(valid_comps(seq![c]));
        lemma_parse_encode(seq![c]);
        crate::codec::lemma_parse_append(comp_enc(c), a);
    }
}

/// Stripping a valid prefix from a valid path leaves a valid path: the
/// prefix and the rest make up the path, and the rest holds the components
/// after the prefix's, as many as the path has more.
pub proof fn law_strip_prefix(s: Seq<u8>, p: Seq<u8>)
    requires
        valid_spath(s),
        valid_spath(p),
        p.len() <= s.len(),
        s.subrange(0, p.len() as int) == p,
    ensures
        p + s.skip(p.len() as int) == s,
        valid_spath(s.skip(p.len() as int)),
        comps(s.skip(p.len() as int)) == comps(s).subrange(comps(p).len() as int, comps(s).len() as int),
        comps(s.skip(p.len() as int)).len() == comps(s).len() - comps(p).len(),
{
    let rest = s.skip(p.len() as int);
    assert(p + rest =~= s);
    crate::codec::lemma_parse_prefix(p, rest);
    assert(comps(s) == comps(p) + comps(rest));
    assert(comps(s).subrange(comps(p).len() as int, comps(s).len() as int) =~= comps(rest));
}

/// The bytes left after `k` steps of the reader: `None` when it stops before.
pub open spec fn steps(b: Seq<u8>, k: nat) -> Option<Seq<u8>>
    decreases k,
{
    if k == 0 {
        Some(b)
    } else {
        match steps(b, (k - 1) as nat) {
            Some(r) => match step(r) {
                Some((_, rest)) => Some(rest),
                None => None,
            },
            None => None,
        }
    }
}

/// Steps over the encoding of valid components: after `k` of them, the rest
/// is the encoding of the components from `k` on.
proof fn lemma_steps_encode(cs: Seq<Seq<u8>>, k: nat)
    requires
        valid_comps(cs),
        k <= cs.len(),
    ensures
        steps(encode(cs), k) == Some(encode(cs.skip(k as int))),
    decreases k,
{
    if k == 0 {
        assert(cs.skip(0) =~= cs);
    } else {
        lemma_steps_encode(cs, (k - 1) as nat);
        let t = cs.skip(k - 1);
        assert(t.drop_first() =~= cs.skip(k as int));
        assert(t[0] == cs[k - 1]);
        crate::codec::lemma_comp_enc(t[0]);
        let e = encode(t);
        assert(e == comp_enc(t[0]) + encode(t.drop_first()));
        assert(e.subrange(1, e[0] as int + 1) =~= t[0]);
        assert(e.skip(e[0] as int + 1) =~= encode(t.drop_first()));
        assert(step(e) == Some((t[0], encode(cs.skip(k as int)))));
    }
}

/// A cursor (see [Track]) over a valid path, moved `k` times: the reader
/// moves exactly as often as the path has components, and after `k` moves
/// the part passed is the encoding of the first `k` components, the rest the
/// encoding of the others, and together they make up the path; at the end
/// the reader stops.
pub proof fn law_track_steps(s: Seq<u8>, k: nat)
    requires
        valid_spath(s),
    ensures
        steps(s, k) is Some <==> k <= comps(s).len(),
        k <= comps(s).len() ==> {
            let rest = steps(s, k).unwrap();
            &&& rest == encode(comps(s).skip(k as int))
            &&& s.subrange(0, s.len() - rest.len()) == encode(comps(s).take(k as int))
            &&& s.subrange(0, s.len() - rest.len()) + rest == s
        },
        step(steps(s, comps(s).len()).unwrap()) is None,
    decreases k,
{
    law_decode_roundtrip(s);
    let cs = comps(s);
    lemma_steps_encode(cs, cs.len());
    assert(cs.skip(cs.len() as int) =~= Seq::<Seq<u8>>::empty());
    if k <= cs.len() {
        lemma_steps_encode(cs, k);
        crate::codec::lemma_encode_take(cs, k as int);
        let rest = steps(s, k).unwrap();
        assert(s.subrange(0, s.len() - rest.len()) =~= encode(cs.take(k as int)));
        assert(s.subrange(0, s.len() - rest.len()) + rest =~= s);
    } else {
        law_track_steps(s, (k - 1) as nat);
    }
}

/// A checked reader over the components of a path.
pub struct CheckedSPathIter<'a> {
    spath: SPath<'a>,
}

impl<'a> CheckedSPathIter<'a> {
    /// The bytes not read yet.
    pub closed spec fn rest_view(&self) -> Seq<u8> {
        self.spath@
    }

    /// The reader over nothing.
    pub fn empty_iter() -> (r: CheckedSPathIter<'static>)
        ensures
            r.rest_view().len() == 0,
    {
        CheckedSPathIter { spath: SPathBytes::empty() }
    }

    /// The bytes not read yet.
    pub fn spath(&self) -> (r: SPath<'a>)
        ensures
            r@ == self.rest_view(),
    {
        self.spath
    }

    /// The next segment (length byte included) and the reader after it.
    pub fn next_sp_c(&self) -> (r: Option<Result<(SPath<'a>, CheckedSPathIter<'a>), PathError>>)
        ensures
            match checked_step(self.rest_view()) {
                None => r is None,
                Some(Err(f)) => r == Some(Err::<(SPath<'a>, CheckedSPathIter<'a>), PathError>(fault_err(f))),
                Some(Ok((segm, rest))) => r is Some && r.unwrap() is Ok && r.unwrap().unwrap().0@
                    == segm && r.unwrap().unwrap().1.rest_view() == rest,
            },
    {
        match read_checked(self.spath.spath_bytes) {
            None => None,
            Some(Err(f)) => Some(Err(from_fault(f))),
            Some(Ok((segm, rest))) => Some(
                Ok((SPathBytes { spath_bytes: segm }, CheckedSPathIter { spath: SPathBytes { spath_bytes: rest } })),
            ),
        }
    }

    /// The next component and the reader after it.
    pub fn next_c(&self) -> (r: Option<Result<(&'a [u8], CheckedSPathIter<'a>), PathError>>)
        ensures
            match checked_step(self.rest_view()) {
                None => r is None,
                Some(Err(f)) => r == Some(Err::<(&'a [u8], CheckedSPathIter<'a>), PathError>(fault_err(f))),
                Some(Ok((segm, rest))) => r is Some && r.unwrap() is Ok && r.unwrap().unwrap().0@
                    == segm.skip(1) && r.unwrap().unwrap().1.rest_view() == rest,
            },
    {
        match self.next_sp_c() {
            Some(Ok((s, r))) => {
                let b = s.spath_bytes;
                Some(Ok((&b[1..b.len()], r)))
            },
            Some(Err(e)) => Some(Err(e)),
            None => None,
        }
    }

    /// Reads the next component; after a fault the reader is left empty.
    pub fn next(&mut self) -> (r: Option<Result<&'a [u8], PathError>>)
        ensures
            match checked_step(old(self).rest_view()) {
                None => r is None && final(self).rest_view() == old(self).rest_view(),
                Some(Err(f)) => r == Some(Err::<&'a [u8], PathError>(fault_err(f)))
                    && final(self).rest_view().len() == 0,
                Some(Ok((segm, rest))) => r is Some && r.unwrap() is Ok && r.unwrap().unwrap()@
                    == segm.skip(1) && final(self).rest_view() == rest,
            },
    {
        match self.next_c() {
            None => None,
            Some(Ok((next, it))) => {
                *self = it;
                Some(Ok(next))
            },
            Some(Err(e)) => {
                self.spath = SPathBytes::empty();
                Some(Err(e))
            },
        }
    }
}

/// The unchecked reader over the components of a path.
pub struct SPathIter<'a> {
    spath: SPath<'a>,
}

impl<'a> SPathIter<'a> {
    /// The bytes not read yet.
    pub closed spec fn rest_view(&self) -> Seq<u8> {
        self.spath@
    }

    /// The bytes not read yet.
    pub fn spath(&self) -> (r: SPath<'a>)
        ensures
            r@ == self.rest_view(),
    {
        self.spath
    }

    /// Reads the next component; stops (and stays) at a short tail.
    pub fn next(&mut self) -> (r: Option<&'a [u8]>)
        requires
            step_ok(old(self).rest_view()),
        ensures
            match step(old(self).rest_view()) {
                None => r is None && final(self).rest_view() == old(self).rest_view(),
                Some((c, rest)) => r is Some && r.unwrap()@ == c && final(self).rest_view() == rest,
            },
    {
        match read_unchecked(self.spath.spath_bytes) {
            None => None,
            Some((c, rest)) => {
                self.spath = SPathBytes { spath_bytes: rest };
                Some(c)
            },
        }
    }
}

/// A cursor over the components of a path: the full path and the part
/// not passed yet.
pub struct Track<'a> {
    full: SPath<'a>,
    at: SPath<'a>,
}

impl<'a> Track<'a> {
    /// The part not passed yet is a suffix of the full path.
    #[verifier::type_invariant]
    spec fn suffix(self) -> bool {
        &&& self.at@.len() <= self.full@.len()
        &&& self.at@ == self.full@.skip(self.full@.len() - self.at@.len())
    }

    /// The full path.
    pub closed spec fn full_view(&self) -> Seq<u8> {
        self.full@
    }

    /// The part not passed yet.
    pub closed spec fn rest_view(&self) -> Seq<u8> {
        self.at@
    }

    /// The full path.
    pub fn full(&self) -> (r: SPath<'a>)
        ensures
            r@ == self.full_view(),
    {
        self.full
    }

    /// The next component.
    pub fn component(&self) -> (r: Option<&'a [u8]>)
        requires
            step_ok(self.rest_view()),
        ensures
            match step(self.rest_view()) {
                None => r is None,
                Some((c, _)) => r is Some && r.unwrap()@ == c,
            },
    {
        self.at.head()
    }

    /// The part not passed yet.
    pub fn rest(&self) -> (r: SPath<'a>)
        ensures
            r@ == self.rest_view(),
    {
        self.at
    }

    /// The part passed.
    pub fn upto(&self) -> (r: SPath<'a>)
        ensures
            r@ == self.full_view().subrange(0, self.full_view().len() - self.rest_view().len()),
            self.full_view() == r@ + self.rest_view(),
    {
        proof {
            use_type_invariant(self);
        }
        let mid = self.full.spath_bytes.len() - self.at.spath_bytes.len();
        let r = self.full.byte_split_at(mid).0;
        assert(self.full@ =~= r@ + self.at@);
        r
    }

    /// The cursor after the next component, `None` at the end.
    pub fn next(&self) -> (r: Option<Track<'a>>)
        requires
            step_ok(self.rest_view()),
        ensures
            match step(self.rest_view()) {
                None => r is None,
                Some((_, rest)) => r is Some && r.unwrap().full_view() == self.full_view()
                    && r.unwrap().rest_view() == rest,
            },
    {
        proof {
            use_type_invariant(self);
        }
        let mut it = self.at.iter();
        match it.next() {
            None => None,
            Some(_) => {
                let at = it.spath();
                proof {
                    assert(at@ =~= self.full@.skip(self.full@.len() - at@.len()));
                }
                Some(Track { full: self.full, at })
            },
        }
    }
}

/// A component with its length byte in front.
pub fn prefix_len<const N: usize, const M: usize>(component: [u8; N]) -> (r: [u8; M])
    requires
        M == N + 1,
        0 < N <= MAX_SPATH_COMPONENT_SIZE,
    ensures
        r@ == comp_enc(component@),
{
    let mut result = [0u8; M];
    result[0] = N as u8;
    let mut i: usize = 0;
    while i < N
        invariant
            M == N + 1,
            0 < N <= 200,
            i <= N,
            result@.len() == M,
            result@[0] == N as u8,
            forall|j: int| 0 <= j < i ==> result@[j + 1] == component@[j],
        decreases N - i,
    {
        result[i + 1] = component[i];
        i = i + 1;
    }
    assert(result@ =~= comp_enc(component@));
    result
}

/// Two arrays one after the other.
pub fn concat_components<const B: usize, const S: usize, const R: usize>(
    base: [u8; B],
    component: [u8; S],
) -> (r: [u8; R])
    requires
        R == B + S,
        S <= MAX_SPATH_SIZE,
    ensures
        r@ == base@ + component@,
{
    let mut result = [0u8; R];
    let mut i: usize = 0;
    while i < B
        invariant
            R == B + S,
            i <= B,
            result@.len() == R,
            forall|j: int| 0 <= j < i ==> result@[j] == base@[j],
        decreases B - i,
    {
        result[i] = base[i];
        i = i + 1;
    }
    while i < B + S
        invariant
            R == B + S,
            B <= i <= B + S,
            result@.len() == R,
            forall|j: int| 0 <= j < B ==> result@[j] == base@[j],
            forall|j: int| B <= j < i ==> result@[j] == component@[j - B],
        decreases B + S - i,
    {
        result[i] = component[i - B];
        i = i + 1;
    }
    assert(result@ =~= base@ + component@);
    result
}

} // verus!

//! The length delimited component encoding shared by spaces and paths.
//!
//! A component of `n` bytes (1 <= n <= 200) is written as the byte `n`
//! followed by its bytes; a space (or path) is the concatenation of the
//! encodings of its components.
use vstd::prelude::*;

verus! {

/// Why a sequence of bytes is not a valid component encoding.
#[derive(Clone, Copy, PartialEq, Eq, Debug)]
pub enum Fault {
    /// A length byte above the component size limit.
    ComponentSize,
    /// A length byte of zero.
    ZeroComponent,
    /// A length byte that points past the end of the bytes.
    TailLength,
}

/// Largest size of a component.
pub open spec fn max_comp() -> int {
    200
}

/// A component that can be encoded: non empty and within the size limit.
pub open spec fn valid_comp(c: Seq<u8>) -> bool {
    1 <= c.len() <= max_comp()
}

/// All components are valid.
pub open spec fn valid_comps(cs: Seq<Seq<u8>>) -> bool {
    forall|i: int| 0 <= i < cs.len() ==> valid_comp(#[trigger] cs[i])
}

/// The encoding of a single component: its length byte followed by its bytes.
pub open spec fn comp_enc(c: Seq<u8>) -> Seq<u8> {
    seq![c.len() as u8] + c
}

/// The encoding of a list of components.
pub open spec fn encode(cs: Seq<Seq<u8>>) -> Seq<u8>
    decreases cs.len(),
{
    if cs.len() == 0 {
        Seq::empty()
    } else {
        comp_enc(cs[0]) + encode(cs.drop_first())
    }
}

/// Decoding the components of `b`, failing at the first malformed component.
pub open spec fn parse(b: Seq<u8>) -> Result<Seq<Seq<u8>>, Fault>
    decreases b.len(),
{
    if b.len() == 0 {
        Ok(Seq::empty())
    } else if b[0] > 200 {
        Err(Fault::ComponentSize)
    } else if b[0] == 0 {
        Err(Fault::ZeroComponent)
    } else if b.len() <= b[0] {
        Err(Fault::TailLength)
    } else {
        match parse(b.skip(b[0] as int + 1)) {
            Ok(cs) => Ok(seq![b.subrange(1, b[0] as int + 1)] + cs),
            Err(f) => Err(f),
        }
    }
}

/// One step of the checked reader: `None` at the end, otherwise the fault or
/// the encoded segment (length byte included) and the rest.
pub open spec fn checked_step(b: Seq<u8>) -> Option<Result<(Seq<u8>, Seq<u8>), Fault>> {
    if b.len() == 0 {
        None
    } else if b[0] > 200 {
        Some(Err(Fault::ComponentSize))
    } else if b[0] == 0 {
        Some(Err(Fault::ZeroComponent))
    } else if b.len() <= b[0] {
        Some(Err(Fault::TailLength))
    } else {
        Some(Ok((b.subrange(0, b[0] as int + 1), b.skip(b[0] as int + 1))))
    }
}

/// The unchecked reader does not panic on this step.
pub open spec fn step_ok(b: Seq<u8>) -> bool {
    b.len() == 0 || (1 <= b[0] && b[0] <= 200)
}

/// One step of the unchecked reader (when it does not panic): `None` when it
/// stops, otherwise the component and the rest.
pub open spec fn step(b: Seq<u8>) -> Option<(Seq<u8>, Seq<u8>)> {
    if b.len() == 0 || b.len() < b[0] as int + 1 {
        None
    } else {
        Some((b.subrange(1, b[0] as int + 1), b.skip(b[0] as int + 1)))
    }
}

/// The unchecked reader run to its end: `None` if it panics, otherwise the
/// components it yields and the bytes at which it stops.
pub open spec fn walk(b: Seq<u8>) -> Option<(Seq<Seq<u8>>, Seq<u8>)>
    decreases b.len(),
{
    if b.len() == 0 {
        Some((Seq::empty(), b))
    } else if b[0] == 0 || b[0] > 200 {
        None
    } else if b.len() < b[0] as int + 1 {
        Some((Seq::empty(), b))
    } else {
        match walk(b.skip(b[0] as int + 1)) {
            Some((cs, r)) => Some((seq![b.subrange(1, b[0] as int + 1)] + cs, r)),
            None => None,
        }
    }
}

/// The unchecked reader runs to its end without panicking.
pub open spec fn walk_ok(b: Seq<u8>) -> bool {
    walk(b) is Some
}

/// The components that the unchecked reader yields.
pub open spec fn walk_comps(b: Seq<u8>) -> Seq<Seq<u8>> {
    walk(b).unwrap().0
}

/// The bytes at which the unchecked reader stops.
pub open spec fn walk_rest(b: Seq<u8>) -> Seq<u8> {
    walk(b).unwrap().1
}

/// The unchecked reader advanced `n` times: `None` if it panics, `Some(None)` if
/// it stops before, otherwise the number of bytes consumed.
pub open spec fn advance(b: Seq<u8>, n: nat) -> Option<Option<nat>>
    decreases n,
{
    if n == 0 {
        Some(Some(0))
    } else if !step_ok(b) {
        None
    } else {
        match step(b) {
            None => Some(None),
            Some((c, r)) => match advance(r, (n - 1) as nat) {
                None => None,
                Some(None) => Some(None),
                Some(Some(k)) => Some(Some(k + c.len() + 1)),
            },
        }
    }
}

/// Walking length bytes (whatever their value) reaches the end exactly.
pub open spec fn chain_ok(b: Seq<u8>) -> bool
    decreases b.len(),
{
    b.len() == 0 || (b[0] as int + 1 <= b.len() && chain_ok(b.skip(b[0] as int + 1)))
}

/// The offset at which the last segment of a chain starts.
pub open spec fn chain_last(b: Seq<u8>) -> int
    decreases b.len(),
{
    if b.len() == 0 || b.len() <= b[0] as int + 1 {
        0
    } else {
        b[0] as int + 1 + chain_last(b.skip(b[0] as int + 1))
    }
}

// ---------------------------------------------------------------- lemmas

pub proof fn lemma_comp_enc(c: Seq<u8>)
    requires
        valid_comp(c),
    ensures
        comp_enc(c).len() == c.len() + 1,
        comp_enc(c)[0] == c.len(),
        comp_enc(c).subrange(1, c.len() as int + 1) == c,
        comp_enc(c).skip(1) == c,
{
    assert(comp_enc(c).subrange(1, c.len() as int + 1) =~= c);
    assert(comp_enc(c).skip(1) =~= c);
}

pub proof fn lemma_encode_push(cs: Seq<Seq<u8>>, c: Seq<u8>)
    ensures
        encode(cs.push(c)) == encode(cs) + comp_enc(c),
    decreases cs.len(),
{
    if cs.len() == 0 {
        assert(cs.push(c).drop_first() =~= Seq::<Seq<u8>>::empty());
        assert(encode(cs.push(c).drop_first()) == Seq::<u8>::empty());
        assert(encode(cs.push(c)) =~= encode(cs) + comp_enc(c));
    } else {
        lemma_encode_push(cs.drop_first(), c);
        assert(cs.push(c).drop_first() =~= cs.drop_first().push(c));
        assert(encode(cs.push(c)) =~= encode(cs) + comp_enc(c));
    }
}

pub proof fn lemma_encode_append(a: Seq<Seq<u8>>, b: Seq<Seq<u8>>)
    ensures
        encode(a + b) == encode(a) + encode(b),
    decreases a.len(),
{
    if a.len() == 0 {
        assert(a + b =~= b);
        assert(encode(a) + encode(b) =~= encode(b));
    } else {
        lemma_encode_append(a.drop_first(), b);
        assert((a + b).drop_first() =~= a.drop_first() + b);
        assert(encode(a + b) =~= encode(a) + encode(b));
    }
}

pub proof fn lemma_encode_single(c: Seq<u8>)
    ensures
        encode(seq![c]) == comp_enc(c),
{
    assert(seq![c].drop_first() =~= Seq::<Seq<u8>>::empty());
    assert(encode(seq![c].drop_first()) == Seq::<u8>::empty());
    assert(encode(seq![c]) =~= comp_enc(c));
}

/// The size of an encoding grows by one byte per component.
pub proof fn lemma_encode_len(cs: Seq<Seq<u8>>)
    ensures
        encode(cs).len() >= 2 * cs.len() || !valid_comps(cs),
        encode(cs).len() >= cs.len(),
        cs.len() == 0 <==> encode(cs).len() == 0,
    decreases cs.len(),
{
    if cs.len() > 0 {
        lemma_encode_len(cs.drop_first());
        if valid_comps(cs) {
            assert(valid_comps(cs.drop_first())) by {
                assert forall|i: int| 0 <= i < cs.drop_first().len() implies valid_comp(
                    #[trigger] cs.drop_first()[i],
                ) by {
                    assert(cs.drop_first()[i] == cs[i + 1]);
                }
            }
            assert(valid_comp(cs[0]));
        }
    }
}

/// Decoding an encoding of valid components gives the components back.
pub proof fn lemma_parse_encode(cs: Seq<Seq<u8>>)
    requires
        valid_comps(cs),
    ensures
        parse(encode(cs)) == Ok::<Seq<Seq<u8>>, Fault>(cs),
    decreases cs.len(),
{
    if cs.len() == 0 {
        assert(encode(cs) =~= Seq::<u8>::empty());
        assert(cs =~= Seq::<Seq<u8>>::empty());
    } else {
        let c = cs[0];
        let rest = cs.drop_first();
        assert(valid_comp(c));
        assert(valid_comps(rest)) by {
            assert forall|i: int| 0 <= i < rest.len() implies valid_comp(#[trigger] rest[i]) by {
                assert(rest[i] == cs[i + 1]);
            }
        }
        lemma_parse_encode(rest);
        lemma_comp_enc(c);
        let b = encode(cs);
        assert(b == comp_enc(c) + encode(rest));
        assert(b[0] == c.len());
        assert(b.len() == c.len() + 1 + encode(rest).len());
        assert(0 < b[0] <= 200);
        assert(b.skip(c.len() as int + 1) =~= encode(rest));
        assert(b.subrange(1, c.len() as int + 1) =~= c);
        assert(seq![c] + rest =~= cs);
        assert(parse(b) == Ok::<Seq<Seq<u8>>, Fault>(seq![c] + rest));
    }
}

/// Decoded components are valid, and encode back to the decoded bytes.
pub proof fn lemma_encode_parse(b: Seq<u8>)
    requires
        parse(b) is Ok,
    ensures
        valid_comps(parse(b).unwrap()),
        encode(parse(b).unwrap()) == b,
    decreases b.len(),
{
    if b.len() > 0 {
        let len = b[0] as int;
        let rest = b.skip(len + 1);
        lemma_encode_parse(rest);
        let c = b.subrange(1, len + 1);
        let cs = parse(b).unwrap();
        let rcs = parse(rest).unwrap();
        assert(cs == seq![c] + rcs);
        assert(cs.drop_first() =~= rcs);
        assert(cs[0] == c);
        assert forall|i: int| 0 <= i < cs.len() implies valid_comp(#[trigger] cs[i]) by {
            if i > 0 {
                assert(cs[i] == rcs[i - 1]);
            }
        }
        assert(comp_enc(c) =~= b.subrange(0, len + 1));
        assert(encode(cs) =~= b);
    } else {
        assert(encode(parse(b).unwrap()) =~= b);
    }
}

/// The unchecked reader agrees with the checked decoder on valid bytes.
pub proof fn lemma_walk_parse(b: Seq<u8>)
    requires
        parse(b) is Ok,
    ensures
        walk(b) == Some((parse(b).unwrap(), Seq::<u8>::empty())),
    decreases b.len(),
{
    if b.len() > 0 {
        lemma_walk_parse(b.skip(b[0] as int + 1));
    } else {
        assert(b =~= Seq::<u8>::empty());
    }
}

/// Valid bytes form a chain of segments.
pub proof fn lemma_chain_parse(b: Seq<u8>)
    requires
        parse(b) is Ok,
    ensures
        chain_ok(b),
    decreases b.len(),
{
    if b.len() > 0 {
        lemma_chain_parse(b.skip(b[0] as int + 1));
    }
}

/// The last segment of valid bytes encodes their last component.
pub proof fn lemma_chain_last_parse(b: Seq<u8>)
    requires
        parse(b) is Ok,
        b.len() > 0,
    ensures
        0 <= chain_last(b) < b.len(),
        parse(b.subrange(0, chain_last(b))) == Ok::<Seq<Seq<u8>>, Fault>(
            parse(b).unwrap().drop_last(),
        ),
        b.skip(chain_last(b)) == comp_enc(parse(b).unwrap().last()),
    decreases b.len(),
{
    let len = b[0] as int;
    let rest = b.skip(len + 1);
    let c = b.subrange(1, len + 1);
    let cs = parse(b).unwrap();
    if rest.len() == 0 {
        assert(parse(rest).unwrap() =~= Seq::<Seq<u8>>::empty());
        assert(cs =~= seq![c]);
        assert(cs.drop_last() =~= Seq::<Seq<u8>>::empty());
        assert(b.subrange(0, 0) =~= Seq::<u8>::empty());
        assert(b.skip(0) =~= comp_enc(c));
    } else {
        lemma_chain_last_parse(rest);
        let k = chain_last(rest);
        let rcs = parse(rest).unwrap();
        assert(chain_last(b) == len + 1 + k);
        let pre = b.subrange(0, len + 1 + k);
        assert(pre[0] == b[0]);
        assert(pre.skip(len + 1) =~= rest.subrange(0, k));
        assert(pre.subrange(1, len + 1) =~= c);
        assert(cs =~= seq![c] + rcs);
        assert(cs.drop_last() =~= seq![c] + rcs.drop_last());
        assert(cs.last() == rcs.last());
        assert(b.skip(len + 1 + k) =~= rest.skip(k));
    }
}

/// Decoding a concatenation of valid encodings.
pub proof fn lemma_parse_append(a: Seq<u8>, b: Seq<u8>)
    requires
        parse(a) is Ok,
        parse(b) is Ok,
    ensures
        parse(a + b) == Ok::<Seq<Seq<u8>>, Fault>(parse(a).unwrap() + parse(b).unwrap()),
{
    lemma_encode_parse(a);
    lemma_encode_parse(b);
    let ca = parse(a).unwrap();
    let cb = parse(b).unwrap();
    lemma_encode_append(ca, cb);
    assert(valid_comps(ca + cb)) by {
        assert forall|i: int| 0 <= i < (ca + cb).len() implies valid_comp(#[trigger] (ca + cb)[i]) by {
            if i < ca.len() {
                assert((ca + cb)[i] == ca[i]);
            } else {
                assert((ca + cb)[i] == cb[i - ca.len()]);
            }
        }
    }
    lemma_parse_encode(ca + cb);
}

/// Decoding bytes that start with a valid encoding: the rest decodes too, and
/// its components follow those of the start.
pub proof fn lemma_parse_prefix(a: Seq<u8>, b: Seq<u8>)
    requires
        parse(a) is Ok,
        parse(a + b) is Ok,
    ensures
        parse(b) is Ok,
        parse(a + b) == Ok::<Seq<Seq<u8>>, Fault>(parse(a).unwrap() + parse(b).unwrap()),
    decreases a.len(),
{
    if a.len() == 0 {
        assert(a + b =~= b);
        assert(parse(a).unwrap() + parse(b).unwrap() =~= parse(b).unwrap());
    } else {
        let l = a[0] as int;
        let ab = a + b;
        assert(ab[0] == a[0]);
        assert(ab.subrange(1, l + 1) =~= a.subrange(1, l + 1));
        assert(ab.skip(l + 1) =~= a.skip(l + 1) + b);
        lemma_parse_prefix(a.skip(l + 1), b);
        let head = seq![a.subrange(1, l + 1)];
        assert(head + (parse(a.skip(l + 1)).unwrap() + parse(b).unwrap()) =~= (head + parse(
            a.skip(l + 1),
        ).unwrap()) + parse(b).unwrap());
    }
}

/// The prefix of an encoding made of its first `k` components.
pub proof fn lemma_encode_take(cs: Seq<Seq<u8>>, k: int)
    requires
        0 <= k <= cs.len(),
    ensures
        encode(cs) == encode(cs.take(k)) + encode(cs.skip(k)),
{
    lemma_encode_append(cs.take(k), cs.skip(k));
    assert(cs.take(k) + cs.skip(k) =~= cs);
}

/// The components that the unchecked reader yields are valid, and the bytes
/// are their encoding followed by the bytes where it stops.
pub proof fn lemma_walk_prefix(b: Seq<u8>)
    requires
        walk_ok(b),
    ensures
        valid_comps(walk_comps(b)),
        b == encode(walk_comps(b)) + walk_rest(b),
        walk_comps(b).len() <= b.len(),
    decreases b.len(),
{
    if b.len() == 0 || b.len() < b[0] as int + 1 {
        assert(walk_comps(b) =~= Seq::<Seq<u8>>::empty());
        assert(encode(walk_comps(b)) =~= Seq::<u8>::empty());
        assert(b =~= encode(walk_comps(b)) + walk_rest(b));
    } else {
        let len = b[0] as int;
        let rest = b.skip(len + 1);
        let c = b.subrange(1, len + 1);
        lemma_walk_prefix(rest);
        let cs = walk_comps(b);
        assert(cs == seq![c] + walk_comps(rest));
        assert(cs.drop_first() =~= walk_comps(rest));
        assert(cs[0] == c);
        assert forall|i: int| 0 <= i < cs.len() implies valid_comp(#[trigger] cs[i]) by {
            if i > 0 {
                assert(cs[i] == walk_comps(rest)[i - 1]);
            }
        }
        assert(comp_enc(c) =~= b.subrange(0, len + 1));
        assert(encode(cs) == comp_enc(c) + encode(walk_comps(rest)));
        assert(walk_rest(b) == walk_rest(rest));
        assert(b =~= b.subrange(0, len + 1) + rest);
        assert(b =~= encode(cs) + walk_rest(b));
    }
}

/// Valid bytes make a chain whose last segment is a single encoded component.
pub proof fn lemma_chain_last(b: Seq<u8>)
    requires
        chain_ok(b),
        b.len() > 0,
    ensures
        0 <= chain_last(b) < b.len(),
        chain_last(b) + b[chain_last(b)] + 1 == b.len(),
        chain_ok(b.subrange(0, chain_last(b))),
    decreases b.len(),
{
    let len = b[0] as int;
    let rest = b.skip(len + 1);
    if b.len() <= len + 1 {
        assert(b.subrange(0, 0).len() == 0);
    } else {
        lemma_chain_last(rest);
        let k = chain_last(rest);
        let pre = b.subrange(0, len + 1 + k);
        assert(rest[k] == b[len + 1 + k]);
        assert(pre[0] == b[0]);
        assert(pre.skip(len + 1) =~= rest.subrange(0, k));
    }
}

/// Shifting the byte count of an advance.
pub open spec fn shift(o: Option<Option<nat>>, c: nat) -> Option<Option<nat>> {
    match o {
        Some(Some(k)) => Some(Some(k + c)),
        other => other,
    }
}

// ---------------------------------------------------------------- exec

/// The checked step, viewed as sequences.
pub open spec fn view_checked(
    r: Option<Result<(&[u8], &[u8]), Fault>>,
) -> Option<Result<(Seq<u8>, Seq<u8>), Fault>> {
    match r {
        None => None,
        Some(Err(f)) => Some(Err(f)),
        Some(Ok((a, b))) => Some(Ok((a@, b@))),
    }
}

/// One step of the checked reader.
pub fn read_checked(b: &[u8]) -> (r: Option<Result<(&[u8], &[u8]), Fault>>)
    ensures
        view_checked(r) == checked_step(b@),
{
    if b.len() == 0 {
        return None;
    }
    let len = b[0] as usize;
    if len > 200 {
        return Some(Err(Fault::ComponentSize));
    }
    if len == 0 {
        return Some(Err(Fault::ZeroComponent));
    }
    if b.len() <= len {
        return Some(Err(Fault::TailLength));
    }
    let (segm, rest) = b.split_at(len + 1);
    Some(Ok((segm, rest)))
}

/// One step of the unchecked reader.
pub fn read_unchecked(b: &[u8]) -> (r: Option<(&[u8], &[u8])>)
    requires
        step_ok(b@),
    ensures
        match r {
            None => step(b@) is None,
            Some((c, rest)) => step(b@) == Some((c@, rest@)),
        },
{
    if b.len() == 0 {
        return None;
    }
    let len = b[0] as usize;
    if b.len() < len + 1 {
        return None;
    }
    let c = &b[1..len + 1];
    let rest = &b[len + 1..b.len()];
    Some((c, rest))
}

/// Appending bytes to a vector.
pub fn extend_bytes(v: &mut Vec<u8>, s: &[u8])
    ensures
        final(v)@ == old(v)@ + s@,
{
    let ghost orig = v@;
    let mut i: usize = 0;
    while i < s.len()
        invariant
            i <= s@.len(),
            v@ == orig + s@.subrange(0, i as int),
        decreases s@.len() - i,
    {
        v.push(s[i]);
        i += 1;
        assert(v@ =~= orig + s@.subrange(0, i as int));
    }
    assert(s@.subrange(0, i as int) =~= s@);
}

/// The two byte sequences are equal.
pub fn bytes_eq(a: &[u8], b: &[u8]) -> (r: bool)
    ensures
        r == (a@ == b@),
{
    if a.len() != b.len() {
        return false;
    }
    let mut i: usize = 0;
    while i < a.len()
        invariant
            i <= a@.len(),
            a@.len() == b@.len(),
            forall|j: int| 0 <= j < i ==> a@[j] == b@[j],
        decreases a@.len() - i,
    {
        if a[i] != b[i] {
            return false;
        }
        i = i + 1;
    }
    assert(a@ =~= b@);
    true
}

/// The bytes as an array of their length.
pub fn array_of<const N: usize>(b: &[u8]) -> (r: [u8; N])
    requires
        b.len() == N,
    ensures
        r@ == b@,
{
    let mut r = [0u8; N];
    let mut i: usize = 0;
    while i < N
        invariant
            i <= N,
            b@.len() == N,
            r@.len() == N,
            forall|j: int| 0 <= j < i ==> r@[j] == b@[j],
        decreases N - i,
    {
        r[i] = b[i];
        i = i + 1;
    }
    assert(r@ =~= b@);
    r
}

/// A copy of the bytes in a new vector.
pub fn copy_bytes(s: &[u8]) -> (v: Vec<u8>)
    ensures
        v@ == s@,
{
    let mut v: Vec<u8> = Vec::new();
    extend_bytes(&mut v, s);
    assert(v@ =~= s@);
    v
}

/// Counting the components of `b`, failing at the first malformed component.
pub fn count_checked(b: &[u8]) -> (r: Result<u8, Fault>)
    requires
        b@.len() <= 250,
    ensures
        match parse(b@) {
            Ok(cs) => r == Ok::<u8, Fault>(cs.len() as u8) && cs.len() <= 125,
            Err(f) => r == Err::<u8, Fault>(f),
        },
{
    let mut rest = b;
    let mut i: u8 = 0;
    let ghost mut prefix: Seq<Seq<u8>> = Seq::empty();
    loop
        invariant
            b@.len() <= 250,
            i as int == prefix.len(),
            2 * prefix.len() + rest@.len() <= b@.len(),
            parse(b@) == (match parse(rest@) {
                Ok(cs) => Ok::<Seq<Seq<u8>>, Fault>(prefix + cs),
                Err(f) => Err::<Seq<Seq<u8>>, Fault>(f),
            }),
        decreases rest@.len(),
    {
        match read_checked(rest) {
            None => {
                assert(prefix + Seq::<Seq<u8>>::empty() =~= prefix);
                return Ok(i);
            },
            Some(Err(f)) => {
                return Err(f);
            },
            Some(Ok((segm, next))) => {
                proof {
                    let c = rest@.subrange(1, rest@[0] as int + 1);
                    match parse(next@) {
                        Ok(cs) => {
                            assert(prefix + (seq![c] + cs) =~= prefix.push(c) + cs);
                        },
                        Err(_) => {},
                    }
                    prefix = prefix.push(c);
                }
                i = i + 1;
                rest = next;
            },
        }
    }
}

/// The size of the last component that the unchecked reader yields.
pub fn walk_last_len(b: &[u8]) -> (r: Option<usize>)
    requires
        walk_ok(b@),
    ensures
        walk_comps(b@).len() == 0 ==> r is None,
        walk_comps(b@).len() > 0 ==> r == Some(walk_comps(b@).last().len() as usize),
{
    let mut rest = b;
    let mut last: Option<usize> = None;
    loop
        invariant
            walk_ok(rest@),
            walk_comps(b@).len() == 0 ==> last is None && walk_comps(rest@).len() == 0,
            walk_comps(b@).len() > 0 ==> (walk_comps(rest@).len() > 0 || last is Some),
            walk_comps(rest@).len() > 0 ==> walk_comps(b@).last() == walk_comps(rest@).last(),
            walk_comps(rest@).len() == 0 && last is Some ==> last == Some(
                walk_comps(b@).last().len() as usize,
            ),
        decreases rest@.len(),
    {
        match read_unchecked(rest) {
            None => {
                assert(walk_comps(rest@).len() == 0);
                return last;
            },
            Some((c, next)) => {
                proof {
                    let cs = walk_comps(rest@);
                    assert(cs == seq![c@] + walk_comps(next@));
                    if walk_comps(next@).len() > 0 {
                        assert(cs.last() == walk_comps(next@).last());
                    } else {
                        assert(cs.last() == c@);
                    }
                }
                last = Some(c.len());
                rest = next;
            },
        }
    }
}

/// Counting the components that the unchecked reader yields.
pub fn walk_count(b: &[u8]) -> (n: usize)
    requires
        walk_ok(b@),
    ensures
        n == walk_comps(b@).len(),
{
    let mut rest = b;
    let mut n: usize = 0;
    let blen = b.len();
    loop
        invariant
            blen == b@.len(),
            walk_ok(rest@),
            n + walk_comps(rest@).len() == walk_comps(b@).len(),
            n <= b@.len(),
            rest@.len() + n <= b@.len(),
        decreases rest@.len(),
    {
        match read_unchecked(rest) {
            None => {
                return n;
            },
            Some((_c, next)) => {
                assert(rest@.len() > 0);
                assert(next@.len() < rest@.len());
                n = n + 1;
                rest = next;
            },
        }
    }
}

/// The index header of a list of at most 8 components.
pub open spec fn header(cs: Seq<Seq<u8>>) -> Seq<u8> {
    Seq::new(
        8,
        |j: int|
            if j == 0 {
                cs.len() as u8
            } else {
                encode(cs.take(if j < cs.len() {
                    j
                } else {
                    cs.len() as int
                })).len() as u8
            },
    )
}

/// Decoding at most `n` components with the checked reader.
pub open spec fn checked_prefix(b: Seq<u8>, n: nat) -> Result<Seq<Seq<u8>>, Fault>
    decreases n,
{
    if n == 0 {
        Ok(Seq::empty())
    } else {
        match checked_step(b) {
            None => Ok(Seq::empty()),
            Some(Err(f)) => Err(f),
            Some(Ok((segm, rest))) => match checked_prefix(rest, (n - 1) as nat) {
                Ok(cs) => Ok(seq![segm.skip(1)] + cs),
                Err(f) => Err(f),
            },
        }
    }
}

/// What the checked reader decodes of at most `n` components: valid
/// components whose encoding starts the bytes; and all components of valid
/// bytes when there are at most `n`.
pub proof fn lemma_checked_prefix(b: Seq<u8>, n: nat)
    ensures
        checked_prefix(b, n) is Ok ==> {
            let cs = checked_prefix(b, n).unwrap();
            &&& valid_comps(cs)
            &&& cs.len() <= n
            &&& encode(cs).len() <= b.len()
            &&& b.subrange(0, encode(cs).len() as int) == encode(cs)
        },
        parse(b) is Ok && parse(b).unwrap().len() <= n ==> checked_prefix(b, n) == parse(b),
    decreases n,
{
    if n > 0 && b.len() > 0 {
        let len = b[0] as int;
        if 1 <= len <= 200 && b.len() > len {
            let rest = b.skip(len + 1);
            lemma_checked_prefix(rest, (n - 1) as nat);
            let c = b.subrange(1, len + 1);
            assert(b.subrange(0, len + 1).skip(1) =~= c);
            if checked_prefix(b, n) is Ok {
                let rcs = checked_prefix(rest, (n - 1) as nat).unwrap();
                let cs = checked_prefix(b, n).unwrap();
                assert(cs == seq![c] + rcs);
                assert(cs[0] == c);
                assert(cs.drop_first() =~= rcs);
                assert forall|i: int| 0 <= i < cs.len() implies valid_comp(#[trigger] cs[i]) by {
                    if i > 0 {
                        assert(cs[i] == rcs[i - 1]);
                    }
                }
                assert(comp_enc(c) =~= b.subrange(0, len + 1));
                assert(encode(cs) == comp_enc(c) + encode(rcs));
                assert(b.subrange(0, encode(cs).len() as int) =~= encode(cs));
            }
        }
    } else if b.len() == 0 {
        assert(encode(Seq::<Seq<u8>>::empty()) =~= Seq::<u8>::empty());
        assert(b.subrange(0, 0) =~= Seq::<u8>::empty());
        if parse(b) is Ok {
            assert(parse(b).unwrap() =~= Seq::<Seq<u8>>::empty());
        }
    } else {
        assert(encode(Seq::<Seq<u8>>::empty()) =~= Seq::<u8>::empty());
        assert(b.subrange(0, 0) =~= Seq::<u8>::empty());
    }
}

} // verus!

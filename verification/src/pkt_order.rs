//! Packets compared by hash for equality, and ordered as the tree index
//! orders them.
use crate::codec::bytes_eq;
use crate::field_ids::path_of;
use crate::ipath::spec_icheck;
use crate::netpkt_parts::NetPktParts;
use crate::point_parts::spec_lph;
use crate::tree_order::{pkt_key, pkt_value, TreeEntry};
use core::cmp::Ordering;
use vstd::prelude::*;

verus! {

/// The lexicographic order of byte strings: the first differing byte
/// decides, and a proper prefix comes first.
pub open spec fn byte_order(a: Seq<u8>, b: Seq<u8>) -> Ordering
    decreases a.len(),
{
    if a.len() == 0 {
        if b.len() == 0 {
            Ordering::Equal
        } else {
            Ordering::Less
        }
    } else if b.len() == 0 {
        Ordering::Greater
    } else if a[0] < b[0] {
        Ordering::Less
    } else if a[0] > b[0] {
        Ordering::Greater
    } else {
        byte_order(a.drop_first(), b.drop_first())
    }
}

/// The first order, unless it finds its sides equal; then the second.
pub open spec fn then_order(first: Ordering, second: Ordering) -> Ordering {
    match first {
        Ordering::Equal => second,
        _ => first,
    }
}

/// The order of two packets: packets with a tree entry (at log position 0)
/// come first, ordered by key, then by value; the others follow, ordered by
/// hash.
pub open spec fn pkt_order(a: NetPktParts, b: NetPktParts) -> Ordering {
    let zero = Seq::new(8, |i: int| 0u8);
    match (spec_lph(a.spec_parts()), spec_lph(b.spec_parts())) {
        (Some(_), Some(_)) => then_order(
            byte_order(pkt_key(a), pkt_key(b)),
            byte_order(pkt_value(zero, a), pkt_value(zero, b)),
        ),
        (Some(_), None) => Ordering::Less,
        (None, Some(_)) => Ordering::Greater,
        (None, None) => byte_order(a.spec_hash(), b.spec_hash()),
    }
}

/// The order seen from the other side.
pub open spec fn flip(o: Ordering) -> Ordering {
    match o {
        Ordering::Less => Ordering::Greater,
        Ordering::Equal => Ordering::Equal,
        Ordering::Greater => Ordering::Less,
    }
}

/// The byte order finds two strings equal exactly when they are, and seen
/// from the other side it is reversed.
pub proof fn lemma_byte_order(a: Seq<u8>, b: Seq<u8>)
    ensures
        (byte_order(a, b) == Ordering::Equal) <==> (a == b),
        byte_order(b, a) == flip(byte_order(a, b)),
    decreases a.len(),
{
    if a.len() > 0 && b.len() > 0 && a[0] == b[0] {
        lemma_byte_order(a.drop_first(), b.drop_first());
        if a.drop_first() == b.drop_first() {
            assert(a =~= seq![a[0]] + a.drop_first());
            assert(b =~= seq![b[0]] + b.drop_first());
        }
    }
    if a.len() == 0 && b.len() == 0 {
        assert(a =~= b);
    }
}

/// The path of the packet is empty or valid.
pub open spec fn path_ok(p: NetPktParts) -> bool {
    path_of(p.spec_parts()).len() == 0 || spec_icheck(path_of(p.spec_parts())) is Ok
}

/// The bytes of `s` from index `i` on.
pub open spec fn rest(s: Seq<u8>, i: usize) -> Seq<u8> {
    s.skip(i as int)
}

/// The lexicographic order of two byte strings.
pub fn order_bytes(a: &[u8], b: &[u8]) -> (r: Ordering)
    ensures
        r == byte_order(a@, b@),
{
    let mut i: usize = 0;
    assert(rest(a@, i) =~= a@);
    assert(rest(b@, i) =~= b@);
    while i < a.len() && i < b.len()
        invariant
            i <= a.len(),
            i <= b.len(),
            byte_order(a@, b@) == byte_order(rest(a@, i), rest(b@, i)),
        decreases a.len() - i,
    {
        let x = a[i];
        let y = b[i];
        if x < y {
            return Ordering::Less;
        } else if x > y {
            return Ordering::Greater;
        }
        assert(rest(a@, i).drop_first() =~= a@.skip(i + 1));
        assert(rest(b@, i).drop_first() =~= b@.skip(i + 1));
        i = i + 1;
    }
    if i < b.len() {
        Ordering::Less
    } else if i < a.len() {
        Ordering::Greater
    } else {
        Ordering::Equal
    }
}

/// A packet compared with others by its hash, and ordered by its tree entry.
#[derive(Clone, Copy, Debug)]
pub struct PktCmp<'a>(pub NetPktParts<'a>);

impl<'a> PartialEq for PktCmp<'a> {
    fn eq(&self, other: &Self) -> (r: bool) {
        let a = self.0.hash_ref();
        let b = other.0.hash_ref();
        bytes_eq(a.as_slice(), b.as_slice())
    }
}

impl<'a> vstd::std_specs::cmp::PartialEqSpecImpl for PktCmp<'a> {
    open spec fn obeys_eq_spec() -> bool {
        true
    }

    open spec fn eq_spec(&self, other: &Self) -> bool {
        self.0.spec_hash() == other.0.spec_hash()
    }
}

/// Packets ordered as the tree index orders them: the order seen from the
/// other side is reversed, and packets that it finds equal have the same hash,
/// so that the order agrees with equality.
pub proof fn law_pkt_order(a: NetPktParts, b: NetPktParts)
    ensures
        pkt_order(b, a) == flip(pkt_order(a, b)),
        pkt_order(a, b) == Ordering::Equal ==> a.spec_hash() == b.spec_hash(),
{
    let zero = Seq::new(8, |i: int| 0u8);
    lemma_byte_order(pkt_key(a), pkt_key(b));
    lemma_byte_order(pkt_value(zero, a), pkt_value(zero, b));
    lemma_byte_order(a.spec_hash(), b.spec_hash());
    if spec_lph(a.spec_parts()) is Some && spec_lph(b.spec_parts()) is Some && pkt_order(a, b)
        == Ordering::Equal {
        a.lemma_hash_len();
        b.lemma_hash_len();
        assert(pkt_value(zero, a).subrange(8, 40) =~= a.spec_hash());
        assert(pkt_value(zero, b).subrange(8, 40) =~= b.spec_hash());
    }
}

/// The byte order is lexicographic: two strings that agree on their first `i`
/// bytes are ordered by byte `i`, and a string that ends there comes first
/// (or is equal when both end).
pub proof fn law_byte_order_first_difference(a: Seq<u8>, b: Seq<u8>, i: int)
    requires
        0 <= i <= a.len(),
        i <= b.len(),
        a.take(i) == b.take(i),
    ensures
        i < a.len() && i < b.len() && a[i] < b[i] ==> byte_order(a, b) == Ordering::Less,
        i < a.len() && i < b.len() && a[i] > b[i] ==> byte_order(a, b) == Ordering::Greater,
        i == a.len() && i < b.len() ==> byte_order(a, b) == Ordering::Less,
        i < a.len() && i == b.len() ==> byte_order(a, b) == Ordering::Greater,
        i == a.len() && i == b.len() ==> byte_order(a, b) == Ordering::Equal,
    decreases i,
{
    if i > 0 {
        assert(a[0] == a.take(i)[0] && b[0] == b.take(i)[0]);
        assert(a.drop_first().take(i - 1) =~= a.take(i).drop_first());
        assert(b.drop_first().take(i - 1) =~= b.take(i).drop_first());
        law_byte_order_first_difference(a.drop_first(), b.drop_first(), i - 1);
    }
}

/// Two packets with tree entries whose tree keys differ are ordered by their
/// whole keys (group, domain, path length, path, public key): never equal,
/// and as the byte order of the keys says. Equal keys leave the order to the
/// tree values.
pub proof fn law_pkt_order_by_key(a: NetPktParts, b: NetPktParts)
    requires
        spec_lph(a.spec_parts()) is Some,
        spec_lph(b.spec_parts()) is Some,
    ensures
        pkt_key(a) != pkt_key(b) ==> pkt_order(a, b) == byte_order(pkt_key(a), pkt_key(b)),
        pkt_key(a) != pkt_key(b) ==> pkt_order(a, b) != Ordering::Equal,
        pkt_key(a) == pkt_key(b) ==> pkt_order(a, b) == byte_order(
            pkt_value(Seq::new(8, |i: int| 0u8), a),
            pkt_value(Seq::new(8, |i: int| 0u8), b),
        ),
{
    lemma_byte_order(pkt_key(a), pkt_key(b));
}

impl<'a> Eq for PktCmp<'a> {
}

impl<'a> PktCmp<'a> {
    /// The order of the two packets as the tree index orders them.
    pub fn cmp(&self, other: &Self) -> (r: Ordering)
        requires
            path_ok(self.0),
            path_ok(other.0),
        ensures
            r == pkt_order(self.0, other.0),
    {
        let zero = [0u8; 8];
        let this = TreeEntry::from_pkt(zero, &self.0);
        let that = TreeEntry::from_pkt(zero, &other.0);
        proof {
            assert(zero@ =~= Seq::new(8, |i: int| 0u8));
        }
        match (this, that) {
            (Some(x), Some(y)) => {
                let k = order_bytes(x.btree_key.as_bytes(), y.btree_key.as_bytes());
                match k {
                    Ordering::Equal => order_bytes(x.val.as_slice(), y.val.as_slice()),
                    _ => k,
                }
            },
            (Some(_), None) => Ordering::Less,
            (None, Some(_)) => Ordering::Greater,
            (None, None) => {
                let a = self.0.hash_ref();
                let b = other.0.hash_ref();
                order_bytes(a.as_slice(), b.as_slice())
            },
        }
    }
}

} // verus!

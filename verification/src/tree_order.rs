//! The key by which packets are ordered in the tree index: group, domain,
//! space depth, space bytes and public key, concatenated.
use crate::codec::{array_of, copy_bytes, extend_bytes};
use crate::field_ids::{field_bytes, links_of, path_of, FieldEnum};
use crate::header::header_bytes_of;
use crate::ipath::{ilen, ispath, spec_icheck, IPath};
use crate::netpkt_parts::NetPktParts;
use crate::point::be16_bytes;
use crate::point_parts::{spec_data, spec_lph, spec_signed};
use crate::space::{valid_space, Space};
use crate::store::ByteStore;
use vstd::prelude::*;

verus! {

/// The bytes of the fixed head of a key: group, domain and space depth.
pub const KEY_HEAD_SIZE: usize = 49;

/// The bytes of the public key at the end of a key.
pub const KEY_PUBKEY_SIZE: usize = 32;

/// The space bytes of a key: between the fixed head and the public key.
pub open spec fn key_space(k: Seq<u8>) -> Seq<u8> {
    k.subrange(KEY_HEAD_SIZE as int, k.len() - KEY_PUBKEY_SIZE)
}

/// A key long enough for its head and public key.
pub open spec fn key_sized(k: Seq<u8>) -> bool {
    k.len() >= KEY_HEAD_SIZE + KEY_PUBKEY_SIZE
}

/// The concatenated key of the given fields.
pub open spec fn key_of(group: Seq<u8>, domain: Seq<u8>, depth: u8, space: Seq<u8>, key: Seq<u8>) -> Seq<u8> {
    group + domain + seq![depth] + space + key
}

/// The fixed head of a tree key.
#[derive(Copy, Clone, Debug, PartialEq, Eq)]
pub struct KeyFixedHead {
    /// The group.
    pub group: [u8; 32],
    /// The domain.
    pub domain: [u8; 16],
    /// The number of space components.
    pub sp_len: u8,
}

/// A tree index key, held in a vector or borrowed.
#[derive(Clone, Copy, Eq, PartialEq, PartialOrd, Ord, Debug)]
pub struct TreeKey<B = Vec<u8>>(pub(crate) B);

impl<B: ByteStore> View for TreeKey<B> {
    type V = Seq<u8>;

    closed spec fn view(&self) -> Seq<u8> {
        self.0.store_view()
    }
}

impl TreeKey {
    /// The key of a packet's fields; a missing public key is all zeros.
    pub fn from_fields(
        group: [u8; 32],
        domain: [u8; 16],
        sp_segm: u8,
        sp: Space<'_>,
        key: Option<&[u8; 32]>,
    ) -> (r: TreeKey<Vec<u8>>)
        ensures
            r@ == key_of(
                group@,
                domain@,
                sp_segm,
                sp@,
                match key {
                    Some(k) => k@,
                    None => Seq::new(32, |i: int| 0u8),
                },
            ),
    {
        let mut btree_key: Vec<u8> = Vec::new();
        extend_bytes(&mut btree_key, group.as_slice());
        extend_bytes(&mut btree_key, domain.as_slice());
        btree_key.push(sp_segm);
        extend_bytes(&mut btree_key, sp.space_bytes());
        let zero = [0u8; 32];
        let k: &[u8; 32] = match key {
            Some(k) => k,
            None => &zero,
        };
        proof {
            if key is None {
                assert(k@ =~= Seq::new(32, |i: int| 0u8));
            }
        }
        extend_bytes(&mut btree_key, k.as_slice());
        let r = TreeKey(btree_key);
        assert(r@ =~= key_of(
            group@,
            domain@,
            sp_segm,
            sp@,
            match key {
                Some(k) => k@,
                None => Seq::new(32, |i: int| 0u8),
            },
        ));
        r
    }

    /// A key holding a copy of the bytes, when they are more than the fixed
    /// head.
    pub fn from(b: &[u8]) -> (r: Option<TreeKey>)
        ensures
            b.len() < KEY_HEAD_SIZE + 1 <==> r is None,
            r is Some ==> r.unwrap()@ == b@,
    {
        if b.len() < KEY_HEAD_SIZE + 1 {
            None
        } else {
            Some(TreeKey(copy_bytes(b)))
        }
    }
}

impl<B: ByteStore> TreeKey<B> {
    /// The key of the bytes, whose space must be valid.
    pub fn new(b: B) -> (r: TreeKey<B>)
        requires
            key_sized(b.store_view()),
            valid_space(key_space(b.store_view())),
        ensures
            r@ == b.store_view(),
    {
        TreeKey(b)
    }

    /// The key bytes without the public key, and the public key.
    pub fn pop_key(&self) -> (r: (&[u8], [u8; 32]))
        requires
            self@.len() >= KEY_PUBKEY_SIZE,
        ensures
            r.0@ == self@.take(self@.len() - KEY_PUBKEY_SIZE),
            r.1@ == self@.skip(self@.len() - KEY_PUBKEY_SIZE),
    {
        let b = self.0.store_bytes();
        let n = b.len() - KEY_PUBKEY_SIZE;
        let pre = &b[0..n];
        let key = array_of::<32>(&b[n..b.len()]);
        (pre, key)
    }

    /// The space and the public key.
    pub fn space_and_key(&self) -> (r: (Space<'_>, [u8; 32]))
        requires
            key_sized(self@),
        ensures
            r.0@ == key_space(self@),
            r.1@ == self@.skip(self@.len() - KEY_PUBKEY_SIZE),
    {
        let (bytes, key) = self.pop_key();
        let space = Space::from_unchecked(&bytes[KEY_HEAD_SIZE..bytes.len()]);
        (space, key)
    }

    /// The group, the domain and the space depth.
    pub fn fixed_head(&self) -> (r: KeyFixedHead)
        requires
            self@.len() >= KEY_HEAD_SIZE,
        ensures
            r.group@ == self@.subrange(0, 32),
            r.domain@ == self@.subrange(32, 48),
            r.sp_len == self@[48],
    {
        let b = self.0.store_bytes();
        KeyFixedHead { group: array_of::<32>(&b[0..32]), domain: array_of::<16>(&b[32..48]), sp_len: b[48] }
    }

    /// The public key.
    pub fn pubkey(&self) -> (r: [u8; 32])
        requires
            self@.len() >= KEY_PUBKEY_SIZE,
        ensures
            r@ == self@.skip(self@.len() - KEY_PUBKEY_SIZE),
    {
        self.pop_key().1
    }

    /// The space.
    pub fn space(&self) -> (r: Space<'_>)
        requires
            key_sized(self@),
        ensures
            r@ == key_space(self@),
    {
        self.space_and_key().0
    }

    /// A borrowed key.
    pub fn as_ref(&self) -> (r: TreeKey<&[u8]>)
        ensures
            r@ == self@,
    {
        TreeKey(self.0.store_bytes())
    }

    /// The bytes the key is held in.
    pub fn take(self) -> (r: B)
        ensures
            r.store_view() == self@,
    {
        self.0
    }

    /// All fields of the key.
    pub fn fields(&self) -> (r: ([u8; 32], [u8; 16], u8, Space<'_>, [u8; 32]))
        requires
            key_sized(self@),
        ensures
            r.0@ == self@.subrange(0, 32),
            r.1@ == self@.subrange(32, 48),
            r.2 == self@[48],
            r.3@ == key_space(self@),
            r.4@ == self@.skip(self@.len() - KEY_PUBKEY_SIZE),
    {
        (self.group(), self.domain(), self.space_segments(), self.space(), self.pubkey())
    }

    /// The domain.
    pub fn domain(&self) -> (r: [u8; 16])
        requires
            self@.len() >= KEY_HEAD_SIZE,
        ensures
            r@ == self@.subrange(32, 48),
    {
        self.fixed_head().domain
    }

    /// The group.
    pub fn group(&self) -> (r: [u8; 32])
        requires
            self@.len() >= KEY_HEAD_SIZE,
        ensures
            r@ == self@.subrange(0, 32),
    {
        self.fixed_head().group
    }

    /// The number of space components that the key records.
    pub fn space_segments(&self) -> (r: u8)
        requires
            self@.len() >= KEY_HEAD_SIZE,
        ensures
            r == self@[48],
    {
        self.fixed_head().sp_len
    }

    /// The key bytes.
    pub fn as_bytes(&self) -> (r: &[u8])
        ensures
            r@ == self@,
    {
        self.0.store_bytes()
    }
}

/// The number of bytes of a tree value.
pub const TREE_VALUE_SIZE: usize = 52;

/// The value stored with a packet's key in the tree index: create stamp,
/// hash, log position, number of links and data size.
#[derive(Debug, Clone, Copy, PartialEq, Eq)]
pub struct TreeValue {
    create: [u8; 8],
    hash: [u8; 32],
    logptr: [u8; 8],
    links_len: u16,
    data_size: u16,
}

/// The bytes of a tree value, in field order, sizes in big endian.
pub open spec fn tree_value_bytes(create: Seq<u8>, hash: Seq<u8>, logptr: Seq<u8>, links_len: u16, data_size: u16) -> Seq<u8> {
    create + hash + logptr + be16_bytes(links_len) + be16_bytes(data_size)
}

/// The create stamp of a point (zero for points without one).
pub open spec fn create_of(pkt: NetPktParts) -> Seq<u8> {
    match spec_lph(pkt.spec_parts()) {
        Some(h) => h.create_stamp@,
        None => Seq::new(8, |i: int| 0u8),
    }
}

impl TreeValue {
    /// The fields of a tree value as its bytes.
    pub closed spec fn spec_bytes(self) -> Seq<u8> {
        tree_value_bytes(self.create@, self.hash@, self.logptr@, self.links_len, self.data_size)
    }

    /// The value of a packet, stored at log position `logptr`.
    pub fn from_pkt(logptr: [u8; 8], pkt: &NetPktParts<'_>) -> (r: TreeValue)
        ensures
            r.spec_bytes() == tree_value_bytes(
                create_of(*pkt),
                pkt.spec_hash(),
                logptr@,
                (links_of(pkt.spec_parts()).len() / 48) as u16,
                spec_data(pkt.spec_parts()).len() as u16,
            ),
    {
        let p = pkt.as_point();
        let create = match p.linkpoint_header() {
            Some(h) => h.create_stamp,
            None => {
                let z = [0u8; 8];
                assert(z@ =~= Seq::new(8, |i: int| 0u8));
                z
            },
        };
        let links: &[u8] = match p.tail() {
            Some(t) => t.links,
            None => &[],
        };
        proof {
            assert(links@ == links_of(p));
        }
        TreeValue {
            create,
            hash: *pkt.hash_ref(),
            logptr,
            links_len: (links.len() / 48) as u16,
            data_size: p.data().len() as u16,
        }
    }

    /// The bytes of the value.
    pub fn into_bytes(self) -> (r: [u8; TREE_VALUE_SIZE])
        ensures
            r@ == self.spec_bytes(),
    {
        let mut v: Vec<u8> = Vec::new();
        extend_bytes(&mut v, self.create.as_slice());
        extend_bytes(&mut v, self.hash.as_slice());
        extend_bytes(&mut v, self.logptr.as_slice());
        v.push((self.links_len / 256) as u8);
        v.push((self.links_len % 256) as u8);
        v.push((self.data_size / 256) as u8);
        v.push((self.data_size % 256) as u8);
        assert(v@ =~= self.spec_bytes());
        array_of::<TREE_VALUE_SIZE>(v.as_slice())
    }

    /// The value that 52 bytes hold.
    pub fn from_bytes(b: &[u8]) -> (r: TreeValue)
        requires
            b.len() == TREE_VALUE_SIZE,
        ensures
            r.spec_bytes() == b@,
    {
        let r = TreeValue {
            create: array_of::<8>(&b[0..8]),
            hash: array_of::<32>(&b[8..40]),
            logptr: array_of::<8>(&b[40..48]),
            links_len: b[48] as u16 * 256 + b[49] as u16,
            data_size: b[50] as u16 * 256 + b[51] as u16,
        };
        proof {
            let l = r.links_len;
            let d = r.data_size;
            assert((l / 256) as u8 == b@[48] && (l % 256) as u8 == b@[49]);
            assert((d / 256) as u8 == b@[50] && (d % 256) as u8 == b@[51]);
            assert(r.spec_bytes() =~= b@);
        }
        r
    }

    /// The create stamp.
    pub fn create(&self) -> (r: [u8; 8])
        ensures
            r@ == self.spec_bytes().subrange(0, 8),
    {
        assert(self.spec_bytes().subrange(0, 8) =~= self.create@);
        self.create
    }

    /// The hash.
    pub fn hash(&self) -> (r: [u8; 32])
        ensures
            r@ == self.spec_bytes().subrange(8, 40),
    {
        assert(self.spec_bytes().subrange(8, 40) =~= self.hash@);
        self.hash
    }

    /// The log position.
    pub fn logptr(&self) -> (r: [u8; 8])
        ensures
            r@ == self.spec_bytes().subrange(40, 48),
    {
        assert(self.spec_bytes().subrange(40, 48) =~= self.logptr@);
        self.logptr
    }

    /// The number of links.
    pub fn links_len(&self) -> (r: u16)
        ensures
            be16_bytes(r) == self.spec_bytes().subrange(48, 50),
    {
        assert(self.spec_bytes().subrange(48, 50) =~= be16_bytes(self.links_len));
        self.links_len
    }

    /// The data size.
    pub fn data_size(&self) -> (r: u16)
        ensures
            be16_bytes(r) == self.spec_bytes().subrange(50, 52),
    {
        assert(self.spec_bytes().subrange(50, 52) =~= be16_bytes(self.data_size));
        self.data_size
    }
}

/// The tree key of a link or key packet: group, domain, path length, the
/// path's space bytes and the signer's key (zeros when unsigned).
pub open spec fn pkt_key(pkt: NetPktParts) -> Seq<u8> {
    let h = spec_lph(pkt.spec_parts()).unwrap();
    let key = match spec_signed(pkt.spec_parts()) {
        Some(s) => s.pubkey@,
        None => Seq::new(32, |i: int| 0u8),
    };
    key_of(h.group@, h.domain@, ilen(path_of(pkt.spec_parts())) as u8, ispath(path_of(pkt.spec_parts())), key)
}

/// The tree value bytes of a packet stored at log position `rstamp`.
pub open spec fn pkt_value(rstamp: Seq<u8>, pkt: NetPktParts) -> Seq<u8> {
    tree_value_bytes(
        create_of(pkt),
        pkt.spec_hash(),
        rstamp,
        (links_of(pkt.spec_parts()).len() / 48) as u16,
        spec_data(pkt.spec_parts()).len() as u16,
    )
}

/// A tree index entry: the key of a packet and its value bytes.
#[derive(Clone, Copy, Debug, PartialEq, PartialOrd)]
pub struct TreeEntry<K = Vec<u8>, V = [u8; TREE_VALUE_SIZE]> {
    /// The key.
    pub btree_key: TreeKey<K>,
    /// The value bytes.
    pub val: V,
}

impl TreeEntry {
    /// The entry of a link or key packet, stored at log position `rstamp`;
    /// `None` for other packets.
    pub fn from_pkt(rstamp: [u8; 8], pkt: &NetPktParts<'_>) -> (r: Option<TreeEntry>)
        requires
            path_of(pkt.spec_parts()).len() == 0 || spec_icheck(path_of(pkt.spec_parts())) is Ok,
        ensures
            r is Some <==> spec_lph(pkt.spec_parts()) is Some,
            r is Some ==> {
                &&& r.unwrap().btree_key@ == pkt_key(*pkt)
                &&& r.unwrap().val@ == pkt_value(rstamp@, *pkt)
            },
    {
        let p = pkt.as_point();
        match p.fields.common_idx() {
            None => None,
            Some((head, ipath, key)) => {
                proof {
                    assert(ipath@ == path_of(p));
                }
                let sp = Space::from_unchecked(ipath.spath().spath_bytes());
                let btree_key = match key {
                    Some(k) => TreeKey::from_fields(head.group, head.domain, ipath.path_len(), sp, Some(&k)),
                    None => TreeKey::from_fields(head.group, head.domain, ipath.path_len(), sp, None),
                };
                let val = TreeValue::from_pkt(rstamp, pkt).into_bytes();
                Some(TreeEntry { btree_key, val })
            },
        }
    }
}

impl<K: ByteStore, V: ByteStore> TreeEntry<K, V> {
    /// The key, borrowed.
    pub fn btree_key(&self) -> (r: TreeKey<&[u8]>)
        ensures
            r@ == self.btree_key@,
    {
        self.btree_key.as_ref()
    }

    /// The value.
    pub fn val(&self) -> (r: TreeValue)
        requires
            self.val.store_view().len() == TREE_VALUE_SIZE,
        ensures
            r.spec_bytes() == self.val.store_view(),
    {
        TreeValue::from_bytes(self.val.store_bytes())
    }

    /// The log position.
    pub fn local_log_ptr(&self) -> (r: [u8; 8])
        requires
            self.val.store_view().len() == TREE_VALUE_SIZE,
        ensures
            r@ == self.val.store_view().subrange(40, 48),
    {
        self.val().logptr()
    }

    /// The hash.
    pub fn hash(&self) -> (r: [u8; 32])
        requires
            self.val.store_view().len() == TREE_VALUE_SIZE,
        ensures
            r@ == self.val.store_view().subrange(8, 40),
    {
        self.val().hash()
    }

    /// The create stamp.
    pub fn create(&self) -> (r: [u8; 8])
        requires
            self.val.store_view().len() == TREE_VALUE_SIZE,
        ensures
            r@ == self.val.store_view().subrange(0, 8),
    {
        self.val().create()
    }

    /// The data size.
    pub fn data_size(&self) -> (r: u16)
        requires
            self.val.store_view().len() == TREE_VALUE_SIZE,
        ensures
            be16_bytes(r) == self.val.store_view().subrange(50, 52),
    {
        self.val().data_size()
    }

    /// The number of links.
    pub fn links_len(&self) -> (r: u16)
        requires
            self.val.store_view().len() == TREE_VALUE_SIZE,
        ensures
            be16_bytes(r) == self.val.store_view().subrange(48, 50),
    {
        self.val().links_len()
    }
}

impl<'a> TreeEntry<&'a [u8], &'a [u8]> {
    /// An entry of key and value bytes, as a database holds them.
    pub fn from_db(kv: (&'a [u8], &'a [u8])) -> (r: TreeEntry<&'a [u8], &'a [u8]>)
        ensures
            r.btree_key@ == kv.0@,
            r.val@ == kv.1@,
    {
        TreeEntry { btree_key: TreeKey(kv.0), val: kv.1 }
    }

    /// An owned copy.
    pub fn to_owned(&self) -> (r: TreeEntry)
        requires
            self.val@.len() == TREE_VALUE_SIZE,
        ensures
            r.btree_key@ == self.btree_key@,
            r.val@ == self.val@,
    {
        TreeEntry {
            btree_key: TreeKey(copy_bytes(self.btree_key.0)),
            val: array_of::<TREE_VALUE_SIZE>(self.val),
        }
    }
}

/// The fields of a key read back what made it: group, domain, depth, space
/// and public key.
pub proof fn law_tree_key_fields(group: Seq<u8>, domain: Seq<u8>, depth: u8, space: Seq<u8>, key: Seq<u8>)
    requires
        group.len() == 32,
        domain.len() == 16,
        key.len() == 32,
    ensures
        ({
            let k = key_of(group, domain, depth, space, key);
            &&& key_sized(k)
            &&& k.subrange(0, 32) == group
            &&& k.subrange(32, 48) == domain
            &&& k[48] == depth
            &&& key_space(k) == space
            &&& k.skip(k.len() - KEY_PUBKEY_SIZE) == key
        }),
{
    let k = key_of(group, domain, depth, space, key);
    assert(k.subrange(0, 32) =~= group);
    assert(k.subrange(32, 48) =~= domain);
    assert(key_space(k) =~= space);
    assert(k.skip(k.len() - KEY_PUBKEY_SIZE) =~= key);
}

/// The tree key of a link or key point is made of the packet's fields: its
/// group, domain, path length, path and the signer's public key, as the field
/// ids read them; so a key point is keyed by the public key of its signature
/// block, and an unsigned link point by zeros.
pub proof fn law_pkt_key_fields(pkt: NetPktParts)
    requires
        spec_lph(pkt.spec_parts()) is Some,
    ensures
        ({
            let k = pkt_key(pkt);
            let p = pkt.spec_parts();
            let nh = header_bytes_of(pkt.spec_net_header());
            let h = pkt.spec_hash();
            &&& key_sized(k)
            &&& k.subrange(0, 32) == field_bytes(FieldEnum::GroupIDF, nh, h, p)
            &&& k.subrange(32, 48) == field_bytes(FieldEnum::DomainF, nh, h, p)
            &&& seq![k[48]] == field_bytes(FieldEnum::PathLenF, nh, h, p)
            &&& key_space(k) == field_bytes(FieldEnum::PathF, nh, h, p)
            &&& k.skip(k.len() - KEY_PUBKEY_SIZE) == field_bytes(FieldEnum::PubKeyF, nh, h, p)
            &&& (spec_signed(p) matches Some(s) ==> k.skip(k.len() - KEY_PUBKEY_SIZE) == s.pubkey@)
            &&& (spec_signed(p) is None ==> k.skip(k.len() - KEY_PUBKEY_SIZE) == Seq::new(
                32,
                |i: int| 0u8,
            ))
        }),
{
    let p = pkt.spec_parts();
    let hd = spec_lph(p).unwrap();
    let key = match spec_signed(p) {
        Some(s) => s.pubkey@,
        None => Seq::new(32, |i: int| 0u8),
    };
    law_tree_key_fields(hd.group@, hd.domain@, ilen(path_of(p)) as u8, ispath(path_of(p)), key);
    assert(crate::field_ids::zeros(32) =~= Seq::new(32, |i: int| 0u8));
}

} // verus!

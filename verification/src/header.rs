//! The 32 byte net header that travels in front of a point:
//! `[prefix (3), flags (1), hop (big endian u32), stamp (8), ubits (4 x 4)]`.
use vstd::prelude::*;

verus! {

/// The big endian value of four bytes.
pub open spec fn be32(b: [u8; 4]) -> int {
    b[0] as int * 16777216 + b[1] as int * 65536 + b[2] as int * 256 + b[3] as int
}

/// The big endian value of four bytes.
pub fn be32_get(b: [u8; 4]) -> (r: u32)
    ensures
        r == be32(b),
{
    (b[0] as u32) * 16777216u32 + (b[1] as u32) * 65536u32 + (b[2] as u32) * 256u32 + (b[3] as u32)
}

/// The big endian bytes of a value.
pub fn be32_bytes(v: u32) -> (r: [u8; 4])
    ensures
        be32(r) == v,
{
    let b0: u32 = v / 16777216u32;
    let b1: u32 = (v / 65536u32) % 256u32;
    let b2: u32 = (v / 256u32) % 256u32;
    let b3: u32 = v % 256u32;
    assert(b0 * 16777216 + b1 * 65536 + b2 * 256 + b3 == v) by (nonlinear_arith)
        requires
            b0 == v / 16777216,
            b1 == (v / 65536) % 256,
            b2 == (v / 256) % 256,
            b3 == v % 256,
    ;
    [b0 as u8, b1 as u8, b2 as u8, b3 as u8]
}

/// Flags of a packet in transit.
#[derive(Copy, Clone, Debug, PartialEq, Eq, Structural)]
pub struct NetFlags {
    bits: u8,
}

impl NetFlags {
    /// The chances of anybody being interested in this packet are zero.
    #[allow(non_snake_case)]
    pub fn SILENT() -> (r: NetFlags)
        ensures
            r.spec_bits() == 1,
    {
        NetFlags { bits: 1u8 }
    }

    /// A later packet links to this one.
    #[allow(non_snake_case)]
    pub fn LINKED_IN_FUTURE_PKT() -> (r: NetFlags)
        ensures
            r.spec_bits() == 2,
    {
        NetFlags { bits: 2u8 }
    }

    /// An earlier packet links to this one.
    #[allow(non_snake_case)]
    pub fn LINKED_IN_PREVIOUS_PKT() -> (r: NetFlags)
        ensures
            r.spec_bits() == 4,
    {
        NetFlags { bits: 4u8 }
    }

    /// A request that this packet is not forwarded.
    #[allow(non_snake_case)]
    pub fn DONT_FORWARD() -> (r: NetFlags)
        ensures
            r.spec_bits() == 8,
    {
        NetFlags { bits: 8u8 }
    }

    /// A flag that is cleared on every hop.
    #[allow(non_snake_case)]
    pub fn ALWAYS_ZERO() -> (r: NetFlags)
        ensures
            r.spec_bits() == 128,
    {
        NetFlags { bits: 128u8 }
    }

    /// No flag set.
    pub fn empty() -> (r: NetFlags)
        ensures
            r.spec_bits() == 0,
    {
        NetFlags { bits: 0u8 }
    }

    /// The flag bits.
    pub closed spec fn spec_bits(self) -> u8 {
        self.bits
    }

    /// The flag bits.
    pub fn bits(self) -> (r: u8)
        ensures
            r == self.spec_bits(),
    {
        self.bits
    }

    /// The flags of the given bits, when no undefined bit is set.
    pub fn from_bits(b: u8) -> (r: Option<NetFlags>)
        ensures
            b & 0x70u8 == 0 ==> r is Some && r.unwrap().spec_bits() == b,
            b & 0x70u8 != 0 ==> r is None,
    {
        if b & 0x70u8 == 0 {
            Some(NetFlags { bits: b })
        } else {
            None
        }
    }

    /// The flags of the given bits, undefined bits included.
    pub fn from_bits_retain(b: u8) -> (r: NetFlags)
        ensures
            r.spec_bits() == b,
    {
        NetFlags { bits: b }
    }

    /// All flags of `other` are set.
    pub fn contains(self, other: NetFlags) -> (r: bool)
        ensures
            r == (self.spec_bits() & other.spec_bits() == other.spec_bits()),
    {
        self.bits & other.bits == other.bits
    }

    /// Sets the flags of `other`.
    pub fn insert(&mut self, other: NetFlags)
        ensures
            final(self).spec_bits() == old(self).spec_bits() | other.spec_bits(),
    {
        self.bits = self.bits | other.bits;
    }

    /// Clears the flags of `other`.
    pub fn remove(&mut self, other: NetFlags)
        ensures
            final(self).spec_bits() == old(self).spec_bits() & !other.spec_bits(),
    {
        self.bits = self.bits & !other.bits;
    }
}

/// Flags are their bits.
pub proof fn lemma_net_flags_bits(a: NetFlags, b: NetFlags)
    ensures
        a.spec_bits() == b.spec_bits() ==> a == b,
{
}

/// The variable fields of a packet used while it is exchanged.
#[derive(Copy, Clone, Debug, PartialEq, Eq)]
pub struct NetPktHeader {
    /// The magic prefix, `LK1`.
    pub prefix: [u8; 3],
    /// The flags.
    pub flags: NetFlags,
    /// The hop count, a big endian u32.
    pub hop: [u8; 4],
    /// A stamp, a big endian u64.
    pub stamp: [u8; 8],
    /// User bits, four big endian u32.
    pub ubits: [[u8; 4]; 4],
}

/// The 32 bytes of a header.
pub open spec fn header_bytes_of(h: NetPktHeader) -> Seq<u8> {
    h.prefix@ + seq![h.flags.spec_bits()] + h.hop@ + h.stamp@ + h.ubits[0]@ + h.ubits[1]@
        + h.ubits[2]@ + h.ubits[3]@
}

/// The bytes of an empty net header: prefix "LK1", no flags, no hops, the
/// largest stamp and no user bits.
pub open spec fn empty_net_header() -> Seq<u8> {
    seq![76u8, 75u8, 49u8, 0u8, 0u8, 0u8, 0u8, 0u8] + Seq::new(8, |i: int| 255u8) + Seq::new(
        16,
        |i: int| 0u8,
    )
}

/// The prefix is `LK1`, and flags, hop count and user bits are zero.
pub open spec fn is_empty_header(h: NetPktHeader) -> bool {
    &&& h.prefix@ == seq![76u8, 75u8, 49u8]
    &&& h.flags.spec_bits() == 0
    &&& be32(h.hop) == 0
    &&& forall|i: int| 0 <= i < 4 ==> be32(#[trigger] h.ubits[i]) == 0
}

impl NetPktHeader {
    /// The header of a new packet: prefix `LK1`, no flags, hop 0,
    /// the largest stamp and no user bits.
    #[allow(non_snake_case)]
    pub fn EMPTY() -> (r: NetPktHeader)
        ensures
            is_empty_header(r),
            r.stamp@ == Seq::new(8, |i: int| 255u8),
            header_bytes_of(r) == empty_net_header(),
    {
        let r = NetPktHeader {
            prefix: [76u8, 75u8, 49u8],
            flags: NetFlags::empty(),
            hop: [0u8; 4],
            stamp: [255u8; 8],
            ubits: [[0u8; 4]; 4],
        };
        assert(r.stamp@ =~= Seq::new(8, |i: int| 255u8));
        assert(header_bytes_of(r) =~= empty_net_header());
        r
    }

    /// The 32 bytes of the header.
    pub fn as_bytes(&self) -> (r: [u8; 32])
        ensures
            r@ == header_bytes_of(*self),
    {
        self.cinto()
    }

    /// The header that 32 bytes hold.
    pub fn cfrom(b: [u8; 32]) -> (r: NetPktHeader)
        ensures
            header_bytes_of(r) == b@,
    {
        let r = NetPktHeader {
            prefix: [b[0], b[1], b[2]],
            flags: NetFlags::from_bits_retain(b[3]),
            hop: [b[4], b[5], b[6], b[7]],
            stamp: [b[8], b[9], b[10], b[11], b[12], b[13], b[14], b[15]],
            ubits: [
                [b[16], b[17], b[18], b[19]],
                [b[20], b[21], b[22], b[23]],
                [b[24], b[25], b[26], b[27]],
                [b[28], b[29], b[30], b[31]],
            ],
        };
        assert(header_bytes_of(r) =~= b@);
        r
    }

    /// The 32 bytes of the header.
    pub fn cinto(self) -> (r: [u8; 32])
        ensures
            r@ == header_bytes_of(self),
    {
        let p = self.prefix;
        let f = self.flags.bits();
        let h = self.hop;
        let s = self.stamp;
        let u = self.ubits;
        let r = [
            p[0], p[1], p[2], f, h[0], h[1], h[2], h[3],
            s[0], s[1], s[2], s[3], s[4], s[5], s[6], s[7],
            u[0][0], u[0][1], u[0][2], u[0][3], u[1][0], u[1][1], u[1][2], u[1][3],
            u[2][0], u[2][1], u[2][2], u[2][3], u[3][0], u[3][1], u[3][2], u[3][3],
        ];
        assert(r@ =~= header_bytes_of(self));
        r
    }

    /// The header after one more hop: the hop count is one more and the
    /// `ALWAYS_ZERO` flag is cleared.
    pub fn hop(self) -> (r: NetPktHeader)
        requires
            be32(self.hop) < 0xffff_ffff,
        ensures
            be32(r.hop) == be32(self.hop) + 1,
            r.flags.spec_bits() == self.flags.spec_bits() & !128u8,
            r.flags.spec_bits() & 128u8 == 0,
            r.prefix == self.prefix,
            r.stamp == self.stamp,
            r.ubits == self.ubits,
    {
        let mut r = self;
        let n = be32_get(self.hop);
        r.hop = be32_bytes(n + 1);
        r.flags.remove(NetFlags::ALWAYS_ZERO());
        let ghost f = self.flags.spec_bits();
        assert(f & !128u8 & 128u8 == 0) by (bit_vector);
        r
    }

    /// The header with its flags replaced.
    pub fn with_flags(self, flags: NetFlags) -> (r: NetPktHeader)
        ensures
            r == (NetPktHeader { flags, ..self }),
    {
        let mut r = self;
        r.flags = flags;
        r
    }

    /// The header with the flags of `remove` cleared, then those of `insert` set.
    pub fn and_flags(self, remove: NetFlags, insert: NetFlags) -> (r: NetPktHeader)
        ensures
            r.flags.spec_bits() == (self.flags.spec_bits() & !remove.spec_bits())
                | insert.spec_bits(),
            r.prefix == self.prefix,
            r.hop == self.hop,
            r.stamp == self.stamp,
            r.ubits == self.ubits,
    {
        let mut r = self;
        r.flags.remove(remove);
        r.flags.insert(insert);
        r
    }

    /// The flag byte.
    pub fn flags_u8(&self) -> (r: &u8)
        ensures
            *r == self.flags.spec_bits(),
    {
        &self.flags.bits
    }
}

/// How to make the net header of a new packet.
#[derive(Copy, Clone, Debug)]
pub enum NetOpts {
    /// The default header.
    Default,
    /// The default header with these flags.
    Flags(NetFlags),
    /// The empty header with this stamp.
    Stamp([u8; 8]),
    /// This header.
    Advanced(NetPktHeader),
}

/// Two headers with the same bytes are the same header, so reading back the
/// bytes of a header gives the header again.
pub proof fn law_header_bytes_roundtrip(a: NetPktHeader, b: NetPktHeader)
    ensures
        header_bytes_of(a) == header_bytes_of(b) ==> a == b,
        header_bytes_of(a).len() == 32,
{
    if header_bytes_of(a) == header_bytes_of(b) {
        let x = header_bytes_of(a);
        let y = header_bytes_of(b);
        assert(a.prefix =~= b.prefix) by {
            assert forall|i: int| 0 <= i < 3 implies a.prefix[i] == b.prefix[i] by {
                assert(x[i] == y[i]);
            }
        }
        assert(x[3] == y[3]);
        lemma_net_flags_bits(a.flags, b.flags);
        assert(a.hop =~= b.hop) by {
            assert forall|i: int| 0 <= i < 4 implies a.hop[i] == b.hop[i] by {
                assert(x[4 + i] == y[4 + i]);
            }
        }
        assert(a.stamp =~= b.stamp) by {
            assert forall|i: int| 0 <= i < 8 implies a.stamp[i] == b.stamp[i] by {
                assert(x[8 + i] == y[8 + i]);
            }
        }
        assert forall|k: int| 0 <= k < 4 implies a.ubits[k] =~= b.ubits[k] by {
            assert forall|i: int| 0 <= i < 4 implies a.ubits[k][i] == b.ubits[k][i] by {
                assert(x[16 + 4 * k + i] == y[16 + 4 * k + i]);
            }
        }
        assert(a.ubits =~= b.ubits);
    }
}

impl From<NetFlags> for NetOpts {
    fn from(f: NetFlags) -> (r: NetOpts) {
        NetOpts::Flags(f)
    }
}

impl vstd::std_specs::convert::FromSpecImpl<NetFlags> for NetOpts {
    open spec fn obeys_from_spec() -> bool {
        true
    }

    open spec fn from_spec(f: NetFlags) -> NetOpts {
        NetOpts::Flags(f)
    }
}

impl From<NetPktHeader> for NetOpts {
    fn from(h: NetPktHeader) -> (r: NetOpts) {
        NetOpts::Advanced(h)
    }
}

impl vstd::std_specs::convert::FromSpecImpl<NetPktHeader> for NetOpts {
    open spec fn obeys_from_spec() -> bool {
        true
    }

    open spec fn from_spec(h: NetPktHeader) -> NetOpts {
        NetOpts::Advanced(h)
    }
}

impl From<()> for NetOpts {
    fn from(u: ()) -> (r: NetOpts) {
        NetOpts::Default
    }
}

impl vstd::std_specs::convert::FromSpecImpl<()> for NetOpts {
    open spec fn obeys_from_spec() -> bool {
        true
    }

    open spec fn from_spec(u: ()) -> NetOpts {
        NetOpts::Default
    }
}

impl NetOpts {
    /// The header that these options ask for, where `default` is the header
    /// that new packets get by default.
    pub fn header(self, default: NetPktHeader) -> (r: NetPktHeader)
        ensures
            match self {
                NetOpts::Default => r == default,
                NetOpts::Flags(f) => r == (NetPktHeader { flags: f, ..default }),
                NetOpts::Advanced(h) => r == h,
                NetOpts::Stamp(s) => is_empty_header(r) && r.stamp == s,
            },
    {
        match self {
            NetOpts::Default => default,
            NetOpts::Flags(f) => default.with_flags(f),
            NetOpts::Advanced(h) => h,
            NetOpts::Stamp(s) => {
                let mut r = NetPktHeader::EMPTY();
                r.stamp = s;
                r
            },
        }
    }
}

} // verus!

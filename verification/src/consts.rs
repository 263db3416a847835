use vstd::prelude::*;

verus! {

/// Largest number of bytes in the encoding of a space (without index header).
pub const MAX_SPACENAME_SIZE: usize = 242;

/// Largest number of bytes of a rooted space: the space plus its 8 byte index.
pub const MAX_ROOTED_SPACENAME_SIZE: usize = 250;

/// Largest number of bytes in a single space component.
pub const MAX_SPACENAME_COMPONENT_SIZE: usize = 200;

/// Largest number of components that a space can hold.
pub const MAX_SPACE_DEPTH: usize = 8;

/// Largest number of bytes in the encoding of a path (without index header).
pub const MAX_SPATH_SIZE: usize = 242;

/// Largest number of bytes of an indexed path: the path plus its 8 byte index.
pub const MAX_IPATH_SIZE: usize = 250;

/// Largest number of bytes in a single path component.
pub const MAX_SPATH_COMPONENT_SIZE: usize = 200;

/// Largest number of components that a path can hold.
pub const MAX_PATH_LEN: usize = 8;

/// Largest size of a point in bytes (without its hash).
pub const MAX_POINT_SIZE: usize = 65024;

/// Size of the point header in bytes.
pub const POINT_HEADER_SIZE: usize = 4;

/// Size of the link point header in bytes.
pub const LINKPOINT_HEADER_SIZE: usize = 60;

/// Size of a link (tag and pointer) in bytes.
pub const LINK_SIZE: usize = 48;

/// Size of the signature block (public key and signature) in bytes.
pub const SIGNED_SIZE: usize = 96;

/// Size of a hash in bytes.
pub const HASH_SIZE: usize = 32;

/// Size of the net packet header in bytes.
pub const NET_PKT_HEADER_SIZE: usize = 32;

/// Largest content size of a point.
pub const MAX_CONTENT_SIZE: usize = 65020;

/// Largest data size of a data point.
pub const MAX_DATA_SIZE: usize = 65020;

/// Largest data size of a link point.
pub const MAX_LINKPOINT_DATA_SIZE: usize = 64960;

/// Largest data size of a key point.
pub const MAX_KEYPOINT_DATA_SIZE: usize = 64924;

/// Smallest point: a header and a hash.
pub const MIN_POINT_SIZE: usize = 36;

/// Smallest net packet: the net header, hash and point header.
pub const MIN_NETPKT_SIZE: usize = 68;

/// The private group: all zeros.
pub const PRIVATE: [u8; 32] = [
    0u8, 0u8, 0u8, 0u8, 0u8, 0u8, 0u8, 0u8, 0u8, 0u8, 0u8, 0u8, 0u8, 0u8, 0u8, 0u8, 0u8, 0u8, 0u8,
    0u8, 0u8, 0u8, 0u8, 0u8, 0u8, 0u8, 0u8, 0u8, 0u8, 0u8, 0u8, 0u8,
];

/// The public group: the hash of the data point "Hello, Sol!\n".
pub const PUBLIC: [u8; 32] = [
    98u8, 187u8, 59u8, 139u8, 61u8, 213u8, 206u8, 117u8, 225u8, 250u8, 136u8, 47u8, 225u8, 163u8,
    58u8, 217u8, 89u8, 140u8, 55u8, 21u8, 197u8, 137u8, 62u8, 15u8, 219u8, 139u8, 72u8, 125u8,
    92u8, 253u8, 177u8, 57u8,
];

/// Largest number of bytes of a net packet.
pub const MAX_NETPKT_SIZE: usize = 65088;

/// Smallest link point: a point and its link point header.
pub const MIN_LINKPOINT_SIZE: usize = 96;

} // verus!

//! Length delimited spaces and paths, indexed (rooted) variants, and the
//! byte layout of points.
pub mod codec;
pub mod consts;
pub mod space;
pub mod store;
pub mod rooted_space;
pub mod spath;
pub mod ipath;
pub mod byte_segments;
pub mod error;
pub mod point;
pub mod point_ptr;
pub mod field_ids;
pub mod tree_order;
pub mod link;
pub mod stamp;
pub mod array_vec;
pub mod builder;
pub mod partial;
pub mod point_parts;
pub mod netpkt_parts;
pub mod netpkt_ptr;
pub mod header;
pub mod pkt_order;
pub mod reroute;

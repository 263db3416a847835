//! The fields of a packet, by token byte and by name.
use crate::codec::{bytes_eq, extend_bytes};
use crate::ipath::{icomp, ilen, ispath, law_checked_comps, spec_icheck, IPath};
use crate::header::header_bytes_of;
use crate::netpkt_parts::NetPktParts;
use crate::point::be16_bytes;
use crate::point_parts::{spec_data, spec_lph, spec_signed, spec_tail, PointParts};
use crate::point::PointTypeFlags;
use vstd::string::StringSliceAdditionalSpecFns;
use vstd::prelude::*;

verus! {

/// A field, by the kinds of points that have it.
pub trait FieldG {
    /// The flag bits of the point kinds that have the field.
    const PKTS: u8;
}

/// A field with a token byte and a name.
pub trait NamedField where Self: Sized + FieldG {
    /// The token byte.
    const TOKEN: u8;

    /// The name.
    const NAME: &'static str;

    /// The field as a [FieldEnum].
    const ENUM: FieldEnum;

    /// The token, the name and the point kinds of the field.
    fn info() -> (r: FieldInfo)
        ensures
            r.token == Self::TOKEN,
            r.name == Self::NAME,
            r.pkts.spec_bits() == Self::PKTS,
    {
        FieldInfo { token: Self::TOKEN, name: Self::NAME, pkts: PointTypeFlags::from_bits_retain(Self::PKTS) }
    }
}

/// The token, the name and the point kinds of a field.
pub struct FieldInfo {
    /// The token byte.
    pub token: u8,
    /// The name.
    pub name: &'static str,
    /// The point kinds that have the field.
    pub pkts: PointTypeFlags,
}

/// There is no field by that token or name.
#[derive(Debug, Clone, Copy, PartialEq, Eq)]
pub enum FieldEnumErr {
    /// No such field.
    NoSuchField,
}

impl FieldEnumErr {
    /// The message of the error.
    pub fn message(&self) -> (r: &'static str)
        ensures
            r@ == "No Such field"@,
    {
        "No Such field"
    }
}

/// The fields of a packet.
#[derive(Debug, Copy, Clone, Eq, PartialEq, Structural)]
pub enum FieldEnum {
    /// The net flags of the net header.
    VarNetFlagsF,
    /// The hop count of the net header.
    VarHopF,
    /// The stamp of the net header.
    VarStampF,
    /// The first user bits of the net header.
    VarUBits0F,
    /// The second user bits of the net header.
    VarUBits1F,
    /// The third user bits of the net header.
    VarUBits2F,
    /// The fourth user bits of the net header.
    VarUBits3F,
    /// The hash of the point.
    PktHashF,
    /// The point type.
    PktTypeF,
    /// The point size.
    PointSizeF,
    /// The public key of a key point.
    PubKeyF,
    /// The signature of a key point.
    SignatureF,
    /// The group of a link point.
    GroupIDF,
    /// The domain of a link point.
    DomainF,
    /// The create stamp of a link point.
    CreateF,
    /// The number of path components.
    PathLenF,
    /// The number of links.
    LinksLenF,
    /// The data size.
    DataSizeF,
    /// The path of a link point.
    PathF,
    /// Path component 0.
    PathComp0F,
    /// Path component 1.
    PathComp1F,
    /// Path component 2.
    PathComp2F,
    /// Path component 3.
    PathComp3F,
    /// Path component 4.
    PathComp4F,
    /// Path component 5.
    PathComp5F,
    /// Path component 6.
    PathComp6F,
    /// Path component 7.
    PathComp7F,
    /// The data.
    DataF,
}

/// The fields in their canonical order.
pub open spec fn spec_list() -> Seq<FieldEnum> {
    seq![
        FieldEnum::VarNetFlagsF,
        FieldEnum::VarHopF,
        FieldEnum::VarStampF,
        FieldEnum::VarUBits0F,
        FieldEnum::VarUBits1F,
        FieldEnum::VarUBits2F,
        FieldEnum::VarUBits3F,
        FieldEnum::PktHashF,
        FieldEnum::PktTypeF,
        FieldEnum::PointSizeF,
        FieldEnum::PubKeyF,
        FieldEnum::SignatureF,
        FieldEnum::GroupIDF,
        FieldEnum::DomainF,
        FieldEnum::CreateF,
        FieldEnum::PathLenF,
        FieldEnum::LinksLenF,
        FieldEnum::DataSizeF,
        FieldEnum::PathF,
        FieldEnum::PathComp0F,
        FieldEnum::PathComp1F,
        FieldEnum::PathComp2F,
        FieldEnum::PathComp3F,
        FieldEnum::PathComp4F,
        FieldEnum::PathComp5F,
        FieldEnum::PathComp6F,
        FieldEnum::PathComp7F,
        FieldEnum::DataF,
    ]
}

/// The fields of the net header.
pub const VAR_FIELDS: [FieldEnum; 7] = [
    FieldEnum::VarNetFlagsF,
    FieldEnum::VarHopF,
    FieldEnum::VarStampF,
    FieldEnum::VarUBits0F,
    FieldEnum::VarUBits1F,
    FieldEnum::VarUBits2F,
    FieldEnum::VarUBits3F,
];

/// The id is the field's token byte, or its name.
pub open spec fn id_matches(f: FieldEnum, id: Seq<u8>) -> bool {
    id == seq![f.spec_token()] || id == f.spec_name_bytes()
}

/// The field that an id names: the first in canonical order whose token byte,
/// or whose name, is the id.
pub open spec fn spec_from_id(id: Seq<u8>) -> Option<FieldEnum> {
    if id_matches(FieldEnum::VarNetFlagsF, id) {
        Some(FieldEnum::VarNetFlagsF)
    } else if id_matches(FieldEnum::VarHopF, id) {
        Some(FieldEnum::VarHopF)
    } else if id_matches(FieldEnum::VarStampF, id) {
        Some(FieldEnum::VarStampF)
    } else if id_matches(FieldEnum::VarUBits0F, id) {
        Some(FieldEnum::VarUBits0F)
    } else if id_matches(FieldEnum::VarUBits1F, id) {
        Some(FieldEnum::VarUBits1F)
    } else if id_matches(FieldEnum::VarUBits2F, id) {
        Some(FieldEnum::VarUBits2F)
    } else if id_matches(FieldEnum::VarUBits3F, id) {
        Some(FieldEnum::VarUBits3F)
    } else if id_matches(FieldEnum::PktHashF, id) {
        Some(FieldEnum::PktHashF)
    } else if id_matches(FieldEnum::PktTypeF, id) {
        Some(FieldEnum::PktTypeF)
    } else if id_matches(FieldEnum::PointSizeF, id) {
        Some(FieldEnum::PointSizeF)
    } else if id_matches(FieldEnum::PubKeyF, id) {
        Some(FieldEnum::PubKeyF)
    } else if id_matches(FieldEnum::SignatureF, id) {
        Some(FieldEnum::SignatureF)
    } else if id_matches(FieldEnum::GroupIDF, id) {
        Some(FieldEnum::GroupIDF)
    } else if id_matches(FieldEnum::DomainF, id) {
        Some(FieldEnum::DomainF)
    } else if id_matches(FieldEnum::CreateF, id) {
        Some(FieldEnum::CreateF)
    } else if id_matches(FieldEnum::PathLenF, id) {
        Some(FieldEnum::PathLenF)
    } else if id_matches(FieldEnum::LinksLenF, id) {
        Some(FieldEnum::LinksLenF)
    } else if id_matches(FieldEnum::DataSizeF, id) {
        Some(FieldEnum::DataSizeF)
    } else if id_matches(FieldEnum::PathF, id) {
        Some(FieldEnum::PathF)
    } else if id_matches(FieldEnum::PathComp0F, id) {
        Some(FieldEnum::PathComp0F)
    } else if id_matches(FieldEnum::PathComp1F, id) {
        Some(FieldEnum::PathComp1F)
    } else if id_matches(FieldEnum::PathComp2F, id) {
        Some(FieldEnum::PathComp2F)
    } else if id_matches(FieldEnum::PathComp3F, id) {
        Some(FieldEnum::PathComp3F)
    } else if id_matches(FieldEnum::PathComp4F, id) {
        Some(FieldEnum::PathComp4F)
    } else if id_matches(FieldEnum::PathComp5F, id) {
        Some(FieldEnum::PathComp5F)
    } else if id_matches(FieldEnum::PathComp6F, id) {
        Some(FieldEnum::PathComp6F)
    } else if id_matches(FieldEnum::PathComp7F, id) {
        Some(FieldEnum::PathComp7F)
    } else if id_matches(FieldEnum::DataF, id) {
        Some(FieldEnum::DataF)
    } else {
        None
    }
}

impl FieldEnum {
    /// The token byte of the field.
    pub open spec fn spec_token(self) -> u8 {
        match self {
            FieldEnum::VarNetFlagsF => 102u8,
            FieldEnum::VarHopF => 106u8,
            FieldEnum::VarStampF => 115u8,
            FieldEnum::VarUBits0F => 113u8,
            FieldEnum::VarUBits1F => 81u8,
            FieldEnum::VarUBits2F => 119u8,
            FieldEnum::VarUBits3F => 87u8,
            FieldEnum::PktHashF => 104u8,
            FieldEnum::PktTypeF => 121u8,
            FieldEnum::PointSizeF => 111u8,
            FieldEnum::PubKeyF => 107u8,
            FieldEnum::SignatureF => 118u8,
            FieldEnum::GroupIDF => 103u8,
            FieldEnum::DomainF => 100u8,
            FieldEnum::CreateF => 99u8,
            FieldEnum::PathLenF => 120u8,
            FieldEnum::LinksLenF => 108u8,
            FieldEnum::DataSizeF => 66u8,
            FieldEnum::PathF => 112u8,
            FieldEnum::PathComp0F => 48u8,
            FieldEnum::PathComp1F => 49u8,
            FieldEnum::PathComp2F => 50u8,
            FieldEnum::PathComp3F => 51u8,
            FieldEnum::PathComp4F => 52u8,
            FieldEnum::PathComp5F => 53u8,
            FieldEnum::PathComp6F => 54u8,
            FieldEnum::PathComp7F => 55u8,
            FieldEnum::DataF => 98u8,
        }
    }

    /// The name of the field.
    pub open spec fn spec_name(self) -> &'static str {
        match self {
            FieldEnum::VarNetFlagsF => "netflags",
            FieldEnum::VarHopF => "hop",
            FieldEnum::VarStampF => "stamp",
            FieldEnum::VarUBits0F => "ubits0",
            FieldEnum::VarUBits1F => "ubits1",
            FieldEnum::VarUBits2F => "ubits2",
            FieldEnum::VarUBits3F => "ubits3",
            FieldEnum::PktHashF => "hash",
            FieldEnum::PktTypeF => "type",
            FieldEnum::PointSizeF => "point_size",
            FieldEnum::PubKeyF => "pubkey",
            FieldEnum::SignatureF => "signature",
            FieldEnum::GroupIDF => "group",
            FieldEnum::DomainF => "domain",
            FieldEnum::CreateF => "create",
            FieldEnum::PathLenF => "path_len",
            FieldEnum::LinksLenF => "links_len",
            FieldEnum::DataSizeF => "data_size",
            FieldEnum::PathF => "path",
            FieldEnum::PathComp0F => "comp0",
            FieldEnum::PathComp1F => "comp1",
            FieldEnum::PathComp2F => "comp2",
            FieldEnum::PathComp3F => "comp3",
            FieldEnum::PathComp4F => "comp4",
            FieldEnum::PathComp5F => "comp5",
            FieldEnum::PathComp6F => "comp6",
            FieldEnum::PathComp7F => "comp7",
            FieldEnum::DataF => "data",
        }
    }

    /// The bytes of the field's name.
    pub open spec fn spec_name_bytes(self) -> Seq<u8> {
        match self {
            FieldEnum::VarNetFlagsF => seq![110u8, 101u8, 116u8, 102u8, 108u8, 97u8, 103u8, 115u8],
            FieldEnum::VarHopF => seq![104u8, 111u8, 112u8],
            FieldEnum::VarStampF => seq![115u8, 116u8, 97u8, 109u8, 112u8],
            FieldEnum::VarUBits0F => seq![117u8, 98u8, 105u8, 116u8, 115u8, 48u8],
            FieldEnum::VarUBits1F => seq![117u8, 98u8, 105u8, 116u8, 115u8, 49u8],
            FieldEnum::VarUBits2F => seq![117u8, 98u8, 105u8, 116u8, 115u8, 50u8],
            FieldEnum::VarUBits3F => seq![117u8, 98u8, 105u8, 116u8, 115u8, 51u8],
            FieldEnum::PktHashF => seq![104u8, 97u8, 115u8, 104u8],
            FieldEnum::PktTypeF => seq![116u8, 121u8, 112u8, 101u8],
            FieldEnum::PointSizeF => seq![112u8, 111u8, 105u8, 110u8, 116u8, 95u8, 115u8, 105u8, 122u8, 101u8],
            FieldEnum::PubKeyF => seq![112u8, 117u8, 98u8, 107u8, 101u8, 121u8],
            FieldEnum::SignatureF => seq![115u8, 105u8, 103u8, 110u8, 97u8, 116u8, 117u8, 114u8, 101u8],
            FieldEnum::GroupIDF => seq![103u8, 114u8, 111u8, 117u8, 112u8],
            FieldEnum::DomainF => seq![100u8, 111u8, 109u8, 97u8, 105u8, 110u8],
            FieldEnum::CreateF => seq![99u8, 114u8, 101u8, 97u8, 116u8, 101u8],
            FieldEnum::PathLenF => seq![112u8, 97u8, 116u8, 104u8, 95u8, 108u8, 101u8, 110u8],
            FieldEnum::LinksLenF => seq![108u8, 105u8, 110u8, 107u8, 115u8, 95u8, 108u8, 101u8, 110u8],
            FieldEnum::DataSizeF => seq![100u8, 97u8, 116u8, 97u8, 95u8, 115u8, 105u8, 122u8, 101u8],
            FieldEnum::PathF => seq![112u8, 97u8, 116u8, 104u8],
            FieldEnum::PathComp0F => seq![99u8, 111u8, 109u8, 112u8, 48u8],
            FieldEnum::PathComp1F => seq![99u8, 111u8, 109u8, 112u8, 49u8],
            FieldEnum::PathComp2F => seq![99u8, 111u8, 109u8, 112u8, 50u8],
            FieldEnum::PathComp3F => seq![99u8, 111u8, 109u8, 112u8, 51u8],
            FieldEnum::PathComp4F => seq![99u8, 111u8, 109u8, 112u8, 52u8],
            FieldEnum::PathComp5F => seq![99u8, 111u8, 109u8, 112u8, 53u8],
            FieldEnum::PathComp6F => seq![99u8, 111u8, 109u8, 112u8, 54u8],
            FieldEnum::PathComp7F => seq![99u8, 111u8, 109u8, 112u8, 55u8],
            FieldEnum::DataF => seq![100u8, 97u8, 116u8, 97u8],
        }
    }

    /// The flag bits of the point kinds that have the field.
    pub open spec fn spec_pkts(self) -> u8 {
        match self {
            FieldEnum::VarNetFlagsF => 1u8,
            FieldEnum::VarHopF => 1u8,
            FieldEnum::VarStampF => 1u8,
            FieldEnum::VarUBits0F => 1u8,
            FieldEnum::VarUBits1F => 1u8,
            FieldEnum::VarUBits2F => 1u8,
            FieldEnum::VarUBits3F => 1u8,
            FieldEnum::PktHashF => 1u8,
            FieldEnum::PktTypeF => 1u8,
            FieldEnum::PointSizeF => 1u8,
            FieldEnum::PubKeyF => 4u8,
            FieldEnum::SignatureF => 4u8,
            FieldEnum::GroupIDF => 2u8,
            FieldEnum::DomainF => 2u8,
            FieldEnum::CreateF => 2u8,
            FieldEnum::PathLenF => 2u8,
            FieldEnum::LinksLenF => 2u8,
            FieldEnum::DataSizeF => 1u8,
            FieldEnum::PathF => 2u8,
            FieldEnum::PathComp0F => 2u8,
            FieldEnum::PathComp1F => 2u8,
            FieldEnum::PathComp2F => 2u8,
            FieldEnum::PathComp3F => 2u8,
            FieldEnum::PathComp4F => 2u8,
            FieldEnum::PathComp5F => 2u8,
            FieldEnum::PathComp6F => 2u8,
            FieldEnum::PathComp7F => 2u8,
            FieldEnum::DataF => 1u8,
        }
    }

    /// The fields in their canonical order.
    pub fn list() -> (r: [FieldEnum; 28])
        ensures
            r@ == spec_list(),
    {
        let r = [
            FieldEnum::VarNetFlagsF,
            FieldEnum::VarHopF,
            FieldEnum::VarStampF,
            FieldEnum::VarUBits0F,
            FieldEnum::VarUBits1F,
            FieldEnum::VarUBits2F,
            FieldEnum::VarUBits3F,
            FieldEnum::PktHashF,
            FieldEnum::PktTypeF,
            FieldEnum::PointSizeF,
            FieldEnum::PubKeyF,
            FieldEnum::SignatureF,
            FieldEnum::GroupIDF,
            FieldEnum::DomainF,
            FieldEnum::CreateF,
            FieldEnum::PathLenF,
            FieldEnum::LinksLenF,
            FieldEnum::DataSizeF,
            FieldEnum::PathF,
            FieldEnum::PathComp0F,
            FieldEnum::PathComp1F,
            FieldEnum::PathComp2F,
            FieldEnum::PathComp3F,
            FieldEnum::PathComp4F,
            FieldEnum::PathComp5F,
            FieldEnum::PathComp6F,
            FieldEnum::PathComp7F,
            FieldEnum::DataF,
        ];
        assert(r@ =~= spec_list());
        r
    }

    /// The token byte of the field.
    pub fn token(self) -> (r: u8)
        ensures
            r == self.spec_token(),
    {
        match self {
            FieldEnum::VarNetFlagsF => 102u8,
            FieldEnum::VarHopF => 106u8,
            FieldEnum::VarStampF => 115u8,
            FieldEnum::VarUBits0F => 113u8,
            FieldEnum::VarUBits1F => 81u8,
            FieldEnum::VarUBits2F => 119u8,
            FieldEnum::VarUBits3F => 87u8,
            FieldEnum::PktHashF => 104u8,
            FieldEnum::PktTypeF => 121u8,
            FieldEnum::PointSizeF => 111u8,
            FieldEnum::PubKeyF => 107u8,
            FieldEnum::SignatureF => 118u8,
            FieldEnum::GroupIDF => 103u8,
            FieldEnum::DomainF => 100u8,
            FieldEnum::CreateF => 99u8,
            FieldEnum::PathLenF => 120u8,
            FieldEnum::LinksLenF => 108u8,
            FieldEnum::DataSizeF => 66u8,
            FieldEnum::PathF => 112u8,
            FieldEnum::PathComp0F => 48u8,
            FieldEnum::PathComp1F => 49u8,
            FieldEnum::PathComp2F => 50u8,
            FieldEnum::PathComp3F => 51u8,
            FieldEnum::PathComp4F => 52u8,
            FieldEnum::PathComp5F => 53u8,
            FieldEnum::PathComp6F => 54u8,
            FieldEnum::PathComp7F => 55u8,
            FieldEnum::DataF => 98u8,
        }
    }

    /// The name of the field.
    pub fn name(self) -> (r: &'static str)
        ensures
            r == self.spec_name(),
    {
        match self {
            FieldEnum::VarNetFlagsF => "netflags",
            FieldEnum::VarHopF => "hop",
            FieldEnum::VarStampF => "stamp",
            FieldEnum::VarUBits0F => "ubits0",
            FieldEnum::VarUBits1F => "ubits1",
            FieldEnum::VarUBits2F => "ubits2",
            FieldEnum::VarUBits3F => "ubits3",
            FieldEnum::PktHashF => "hash",
            FieldEnum::PktTypeF => "type",
            FieldEnum::PointSizeF => "point_size",
            FieldEnum::PubKeyF => "pubkey",
            FieldEnum::SignatureF => "signature",
            FieldEnum::GroupIDF => "group",
            FieldEnum::DomainF => "domain",
            FieldEnum::CreateF => "create",
            FieldEnum::PathLenF => "path_len",
            FieldEnum::LinksLenF => "links_len",
            FieldEnum::DataSizeF => "data_size",
            FieldEnum::PathF => "path",
            FieldEnum::PathComp0F => "comp0",
            FieldEnum::PathComp1F => "comp1",
            FieldEnum::PathComp2F => "comp2",
            FieldEnum::PathComp3F => "comp3",
            FieldEnum::PathComp4F => "comp4",
            FieldEnum::PathComp5F => "comp5",
            FieldEnum::PathComp6F => "comp6",
            FieldEnum::PathComp7F => "comp7",
            FieldEnum::DataF => "data",
        }
    }

    /// The token, the name and the point kinds of the field.
    pub fn info(self) -> (r: FieldInfo)
        ensures
            r.token == self.spec_token(),
            r.name == self.spec_name(),
            r.pkts.spec_bits() == self.spec_pkts(),
    {
        match self {
            FieldEnum::VarNetFlagsF => VarNetFlagsF::info(),
            FieldEnum::VarHopF => VarHopF::info(),
            FieldEnum::VarStampF => VarStampF::info(),
            FieldEnum::VarUBits0F => VarUBits0F::info(),
            FieldEnum::VarUBits1F => VarUBits1F::info(),
            FieldEnum::VarUBits2F => VarUBits2F::info(),
            FieldEnum::VarUBits3F => VarUBits3F::info(),
            FieldEnum::PktHashF => PktHashF::info(),
            FieldEnum::PktTypeF => PktTypeF::info(),
            FieldEnum::PointSizeF => PointSizeF::info(),
            FieldEnum::PubKeyF => PubKeyF::info(),
            FieldEnum::SignatureF => SignatureF::info(),
            FieldEnum::GroupIDF => GroupIDF::info(),
            FieldEnum::DomainF => DomainF::info(),
            FieldEnum::CreateF => CreateF::info(),
            FieldEnum::PathLenF => PathLenF::info(),
            FieldEnum::LinksLenF => LinksLenF::info(),
            FieldEnum::DataSizeF => DataSizeF::info(),
            FieldEnum::PathF => PathF::info(),
            FieldEnum::PathComp0F => PathComp0F::info(),
            FieldEnum::PathComp1F => PathComp1F::info(),
            FieldEnum::PathComp2F => PathComp2F::info(),
            FieldEnum::PathComp3F => PathComp3F::info(),
            FieldEnum::PathComp4F => PathComp4F::info(),
            FieldEnum::PathComp5F => PathComp5F::info(),
            FieldEnum::PathComp6F => PathComp6F::info(),
            FieldEnum::PathComp7F => PathComp7F::info(),
            FieldEnum::DataF => DataF::info(),
        }
    }

    /// The field whose token byte, or whose name, is the id.
    pub fn try_from_id(id: &[u8]) -> (r: Option<Self>)
        ensures
            r == spec_from_id(id@),
    {
        if is_id(FieldEnum::VarNetFlagsF, id) {
            return Some(FieldEnum::VarNetFlagsF);
        }
        if is_id(FieldEnum::VarHopF, id) {
            return Some(FieldEnum::VarHopF);
        }
        if is_id(FieldEnum::VarStampF, id) {
            return Some(FieldEnum::VarStampF);
        }
        if is_id(FieldEnum::VarUBits0F, id) {
            return Some(FieldEnum::VarUBits0F);
        }
        if is_id(FieldEnum::VarUBits1F, id) {
            return Some(FieldEnum::VarUBits1F);
        }
        if is_id(FieldEnum::VarUBits2F, id) {
            return Some(FieldEnum::VarUBits2F);
        }
        if is_id(FieldEnum::VarUBits3F, id) {
            return Some(FieldEnum::VarUBits3F);
        }
        if is_id(FieldEnum::PktHashF, id) {
            return Some(FieldEnum::PktHashF);
        }
        if is_id(FieldEnum::PktTypeF, id) {
            return Some(FieldEnum::PktTypeF);
        }
        if is_id(FieldEnum::PointSizeF, id) {
            return Some(FieldEnum::PointSizeF);
        }
        if is_id(FieldEnum::PubKeyF, id) {
            return Some(FieldEnum::PubKeyF);
        }
        if is_id(FieldEnum::SignatureF, id) {
            return Some(FieldEnum::SignatureF);
        }
        if is_id(FieldEnum::GroupIDF, id) {
            return Some(FieldEnum::GroupIDF);
        }
        if is_id(FieldEnum::DomainF, id) {
            return Some(FieldEnum::DomainF);
        }
        if is_id(FieldEnum::CreateF, id) {
            return Some(FieldEnum::CreateF);
        }
        if is_id(FieldEnum::PathLenF, id) {
            return Some(FieldEnum::PathLenF);
        }
        if is_id(FieldEnum::LinksLenF, id) {
            return Some(FieldEnum::LinksLenF);
        }
        if is_id(FieldEnum::DataSizeF, id) {
            return Some(FieldEnum::DataSizeF);
        }
        if is_id(FieldEnum::PathF, id) {
            return Some(FieldEnum::PathF);
        }
        if is_id(FieldEnum::PathComp0F, id) {
            return Some(FieldEnum::PathComp0F);
        }
        if is_id(FieldEnum::PathComp1F, id) {
            return Some(FieldEnum::PathComp1F);
        }
        if is_id(FieldEnum::PathComp2F, id) {
            return Some(FieldEnum::PathComp2F);
        }
        if is_id(FieldEnum::PathComp3F, id) {
            return Some(FieldEnum::PathComp3F);
        }
        if is_id(FieldEnum::PathComp4F, id) {
            return Some(FieldEnum::PathComp4F);
        }
        if is_id(FieldEnum::PathComp5F, id) {
            return Some(FieldEnum::PathComp5F);
        }
        if is_id(FieldEnum::PathComp6F, id) {
            return Some(FieldEnum::PathComp6F);
        }
        if is_id(FieldEnum::PathComp7F, id) {
            return Some(FieldEnum::PathComp7F);
        }
        if is_id(FieldEnum::DataF, id) {
            return Some(FieldEnum::DataF);
        }
        None
    }

    /// The number of bytes of the field's value, for fields of fixed size.
    pub fn fixed_size(self) -> (r: Option<usize>)
        ensures
            r == match self {
                FieldEnum::PathLenF | FieldEnum::PktTypeF | FieldEnum::VarNetFlagsF => Some(1usize),
                FieldEnum::LinksLenF | FieldEnum::DataSizeF | FieldEnum::PointSizeF => Some(2usize),
                FieldEnum::VarHopF | FieldEnum::VarUBits0F | FieldEnum::VarUBits1F | FieldEnum::VarUBits2F | FieldEnum::VarUBits3F => Some(4usize),
                FieldEnum::CreateF | FieldEnum::VarStampF => Some(8usize),
                FieldEnum::DomainF => Some(16usize),
                FieldEnum::GroupIDF | FieldEnum::PubKeyF | FieldEnum::PktHashF => Some(32usize),
                FieldEnum::SignatureF => Some(64usize),
                _ => None,
            },
    {
        let v: usize = match self {
            FieldEnum::PathLenF | FieldEnum::PktTypeF | FieldEnum::VarNetFlagsF => 1,
            FieldEnum::LinksLenF | FieldEnum::DataSizeF | FieldEnum::PointSizeF => 2,
            FieldEnum::VarHopF | FieldEnum::VarUBits0F | FieldEnum::VarUBits1F | FieldEnum::VarUBits2F | FieldEnum::VarUBits3F => 4,
            FieldEnum::CreateF | FieldEnum::VarStampF => 8,
            FieldEnum::DomainF => 16,
            FieldEnum::GroupIDF | FieldEnum::PubKeyF | FieldEnum::PktHashF => 32,
            FieldEnum::SignatureF => 64,
            _ => {
                return None;
            },
        };
        Some(v)
    }
}

/// The name of a field, as bytes.
proof fn lemma_name_bytes(f: FieldEnum)
    ensures
        f.spec_name().spec_bytes() == f.spec_name_bytes(),
{
    broadcast use vstd::string::is_ascii_spec_bytes;

    match f {
        FieldEnum::VarNetFlagsF => {
            reveal_strlit("netflags");
            assert(vstd::string::is_ascii("netflags"));
            assert("netflags".spec_bytes() =~= seq![110u8, 101u8, 116u8, 102u8, 108u8, 97u8, 103u8, 115u8]);
        },
        FieldEnum::VarHopF => {
            reveal_strlit("hop");
            assert(vstd::string::is_ascii("hop"));
            assert("hop".spec_bytes() =~= seq![104u8, 111u8, 112u8]);
        },
        FieldEnum::VarStampF => {
            reveal_strlit("stamp");
            assert(vstd::string::is_ascii("stamp"));
            assert("stamp".spec_bytes() =~= seq![115u8, 116u8, 97u8, 109u8, 112u8]);
        },
        FieldEnum::VarUBits0F => {
            reveal_strlit("ubits0");
            assert(vstd::string::is_ascii("ubits0"));
            assert("ubits0".spec_bytes() =~= seq![117u8, 98u8, 105u8, 116u8, 115u8, 48u8]);
        },
        FieldEnum::VarUBits1F => {
            reveal_strlit("ubits1");
            assert(vstd::string::is_ascii("ubits1"));
            assert("ubits1".spec_bytes() =~= seq![117u8, 98u8, 105u8, 116u8, 115u8, 49u8]);
        },
        FieldEnum::VarUBits2F => {
            reveal_strlit("ubits2");
            assert(vstd::string::is_ascii("ubits2"));
            assert("ubits2".spec_bytes() =~= seq![117u8, 98u8, 105u8, 116u8, 115u8, 50u8]);
        },
        FieldEnum::VarUBits3F => {
            reveal_strlit("ubits3");
            assert(vstd::string::is_ascii("ubits3"));
            assert("ubits3".spec_bytes() =~= seq![117u8, 98u8, 105u8, 116u8, 115u8, 51u8]);
        },
        FieldEnum::PktHashF => {
            reveal_strlit("hash");
            assert(vstd::string::is_ascii("hash"));
            assert("hash".spec_bytes() =~= seq![104u8, 97u8, 115u8, 104u8]);
        },
        FieldEnum::PktTypeF => {
            reveal_strlit("type");
            assert(vstd::string::is_ascii("type"));
            assert("type".spec_bytes() =~= seq![116u8, 121u8, 112u8, 101u8]);
        },
        FieldEnum::PointSizeF => {
            reveal_strlit("point_size");
            assert(vstd::string::is_ascii("point_size"));
            assert("point_size".spec_bytes() =~= seq![112u8, 111u8, 105u8, 110u8, 116u8, 95u8, 115u8, 105u8, 122u8, 101u8]);
        },
        FieldEnum::PubKeyF => {
            reveal_strlit("pubkey");
            assert(vstd::string::is_ascii("pubkey"));
            assert("pubkey".spec_bytes() =~= seq![112u8, 117u8, 98u8, 107u8, 101u8, 121u8]);
        },
        FieldEnum::SignatureF => {
            reveal_strlit("signature");
            assert(vstd::string::is_ascii("signature"));
            assert("signature".spec_bytes() =~= seq![115u8, 105u8, 103u8, 110u8, 97u8, 116u8, 117u8, 114u8, 101u8]);
        },
        FieldEnum::GroupIDF => {
            reveal_strlit("group");
            assert(vstd::string::is_ascii("group"));
            assert("group".spec_bytes() =~= seq![103u8, 114u8, 111u8, 117u8, 112u8]);
        },
        FieldEnum::DomainF => {
            reveal_strlit("domain");
            assert(vstd::string::is_ascii("domain"));
            assert("domain".spec_bytes() =~= seq![100u8, 111u8, 109u8, 97u8, 105u8, 110u8]);
        },
        FieldEnum::CreateF => {
            reveal_strlit("create");
            assert(vstd::string::is_ascii("create"));
            assert("create".spec_bytes() =~= seq![99u8, 114u8, 101u8, 97u8, 116u8, 101u8]);
        },
        FieldEnum::PathLenF => {
            reveal_strlit("path_len");
            assert(vstd::string::is_ascii("path_len"));
            assert("path_len".spec_bytes() =~= seq![112u8, 97u8, 116u8, 104u8, 95u8, 108u8, 101u8, 110u8]);
        },
        FieldEnum::LinksLenF => {
            reveal_strlit("links_len");
            assert(vstd::string::is_ascii("links_len"));
            assert("links_len".spec_bytes() =~= seq![108u8, 105u8, 110u8, 107u8, 115u8, 95u8, 108u8, 101u8, 110u8]);
        },
        FieldEnum::DataSizeF => {
            reveal_strlit("data_size");
            assert(vstd::string::is_ascii("data_size"));
            assert("data_size".spec_bytes() =~= seq![100u8, 97u8, 116u8, 97u8, 95u8, 115u8, 105u8, 122u8, 101u8]);
        },
        FieldEnum::PathF => {
            reveal_strlit("path");
            assert(vstd::string::is_ascii("path"));
            assert("path".spec_bytes() =~= seq![112u8, 97u8, 116u8, 104u8]);
        },
        FieldEnum::PathComp0F => {
            reveal_strlit("comp0");
            assert(vstd::string::is_ascii("comp0"));
            assert("comp0".spec_bytes() =~= seq![99u8, 111u8, 109u8, 112u8, 48u8]);
        },
        FieldEnum::PathComp1F => {
            reveal_strlit("comp1");
            assert(vstd::string::is_ascii("comp1"));
            assert("comp1".spec_bytes() =~= seq![99u8, 111u8, 109u8, 112u8, 49u8]);
        },
        FieldEnum::PathComp2F => {
            reveal_strlit("comp2");
            assert(vstd::string::is_ascii("comp2"));
            assert("comp2".spec_bytes() =~= seq![99u8, 111u8, 109u8, 112u8, 50u8]);
        },
        FieldEnum::PathComp3F => {
            reveal_strlit("comp3");
            assert(vstd::string::is_ascii("comp3"));
            assert("comp3".spec_bytes() =~= seq![99u8, 111u8, 109u8, 112u8, 51u8]);
        },
        FieldEnum::PathComp4F => {
            reveal_strlit("comp4");
            assert(vstd::string::is_ascii("comp4"));
            assert("comp4".spec_bytes() =~= seq![99u8, 111u8, 109u8, 112u8, 52u8]);
        },
        FieldEnum::PathComp5F => {
            reveal_strlit("comp5");
            assert(vstd::string::is_ascii("comp5"));
            assert("comp5".spec_bytes() =~= seq![99u8, 111u8, 109u8, 112u8, 53u8]);
        },
        FieldEnum::PathComp6F => {
            reveal_strlit("comp6");
            assert(vstd::string::is_ascii("comp6"));
            assert("comp6".spec_bytes() =~= seq![99u8, 111u8, 109u8, 112u8, 54u8]);
        },
        FieldEnum::PathComp7F => {
            reveal_strlit("comp7");
            assert(vstd::string::is_ascii("comp7"));
            assert("comp7".spec_bytes() =~= seq![99u8, 111u8, 109u8, 112u8, 55u8]);
        },
        FieldEnum::DataF => {
            reveal_strlit("data");
            assert(vstd::string::is_ascii("data"));
            assert("data".spec_bytes() =~= seq![100u8, 97u8, 116u8, 97u8]);
        },
    }
}

/// Each field is found by its token byte, and by its name.
pub proof fn law_field_ids(f: FieldEnum)
    ensures
        spec_from_id(seq![f.spec_token()]) == Some(f),
        spec_from_id(f.spec_name_bytes()) == Some(f),
        spec_from_id(f.spec_name().spec_bytes()) == Some(f),
{
    lemma_name_bytes(f);
    match f {
        FieldEnum::VarNetFlagsF => lemma_id_varnetflagsf(),
        FieldEnum::VarHopF => lemma_id_varhopf(),
        FieldEnum::VarStampF => lemma_id_varstampf(),
        FieldEnum::VarUBits0F => lemma_id_varubits0f(),
        FieldEnum::VarUBits1F => lemma_id_varubits1f(),
        FieldEnum::VarUBits2F => lemma_id_varubits2f(),
        FieldEnum::VarUBits3F => lemma_id_varubits3f(),
        FieldEnum::PktHashF => lemma_id_pkthashf(),
        FieldEnum::PktTypeF => lemma_id_pkttypef(),
        FieldEnum::PointSizeF => lemma_id_pointsizef(),
        FieldEnum::PubKeyF => lemma_id_pubkeyf(),
        FieldEnum::SignatureF => lemma_id_signaturef(),
        FieldEnum::GroupIDF => lemma_id_groupidf(),
        FieldEnum::DomainF => lemma_id_domainf(),
        FieldEnum::CreateF => lemma_id_createf(),
        FieldEnum::PathLenF => lemma_id_pathlenf(),
        FieldEnum::LinksLenF => lemma_id_linkslenf(),
        FieldEnum::DataSizeF => lemma_id_datasizef(),
        FieldEnum::PathF => lemma_id_pathf(),
        FieldEnum::PathComp0F => lemma_id_pathcomp0f(),
        FieldEnum::PathComp1F => lemma_id_pathcomp1f(),
        FieldEnum::PathComp2F => lemma_id_pathcomp2f(),
        FieldEnum::PathComp3F => lemma_id_pathcomp3f(),
        FieldEnum::PathComp4F => lemma_id_pathcomp4f(),
        FieldEnum::PathComp5F => lemma_id_pathcomp5f(),
        FieldEnum::PathComp6F => lemma_id_pathcomp6f(),
        FieldEnum::PathComp7F => lemma_id_pathcomp7f(),
        FieldEnum::DataF => lemma_id_dataf(),
    }
}

/// The field VarNetFlagsF is found by its token byte and by its name.
proof fn lemma_id_varnetflagsf()
    ensures
        spec_from_id(seq![102u8]) == Some(FieldEnum::VarNetFlagsF),
        spec_from_id(seq![110u8, 101u8, 116u8, 102u8, 108u8, 97u8, 103u8, 115u8]) == Some(FieldEnum::VarNetFlagsF),
{
    assert(seq![102u8].len() == 1);
    assert(seq![110u8, 101u8, 116u8, 102u8, 108u8, 97u8, 103u8, 115u8].len() == 8);
}

/// The field VarHopF is found by its token byte and by its name.
proof fn lemma_id_varhopf()
    ensures
        spec_from_id(seq![106u8]) == Some(FieldEnum::VarHopF),
        spec_from_id(seq![104u8, 111u8, 112u8]) == Some(FieldEnum::VarHopF),
{
    assert(seq![106u8].len() == 1);
    assert(seq![104u8, 111u8, 112u8].len() == 3);
    assert(seq![102u8][0] == 102u8);
    assert(seq![110u8, 101u8, 116u8, 102u8, 108u8, 97u8, 103u8, 115u8].len() == 8);
}

/// The field VarStampF is found by its token byte and by its name.
proof fn lemma_id_varstampf()
    ensures
        spec_from_id(seq![115u8]) == Some(FieldEnum::VarStampF),
        spec_from_id(seq![115u8, 116u8, 97u8, 109u8, 112u8]) == Some(FieldEnum::VarStampF),
{
    assert(seq![115u8].len() == 1);
    assert(seq![115u8, 116u8, 97u8, 109u8, 112u8].len() == 5);
    assert(seq![102u8][0] == 102u8);
    assert(seq![110u8, 101u8, 116u8, 102u8, 108u8, 97u8, 103u8, 115u8].len() == 8);
    assert(seq![106u8][0] == 106u8);
    assert(seq![104u8, 111u8, 112u8].len() == 3);
}

/// The field VarUBits0F is found by its token byte and by its name.
proof fn lemma_id_varubits0f()
    ensures
        spec_from_id(seq![113u8]) == Some(FieldEnum::VarUBits0F),
        spec_from_id(seq![117u8, 98u8, 105u8, 116u8, 115u8, 48u8]) == Some(FieldEnum::VarUBits0F),
{
    assert(seq![113u8].len() == 1);
    assert(seq![117u8, 98u8, 105u8, 116u8, 115u8, 48u8].len() == 6);
    assert(seq![102u8][0] == 102u8);
    assert(seq![110u8, 101u8, 116u8, 102u8, 108u8, 97u8, 103u8, 115u8].len() == 8);
    assert(seq![106u8][0] == 106u8);
    assert(seq![104u8, 111u8, 112u8].len() == 3);
    assert(seq![115u8][0] == 115u8);
    assert(seq![115u8, 116u8, 97u8, 109u8, 112u8].len() == 5);
}

/// The field VarUBits1F is found by its token byte and by its name.
proof fn lemma_id_varubits1f()
    ensures
        spec_from_id(seq![81u8]) == Some(FieldEnum::VarUBits1F),
        spec_from_id(seq![117u8, 98u8, 105u8, 116u8, 115u8, 49u8]) == Some(FieldEnum::VarUBits1F),
{
    assert(seq![81u8].len() == 1);
    assert(seq![117u8, 98u8, 105u8, 116u8, 115u8, 49u8].len() == 6);
    assert(seq![102u8][0] == 102u8);
    assert(seq![110u8, 101u8, 116u8, 102u8, 108u8, 97u8, 103u8, 115u8].len() == 8);
    assert(seq![106u8][0] == 106u8);
    assert(seq![104u8, 111u8, 112u8].len() == 3);
    assert(seq![115u8][0] == 115u8);
    assert(seq![115u8, 116u8, 97u8, 109u8, 112u8].len() == 5);
    assert(seq![113u8][0] == 113u8);
    assert(seq![117u8, 98u8, 105u8, 116u8, 115u8, 48u8].len() == 6);
    assert(seq![117u8, 98u8, 105u8, 116u8, 115u8, 49u8][5] == 49u8 && seq![117u8, 98u8, 105u8, 116u8, 115u8, 48u8][5] == 48u8);
}

/// The field VarUBits2F is found by its token byte and by its name.
proof fn lemma_id_varubits2f()
    ensures
        spec_from_id(seq![119u8]) == Some(FieldEnum::VarUBits2F),
        spec_from_id(seq![117u8, 98u8, 105u8, 116u8, 115u8, 50u8]) == Some(FieldEnum::VarUBits2F),
{
    assert(seq![119u8].len() == 1);
    assert(seq![117u8, 98u8, 105u8, 116u8, 115u8, 50u8].len() == 6);
    assert(seq![102u8][0] == 102u8);
    assert(seq![110u8, 101u8, 116u8, 102u8, 108u8, 97u8, 103u8, 115u8].len() == 8);
    assert(seq![106u8][0] == 106u8);
    assert(seq![104u8, 111u8, 112u8].len() == 3);
    assert(seq![115u8][0] == 115u8);
    assert(seq![115u8, 116u8, 97u8, 109u8, 112u8].len() == 5);
    assert(seq![113u8][0] == 113u8);
    assert(seq![117u8, 98u8, 105u8, 116u8, 115u8, 48u8].len() == 6);
    assert(seq![117u8, 98u8, 105u8, 116u8, 115u8, 50u8][5] == 50u8 && seq![117u8, 98u8, 105u8, 116u8, 115u8, 48u8][5] == 48u8);
    assert(seq![81u8][0] == 81u8);
    assert(seq![117u8, 98u8, 105u8, 116u8, 115u8, 49u8].len() == 6);
    assert(seq![117u8, 98u8, 105u8, 116u8, 115u8, 50u8][5] == 50u8 && seq![117u8, 98u8, 105u8, 116u8, 115u8, 49u8][5] == 49u8);
}

/// The field VarUBits3F is found by its token byte and by its name.
proof fn lemma_id_varubits3f()
    ensures
        spec_from_id(seq![87u8]) == Some(FieldEnum::VarUBits3F),
        spec_from_id(seq![117u8, 98u8, 105u8, 116u8, 115u8, 51u8]) == Some(FieldEnum::VarUBits3F),
{
    assert(seq![87u8].len() == 1);
    assert(seq![117u8, 98u8, 105u8, 116u8, 115u8, 51u8].len() == 6);
    assert(seq![102u8][0] == 102u8);
    assert(seq![110u8, 101u8, 116u8, 102u8, 108u8, 97u8, 103u8, 115u8].len() == 8);
    assert(seq![106u8][0] == 106u8);
    assert(seq![104u8, 111u8, 112u8].len() == 3);
    assert(seq![115u8][0] == 115u8);
    assert(seq![115u8, 116u8, 97u8, 109u8, 112u8].len() == 5);
    assert(seq![113u8][0] == 113u8);
    assert(seq![117u8, 98u8, 105u8, 116u8, 115u8, 48u8].len() == 6);
    assert(seq![117u8, 98u8, 105u8, 116u8, 115u8, 51u8][5] == 51u8 && seq![117u8, 98u8, 105u8, 116u8, 115u8, 48u8][5] == 48u8);
    assert(seq![81u8][0] == 81u8);
    assert(seq![117u8, 98u8, 105u8, 116u8, 115u8, 49u8].len() == 6);
    assert(seq![117u8, 98u8, 105u8, 116u8, 115u8, 51u8][5] == 51u8 && seq![117u8, 98u8, 105u8, 116u8, 115u8, 49u8][5] == 49u8);
    assert(seq![119u8][0] == 119u8);
    assert(seq![117u8, 98u8, 105u8, 116u8, 115u8, 50u8].len() == 6);
    assert(seq![117u8, 98u8, 105u8, 116u8, 115u8, 51u8][5] == 51u8 && seq![117u8, 98u8, 105u8, 116u8, 115u8, 50u8][5] == 50u8);
}

/// The field PktHashF is found by its token byte and by its name.
proof fn lemma_id_pkthashf()
    ensures
        spec_from_id(seq![104u8]) == Some(FieldEnum::PktHashF),
        spec_from_id(seq![104u8, 97u8, 115u8, 104u8]) == Some(FieldEnum::PktHashF),
{
    assert(seq![104u8].len() == 1);
    assert(seq![104u8, 97u8, 115u8, 104u8].len() == 4);
    assert(seq![102u8][0] == 102u8);
    assert(seq![110u8, 101u8, 116u8, 102u8, 108u8, 97u8, 103u8, 115u8].len() == 8);
    assert(seq![106u8][0] == 106u8);
    assert(seq![104u8, 111u8, 112u8].len() == 3);
    assert(seq![115u8][0] == 115u8);
    assert(seq![115u8, 116u8, 97u8, 109u8, 112u8].len() == 5);
    assert(seq![113u8][0] == 113u8);
    assert(seq![117u8, 98u8, 105u8, 116u8, 115u8, 48u8].len() == 6);
    assert(seq![81u8][0] == 81u8);
    assert(seq![117u8, 98u8, 105u8, 116u8, 115u8, 49u8].len() == 6);
    assert(seq![119u8][0] == 119u8);
    assert(seq![117u8, 98u8, 105u8, 116u8, 115u8, 50u8].len() == 6);
    assert(seq![87u8][0] == 87u8);
    assert(seq![117u8, 98u8, 105u8, 116u8, 115u8, 51u8].len() == 6);
}

/// The field PktTypeF is found by its token byte and by its name.
proof fn lemma_id_pkttypef()
    ensures
        spec_from_id(seq![121u8]) == Some(FieldEnum::PktTypeF),
        spec_from_id(seq![116u8, 121u8, 112u8, 101u8]) == Some(FieldEnum::PktTypeF),
{
    assert(seq![121u8].len() == 1);
    assert(seq![116u8, 121u8, 112u8, 101u8].len() == 4);
    assert(seq![102u8][0] == 102u8);
    assert(seq![110u8, 101u8, 116u8, 102u8, 108u8, 97u8, 103u8, 115u8].len() == 8);
    assert(seq![106u8][0] == 106u8);
    assert(seq![104u8, 111u8, 112u8].len() == 3);
    assert(seq![115u8][0] == 115u8);
    assert(seq![115u8, 116u8, 97u8, 109u8, 112u8].len() == 5);
    assert(seq![113u8][0] == 113u8);
    assert(seq![117u8, 98u8, 105u8, 116u8, 115u8, 48u8].len() == 6);
    assert(seq![81u8][0] == 81u8);
    assert(seq![117u8, 98u8, 105u8, 116u8, 115u8, 49u8].len() == 6);
    assert(seq![119u8][0] == 119u8);
    assert(seq![117u8, 98u8, 105u8, 116u8, 115u8, 50u8].len() == 6);
    assert(seq![87u8][0] == 87u8);
    assert(seq![117u8, 98u8, 105u8, 116u8, 115u8, 51u8].len() == 6);
    assert(seq![104u8][0] == 104u8);
    assert(seq![104u8, 97u8, 115u8, 104u8].len() == 4);
    assert(seq![116u8, 121u8, 112u8, 101u8][0] == 116u8 && seq![104u8, 97u8, 115u8, 104u8][0] == 104u8);
}

/// The field PointSizeF is found by its token byte and by its name.
proof fn lemma_id_pointsizef()
    ensures
        spec_from_id(seq![111u8]) == Some(FieldEnum::PointSizeF),
        spec_from_id(seq![112u8, 111u8, 105u8, 110u8, 116u8, 95u8, 115u8, 105u8, 122u8, 101u8]) == Some(FieldEnum::PointSizeF),
{
    assert(seq![111u8].len() == 1);
    assert(seq![112u8, 111u8, 105u8, 110u8, 116u8, 95u8, 115u8, 105u8, 122u8, 101u8].len() == 10);
    assert(seq![102u8][0] == 102u8);
    assert(seq![110u8, 101u8, 116u8, 102u8, 108u8, 97u8, 103u8, 115u8].len() == 8);
    assert(seq![106u8][0] == 106u8);
    assert(seq![104u8, 111u8, 112u8].len() == 3);
    assert(seq![115u8][0] == 115u8);
    assert(seq![115u8, 116u8, 97u8, 109u8, 112u8].len() == 5);
    assert(seq![113u8][0] == 113u8);
    assert(seq![117u8, 98u8, 105u8, 116u8, 115u8, 48u8].len() == 6);
    assert(seq![81u8][0] == 81u8);
    assert(seq![117u8, 98u8, 105u8, 116u8, 115u8, 49u8].len() == 6);
    assert(seq![119u8][0] == 119u8);
    assert(seq![117u8, 98u8, 105u8, 116u8, 115u8, 50u8].len() == 6);
    assert(seq![87u8][0] == 87u8);
    assert(seq![117u8, 98u8, 105u8, 116u8, 115u8, 51u8].len() == 6);
    assert(seq![104u8][0] == 104u8);
    assert(seq![104u8, 97u8, 115u8, 104u8].len() == 4);
    assert(seq![121u8][0] == 121u8);
    assert(seq![116u8, 121u8, 112u8, 101u8].len() == 4);
}

/// The field PubKeyF is found by its token byte and by its name.
proof fn lemma_id_pubkeyf()
    ensures
        spec_from_id(seq![107u8]) == Some(FieldEnum::PubKeyF),
        spec_from_id(seq![112u8, 117u8, 98u8, 107u8, 101u8, 121u8]) == Some(FieldEnum::PubKeyF),
{
    assert(seq![107u8].len() == 1);
    assert(seq![112u8, 117u8, 98u8, 107u8, 101u8, 121u8].len() == 6);
    assert(seq![102u8][0] == 102u8);
    assert(seq![110u8, 101u8, 116u8, 102u8, 108u8, 97u8, 103u8, 115u8].len() == 8);
    assert(seq![106u8][0] == 106u8);
    assert(seq![104u8, 111u8, 112u8].len() == 3);
    assert(seq![115u8][0] == 115u8);
    assert(seq![115u8, 116u8, 97u8, 109u8, 112u8].len() == 5);
    assert(seq![113u8][0] == 113u8);
    assert(seq![117u8, 98u8, 105u8, 116u8, 115u8, 48u8].len() == 6);
    assert(seq![112u8, 117u8, 98u8, 107u8, 101u8, 121u8][0] == 112u8 && seq![117u8, 98u8, 105u8, 116u8, 115u8, 48u8][0] == 117u8);
    assert(seq![81u8][0] == 81u8);
    assert(seq![117u8, 98u8, 105u8, 116u8, 115u8, 49u8].len() == 6);
    assert(seq![112u8, 117u8, 98u8, 107u8, 101u8, 121u8][0] == 112u8 && seq![117u8, 98u8, 105u8, 116u8, 115u8, 49u8][0] == 117u8);
    assert(seq![119u8][0] == 119u8);
    assert(seq![117u8, 98u8, 105u8, 116u8, 115u8, 50u8].len() == 6);
    assert(seq![112u8, 117u8, 98u8, 107u8, 101u8, 121u8][0] == 112u8 && seq![117u8, 98u8, 105u8, 116u8, 115u8, 50u8][0] == 117u8);
    assert(seq![87u8][0] == 87u8);
    assert(seq![117u8, 98u8, 105u8, 116u8, 115u8, 51u8].len() == 6);
    assert(seq![112u8, 117u8, 98u8, 107u8, 101u8, 121u8][0] == 112u8 && seq![117u8, 98u8, 105u8, 116u8, 115u8, 51u8][0] == 117u8);
    assert(seq![104u8][0] == 104u8);
    assert(seq![104u8, 97u8, 115u8, 104u8].len() == 4);
    assert(seq![121u8][0] == 121u8);
    assert(seq![116u8, 121u8, 112u8, 101u8].len() == 4);
    assert(seq![111u8][0] == 111u8);
    assert(seq![112u8, 111u8, 105u8, 110u8, 116u8, 95u8, 115u8, 105u8, 122u8, 101u8].len() == 10);
}

/// The field SignatureF is found by its token byte and by its name.
proof fn lemma_id_signaturef()
    ensures
        spec_from_id(seq![118u8]) == Some(FieldEnum::SignatureF),
        spec_from_id(seq![115u8, 105u8, 103u8, 110u8, 97u8, 116u8, 117u8, 114u8, 101u8]) == Some(FieldEnum::SignatureF),
{
    assert(seq![118u8].len() == 1);
    assert(seq![115u8, 105u8, 103u8, 110u8, 97u8, 116u8, 117u8, 114u8, 101u8].len() == 9);
    assert(seq![102u8][0] == 102u8);
    assert(seq![110u8, 101u8, 116u8, 102u8, 108u8, 97u8, 103u8, 115u8].len() == 8);
    assert(seq![106u8][0] == 106u8);
    assert(seq![104u8, 111u8, 112u8].len() == 3);
    assert(seq![115u8][0] == 115u8);
    assert(seq![115u8, 116u8, 97u8, 109u8, 112u8].len() == 5);
    assert(seq![113u8][0] == 113u8);
    assert(seq![117u8, 98u8, 105u8, 116u8, 115u8, 48u8].len() == 6);
    assert(seq![81u8][0] == 81u8);
    assert(seq![117u8, 98u8, 105u8, 116u8, 115u8, 49u8].len() == 6);
    assert(seq![119u8][0] == 119u8);
    assert(seq![117u8, 98u8, 105u8, 116u8, 115u8, 50u8].len() == 6);
    assert(seq![87u8][0] == 87u8);
    assert(seq![117u8, 98u8, 105u8, 116u8, 115u8, 51u8].len() == 6);
    assert(seq![104u8][0] == 104u8);
    assert(seq![104u8, 97u8, 115u8, 104u8].len() == 4);
    assert(seq![121u8][0] == 121u8);
    assert(seq![116u8, 121u8, 112u8, 101u8].len() == 4);
    assert(seq![111u8][0] == 111u8);
    assert(seq![112u8, 111u8, 105u8, 110u8, 116u8, 95u8, 115u8, 105u8, 122u8, 101u8].len() == 10);
    assert(seq![107u8][0] == 107u8);
    assert(seq![112u8, 117u8, 98u8, 107u8, 101u8, 121u8].len() == 6);
}

/// The field GroupIDF is found by its token byte and by its name.
proof fn lemma_id_groupidf()
    ensures
        spec_from_id(seq![103u8]) == Some(FieldEnum::GroupIDF),
        spec_from_id(seq![103u8, 114u8, 111u8, 117u8, 112u8]) == Some(FieldEnum::GroupIDF),
{
    assert(seq![103u8].len() == 1);
    assert(seq![103u8, 114u8, 111u8, 117u8, 112u8].len() == 5);
    assert(seq![102u8][0] == 102u8);
    assert(seq![110u8, 101u8, 116u8, 102u8, 108u8, 97u8, 103u8, 115u8].len() == 8);
    assert(seq![106u8][0] == 106u8);
    assert(seq![104u8, 111u8, 112u8].len() == 3);
    assert(seq![115u8][0] == 115u8);
    assert(seq![115u8, 116u8, 97u8, 109u8, 112u8].len() == 5);
    assert(seq![103u8, 114u8, 111u8, 117u8, 112u8][0] == 103u8 && seq![115u8, 116u8, 97u8, 109u8, 112u8][0] == 115u8);
    assert(seq![113u8][0] == 113u8);
    assert(seq![117u8, 98u8, 105u8, 116u8, 115u8, 48u8].len() == 6);
    assert(seq![81u8][0] == 81u8);
    assert(seq![117u8, 98u8, 105u8, 116u8, 115u8, 49u8].len() == 6);
    assert(seq![119u8][0] == 119u8);
    assert(seq![117u8, 98u8, 105u8, 116u8, 115u8, 50u8].len() == 6);
    assert(seq![87u8][0] == 87u8);
    assert(seq![117u8, 98u8, 105u8, 116u8, 115u8, 51u8].len() == 6);
    assert(seq![104u8][0] == 104u8);
    assert(seq![104u8, 97u8, 115u8, 104u8].len() == 4);
    assert(seq![121u8][0] == 121u8);
    assert(seq![116u8, 121u8, 112u8, 101u8].len() == 4);
    assert(seq![111u8][0] == 111u8);
    assert(seq![112u8, 111u8, 105u8, 110u8, 116u8, 95u8, 115u8, 105u8, 122u8, 101u8].len() == 10);
    assert(seq![107u8][0] == 107u8);
    assert(seq![112u8, 117u8, 98u8, 107u8, 101u8, 121u8].len() == 6);
    assert(seq![118u8][0] == 118u8);
    assert(seq![115u8, 105u8, 103u8, 110u8, 97u8, 116u8, 117u8, 114u8, 101u8].len() == 9);
}

/// The field DomainF is found by its token byte and by its name.
proof fn lemma_id_domainf()
    ensures
        spec_from_id(seq![100u8]) == Some(FieldEnum::DomainF),
        spec_from_id(seq![100u8, 111u8, 109u8, 97u8, 105u8, 110u8]) == Some(FieldEnum::DomainF),
{
    assert(seq![100u8].len() == 1);
    assert(seq![100u8, 111u8, 109u8, 97u8, 105u8, 110u8].len() == 6);
    assert(seq![102u8][0] == 102u8);
    assert(seq![110u8, 101u8, 116u8, 102u8, 108u8, 97u8, 103u8, 115u8].len() == 8);
    assert(seq![106u8][0] == 106u8);
    assert(seq![104u8, 111u8, 112u8].len() == 3);
    assert(seq![115u8][0] == 115u8);
    assert(seq![115u8, 116u8, 97u8, 109u8, 112u8].len() == 5);
    assert(seq![113u8][0] == 113u8);
    assert(seq![117u8, 98u8, 105u8, 116u8, 115u8, 48u8].len() == 6);
    assert(seq![100u8, 111u8, 109u8, 97u8, 105u8, 110u8][0] == 100u8 && seq![117u8, 98u8, 105u8, 116u8, 115u8, 48u8][0] == 117u8);
    assert(seq![81u8][0] == 81u8);
    assert(seq![117u8, 98u8, 105u8, 116u8, 115u8, 49u8].len() == 6);
    assert(seq![100u8, 111u8, 109u8, 97u8, 105u8, 110u8][0] == 100u8 && seq![117u8, 98u8, 105u8, 116u8, 115u8, 49u8][0] == 117u8);
    assert(seq![119u8][0] == 119u8);
    assert(seq![117u8, 98u8, 105u8, 116u8, 115u8, 50u8].len() == 6);
    assert(seq![100u8, 111u8, 109u8, 97u8, 105u8, 110u8][0] == 100u8 && seq![117u8, 98u8, 105u8, 116u8, 115u8, 50u8][0] == 117u8);
    assert(seq![87u8][0] == 87u8);
    assert(seq![117u8, 98u8, 105u8, 116u8, 115u8, 51u8].len() == 6);
    assert(seq![100u8, 111u8, 109u8, 97u8, 105u8, 110u8][0] == 100u8 && seq![117u8, 98u8, 105u8, 116u8, 115u8, 51u8][0] == 117u8);
    assert(seq![104u8][0] == 104u8);
    assert(seq![104u8, 97u8, 115u8, 104u8].len() == 4);
    assert(seq![121u8][0] == 121u8);
    assert(seq![116u8, 121u8, 112u8, 101u8].len() == 4);
    assert(seq![111u8][0] == 111u8);
    assert(seq![112u8, 111u8, 105u8, 110u8, 116u8, 95u8, 115u8, 105u8, 122u8, 101u8].len() == 10);
    assert(seq![107u8][0] == 107u8);
    assert(seq![112u8, 117u8, 98u8, 107u8, 101u8, 121u8].len() == 6);
    assert(seq![100u8, 111u8, 109u8, 97u8, 105u8, 110u8][0] == 100u8 && seq![112u8, 117u8, 98u8, 107u8, 101u8, 121u8][0] == 112u8);
    assert(seq![118u8][0] == 118u8);
    assert(seq![115u8, 105u8, 103u8, 110u8, 97u8, 116u8, 117u8, 114u8, 101u8].len() == 9);
    assert(seq![103u8][0] == 103u8);
    assert(seq![103u8, 114u8, 111u8, 117u8, 112u8].len() == 5);
}

/// The field CreateF is found by its token byte and by its name.
proof fn lemma_id_createf()
    ensures
        spec_from_id(seq![99u8]) == Some(FieldEnum::CreateF),
        spec_from_id(seq![99u8, 114u8, 101u8, 97u8, 116u8, 101u8]) == Some(FieldEnum::CreateF),
{
    assert(seq![99u8].len() == 1);
    assert(seq![99u8, 114u8, 101u8, 97u8, 116u8, 101u8].len() == 6);
    assert(seq![102u8][0] == 102u8);
    assert(seq![110u8, 101u8, 116u8, 102u8, 108u8, 97u8, 103u8, 115u8].len() == 8);
    assert(seq![106u8][0] == 106u8);
    assert(seq![104u8, 111u8, 112u8].len() == 3);
    assert(seq![115u8][0] == 115u8);
    assert(seq![115u8, 116u8, 97u8, 109u8, 112u8].len() == 5);
    assert(seq![113u8][0] == 113u8);
    assert(seq![117u8, 98u8, 105u8, 116u8, 115u8, 48u8].len() == 6);
    assert(seq![99u8, 114u8, 101u8, 97u8, 116u8, 101u8][0] == 99u8 && seq![117u8, 98u8, 105u8, 116u8, 115u8, 48u8][0] == 117u8);
    assert(seq![81u8][0] == 81u8);
    assert(seq![117u8, 98u8, 105u8, 116u8, 115u8, 49u8].len() == 6);
    assert(seq![99u8, 114u8, 101u8, 97u8, 116u8, 101u8][0] == 99u8 && seq![117u8, 98u8, 105u8, 116u8, 115u8, 49u8][0] == 117u8);
    assert(seq![119u8][0] == 119u8);
    assert(seq![117u8, 98u8, 105u8, 116u8, 115u8, 50u8].len() == 6);
    assert(seq![99u8, 114u8, 101u8, 97u8, 116u8, 101u8][0] == 99u8 && seq![117u8, 98u8, 105u8, 116u8, 115u8, 50u8][0] == 117u8);
    assert(seq![87u8][0] == 87u8);
    assert(seq![117u8, 98u8, 105u8, 116u8, 115u8, 51u8].len() == 6);
    assert(seq![99u8, 114u8, 101u8, 97u8, 116u8, 101u8][0] == 99u8 && seq![117u8, 98u8, 105u8, 116u8, 115u8, 51u8][0] == 117u8);
    assert(seq![104u8][0] == 104u8);
    assert(seq![104u8, 97u8, 115u8, 104u8].len() == 4);
    assert(seq![121u8][0] == 121u8);
    assert(seq![116u8, 121u8, 112u8, 101u8].len() == 4);
    assert(seq![111u8][0] == 111u8);
    assert(seq![112u8, 111u8, 105u8, 110u8, 116u8, 95u8, 115u8, 105u8, 122u8, 101u8].len() == 10);
    assert(seq![107u8][0] == 107u8);
    assert(seq![112u8, 117u8, 98u8, 107u8, 101u8, 121u8].len() == 6);
    assert(seq![99u8, 114u8, 101u8, 97u8, 116u8, 101u8][0] == 99u8 && seq![112u8, 117u8, 98u8, 107u8, 101u8, 121u8][0] == 112u8);
    assert(seq![118u8][0] == 118u8);
    assert(seq![115u8, 105u8, 103u8, 110u8, 97u8, 116u8, 117u8, 114u8, 101u8].len() == 9);
    assert(seq![103u8][0] == 103u8);
    assert(seq![103u8, 114u8, 111u8, 117u8, 112u8].len() == 5);
    assert(seq![100u8][0] == 100u8);
    assert(seq![100u8, 111u8, 109u8, 97u8, 105u8, 110u8].len() == 6);
    assert(seq![99u8, 114u8, 101u8, 97u8, 116u8, 101u8][0] == 99u8 && seq![100u8, 111u8, 109u8, 97u8, 105u8, 110u8][0] == 100u8);
}

/// The field PathLenF is found by its token byte and by its name.
proof fn lemma_id_pathlenf()
    ensures
        spec_from_id(seq![120u8]) == Some(FieldEnum::PathLenF),
        spec_from_id(seq![112u8, 97u8, 116u8, 104u8, 95u8, 108u8, 101u8, 110u8]) == Some(FieldEnum::PathLenF),
{
    assert(seq![120u8].len() == 1);
    assert(seq![112u8, 97u8, 116u8, 104u8, 95u8, 108u8, 101u8, 110u8].len() == 8);
    assert(seq![102u8][0] == 102u8);
    assert(seq![110u8, 101u8, 116u8, 102u8, 108u8, 97u8, 103u8, 115u8].len() == 8);
    assert(seq![112u8, 97u8, 116u8, 104u8, 95u8, 108u8, 101u8, 110u8][0] == 112u8 && seq![110u8, 101u8, 116u8, 102u8, 108u8, 97u8, 103u8, 115u8][0] == 110u8);
    assert(seq![106u8][0] == 106u8);
    assert(seq![104u8, 111u8, 112u8].len() == 3);
    assert(seq![115u8][0] == 115u8);
    assert(seq![115u8, 116u8, 97u8, 109u8, 112u8].len() == 5);
    assert(seq![113u8][0] == 113u8);
    assert(seq![117u8, 98u8, 105u8, 116u8, 115u8, 48u8].len() == 6);
    assert(seq![81u8][0] == 81u8);
    assert(seq![117u8, 98u8, 105u8, 116u8, 115u8, 49u8].len() == 6);
    assert(seq![119u8][0] == 119u8);
    assert(seq![117u8, 98u8, 105u8, 116u8, 115u8, 50u8].len() == 6);
    assert(seq![87u8][0] == 87u8);
    assert(seq![117u8, 98u8, 105u8, 116u8, 115u8, 51u8].len() == 6);
    assert(seq![104u8][0] == 104u8);
    assert(seq![104u8, 97u8, 115u8, 104u8].len() == 4);
    assert(seq![121u8][0] == 121u8);
    assert(seq![116u8, 121u8, 112u8, 101u8].len() == 4);
    assert(seq![111u8][0] == 111u8);
    assert(seq![112u8, 111u8, 105u8, 110u8, 116u8, 95u8, 115u8, 105u8, 122u8, 101u8].len() == 10);
    assert(seq![107u8][0] == 107u8);
    assert(seq![112u8, 117u8, 98u8, 107u8, 101u8, 121u8].len() == 6);
    assert(seq![118u8][0] == 118u8);
    assert(seq![115u8, 105u8, 103u8, 110u8, 97u8, 116u8, 117u8, 114u8, 101u8].len() == 9);
    assert(seq![103u8][0] == 103u8);
    assert(seq![103u8, 114u8, 111u8, 117u8, 112u8].len() == 5);
    assert(seq![100u8][0] == 100u8);
    assert(seq![100u8, 111u8, 109u8, 97u8, 105u8, 110u8].len() == 6);
    assert(seq![99u8][0] == 99u8);
    assert(seq![99u8, 114u8, 101u8, 97u8, 116u8, 101u8].len() == 6);
}

/// The field LinksLenF is found by its token byte and by its name.
proof fn lemma_id_linkslenf()
    ensures
        spec_from_id(seq![108u8]) == Some(FieldEnum::LinksLenF),
        spec_from_id(seq![108u8, 105u8, 110u8, 107u8, 115u8, 95u8, 108u8, 101u8, 110u8]) == Some(FieldEnum::LinksLenF),
{
    assert(seq![108u8].len() == 1);
    assert(seq![108u8, 105u8, 110u8, 107u8, 115u8, 95u8, 108u8, 101u8, 110u8].len() == 9);
    assert(seq![102u8][0] == 102u8);
    assert(seq![110u8, 101u8, 116u8, 102u8, 108u8, 97u8, 103u8, 115u8].len() == 8);
    assert(seq![106u8][0] == 106u8);
    assert(seq![104u8, 111u8, 112u8].len() == 3);
    assert(seq![115u8][0] == 115u8);
    assert(seq![115u8, 116u8, 97u8, 109u8, 112u8].len() == 5);
    assert(seq![113u8][0] == 113u8);
    assert(seq![117u8, 98u8, 105u8, 116u8, 115u8, 48u8].len() == 6);
    assert(seq![81u8][0] == 81u8);
    assert(seq![117u8, 98u8, 105u8, 116u8, 115u8, 49u8].len() == 6);
    assert(seq![119u8][0] == 119u8);
    assert(seq![117u8, 98u8, 105u8, 116u8, 115u8, 50u8].len() == 6);
    assert(seq![87u8][0] == 87u8);
    assert(seq![117u8, 98u8, 105u8, 116u8, 115u8, 51u8].len() == 6);
    assert(seq![104u8][0] == 104u8);
    assert(seq![104u8, 97u8, 115u8, 104u8].len() == 4);
    assert(seq![121u8][0] == 121u8);
    assert(seq![116u8, 121u8, 112u8, 101u8].len() == 4);
    assert(seq![111u8][0] == 111u8);
    assert(seq![112u8, 111u8, 105u8, 110u8, 116u8, 95u8, 115u8, 105u8, 122u8, 101u8].len() == 10);
    assert(seq![107u8][0] == 107u8);
    assert(seq![112u8, 117u8, 98u8, 107u8, 101u8, 121u8].len() == 6);
    assert(seq![118u8][0] == 118u8);
    assert(seq![115u8, 105u8, 103u8, 110u8, 97u8, 116u8, 117u8, 114u8, 101u8].len() == 9);
    assert(seq![108u8, 105u8, 110u8, 107u8, 115u8, 95u8, 108u8, 101u8, 110u8][0] == 108u8 && seq![115u8, 105u8, 103u8, 110u8, 97u8, 116u8, 117u8, 114u8, 101u8][0] == 115u8);
    assert(seq![103u8][0] == 103u8);
    assert(seq![103u8, 114u8, 111u8, 117u8, 112u8].len() == 5);
    assert(seq![100u8][0] == 100u8);
    assert(seq![100u8, 111u8, 109u8, 97u8, 105u8, 110u8].len() == 6);
    assert(seq![99u8][0] == 99u8);
    assert(seq![99u8, 114u8, 101u8, 97u8, 116u8, 101u8].len() == 6);
    assert(seq![120u8][0] == 120u8);
    assert(seq![112u8, 97u8, 116u8, 104u8, 95u8, 108u8, 101u8, 110u8].len() == 8);
}

/// The field DataSizeF is found by its token byte and by its name.
proof fn lemma_id_datasizef()
    ensures
        spec_from_id(seq![66u8]) == Some(FieldEnum::DataSizeF),
        spec_from_id(seq![100u8, 97u8, 116u8, 97u8, 95u8, 115u8, 105u8, 122u8, 101u8]) == Some(FieldEnum::DataSizeF),
{
    assert(seq![66u8].len() == 1);
    assert(seq![100u8, 97u8, 116u8, 97u8, 95u8, 115u8, 105u8, 122u8, 101u8].len() == 9);
    assert(seq![102u8][0] == 102u8);
    assert(seq![110u8, 101u8, 116u8, 102u8, 108u8, 97u8, 103u8, 115u8].len() == 8);
    assert(seq![106u8][0] == 106u8);
    assert(seq![104u8, 111u8, 112u8].len() == 3);
    assert(seq![115u8][0] == 115u8);
    assert(seq![115u8, 116u8, 97u8, 109u8, 112u8].len() == 5);
    assert(seq![113u8][0] == 113u8);
    assert(seq![117u8, 98u8, 105u8, 116u8, 115u8, 48u8].len() == 6);
    assert(seq![81u8][0] == 81u8);
    assert(seq![117u8, 98u8, 105u8, 116u8, 115u8, 49u8].len() == 6);
    assert(seq![119u8][0] == 119u8);
    assert(seq![117u8, 98u8, 105u8, 116u8, 115u8, 50u8].len() == 6);
    assert(seq![87u8][0] == 87u8);
    assert(seq![117u8, 98u8, 105u8, 116u8, 115u8, 51u8].len() == 6);
    assert(seq![104u8][0] == 104u8);
    assert(seq![104u8, 97u8, 115u8, 104u8].len() == 4);
    assert(seq![121u8][0] == 121u8);
    assert(seq![116u8, 121u8, 112u8, 101u8].len() == 4);
    assert(seq![111u8][0] == 111u8);
    assert(seq![112u8, 111u8, 105u8, 110u8, 116u8, 95u8, 115u8, 105u8, 122u8, 101u8].len() == 10);
    assert(seq![107u8][0] == 107u8);
    assert(seq![112u8, 117u8, 98u8, 107u8, 101u8, 121u8].len() == 6);
    assert(seq![118u8][0] == 118u8);
    assert(seq![115u8, 105u8, 103u8, 110u8, 97u8, 116u8, 117u8, 114u8, 101u8].len() == 9);
    assert(seq![100u8, 97u8, 116u8, 97u8, 95u8, 115u8, 105u8, 122u8, 101u8][0] == 100u8 && seq![115u8, 105u8, 103u8, 110u8, 97u8, 116u8, 117u8, 114u8, 101u8][0] == 115u8);
    assert(seq![103u8][0] == 103u8);
    assert(seq![103u8, 114u8, 111u8, 117u8, 112u8].len() == 5);
    assert(seq![100u8][0] == 100u8);
    assert(seq![100u8, 111u8, 109u8, 97u8, 105u8, 110u8].len() == 6);
    assert(seq![99u8][0] == 99u8);
    assert(seq![99u8, 114u8, 101u8, 97u8, 116u8, 101u8].len() == 6);
    assert(seq![120u8][0] == 120u8);
    assert(seq![112u8, 97u8, 116u8, 104u8, 95u8, 108u8, 101u8, 110u8].len() == 8);
    assert(seq![108u8][0] == 108u8);
    assert(seq![108u8, 105u8, 110u8, 107u8, 115u8, 95u8, 108u8, 101u8, 110u8].len() == 9);
    assert(seq![100u8, 97u8, 116u8, 97u8, 95u8, 115u8, 105u8, 122u8, 101u8][0] == 100u8 && seq![108u8, 105u8, 110u8, 107u8, 115u8, 95u8, 108u8, 101u8, 110u8][0] == 108u8);
}

/// The field PathF is found by its token byte and by its name.
proof fn lemma_id_pathf()
    ensures
        spec_from_id(seq![112u8]) == Some(FieldEnum::PathF),
        spec_from_id(seq![112u8, 97u8, 116u8, 104u8]) == Some(FieldEnum::PathF),
{
    assert(seq![112u8].len() == 1);
    assert(seq![112u8, 97u8, 116u8, 104u8].len() == 4);
    assert(seq![102u8][0] == 102u8);
    assert(seq![110u8, 101u8, 116u8, 102u8, 108u8, 97u8, 103u8, 115u8].len() == 8);
    assert(seq![106u8][0] == 106u8);
    assert(seq![104u8, 111u8, 112u8].len() == 3);
    assert(seq![115u8][0] == 115u8);
    assert(seq![115u8, 116u8, 97u8, 109u8, 112u8].len() == 5);
    assert(seq![113u8][0] == 113u8);
    assert(seq![117u8, 98u8, 105u8, 116u8, 115u8, 48u8].len() == 6);
    assert(seq![81u8][0] == 81u8);
    assert(seq![117u8, 98u8, 105u8, 116u8, 115u8, 49u8].len() == 6);
    assert(seq![119u8][0] == 119u8);
    assert(seq![117u8, 98u8, 105u8, 116u8, 115u8, 50u8].len() == 6);
    assert(seq![87u8][0] == 87u8);
    assert(seq![117u8, 98u8, 105u8, 116u8, 115u8, 51u8].len() == 6);
    assert(seq![104u8][0] == 104u8);
    assert(seq![104u8, 97u8, 115u8, 104u8].len() == 4);
    assert(seq![112u8, 97u8, 116u8, 104u8][0] == 112u8 && seq![104u8, 97u8, 115u8, 104u8][0] == 104u8);
    assert(seq![121u8][0] == 121u8);
    assert(seq![116u8, 121u8, 112u8, 101u8].len() == 4);
    assert(seq![112u8, 97u8, 116u8, 104u8][0] == 112u8 && seq![116u8, 121u8, 112u8, 101u8][0] == 116u8);
    assert(seq![111u8][0] == 111u8);
    assert(seq![112u8, 111u8, 105u8, 110u8, 116u8, 95u8, 115u8, 105u8, 122u8, 101u8].len() == 10);
    assert(seq![107u8][0] == 107u8);
    assert(seq![112u8, 117u8, 98u8, 107u8, 101u8, 121u8].len() == 6);
    assert(seq![118u8][0] == 118u8);
    assert(seq![115u8, 105u8, 103u8, 110u8, 97u8, 116u8, 117u8, 114u8, 101u8].len() == 9);
    assert(seq![103u8][0] == 103u8);
    assert(seq![103u8, 114u8, 111u8, 117u8, 112u8].len() == 5);
    assert(seq![100u8][0] == 100u8);
    assert(seq![100u8, 111u8, 109u8, 97u8, 105u8, 110u8].len() == 6);
    assert(seq![99u8][0] == 99u8);
    assert(seq![99u8, 114u8, 101u8, 97u8, 116u8, 101u8].len() == 6);
    assert(seq![120u8][0] == 120u8);
    assert(seq![112u8, 97u8, 116u8, 104u8, 95u8, 108u8, 101u8, 110u8].len() == 8);
    assert(seq![108u8][0] == 108u8);
    assert(seq![108u8, 105u8, 110u8, 107u8, 115u8, 95u8, 108u8, 101u8, 110u8].len() == 9);
    assert(seq![66u8][0] == 66u8);
    assert(seq![100u8, 97u8, 116u8, 97u8, 95u8, 115u8, 105u8, 122u8, 101u8].len() == 9);
}

/// The field PathComp0F is found by its token byte and by its name.
proof fn lemma_id_pathcomp0f()
    ensures
        spec_from_id(seq![48u8]) == Some(FieldEnum::PathComp0F),
        spec_from_id(seq![99u8, 111u8, 109u8, 112u8, 48u8]) == Some(FieldEnum::PathComp0F),
{
    assert(seq![48u8].len() == 1);
    assert(seq![99u8, 111u8, 109u8, 112u8, 48u8].len() == 5);
    assert(seq![102u8][0] == 102u8);
    assert(seq![110u8, 101u8, 116u8, 102u8, 108u8, 97u8, 103u8, 115u8].len() == 8);
    assert(seq![106u8][0] == 106u8);
    assert(seq![104u8, 111u8, 112u8].len() == 3);
    assert(seq![115u8][0] == 115u8);
    assert(seq![115u8, 116u8, 97u8, 109u8, 112u8].len() == 5);
    assert(seq![99u8, 111u8, 109u8, 112u8, 48u8][0] == 99u8 && seq![115u8, 116u8, 97u8, 109u8, 112u8][0] == 115u8);
    assert(seq![113u8][0] == 113u8);
    assert(seq![117u8, 98u8, 105u8, 116u8, 115u8, 48u8].len() == 6);
    assert(seq![81u8][0] == 81u8);
    assert(seq![117u8, 98u8, 105u8, 116u8, 115u8, 49u8].len() == 6);
    assert(seq![119u8][0] == 119u8);
    assert(seq![117u8, 98u8, 105u8, 116u8, 115u8, 50u8].len() == 6);
    assert(seq![87u8][0] == 87u8);
    assert(seq![117u8, 98u8, 105u8, 116u8, 115u8, 51u8].len() == 6);
    assert(seq![104u8][0] == 104u8);
    assert(seq![104u8, 97u8, 115u8, 104u8].len() == 4);
    assert(seq![121u8][0] == 121u8);
    assert(seq![116u8, 121u8, 112u8, 101u8].len() == 4);
    assert(seq![111u8][0] == 111u8);
    assert(seq![112u8, 111u8, 105u8, 110u8, 116u8, 95u8, 115u8, 105u8, 122u8, 101u8].len() == 10);
    assert(seq![107u8][0] == 107u8);
    assert(seq![112u8, 117u8, 98u8, 107u8, 101u8, 121u8].len() == 6);
    assert(seq![118u8][0] == 118u8);
    assert(seq![115u8, 105u8, 103u8, 110u8, 97u8, 116u8, 117u8, 114u8, 101u8].len() == 9);
    assert(seq![103u8][0] == 103u8);
    assert(seq![103u8, 114u8, 111u8, 117u8, 112u8].len() == 5);
    assert(seq![99u8, 111u8, 109u8, 112u8, 48u8][0] == 99u8 && seq![103u8, 114u8, 111u8, 117u8, 112u8][0] == 103u8);
    assert(seq![100u8][0] == 100u8);
    assert(seq![100u8, 111u8, 109u8, 97u8, 105u8, 110u8].len() == 6);
    assert(seq![99u8][0] == 99u8);
    assert(seq![99u8, 114u8, 101u8, 97u8, 116u8, 101u8].len() == 6);
    assert(seq![120u8][0] == 120u8);
    assert(seq![112u8, 97u8, 116u8, 104u8, 95u8, 108u8, 101u8, 110u8].len() == 8);
    assert(seq![108u8][0] == 108u8);
    assert(seq![108u8, 105u8, 110u8, 107u8, 115u8, 95u8, 108u8, 101u8, 110u8].len() == 9);
    assert(seq![66u8][0] == 66u8);
    assert(seq![100u8, 97u8, 116u8, 97u8, 95u8, 115u8, 105u8, 122u8, 101u8].len() == 9);
    assert(seq![112u8][0] == 112u8);
    assert(seq![112u8, 97u8, 116u8, 104u8].len() == 4);
}

/// The field PathComp1F is found by its token byte and by its name.
proof fn lemma_id_pathcomp1f()
    ensures
        spec_from_id(seq![49u8]) == Some(FieldEnum::PathComp1F),
        spec_from_id(seq![99u8, 111u8, 109u8, 112u8, 49u8]) == Some(FieldEnum::PathComp1F),
{
    assert(seq![49u8].len() == 1);
    assert(seq![99u8, 111u8, 109u8, 112u8, 49u8].len() == 5);
    assert(seq![102u8][0] == 102u8);
    assert(seq![110u8, 101u8, 116u8, 102u8, 108u8, 97u8, 103u8, 115u8].len() == 8);
    assert(seq![106u8][0] == 106u8);
    assert(seq![104u8, 111u8, 112u8].len() == 3);
    assert(seq![115u8][0] == 115u8);
    assert(seq![115u8, 116u8, 97u8, 109u8, 112u8].len() == 5);
    assert(seq![99u8, 111u8, 109u8, 112u8, 49u8][0] == 99u8 && seq![115u8, 116u8, 97u8, 109u8, 112u8][0] == 115u8);
    assert(seq![113u8][0] == 113u8);
    assert(seq![117u8, 98u8, 105u8, 116u8, 115u8, 48u8].len() == 6);
    assert(seq![81u8][0] == 81u8);
    assert(seq![117u8, 98u8, 105u8, 116u8, 115u8, 49u8].len() == 6);
    assert(seq![119u8][0] == 119u8);
    assert(seq![117u8, 98u8, 105u8, 116u8, 115u8, 50u8].len() == 6);
    assert(seq![87u8][0] == 87u8);
    assert(seq![117u8, 98u8, 105u8, 116u8, 115u8, 51u8].len() == 6);
    assert(seq![104u8][0] == 104u8);
    assert(seq![104u8, 97u8, 115u8, 104u8].len() == 4);
    assert(seq![121u8][0] == 121u8);
    assert(seq![116u8, 121u8, 112u8, 101u8].len() == 4);
    assert(seq![111u8][0] == 111u8);
    assert(seq![112u8, 111u8, 105u8, 110u8, 116u8, 95u8, 115u8, 105u8, 122u8, 101u8].len() == 10);
    assert(seq![107u8][0] == 107u8);
    assert(seq![112u8, 117u8, 98u8, 107u8, 101u8, 121u8].len() == 6);
    assert(seq![118u8][0] == 118u8);
    assert(seq![115u8, 105u8, 103u8, 110u8, 97u8, 116u8, 117u8, 114u8, 101u8].len() == 9);
    assert(seq![103u8][0] == 103u8);
    assert(seq![103u8, 114u8, 111u8, 117u8, 112u8].len() == 5);
    assert(seq![99u8, 111u8, 109u8, 112u8, 49u8][0] == 99u8 && seq![103u8, 114u8, 111u8, 117u8, 112u8][0] == 103u8);
    assert(seq![100u8][0] == 100u8);
    assert(seq![100u8, 111u8, 109u8, 97u8, 105u8, 110u8].len() == 6);
    assert(seq![99u8][0] == 99u8);
    assert(seq![99u8, 114u8, 101u8, 97u8, 116u8, 101u8].len() == 6);
    assert(seq![120u8][0] == 120u8);
    assert(seq![112u8, 97u8, 116u8, 104u8, 95u8, 108u8, 101u8, 110u8].len() == 8);
    assert(seq![108u8][0] == 108u8);
    assert(seq![108u8, 105u8, 110u8, 107u8, 115u8, 95u8, 108u8, 101u8, 110u8].len() == 9);
    assert(seq![66u8][0] == 66u8);
    assert(seq![100u8, 97u8, 116u8, 97u8, 95u8, 115u8, 105u8, 122u8, 101u8].len() == 9);
    assert(seq![112u8][0] == 112u8);
    assert(seq![112u8, 97u8, 116u8, 104u8].len() == 4);
    assert(seq![48u8][0] == 48u8);
    assert(seq![99u8, 111u8, 109u8, 112u8, 48u8].len() == 5);
    assert(seq![99u8, 111u8, 109u8, 112u8, 49u8][4] == 49u8 && seq![99u8, 111u8, 109u8, 112u8, 48u8][4] == 48u8);
}

/// The field PathComp2F is found by its token byte and by its name.
proof fn lemma_id_pathcomp2f()
    ensures
        spec_from_id(seq![50u8]) == Some(FieldEnum::PathComp2F),
        spec_from_id(seq![99u8, 111u8, 109u8, 112u8, 50u8]) == Some(FieldEnum::PathComp2F),
{
    assert(seq![50u8].len() == 1);
    assert(seq![99u8, 111u8, 109u8, 112u8, 50u8].len() == 5);
    assert(seq![102u8][0] == 102u8);
    assert(seq![110u8, 101u8, 116u8, 102u8, 108u8, 97u8, 103u8, 115u8].len() == 8);
    assert(seq![106u8][0] == 106u8);
    assert(seq![104u8, 111u8, 112u8].len() == 3);
    assert(seq![115u8][0] == 115u8);
    assert(seq![115u8, 116u8, 97u8, 109u8, 112u8].len() == 5);
    assert(seq![99u8, 111u8, 109u8, 112u8, 50u8][0] == 99u8 && seq![115u8, 116u8, 97u8, 109u8, 112u8][0] == 115u8);
    assert(seq![113u8][0] == 113u8);
    assert(seq![117u8, 98u8, 105u8, 116u8, 115u8, 48u8].len() == 6);
    assert(seq![81u8][0] == 81u8);
    assert(seq![117u8, 98u8, 105u8, 116u8, 115u8, 49u8].len() == 6);
    assert(seq![119u8][0] == 119u8);
    assert(seq![117u8, 98u8, 105u8, 116u8, 115u8, 50u8].len() == 6);
    assert(seq![87u8][0] == 87u8);
    assert(seq![117u8, 98u8, 105u8, 116u8, 115u8, 51u8].len() == 6);
    assert(seq![104u8][0] == 104u8);
    assert(seq![104u8, 97u8, 115u8, 104u8].len() == 4);
    assert(seq![121u8][0] == 121u8);
    assert(seq![116u8, 121u8, 112u8, 101u8].len() == 4);
    assert(seq![111u8][0] == 111u8);
    assert(seq![112u8, 111u8, 105u8, 110u8, 116u8, 95u8, 115u8, 105u8, 122u8, 101u8].len() == 10);
    assert(seq![107u8][0] == 107u8);
    assert(seq![112u8, 117u8, 98u8, 107u8, 101u8, 121u8].len() == 6);
    assert(seq![118u8][0] == 118u8);
    assert(seq![115u8, 105u8, 103u8, 110u8, 97u8, 116u8, 117u8, 114u8, 101u8].len() == 9);
    assert(seq![103u8][0] == 103u8);
    assert(seq![103u8, 114u8, 111u8, 117u8, 112u8].len() == 5);
    assert(seq![99u8, 111u8, 109u8, 112u8, 50u8][0] == 99u8 && seq![103u8, 114u8, 111u8, 117u8, 112u8][0] == 103u8);
    assert(seq![100u8][0] == 100u8);
    assert(seq![100u8, 111u8, 109u8, 97u8, 105u8, 110u8].len() == 6);
    assert(seq![99u8][0] == 99u8);
    assert(seq![99u8, 114u8, 101u8, 97u8, 116u8, 101u8].len() == 6);
    assert(seq![120u8][0] == 120u8);
    assert(seq![112u8, 97u8, 116u8, 104u8, 95u8, 108u8, 101u8, 110u8].len() == 8);
    assert(seq![108u8][0] == 108u8);
    assert(seq![108u8, 105u8, 110u8, 107u8, 115u8, 95u8, 108u8, 101u8, 110u8].len() == 9);
    assert(seq![66u8][0] == 66u8);
    assert(seq![100u8, 97u8, 116u8, 97u8, 95u8, 115u8, 105u8, 122u8, 101u8].len() == 9);
    assert(seq![112u8][0] == 112u8);
    assert(seq![112u8, 97u8, 116u8, 104u8].len() == 4);
    assert(seq![48u8][0] == 48u8);
    assert(seq![99u8, 111u8, 109u8, 112u8, 48u8].len() == 5);
    assert(seq![99u8, 111u8, 109u8, 112u8, 50u8][4] == 50u8 && seq![99u8, 111u8, 109u8, 112u8, 48u8][4] == 48u8);
    assert(seq![49u8][0] == 49u8);
    assert(seq![99u8, 111u8, 109u8, 112u8, 49u8].len() == 5);
    assert(seq![99u8, 111u8, 109u8, 112u8, 50u8][4] == 50u8 && seq![99u8, 111u8, 109u8, 112u8, 49u8][4] == 49u8);
}

/// The field PathComp3F is found by its token byte and by its name.
proof fn lemma_id_pathcomp3f()
    ensures
        spec_from_id(seq![51u8]) == Some(FieldEnum::PathComp3F),
        spec_from_id(seq![99u8, 111u8, 109u8, 112u8, 51u8]) == Some(FieldEnum::PathComp3F),
{
    assert(seq![51u8].len() == 1);
    assert(seq![99u8, 111u8, 109u8, 112u8, 51u8].len() == 5);
    assert(seq![102u8][0] == 102u8);
    assert(seq![110u8, 101u8, 116u8, 102u8, 108u8, 97u8, 103u8, 115u8].len() == 8);
    assert(seq![106u8][0] == 106u8);
    assert(seq![104u8, 111u8, 112u8].len() == 3);
    assert(seq![115u8][0] == 115u8);
    assert(seq![115u8, 116u8, 97u8, 109u8, 112u8].len() == 5);
    assert(seq![99u8, 111u8, 109u8, 112u8, 51u8][0] == 99u8 && seq![115u8, 116u8, 97u8, 109u8, 112u8][0] == 115u8);
    assert(seq![113u8][0] == 113u8);
    assert(seq![117u8, 98u8, 105u8, 116u8, 115u8, 48u8].len() == 6);
    assert(seq![81u8][0] == 81u8);
    assert(seq![117u8, 98u8, 105u8, 116u8, 115u8, 49u8].len() == 6);
    assert(seq![119u8][0] == 119u8);
    assert(seq![117u8, 98u8, 105u8, 116u8, 115u8, 50u8].len() == 6);
    assert(seq![87u8][0] == 87u8);
    assert(seq![117u8, 98u8, 105u8, 116u8, 115u8, 51u8].len() == 6);
    assert(seq![104u8][0] == 104u8);
    assert(seq![104u8, 97u8, 115u8, 104u8].len() == 4);
    assert(seq![121u8][0] == 121u8);
    assert(seq![116u8, 121u8, 112u8, 101u8].len() == 4);
    assert(seq![111u8][0] == 111u8);
    assert(seq![112u8, 111u8, 105u8, 110u8, 116u8, 95u8, 115u8, 105u8, 122u8, 101u8].len() == 10);
    assert(seq![107u8][0] == 107u8);
    assert(seq![112u8, 117u8, 98u8, 107u8, 101u8, 121u8].len() == 6);
    assert(seq![118u8][0] == 118u8);
    assert(seq![115u8, 105u8, 103u8, 110u8, 97u8, 116u8, 117u8, 114u8, 101u8].len() == 9);
    assert(seq![103u8][0] == 103u8);
    assert(seq![103u8, 114u8, 111u8, 117u8, 112u8].len() == 5);
    assert(seq![99u8, 111u8, 109u8, 112u8, 51u8][0] == 99u8 && seq![103u8, 114u8, 111u8, 117u8, 112u8][0] == 103u8);
    assert(seq![100u8][0] == 100u8);
    assert(seq![100u8, 111u8, 109u8, 97u8, 105u8, 110u8].len() == 6);
    assert(seq![99u8][0] == 99u8);
    assert(seq![99u8, 114u8, 101u8, 97u8, 116u8, 101u8].len() == 6);
    assert(seq![120u8][0] == 120u8);
    assert(seq![112u8, 97u8, 116u8, 104u8, 95u8, 108u8, 101u8, 110u8].len() == 8);
    assert(seq![108u8][0] == 108u8);
    assert(seq![108u8, 105u8, 110u8, 107u8, 115u8, 95u8, 108u8, 101u8, 110u8].len() == 9);
    assert(seq![66u8][0] == 66u8);
    assert(seq![100u8, 97u8, 116u8, 97u8, 95u8, 115u8, 105u8, 122u8, 101u8].len() == 9);
    assert(seq![112u8][0] == 112u8);
    assert(seq![112u8, 97u8, 116u8, 104u8].len() == 4);
    assert(seq![48u8][0] == 48u8);
    assert(seq![99u8, 111u8, 109u8, 112u8, 48u8].len() == 5);
    assert(seq![99u8, 111u8, 109u8, 112u8, 51u8][4] == 51u8 && seq![99u8, 111u8, 109u8, 112u8, 48u8][4] == 48u8);
    assert(seq![49u8][0] == 49u8);
    assert(seq![99u8, 111u8, 109u8, 112u8, 49u8].len() == 5);
    assert(seq![99u8, 111u8, 109u8, 112u8, 51u8][4] == 51u8 && seq![99u8, 111u8, 109u8, 112u8, 49u8][4] == 49u8);
    assert(seq![50u8][0] == 50u8);
    assert(seq![99u8, 111u8, 109u8, 112u8, 50u8].len() == 5);
    assert(seq![99u8, 111u8, 109u8, 112u8, 51u8][4] == 51u8 && seq![99u8, 111u8, 109u8, 112u8, 50u8][4] == 50u8);
}

/// The field PathComp4F is found by its token byte and by its name.
proof fn lemma_id_pathcomp4f()
    ensures
        spec_from_id(seq![52u8]) == Some(FieldEnum::PathComp4F),
        spec_from_id(seq![99u8, 111u8, 109u8, 112u8, 52u8]) == Some(FieldEnum::PathComp4F),
{
    assert(seq![52u8].len() == 1);
    assert(seq![99u8, 111u8, 109u8, 112u8, 52u8].len() == 5);
    assert(seq![102u8][0] == 102u8);
    assert(seq![110u8, 101u8, 116u8, 102u8, 108u8, 97u8, 103u8, 115u8].len() == 8);
    assert(seq![106u8][0] == 106u8);
    assert(seq![104u8, 111u8, 112u8].len() == 3);
    assert(seq![115u8][0] == 115u8);
    assert(seq![115u8, 116u8, 97u8, 109u8, 112u8].len() == 5);
    assert(seq![99u8, 111u8, 109u8, 112u8, 52u8][0] == 99u8 && seq![115u8, 116u8, 97u8, 109u8, 112u8][0] == 115u8);
    assert(seq![113u8][0] == 113u8);
    assert(seq![117u8, 98u8, 105u8, 116u8, 115u8, 48u8].len() == 6);
    assert(seq![81u8][0] == 81u8);
    assert(seq![117u8, 98u8, 105u8, 116u8, 115u8, 49u8].len() == 6);
    assert(seq![119u8][0] == 119u8);
    assert(seq![117u8, 98u8, 105u8, 116u8, 115u8, 50u8].len() == 6);
    assert(seq![87u8][0] == 87u8);
    assert(seq![117u8, 98u8, 105u8, 116u8, 115u8, 51u8].len() == 6);
    assert(seq![104u8][0] == 104u8);
    assert(seq![104u8, 97u8, 115u8, 104u8].len() == 4);
    assert(seq![121u8][0] == 121u8);
    assert(seq![116u8, 121u8, 112u8, 101u8].len() == 4);
    assert(seq![111u8][0] == 111u8);
    assert(seq![112u8, 111u8, 105u8, 110u8, 116u8, 95u8, 115u8, 105u8, 122u8, 101u8].len() == 10);
    assert(seq![107u8][0] == 107u8);
    assert(seq![112u8, 117u8, 98u8, 107u8, 101u8, 121u8].len() == 6);
    assert(seq![118u8][0] == 118u8);
    assert(seq![115u8, 105u8, 103u8, 110u8, 97u8, 116u8, 117u8, 114u8, 101u8].len() == 9);
    assert(seq![103u8][0] == 103u8);
    assert(seq![103u8, 114u8, 111u8, 117u8, 112u8].len() == 5);
    assert(seq![99u8, 111u8, 109u8, 112u8, 52u8][0] == 99u8 && seq![103u8, 114u8, 111u8, 117u8, 112u8][0] == 103u8);
    assert(seq![100u8][0] == 100u8);
    assert(seq![100u8, 111u8, 109u8, 97u8, 105u8, 110u8].len() == 6);
    assert(seq![99u8][0] == 99u8);
    assert(seq![99u8, 114u8, 101u8, 97u8, 116u8, 101u8].len() == 6);
    assert(seq![120u8][0] == 120u8);
    assert(seq![112u8, 97u8, 116u8, 104u8, 95u8, 108u8, 101u8, 110u8].len() == 8);
    assert(seq![108u8][0] == 108u8);
    assert(seq![108u8, 105u8, 110u8, 107u8, 115u8, 95u8, 108u8, 101u8, 110u8].len() == 9);
    assert(seq![66u8][0] == 66u8);
    assert(seq![100u8, 97u8, 116u8, 97u8, 95u8, 115u8, 105u8, 122u8, 101u8].len() == 9);
    assert(seq![112u8][0] == 112u8);
    assert(seq![112u8, 97u8, 116u8, 104u8].len() == 4);
    assert(seq![48u8][0] == 48u8);
    assert(seq![99u8, 111u8, 109u8, 112u8, 48u8].len() == 5);
    assert(seq![99u8, 111u8, 109u8, 112u8, 52u8][4] == 52u8 && seq![99u8, 111u8, 109u8, 112u8, 48u8][4] == 48u8);
    assert(seq![49u8][0] == 49u8);
    assert(seq![99u8, 111u8, 109u8, 112u8, 49u8].len() == 5);
    assert(seq![99u8, 111u8, 109u8, 112u8, 52u8][4] == 52u8 && seq![99u8, 111u8, 109u8, 112u8, 49u8][4] == 49u8);
    assert(seq![50u8][0] == 50u8);
    assert(seq![99u8, 111u8, 109u8, 112u8, 50u8].len() == 5);
    assert(seq![99u8, 111u8, 109u8, 112u8, 52u8][4] == 52u8 && seq![99u8, 111u8, 109u8, 112u8, 50u8][4] == 50u8);
    assert(seq![51u8][0] == 51u8);
    assert(seq![99u8, 111u8, 109u8, 112u8, 51u8].len() == 5);
    assert(seq![99u8, 111u8, 109u8, 112u8, 52u8][4] == 52u8 && seq![99u8, 111u8, 109u8, 112u8, 51u8][4] == 51u8);
}

/// The field PathComp5F is found by its token byte and by its name.
proof fn lemma_id_pathcomp5f()
    ensures
        spec_from_id(seq![53u8]) == Some(FieldEnum::PathComp5F),
        spec_from_id(seq![99u8, 111u8, 109u8, 112u8, 53u8]) == Some(FieldEnum::PathComp5F),
{
    assert(seq![53u8].len() == 1);
    assert(seq![99u8, 111u8, 109u8, 112u8, 53u8].len() == 5);
    assert(seq![102u8][0] == 102u8);
    assert(seq![110u8, 101u8, 116u8, 102u8, 108u8, 97u8, 103u8, 115u8].len() == 8);
    assert(seq![106u8][0] == 106u8);
    assert(seq![104u8, 111u8, 112u8].len() == 3);
    assert(seq![115u8][0] == 115u8);
    assert(seq![115u8, 116u8, 97u8, 109u8, 112u8].len() == 5);
    assert(seq![99u8, 111u8, 109u8, 112u8, 53u8][0] == 99u8 && seq![115u8, 116u8, 97u8, 109u8, 112u8][0] == 115u8);
    assert(seq![113u8][0] == 113u8);
    assert(seq![117u8, 98u8, 105u8, 116u8, 115u8, 48u8].len() == 6);
    assert(seq![81u8][0] == 81u8);
    assert(seq![117u8, 98u8, 105u8, 116u8, 115u8, 49u8].len() == 6);
    assert(seq![119u8][0] == 119u8);
    assert(seq![117u8, 98u8, 105u8, 116u8, 115u8, 50u8].len() == 6);
    assert(seq![87u8][0] == 87u8);
    assert(seq![117u8, 98u8, 105u8, 116u8, 115u8, 51u8].len() == 6);
    assert(seq![104u8][0] == 104u8);
    assert(seq![104u8, 97u8, 115u8, 104u8].len() == 4);
    assert(seq![121u8][0] == 121u8);
    assert(seq![116u8, 121u8, 112u8, 101u8].len() == 4);
    assert(seq![111u8][0] == 111u8);
    assert(seq![112u8, 111u8, 105u8, 110u8, 116u8, 95u8, 115u8, 105u8, 122u8, 101u8].len() == 10);
    assert(seq![107u8][0] == 107u8);
    assert(seq![112u8, 117u8, 98u8, 107u8, 101u8, 121u8].len() == 6);
    assert(seq![118u8][0] == 118u8);
    assert(seq![115u8, 105u8, 103u8, 110u8, 97u8, 116u8, 117u8, 114u8, 101u8].len() == 9);
    assert(seq![103u8][0] == 103u8);
    assert(seq![103u8, 114u8, 111u8, 117u8, 112u8].len() == 5);
    assert(seq![99u8, 111u8, 109u8, 112u8, 53u8][0] == 99u8 && seq![103u8, 114u8, 111u8, 117u8, 112u8][0] == 103u8);
    assert(seq![100u8][0] == 100u8);
    assert(seq![100u8, 111u8, 109u8, 97u8, 105u8, 110u8].len() == 6);
    assert(seq![99u8][0] == 99u8);
    assert(seq![99u8, 114u8, 101u8, 97u8, 116u8, 101u8].len() == 6);
    assert(seq![120u8][0] == 120u8);
    assert(seq![112u8, 97u8, 116u8, 104u8, 95u8, 108u8, 101u8, 110u8].len() == 8);
    assert(seq![108u8][0] == 108u8);
    assert(seq![108u8, 105u8, 110u8, 107u8, 115u8, 95u8, 108u8, 101u8, 110u8].len() == 9);
    assert(seq![66u8][0] == 66u8);
    assert(seq![100u8, 97u8, 116u8, 97u8, 95u8, 115u8, 105u8, 122u8, 101u8].len() == 9);
    assert(seq![112u8][0] == 112u8);
    assert(seq![112u8, 97u8, 116u8, 104u8].len() == 4);
    assert(seq![48u8][0] == 48u8);
    assert(seq![99u8, 111u8, 109u8, 112u8, 48u8].len() == 5);
    assert(seq![99u8, 111u8, 109u8, 112u8, 53u8][4] == 53u8 && seq![99u8, 111u8, 109u8, 112u8, 48u8][4] == 48u8);
    assert(seq![49u8][0] == 49u8);
    assert(seq![99u8, 111u8, 109u8, 112u8, 49u8].len() == 5);
    assert(seq![99u8, 111u8, 109u8, 112u8, 53u8][4] == 53u8 && seq![99u8, 111u8, 109u8, 112u8, 49u8][4] == 49u8);
    assert(seq![50u8][0] == 50u8);
    assert(seq![99u8, 111u8, 109u8, 112u8, 50u8].len() == 5);
    assert(seq![99u8, 111u8, 109u8, 112u8, 53u8][4] == 53u8 && seq![99u8, 111u8, 109u8, 112u8, 50u8][4] == 50u8);
    assert(seq![51u8][0] == 51u8);
    assert(seq![99u8, 111u8, 109u8, 112u8, 51u8].len() == 5);
    assert(seq![99u8, 111u8, 109u8, 112u8, 53u8][4] == 53u8 && seq![99u8, 111u8, 109u8, 112u8, 51u8][4] == 51u8);
    assert(seq![52u8][0] == 52u8);
    assert(seq![99u8, 111u8, 109u8, 112u8, 52u8].len() == 5);
    assert(seq![99u8, 111u8, 109u8, 112u8, 53u8][4] == 53u8 && seq![99u8, 111u8, 109u8, 112u8, 52u8][4] == 52u8);
}

/// The field PathComp6F is found by its token byte and by its name.
proof fn lemma_id_pathcomp6f()
    ensures
        spec_from_id(seq![54u8]) == Some(FieldEnum::PathComp6F),
        spec_from_id(seq![99u8, 111u8, 109u8, 112u8, 54u8]) == Some(FieldEnum::PathComp6F),
{
    assert(seq![54u8].len() == 1);
    assert(seq![99u8, 111u8, 109u8, 112u8, 54u8].len() == 5);
    assert(seq![102u8][0] == 102u8);
    assert(seq![110u8, 101u8, 116u8, 102u8, 108u8, 97u8, 103u8, 115u8].len() == 8);
    assert(seq![106u8][0] == 106u8);
    assert(seq![104u8, 111u8, 112u8].len() == 3);
    assert(seq![115u8][0] == 115u8);
    assert(seq![115u8, 116u8, 97u8, 109u8, 112u8].len() == 5);
    assert(seq![99u8, 111u8, 109u8, 112u8, 54u8][0] == 99u8 && seq![115u8, 116u8, 97u8, 109u8, 112u8][0] == 115u8);
    assert(seq![113u8][0] == 113u8);
    assert(seq![117u8, 98u8, 105u8, 116u8, 115u8, 48u8].len() == 6);
    assert(seq![81u8][0] == 81u8);
    assert(seq![117u8, 98u8, 105u8, 116u8, 115u8, 49u8].len() == 6);
    assert(seq![119u8][0] == 119u8);
    assert(seq![117u8, 98u8, 105u8, 116u8, 115u8, 50u8].len() == 6);
    assert(seq![87u8][0] == 87u8);
    assert(seq![117u8, 98u8, 105u8, 116u8, 115u8, 51u8].len() == 6);
    assert(seq![104u8][0] == 104u8);
    assert(seq![104u8, 97u8, 115u8, 104u8].len() == 4);
    assert(seq![121u8][0] == 121u8);
    assert(seq![116u8, 121u8, 112u8, 101u8].len() == 4);
    assert(seq![111u8][0] == 111u8);
    assert(seq![112u8, 111u8, 105u8, 110u8, 116u8, 95u8, 115u8, 105u8, 122u8, 101u8].len() == 10);
    assert(seq![107u8][0] == 107u8);
    assert(seq![112u8, 117u8, 98u8, 107u8, 101u8, 121u8].len() == 6);
    assert(seq![118u8][0] == 118u8);
    assert(seq![115u8, 105u8, 103u8, 110u8, 97u8, 116u8, 117u8, 114u8, 101u8].len() == 9);
    assert(seq![103u8][0] == 103u8);
    assert(seq![103u8, 114u8, 111u8, 117u8, 112u8].len() == 5);
    assert(seq![99u8, 111u8, 109u8, 112u8, 54u8][0] == 99u8 && seq![103u8, 114u8, 111u8, 117u8, 112u8][0] == 103u8);
    assert(seq![100u8][0] == 100u8);
    assert(seq![100u8, 111u8, 109u8, 97u8, 105u8, 110u8].len() == 6);
    assert(seq![99u8][0] == 99u8);
    assert(seq![99u8, 114u8, 101u8, 97u8, 116u8, 101u8].len() == 6);
    assert(seq![120u8][0] == 120u8);
    assert(seq![112u8, 97u8, 116u8, 104u8, 95u8, 108u8, 101u8, 110u8].len() == 8);
    assert(seq![108u8][0] == 108u8);
    assert(seq![108u8, 105u8, 110u8, 107u8, 115u8, 95u8, 108u8, 101u8, 110u8].len() == 9);
    assert(seq![66u8][0] == 66u8);
    assert(seq![100u8, 97u8, 116u8, 97u8, 95u8, 115u8, 105u8, 122u8, 101u8].len() == 9);
    assert(seq![112u8][0] == 112u8);
    assert(seq![112u8, 97u8, 116u8, 104u8].len() == 4);
    assert(seq![48u8][0] == 48u8);
    assert(seq![99u8, 111u8, 109u8, 112u8, 48u8].len() == 5);
    assert(seq![99u8, 111u8, 109u8, 112u8, 54u8][4] == 54u8 && seq![99u8, 111u8, 109u8, 112u8, 48u8][4] == 48u8);
    assert(seq![49u8][0] == 49u8);
    assert(seq![99u8, 111u8, 109u8, 112u8, 49u8].len() == 5);
    assert(seq![99u8, 111u8, 109u8, 112u8, 54u8][4] == 54u8 && seq![99u8, 111u8, 109u8, 112u8, 49u8][4] == 49u8);
    assert(seq![50u8][0] == 50u8);
    assert(seq![99u8, 111u8, 109u8, 112u8, 50u8].len() == 5);
    assert(seq![99u8, 111u8, 109u8, 112u8, 54u8][4] == 54u8 && seq![99u8, 111u8, 109u8, 112u8, 50u8][4] == 50u8);
    assert(seq![51u8][0] == 51u8);
    assert(seq![99u8, 111u8, 109u8, 112u8, 51u8].len() == 5);
    assert(seq![99u8, 111u8, 109u8, 112u8, 54u8][4] == 54u8 && seq![99u8, 111u8, 109u8, 112u8, 51u8][4] == 51u8);
    assert(seq![52u8][0] == 52u8);
    assert(seq![99u8, 111u8, 109u8, 112u8, 52u8].len() == 5);
    assert(seq![99u8, 111u8, 109u8, 112u8, 54u8][4] == 54u8 && seq![99u8, 111u8, 109u8, 112u8, 52u8][4] == 52u8);
    assert(seq![53u8][0] == 53u8);
    assert(seq![99u8, 111u8, 109u8, 112u8, 53u8].len() == 5);
    assert(seq![99u8, 111u8, 109u8, 112u8, 54u8][4] == 54u8 && seq![99u8, 111u8, 109u8, 112u8, 53u8][4] == 53u8);
}

/// The field PathComp7F is found by its token byte and by its name.
proof fn lemma_id_pathcomp7f()
    ensures
        spec_from_id(seq![55u8]) == Some(FieldEnum::PathComp7F),
        spec_from_id(seq![99u8, 111u8, 109u8, 112u8, 55u8]) == Some(FieldEnum::PathComp7F),
{
    assert(seq![55u8].len() == 1);
    assert(seq![99u8, 111u8, 109u8, 112u8, 55u8].len() == 5);
    assert(seq![102u8][0] == 102u8);
    assert(seq![110u8, 101u8, 116u8, 102u8, 108u8, 97u8, 103u8, 115u8].len() == 8);
    assert(seq![106u8][0] == 106u8);
    assert(seq![104u8, 111u8, 112u8].len() == 3);
    assert(seq![115u8][0] == 115u8);
    assert(seq![115u8, 116u8, 97u8, 109u8, 112u8].len() == 5);
    assert(seq![99u8, 111u8, 109u8, 112u8, 55u8][0] == 99u8 && seq![115u8, 116u8, 97u8, 109u8, 112u8][0] == 115u8);
    assert(seq![113u8][0] == 113u8);
    assert(seq![117u8, 98u8, 105u8, 116u8, 115u8, 48u8].len() == 6);
    assert(seq![81u8][0] == 81u8);
    assert(seq![117u8, 98u8, 105u8, 116u8, 115u8, 49u8].len() == 6);
    assert(seq![119u8][0] == 119u8);
    assert(seq![117u8, 98u8, 105u8, 116u8, 115u8, 50u8].len() == 6);
    assert(seq![87u8][0] == 87u8);
    assert(seq![117u8, 98u8, 105u8, 116u8, 115u8, 51u8].len() == 6);
    assert(seq![104u8][0] == 104u8);
    assert(seq![104u8, 97u8, 115u8, 104u8].len() == 4);
    assert(seq![121u8][0] == 121u8);
    assert(seq![116u8, 121u8, 112u8, 101u8].len() == 4);
    assert(seq![111u8][0] == 111u8);
    assert(seq![112u8, 111u8, 105u8, 110u8, 116u8, 95u8, 115u8, 105u8, 122u8, 101u8].len() == 10);
    assert(seq![107u8][0] == 107u8);
    assert(seq![112u8, 117u8, 98u8, 107u8, 101u8, 121u8].len() == 6);
    assert(seq![118u8][0] == 118u8);
    assert(seq![115u8, 105u8, 103u8, 110u8, 97u8, 116u8, 117u8, 114u8, 101u8].len() == 9);
    assert(seq![103u8][0] == 103u8);
    assert(seq![103u8, 114u8, 111u8, 117u8, 112u8].len() == 5);
    assert(seq![99u8, 111u8, 109u8, 112u8, 55u8][0] == 99u8 && seq![103u8, 114u8, 111u8, 117u8, 112u8][0] == 103u8);
    assert(seq![100u8][0] == 100u8);
    assert(seq![100u8, 111u8, 109u8, 97u8, 105u8, 110u8].len() == 6);
    assert(seq![99u8][0] == 99u8);
    assert(seq![99u8, 114u8, 101u8, 97u8, 116u8, 101u8].len() == 6);
    assert(seq![120u8][0] == 120u8);
    assert(seq![112u8, 97u8, 116u8, 104u8, 95u8, 108u8, 101u8, 110u8].len() == 8);
    assert(seq![108u8][0] == 108u8);
    assert(seq![108u8, 105u8, 110u8, 107u8, 115u8, 95u8, 108u8, 101u8, 110u8].len() == 9);
    assert(seq![66u8][0] == 66u8);
    assert(seq![100u8, 97u8, 116u8, 97u8, 95u8, 115u8, 105u8, 122u8, 101u8].len() == 9);
    assert(seq![112u8][0] == 112u8);
    assert(seq![112u8, 97u8, 116u8, 104u8].len() == 4);
    assert(seq![48u8][0] == 48u8);
    assert(seq![99u8, 111u8, 109u8, 112u8, 48u8].len() == 5);
    assert(seq![99u8, 111u8, 109u8, 112u8, 55u8][4] == 55u8 && seq![99u8, 111u8, 109u8, 112u8, 48u8][4] == 48u8);
    assert(seq![49u8][0] == 49u8);
    assert(seq![99u8, 111u8, 109u8, 112u8, 49u8].len() == 5);
    assert(seq![99u8, 111u8, 109u8, 112u8, 55u8][4] == 55u8 && seq![99u8, 111u8, 109u8, 112u8, 49u8][4] == 49u8);
    assert(seq![50u8][0] == 50u8);
    assert(seq![99u8, 111u8, 109u8, 112u8, 50u8].len() == 5);
    assert(seq![99u8, 111u8, 109u8, 112u8, 55u8][4] == 55u8 && seq![99u8, 111u8, 109u8, 112u8, 50u8][4] == 50u8);
    assert(seq![51u8][0] == 51u8);
    assert(seq![99u8, 111u8, 109u8, 112u8, 51u8].len() == 5);
    assert(seq![99u8, 111u8, 109u8, 112u8, 55u8][4] == 55u8 && seq![99u8, 111u8, 109u8, 112u8, 51u8][4] == 51u8);
    assert(seq![52u8][0] == 52u8);
    assert(seq![99u8, 111u8, 109u8, 112u8, 52u8].len() == 5);
    assert(seq![99u8, 111u8, 109u8, 112u8, 55u8][4] == 55u8 && seq![99u8, 111u8, 109u8, 112u8, 52u8][4] == 52u8);
    assert(seq![53u8][0] == 53u8);
    assert(seq![99u8, 111u8, 109u8, 112u8, 53u8].len() == 5);
    assert(seq![99u8, 111u8, 109u8, 112u8, 55u8][4] == 55u8 && seq![99u8, 111u8, 109u8, 112u8, 53u8][4] == 53u8);
    assert(seq![54u8][0] == 54u8);
    assert(seq![99u8, 111u8, 109u8, 112u8, 54u8].len() == 5);
    assert(seq![99u8, 111u8, 109u8, 112u8, 55u8][4] == 55u8 && seq![99u8, 111u8, 109u8, 112u8, 54u8][4] == 54u8);
}

/// The field DataF is found by its token byte and by its name.
proof fn lemma_id_dataf()
    ensures
        spec_from_id(seq![98u8]) == Some(FieldEnum::DataF),
        spec_from_id(seq![100u8, 97u8, 116u8, 97u8]) == Some(FieldEnum::DataF),
{
    assert(seq![98u8].len() == 1);
    assert(seq![100u8, 97u8, 116u8, 97u8].len() == 4);
    assert(seq![102u8][0] == 102u8);
    assert(seq![110u8, 101u8, 116u8, 102u8, 108u8, 97u8, 103u8, 115u8].len() == 8);
    assert(seq![106u8][0] == 106u8);
    assert(seq![104u8, 111u8, 112u8].len() == 3);
    assert(seq![115u8][0] == 115u8);
    assert(seq![115u8, 116u8, 97u8, 109u8, 112u8].len() == 5);
    assert(seq![113u8][0] == 113u8);
    assert(seq![117u8, 98u8, 105u8, 116u8, 115u8, 48u8].len() == 6);
    assert(seq![81u8][0] == 81u8);
    assert(seq![117u8, 98u8, 105u8, 116u8, 115u8, 49u8].len() == 6);
    assert(seq![119u8][0] == 119u8);
    assert(seq![117u8, 98u8, 105u8, 116u8, 115u8, 50u8].len() == 6);
    assert(seq![87u8][0] == 87u8);
    assert(seq![117u8, 98u8, 105u8, 116u8, 115u8, 51u8].len() == 6);
    assert(seq![104u8][0] == 104u8);
    assert(seq![104u8, 97u8, 115u8, 104u8].len() == 4);
    assert(seq![100u8, 97u8, 116u8, 97u8][0] == 100u8 && seq![104u8, 97u8, 115u8, 104u8][0] == 104u8);
    assert(seq![121u8][0] == 121u8);
    assert(seq![116u8, 121u8, 112u8, 101u8].len() == 4);
    assert(seq![100u8, 97u8, 116u8, 97u8][0] == 100u8 && seq![116u8, 121u8, 112u8, 101u8][0] == 116u8);
    assert(seq![111u8][0] == 111u8);
    assert(seq![112u8, 111u8, 105u8, 110u8, 116u8, 95u8, 115u8, 105u8, 122u8, 101u8].len() == 10);
    assert(seq![107u8][0] == 107u8);
    assert(seq![112u8, 117u8, 98u8, 107u8, 101u8, 121u8].len() == 6);
    assert(seq![118u8][0] == 118u8);
    assert(seq![115u8, 105u8, 103u8, 110u8, 97u8, 116u8, 117u8, 114u8, 101u8].len() == 9);
    assert(seq![103u8][0] == 103u8);
    assert(seq![103u8, 114u8, 111u8, 117u8, 112u8].len() == 5);
    assert(seq![100u8][0] == 100u8);
    assert(seq![100u8, 111u8, 109u8, 97u8, 105u8, 110u8].len() == 6);
    assert(seq![99u8][0] == 99u8);
    assert(seq![99u8, 114u8, 101u8, 97u8, 116u8, 101u8].len() == 6);
    assert(seq![120u8][0] == 120u8);
    assert(seq![112u8, 97u8, 116u8, 104u8, 95u8, 108u8, 101u8, 110u8].len() == 8);
    assert(seq![108u8][0] == 108u8);
    assert(seq![108u8, 105u8, 110u8, 107u8, 115u8, 95u8, 108u8, 101u8, 110u8].len() == 9);
    assert(seq![66u8][0] == 66u8);
    assert(seq![100u8, 97u8, 116u8, 97u8, 95u8, 115u8, 105u8, 122u8, 101u8].len() == 9);
    assert(seq![112u8][0] == 112u8);
    assert(seq![112u8, 97u8, 116u8, 104u8].len() == 4);
    assert(seq![100u8, 97u8, 116u8, 97u8][0] == 100u8 && seq![112u8, 97u8, 116u8, 104u8][0] == 112u8);
    assert(seq![48u8][0] == 48u8);
    assert(seq![99u8, 111u8, 109u8, 112u8, 48u8].len() == 5);
    assert(seq![49u8][0] == 49u8);
    assert(seq![99u8, 111u8, 109u8, 112u8, 49u8].len() == 5);
    assert(seq![50u8][0] == 50u8);
    assert(seq![99u8, 111u8, 109u8, 112u8, 50u8].len() == 5);
    assert(seq![51u8][0] == 51u8);
    assert(seq![99u8, 111u8, 109u8, 112u8, 51u8].len() == 5);
    assert(seq![52u8][0] == 52u8);
    assert(seq![99u8, 111u8, 109u8, 112u8, 52u8].len() == 5);
    assert(seq![53u8][0] == 53u8);
    assert(seq![99u8, 111u8, 109u8, 112u8, 53u8].len() == 5);
    assert(seq![54u8][0] == 54u8);
    assert(seq![99u8, 111u8, 109u8, 112u8, 54u8].len() == 5);
    assert(seq![55u8][0] == 55u8);
    assert(seq![99u8, 111u8, 109u8, 112u8, 55u8].len() == 5);
}

/// `n` zero bytes.
pub open spec fn zeros(n: nat) -> Seq<u8> {
    Seq::new(n, |i: int| 0u8)
}

/// The indexed path of a point in enum form (empty for points without one).
pub open spec fn path_of(p: PointParts) -> Seq<u8> {
    match spec_tail(p) {
        Some(t) => t.ipath@,
        None => Seq::empty(),
    }
}

/// The link bytes of a point in enum form (empty for points without links).
pub open spec fn links_of(p: PointParts) -> Seq<u8> {
    match spec_tail(p) {
        Some(t) => t.links@,
        None => Seq::empty(),
    }
}

/// The bytes of a field of a packet with the given net header, hash and
/// point; fields that the point lacks are zero (or empty for the path).
pub open spec fn field_bytes(f: FieldEnum, net_header: Seq<u8>, hash: Seq<u8>, p: PointParts) -> Seq<u8> {
    match f {
        FieldEnum::VarNetFlagsF => net_header.subrange(3, 4),
        FieldEnum::VarHopF => net_header.subrange(4, 8),
        FieldEnum::VarStampF => net_header.subrange(8, 16),
        FieldEnum::VarUBits0F => net_header.subrange(16, 20),
        FieldEnum::VarUBits1F => net_header.subrange(20, 24),
        FieldEnum::VarUBits2F => net_header.subrange(24, 28),
        FieldEnum::VarUBits3F => net_header.subrange(28, 32),
        FieldEnum::PktHashF => hash,
        FieldEnum::PktTypeF => seq![p.pkt_header.point_type.spec_bits()],
        FieldEnum::PointSizeF => be16_bytes(p.pkt_header.uset_bytes),
        FieldEnum::PubKeyF => match spec_signed(p) {
            Some(s) => s.pubkey@,
            None => zeros(32),
        },
        FieldEnum::SignatureF => match spec_signed(p) {
            Some(s) => s.signature@,
            None => zeros(64),
        },
        FieldEnum::GroupIDF => match spec_lph(p) {
            Some(h) => h.group@,
            None => zeros(32),
        },
        FieldEnum::DomainF => match spec_lph(p) {
            Some(h) => h.domain@,
            None => zeros(16),
        },
        FieldEnum::CreateF => match spec_lph(p) {
            Some(h) => h.create_stamp@,
            None => zeros(8),
        },
        FieldEnum::PathLenF => seq![ilen(path_of(p)) as u8],
        FieldEnum::LinksLenF => be16_bytes((links_of(p).len() / 48) as u16),
        FieldEnum::DataSizeF => be16_bytes(spec_data(p).len() as u16),
        FieldEnum::PathF => ispath(path_of(p)),
        FieldEnum::PathComp0F => icomp(path_of(p), 0),
        FieldEnum::PathComp1F => icomp(path_of(p), 1),
        FieldEnum::PathComp2F => icomp(path_of(p), 2),
        FieldEnum::PathComp3F => icomp(path_of(p), 3),
        FieldEnum::PathComp4F => icomp(path_of(p), 4),
        FieldEnum::PathComp5F => icomp(path_of(p), 5),
        FieldEnum::PathComp6F => icomp(path_of(p), 6),
        FieldEnum::PathComp7F => icomp(path_of(p), 7),
        FieldEnum::DataF => spec_data(p),
    }
}

/// Appends a u16 in big endian.
fn push_be16(out: &mut Vec<u8>, v: u16)
    ensures
        final(out)@ == old(out)@ + be16_bytes(v),
{
    out.push((v / 256) as u8);
    out.push((v % 256) as u8);
    assert(final(out)@ =~= old(out)@ + be16_bytes(v));
}

impl FieldEnum {
    /// Appends the bytes of the field of the packet to `out`. A field that the
    /// packet's point lacks gives zeros (or nothing, for the path).
    pub fn bytes(self, pkt: &NetPktParts<'_>, out: &mut Vec<u8>)
        requires
            path_of(pkt.spec_parts()).len() == 0 || spec_icheck(path_of(pkt.spec_parts())) is Ok,
        ensures
            final(out)@ == old(out)@ + field_bytes(
                self,
                header_bytes_of(pkt.spec_net_header()),
                pkt.spec_hash(),
                pkt.spec_parts(),
            ),
    {
        let p = pkt.as_point();
        let nh_bytes = pkt.net_header_ref().as_bytes();
        let nh = nh_bytes.as_slice();
        let (ipath, links) = match p.tail() {
            Some(t) => (t.ipath, t.links),
            None => {
                let none: &[u8] = &[];
                (IPath::empty(), none)
            },
        };
        proof {
            law_checked_comps(ipath@);
            assert(ipath@ == path_of(p));
            assert(links@ == links_of(p));
        }
        let z8 = [0u8; 8];
        let z16 = [0u8; 16];
        let z32 = [0u8; 32];
        let z64 = [0u8; 64];
        proof {
            assert(z8@ =~= zeros(8));
            assert(z16@ =~= zeros(16));
            assert(z32@ =~= zeros(32));
            assert(z64@ =~= zeros(64));
        }
        match self {
            FieldEnum::VarNetFlagsF => extend_bytes(out, &nh[3..4]),
            FieldEnum::VarHopF => extend_bytes(out, &nh[4..8]),
            FieldEnum::VarStampF => extend_bytes(out, &nh[8..16]),
            FieldEnum::VarUBits0F => extend_bytes(out, &nh[16..20]),
            FieldEnum::VarUBits1F => extend_bytes(out, &nh[20..24]),
            FieldEnum::VarUBits2F => extend_bytes(out, &nh[24..28]),
            FieldEnum::VarUBits3F => extend_bytes(out, &nh[28..32]),
            FieldEnum::PktHashF => extend_bytes(out, pkt.hash_ref().as_slice()),
            FieldEnum::PktTypeF => out.push(p.pkt_header.point_type.bits()),
            FieldEnum::PointSizeF => push_be16(out, p.pkt_header.uset_bytes),
            FieldEnum::PubKeyF => match p.signed() {
                Some(s) => extend_bytes(out, s.pubkey.as_slice()),
                None => extend_bytes(out, z32.as_slice()),
            },
            FieldEnum::SignatureF => match p.signed() {
                Some(s) => extend_bytes(out, s.signature.as_slice()),
                None => extend_bytes(out, z64.as_slice()),
            },
            FieldEnum::GroupIDF => match p.linkpoint_header() {
                Some(h) => extend_bytes(out, h.group.as_slice()),
                None => extend_bytes(out, z32.as_slice()),
            },
            FieldEnum::DomainF => match p.linkpoint_header() {
                Some(h) => extend_bytes(out, h.domain.as_slice()),
                None => extend_bytes(out, z16.as_slice()),
            },
            FieldEnum::CreateF => match p.linkpoint_header() {
                Some(h) => extend_bytes(out, h.create_stamp.as_slice()),
                None => extend_bytes(out, z8.as_slice()),
            },
            FieldEnum::PathLenF => out.push(ipath.path_len()),
            FieldEnum::LinksLenF => push_be16(out, (links.len() / 48) as u16),
            FieldEnum::DataSizeF => push_be16(out, p.data().len() as u16),
            FieldEnum::PathF => extend_bytes(out, ipath.spath().spath_bytes()),
            FieldEnum::PathComp0F => extend_bytes(out, ipath.path0()),
            FieldEnum::PathComp1F => extend_bytes(out, ipath.path1()),
            FieldEnum::PathComp2F => extend_bytes(out, ipath.path2()),
            FieldEnum::PathComp3F => extend_bytes(out, ipath.path3()),
            FieldEnum::PathComp4F => extend_bytes(out, ipath.path4()),
            FieldEnum::PathComp5F => extend_bytes(out, ipath.path5()),
            FieldEnum::PathComp6F => extend_bytes(out, ipath.path6()),
            FieldEnum::PathComp7F => extend_bytes(out, ipath.path7()),
            FieldEnum::DataF => extend_bytes(out, p.data()),
        }
    }
}

impl core::str::FromStr for FieldEnum {
    type Err = FieldEnumErr;

    fn from_str(s: &str) -> (r: Result<Self, Self::Err>)
        ensures
            r == match spec_from_id(s.spec_bytes()) {
                Some(f) => Ok::<FieldEnum, FieldEnumErr>(f),
                None => Err(FieldEnumErr::NoSuchField),
            },
    {
        match FieldEnum::try_from_id(s.as_bytes()) {
            Some(f) => Ok(f),
            None => Err(FieldEnumErr::NoSuchField),
        }
    }
}

/// The id is the field's token byte, or its name.
fn is_id(f: FieldEnum, id: &[u8]) -> (r: bool)
    ensures
        r == id_matches(f, id@),
{
    let token = f.token();
    let by_token = id.len() == 1 && id[0] == token;
    proof {
        if id@ == seq![token] {
            assert(id@[0] == token);
        }
        if by_token {
            assert(id@ =~= seq![token]);
        }
    }
    proof {
        lemma_name_bytes(f);
    }
    by_token || bytes_eq(id, f.name().as_bytes())
}


/// The net flags of the net header.
#[derive(Copy, Clone, Debug)]
pub struct VarNetFlagsF;

impl FieldG for VarNetFlagsF {
    const PKTS: u8 = 1u8;
}

impl NamedField for VarNetFlagsF {
    const TOKEN: u8 = 102u8;
    const NAME: &'static str = "netflags";
    const ENUM: FieldEnum = FieldEnum::VarNetFlagsF;
}

impl VarNetFlagsF {
    /// The name of the field, as bytes.
    pub fn id(self) -> (r: &'static [u8])
        ensures
            r@ == Self::NAME.spec_bytes(),
    {
        Self::NAME.as_bytes()
    }
}

/// The hop count of the net header.
#[derive(Copy, Clone, Debug)]
pub struct VarHopF;

impl FieldG for VarHopF {
    const PKTS: u8 = 1u8;
}

impl NamedField for VarHopF {
    const TOKEN: u8 = 106u8;
    const NAME: &'static str = "hop";
    const ENUM: FieldEnum = FieldEnum::VarHopF;
}

impl VarHopF {
    /// The name of the field, as bytes.
    pub fn id(self) -> (r: &'static [u8])
        ensures
            r@ == Self::NAME.spec_bytes(),
    {
        Self::NAME.as_bytes()
    }
}

/// The stamp of the net header.
#[derive(Copy, Clone, Debug)]
pub struct VarStampF;

impl FieldG for VarStampF {
    const PKTS: u8 = 1u8;
}

impl NamedField for VarStampF {
    const TOKEN: u8 = 115u8;
    const NAME: &'static str = "stamp";
    const ENUM: FieldEnum = FieldEnum::VarStampF;
}

impl VarStampF {
    /// The name of the field, as bytes.
    pub fn id(self) -> (r: &'static [u8])
        ensures
            r@ == Self::NAME.spec_bytes(),
    {
        Self::NAME.as_bytes()
    }
}

/// The first user bits of the net header.
#[derive(Copy, Clone, Debug)]
pub struct VarUBits0F;

impl FieldG for VarUBits0F {
    const PKTS: u8 = 1u8;
}

impl NamedField for VarUBits0F {
    const TOKEN: u8 = 113u8;
    const NAME: &'static str = "ubits0";
    const ENUM: FieldEnum = FieldEnum::VarUBits0F;
}

impl VarUBits0F {
    /// The name of the field, as bytes.
    pub fn id(self) -> (r: &'static [u8])
        ensures
            r@ == Self::NAME.spec_bytes(),
    {
        Self::NAME.as_bytes()
    }
}

/// The second user bits of the net header.
#[derive(Copy, Clone, Debug)]
pub struct VarUBits1F;

impl FieldG for VarUBits1F {
    const PKTS: u8 = 1u8;
}

impl NamedField for VarUBits1F {
    const TOKEN: u8 = 81u8;
    const NAME: &'static str = "ubits1";
    const ENUM: FieldEnum = FieldEnum::VarUBits1F;
}

impl VarUBits1F {
    /// The name of the field, as bytes.
    pub fn id(self) -> (r: &'static [u8])
        ensures
            r@ == Self::NAME.spec_bytes(),
    {
        Self::NAME.as_bytes()
    }
}

/// The third user bits of the net header.
#[derive(Copy, Clone, Debug)]
pub struct VarUBits2F;

impl FieldG for VarUBits2F {
    const PKTS: u8 = 1u8;
}

impl NamedField for VarUBits2F {
    const TOKEN: u8 = 119u8;
    const NAME: &'static str = "ubits2";
    const ENUM: FieldEnum = FieldEnum::VarUBits2F;
}

impl VarUBits2F {
    /// The name of the field, as bytes.
    pub fn id(self) -> (r: &'static [u8])
        ensures
            r@ == Self::NAME.spec_bytes(),
    {
        Self::NAME.as_bytes()
    }
}

/// The fourth user bits of the net header.
#[derive(Copy, Clone, Debug)]
pub struct VarUBits3F;

impl FieldG for VarUBits3F {
    const PKTS: u8 = 1u8;
}

impl NamedField for VarUBits3F {
    const TOKEN: u8 = 87u8;
    const NAME: &'static str = "ubits3";
    const ENUM: FieldEnum = FieldEnum::VarUBits3F;
}

impl VarUBits3F {
    /// The name of the field, as bytes.
    pub fn id(self) -> (r: &'static [u8])
        ensures
            r@ == Self::NAME.spec_bytes(),
    {
        Self::NAME.as_bytes()
    }
}

/// The hash of the point.
#[derive(Copy, Clone, Debug)]
pub struct PktHashF;

impl FieldG for PktHashF {
    const PKTS: u8 = 1u8;
}

impl NamedField for PktHashF {
    const TOKEN: u8 = 104u8;
    const NAME: &'static str = "hash";
    const ENUM: FieldEnum = FieldEnum::PktHashF;
}

impl PktHashF {
    /// The name of the field, as bytes.
    pub fn id(self) -> (r: &'static [u8])
        ensures
            r@ == Self::NAME.spec_bytes(),
    {
        Self::NAME.as_bytes()
    }
}

/// The point type.
#[derive(Copy, Clone, Debug)]
pub struct PktTypeF;

impl FieldG for PktTypeF {
    const PKTS: u8 = 1u8;
}

impl NamedField for PktTypeF {
    const TOKEN: u8 = 121u8;
    const NAME: &'static str = "type";
    const ENUM: FieldEnum = FieldEnum::PktTypeF;
}

impl PktTypeF {
    /// The name of the field, as bytes.
    pub fn id(self) -> (r: &'static [u8])
        ensures
            r@ == Self::NAME.spec_bytes(),
    {
        Self::NAME.as_bytes()
    }
}

/// The point size.
#[derive(Copy, Clone, Debug)]
pub struct PointSizeF;

impl FieldG for PointSizeF {
    const PKTS: u8 = 1u8;
}

impl NamedField for PointSizeF {
    const TOKEN: u8 = 111u8;
    const NAME: &'static str = "point_size";
    const ENUM: FieldEnum = FieldEnum::PointSizeF;
}

impl PointSizeF {
    /// The name of the field, as bytes.
    pub fn id(self) -> (r: &'static [u8])
        ensures
            r@ == Self::NAME.spec_bytes(),
    {
        Self::NAME.as_bytes()
    }
}

/// The public key of a key point.
#[derive(Copy, Clone, Debug)]
pub struct PubKeyF;

impl FieldG for PubKeyF {
    const PKTS: u8 = 4u8;
}

impl NamedField for PubKeyF {
    const TOKEN: u8 = 107u8;
    const NAME: &'static str = "pubkey";
    const ENUM: FieldEnum = FieldEnum::PubKeyF;
}

impl PubKeyF {
    /// The name of the field, as bytes.
    pub fn id(self) -> (r: &'static [u8])
        ensures
            r@ == Self::NAME.spec_bytes(),
    {
        Self::NAME.as_bytes()
    }
}

/// The signature of a key point.
#[derive(Copy, Clone, Debug)]
pub struct SignatureF;

impl FieldG for SignatureF {
    const PKTS: u8 = 4u8;
}

impl NamedField for SignatureF {
    const TOKEN: u8 = 118u8;
    const NAME: &'static str = "signature";
    const ENUM: FieldEnum = FieldEnum::SignatureF;
}

impl SignatureF {
    /// The name of the field, as bytes.
    pub fn id(self) -> (r: &'static [u8])
        ensures
            r@ == Self::NAME.spec_bytes(),
    {
        Self::NAME.as_bytes()
    }
}

/// The group of a link point.
#[derive(Copy, Clone, Debug)]
pub struct GroupIDF;

impl FieldG for GroupIDF {
    const PKTS: u8 = 2u8;
}

impl NamedField for GroupIDF {
    const TOKEN: u8 = 103u8;
    const NAME: &'static str = "group";
    const ENUM: FieldEnum = FieldEnum::GroupIDF;
}

impl GroupIDF {
    /// The name of the field, as bytes.
    pub fn id(self) -> (r: &'static [u8])
        ensures
            r@ == Self::NAME.spec_bytes(),
    {
        Self::NAME.as_bytes()
    }
}

/// The domain of a link point.
#[derive(Copy, Clone, Debug)]
pub struct DomainF;

impl FieldG for DomainF {
    const PKTS: u8 = 2u8;
}

impl NamedField for DomainF {
    const TOKEN: u8 = 100u8;
    const NAME: &'static str = "domain";
    const ENUM: FieldEnum = FieldEnum::DomainF;
}

impl DomainF {
    /// The name of the field, as bytes.
    pub fn id(self) -> (r: &'static [u8])
        ensures
            r@ == Self::NAME.spec_bytes(),
    {
        Self::NAME.as_bytes()
    }
}

/// The create stamp of a link point.
#[derive(Copy, Clone, Debug)]
pub struct CreateF;

impl FieldG for CreateF {
    const PKTS: u8 = 2u8;
}

impl NamedField for CreateF {
    const TOKEN: u8 = 99u8;
    const NAME: &'static str = "create";
    const ENUM: FieldEnum = FieldEnum::CreateF;
}

impl CreateF {
    /// The name of the field, as bytes.
    pub fn id(self) -> (r: &'static [u8])
        ensures
            r@ == Self::NAME.spec_bytes(),
    {
        Self::NAME.as_bytes()
    }
}

/// The number of path components.
#[derive(Copy, Clone, Debug)]
pub struct PathLenF;

impl FieldG for PathLenF {
    const PKTS: u8 = 2u8;
}

impl NamedField for PathLenF {
    const TOKEN: u8 = 120u8;
    const NAME: &'static str = "path_len";
    const ENUM: FieldEnum = FieldEnum::PathLenF;
}

impl PathLenF {
    /// The name of the field, as bytes.
    pub fn id(self) -> (r: &'static [u8])
        ensures
            r@ == Self::NAME.spec_bytes(),
    {
        Self::NAME.as_bytes()
    }
}

/// The number of links.
#[derive(Copy, Clone, Debug)]
pub struct LinksLenF;

impl FieldG for LinksLenF {
    const PKTS: u8 = 2u8;
}

impl NamedField for LinksLenF {
    const TOKEN: u8 = 108u8;
    const NAME: &'static str = "links_len";
    const ENUM: FieldEnum = FieldEnum::LinksLenF;
}

impl LinksLenF {
    /// The name of the field, as bytes.
    pub fn id(self) -> (r: &'static [u8])
        ensures
            r@ == Self::NAME.spec_bytes(),
    {
        Self::NAME.as_bytes()
    }
}

/// The data size.
#[derive(Copy, Clone, Debug)]
pub struct DataSizeF;

impl FieldG for DataSizeF {
    const PKTS: u8 = 1u8;
}

impl NamedField for DataSizeF {
    const TOKEN: u8 = 66u8;
    const NAME: &'static str = "data_size";
    const ENUM: FieldEnum = FieldEnum::DataSizeF;
}

impl DataSizeF {
    /// The name of the field, as bytes.
    pub fn id(self) -> (r: &'static [u8])
        ensures
            r@ == Self::NAME.spec_bytes(),
    {
        Self::NAME.as_bytes()
    }
}

/// The path of a link point.
#[derive(Copy, Clone, Debug)]
pub struct PathF;

impl FieldG for PathF {
    const PKTS: u8 = 2u8;
}

impl NamedField for PathF {
    const TOKEN: u8 = 112u8;
    const NAME: &'static str = "path";
    const ENUM: FieldEnum = FieldEnum::PathF;
}

impl PathF {
    /// The name of the field, as bytes.
    pub fn id(self) -> (r: &'static [u8])
        ensures
            r@ == Self::NAME.spec_bytes(),
    {
        Self::NAME.as_bytes()
    }
}

/// Path component 0.
#[derive(Copy, Clone, Debug)]
pub struct PathComp0F;

impl FieldG for PathComp0F {
    const PKTS: u8 = 2u8;
}

impl NamedField for PathComp0F {
    const TOKEN: u8 = 48u8;
    const NAME: &'static str = "comp0";
    const ENUM: FieldEnum = FieldEnum::PathComp0F;
}

impl PathComp0F {
    /// The name of the field, as bytes.
    pub fn id(self) -> (r: &'static [u8])
        ensures
            r@ == Self::NAME.spec_bytes(),
    {
        Self::NAME.as_bytes()
    }
}

/// Path component 1.
#[derive(Copy, Clone, Debug)]
pub struct PathComp1F;

impl FieldG for PathComp1F {
    const PKTS: u8 = 2u8;
}

impl NamedField for PathComp1F {
    const TOKEN: u8 = 49u8;
    const NAME: &'static str = "comp1";
    const ENUM: FieldEnum = FieldEnum::PathComp1F;
}

impl PathComp1F {
    /// The name of the field, as bytes.
    pub fn id(self) -> (r: &'static [u8])
        ensures
            r@ == Self::NAME.spec_bytes(),
    {
        Self::NAME.as_bytes()
    }
}

/// Path component 2.
#[derive(Copy, Clone, Debug)]
pub struct PathComp2F;

impl FieldG for PathComp2F {
    const PKTS: u8 = 2u8;
}

impl NamedField for PathComp2F {
    const TOKEN: u8 = 50u8;
    const NAME: &'static str = "comp2";
    const ENUM: FieldEnum = FieldEnum::PathComp2F;
}

impl PathComp2F {
    /// The name of the field, as bytes.
    pub fn id(self) -> (r: &'static [u8])
        ensures
            r@ == Self::NAME.spec_bytes(),
    {
        Self::NAME.as_bytes()
    }
}

/// Path component 3.
#[derive(Copy, Clone, Debug)]
pub struct PathComp3F;

impl FieldG for PathComp3F {
    const PKTS: u8 = 2u8;
}

impl NamedField for PathComp3F {
    const TOKEN: u8 = 51u8;
    const NAME: &'static str = "comp3";
    const ENUM: FieldEnum = FieldEnum::PathComp3F;
}

impl PathComp3F {
    /// The name of the field, as bytes.
    pub fn id(self) -> (r: &'static [u8])
        ensures
            r@ == Self::NAME.spec_bytes(),
    {
        Self::NAME.as_bytes()
    }
}

/// Path component 4.
#[derive(Copy, Clone, Debug)]
pub struct PathComp4F;

impl FieldG for PathComp4F {
    const PKTS: u8 = 2u8;
}

impl NamedField for PathComp4F {
    const TOKEN: u8 = 52u8;
    const NAME: &'static str = "comp4";
    const ENUM: FieldEnum = FieldEnum::PathComp4F;
}

impl PathComp4F {
    /// The name of the field, as bytes.
    pub fn id(self) -> (r: &'static [u8])
        ensures
            r@ == Self::NAME.spec_bytes(),
    {
        Self::NAME.as_bytes()
    }
}

/// Path component 5.
#[derive(Copy, Clone, Debug)]
pub struct PathComp5F;

impl FieldG for PathComp5F {
    const PKTS: u8 = 2u8;
}

impl NamedField for PathComp5F {
    const TOKEN: u8 = 53u8;
    const NAME: &'static str = "comp5";
    const ENUM: FieldEnum = FieldEnum::PathComp5F;
}

impl PathComp5F {
    /// The name of the field, as bytes.
    pub fn id(self) -> (r: &'static [u8])
        ensures
            r@ == Self::NAME.spec_bytes(),
    {
        Self::NAME.as_bytes()
    }
}

/// Path component 6.
#[derive(Copy, Clone, Debug)]
pub struct PathComp6F;

impl FieldG for PathComp6F {
    const PKTS: u8 = 2u8;
}

impl NamedField for PathComp6F {
    const TOKEN: u8 = 54u8;
    const NAME: &'static str = "comp6";
    const ENUM: FieldEnum = FieldEnum::PathComp6F;
}

impl PathComp6F {
    /// The name of the field, as bytes.
    pub fn id(self) -> (r: &'static [u8])
        ensures
            r@ == Self::NAME.spec_bytes(),
    {
        Self::NAME.as_bytes()
    }
}

/// Path component 7.
#[derive(Copy, Clone, Debug)]
pub struct PathComp7F;

impl FieldG for PathComp7F {
    const PKTS: u8 = 2u8;
}

impl NamedField for PathComp7F {
    const TOKEN: u8 = 55u8;
    const NAME: &'static str = "comp7";
    const ENUM: FieldEnum = FieldEnum::PathComp7F;
}

impl PathComp7F {
    /// The name of the field, as bytes.
    pub fn id(self) -> (r: &'static [u8])
        ensures
            r@ == Self::NAME.spec_bytes(),
    {
        Self::NAME.as_bytes()
    }
}

/// The data.
#[derive(Copy, Clone, Debug)]
pub struct DataF;

impl FieldG for DataF {
    const PKTS: u8 = 1u8;
}

impl NamedField for DataF {
    const TOKEN: u8 = 98u8;
    const NAME: &'static str = "data";
    const ENUM: FieldEnum = FieldEnum::DataF;
}

impl DataF {
    /// The name of the field, as bytes.
    pub fn id(self) -> (r: &'static [u8])
        ensures
            r@ == Self::NAME.spec_bytes(),
    {
        Self::NAME.as_bytes()
    }
}

} // verus!

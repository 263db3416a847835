use linkspace_pkt::field_ids::{
    FieldEnum, FieldEnumErr, NamedField, PktHashF, VarHopF, DataF, VAR_FIELDS,
};

#[test]
fn field_by_token_and_name() {
    assert_eq!(FieldEnum::try_from_id(b"h"), Some(FieldEnum::PktHashF));
    assert_eq!(FieldEnum::try_from_id(b"hash"), Some(FieldEnum::PktHashF));
    assert_eq!(FieldEnum::try_from_id(b"0"), Some(FieldEnum::PathComp0F));
    assert_eq!(FieldEnum::try_from_id(b"comp7"), Some(FieldEnum::PathComp7F));
    assert_eq!(FieldEnum::try_from_id(b"B"), Some(FieldEnum::DataSizeF));
    assert_eq!(FieldEnum::try_from_id(b"b"), Some(FieldEnum::DataF));
    assert_eq!(FieldEnum::try_from_id(b"nope"), None);
    assert_eq!(FieldEnum::try_from_id(b""), None);
    assert_eq!("group".parse::<FieldEnum>(), Ok(FieldEnum::GroupIDF));
    assert_eq!("x".parse::<FieldEnum>(), Ok(FieldEnum::PathLenF));
    assert_eq!("nothing".parse::<FieldEnum>(), Err(FieldEnumErr::NoSuchField));
    assert_eq!(FieldEnumErr::NoSuchField.message(), "No Such field");
    for f in FieldEnum::list() {
        assert_eq!(FieldEnum::try_from_id(&[f.token()]), Some(f));
        assert_eq!(FieldEnum::try_from_id(f.name().as_bytes()), Some(f));
    }
}

#[test]
fn field_info_and_sizes() {
    let i = FieldEnum::SignatureF.info();
    assert_eq!(i.token, b'v');
    assert_eq!(i.name, "signature");
    assert_eq!(i.pkts.bits(), 4);
    assert_eq!(FieldEnum::SignatureF.fixed_size(), Some(64));
    assert_eq!(FieldEnum::DomainF.fixed_size(), Some(16));
    assert_eq!(FieldEnum::CreateF.fixed_size(), Some(8));
    assert_eq!(FieldEnum::VarHopF.fixed_size(), Some(4));
    assert_eq!(FieldEnum::LinksLenF.fixed_size(), Some(2));
    assert_eq!(FieldEnum::PktTypeF.fixed_size(), Some(1));
    assert_eq!(FieldEnum::GroupIDF.fixed_size(), Some(32));
    assert_eq!(FieldEnum::PathF.fixed_size(), None);
    assert_eq!(FieldEnum::DataF.fixed_size(), None);
    assert_eq!(FieldEnum::list().len(), 28);
    assert_eq!(FieldEnum::list()[0], FieldEnum::VarNetFlagsF);
    assert_eq!(VAR_FIELDS[6], FieldEnum::VarUBits3F);
    assert_eq!(PktHashF::TOKEN, b'h');
    assert_eq!(VarHopF::NAME, "hop");
    assert_eq!(DataF::ENUM, FieldEnum::DataF);
    assert_eq!(VarHopF.id(), b"hop");
    let hop = VarHopF::info();
    assert_eq!(hop.token, b'j');
    assert_eq!(hop.pkts.bits(), 1);
}

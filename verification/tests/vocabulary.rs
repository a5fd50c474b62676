use gluon_ipc::{
    Context, Credentials, Derives, ExternalGluonType, ExternalProtocol, ReadError, SendError,
    SendFailure, WriteError, REPLY_CODE,
};

#[test]
fn context_without_credentials_knows_no_sender() {
    let ctx = Context::new(None);
    assert_eq!(ctx.creds(), None);
    assert_eq!(ctx.sender_pid(), None);
    assert_eq!(ctx.sender_uid(), None);
    assert_eq!(ctx.sender_gid(), None);
}

#[test]
fn context_reports_the_kernels_credentials() {
    let creds = Credentials { pid: 4242, uid: 1000, gid: 100 };
    let ctx = Context::new(Some(creds));
    assert_eq!(ctx.creds(), Some(creds));
    assert_eq!(ctx.sender_pid(), Some(4242));
    assert_eq!(ctx.sender_uid(), Some(1000));
    assert_eq!(ctx.sender_gid(), Some(100));
    assert_eq!(ctx, Context::new(Some(creds)));
    assert_ne!(ctx, Context::new(None));
}

#[test]
fn send_failures_map_to_send_errors() {
    assert!(matches!(SendError::from(SendFailure::Full), SendError::Full));
    assert!(matches!(SendError::from(SendFailure::Closed), SendError::Closed));
    assert!(matches!(
        SendError::from(SendFailure::TooLarge { size: 70000 }),
        SendError::TooLarge { size: 70000 }
    ));
    assert!(matches!(
        SendError::from(WriteError::StringToLong),
        SendError::ParamWriteError(WriteError::StringToLong)
    ));
    assert!(matches!(
        SendError::from(ReadError::UnknownEnumVariant(3)),
        SendError::ReturnReadError(ReadError::UnknownEnumVariant(3))
    ));
}

#[test]
fn reply_code_is_zero() {
    assert_eq!(REPLY_CODE, 0);
}

#[test]
fn derive_groups_are_unions_of_flags() {
    assert_eq!(Derives::SERDE(), Derives::SERDE_SER() | Derives::SERDE_DE());
    assert_eq!(Derives::INTEGERS(), Derives::all());
    let floats = Derives::FLOATS();
    assert!(floats.contains(Derives::COPY() | Derives::CLONE() | Derives::PARTIAL_EQ()));
    assert!(floats.contains(Derives::PARTIAL_ORD() | Derives::DEFAULT() | Derives::SERDE()));
    assert!(!floats.intersects(Derives::HASH() | Derives::EQ() | Derives::ORD()));
    assert_eq!(Derives::INTEGERS() - floats, Derives::HASH() | Derives::EQ() | Derives::ORD());
}

#[test]
fn derive_flags_have_their_bits() {
    let flags = [
        Derives::COPY(),
        Derives::CLONE(),
        Derives::HASH(),
        Derives::PARTIAL_EQ(),
        Derives::EQ(),
        Derives::PARTIAL_ORD(),
        Derives::ORD(),
        Derives::DEFAULT(),
        Derives::SERDE_SER(),
        Derives::SERDE_DE(),
    ];
    for (i, flag) in flags.iter().enumerate() {
        assert_eq!(flag.bits(), 1u32 << i);
    }
    assert_eq!(Derives::all().bits(), 0x3ff);
    assert!(Derives::empty().is_empty());
    assert!(Derives::all().is_all());
}

#[test]
fn derive_bits_outside_the_flags() {
    assert_eq!(Derives::from_bits(0x400), None);
    assert_eq!(Derives::from_bits(0x3), Some(Derives::COPY() | Derives::CLONE()));
    assert_eq!(Derives::from_bits_truncate(0xffff_ffff), Derives::all());
    assert_eq!(Derives::from_bits_retain(0x400).bits(), 0x400);
    assert_eq!(!Derives::from_bits_retain(0x401), Derives::all() - Derives::COPY());
    assert_eq!(Derives::COPY().complement(), !Derives::COPY());
}

#[test]
fn derive_set_operations() {
    let mut d = Derives::empty();
    d.insert(Derives::HASH());
    assert!(d.contains(Derives::HASH()));
    d.set(Derives::EQ(), true);
    assert_eq!(d, Derives::HASH() | Derives::EQ());
    d.remove(Derives::HASH());
    assert_eq!(d, Derives::EQ());
    d.toggle(Derives::EQ() | Derives::ORD());
    assert_eq!(d, Derives::ORD());
    d.set(Derives::ORD(), false);
    assert!(d.is_empty());
    let a = Derives::COPY() | Derives::CLONE();
    let b = Derives::CLONE() | Derives::HASH();
    assert_eq!(a.union(b), a | b);
    assert_eq!(a.intersection(b), Derives::CLONE());
    assert_eq!(a & b, Derives::CLONE());
    assert_eq!(a.difference(b), Derives::COPY());
    assert_eq!(a.symmetric_difference(b), a ^ b);
    assert_eq!(a ^ b, Derives::COPY() | Derives::HASH());
}

#[test]
fn external_protocol_describes_its_types() {
    static TYPES: [ExternalGluonType; 2] = [
        ExternalGluonType { name: "Vec3", proxy: None, supported_derives: Derives { bits: 0x3ff } },
        ExternalGluonType { name: "Spatial", proxy: Some("SpatialProxy"), supported_derives: Derives { bits: 0 } },
    ];
    let protocol = ExternalProtocol { protocol_name: "stardust", types: &TYPES };
    assert_eq!(protocol.protocol_name, "stardust");
    assert_eq!(protocol.types.len(), 2);
    assert_eq!(protocol.types[1].proxy, Some("SpatialProxy"));
    assert!(protocol.types[0].supported_derives.is_all());
}

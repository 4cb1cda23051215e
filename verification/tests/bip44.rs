use wallet_crypto::bip44::{
    Account, AddrType, Addressing, Change, Error, Path, BIP44_COIN_TYPE, BIP44_PURPOSE,
};

#[test]
fn hardened_boundary() {
    let account = Account::new(0x7fffffff).unwrap();
    assert_eq!(account.index(), 0xffffffff);
    assert_eq!(Account::new(0x80000000), Err(Error::AccountOutOfBound(0x80000000)));
}

#[test]
fn account_index_hardens() {
    assert_eq!(Account::new(0).unwrap().index(), 0x80000000);
    assert_eq!(Account::new(42).unwrap().index(), 0x8000002a);
}

#[test]
fn addressing_new_account_boundary() {
    assert!(Addressing::new(0x80000000, AddrType::External).is_err());
    let addr = Addressing::new(0, AddrType::External).unwrap();
    assert_eq!(addr.index, 0);
}

#[test]
fn soft_boundary() {
    let addr = Addressing::new(0, AddrType::External).unwrap();
    assert!(addr.incr(0x7fffffff).is_ok());
    assert_eq!(addr.incr(0x80000000), Err(Error::IndexOutOfBound(0x80000000)));
}

#[test]
fn incr_accumulates() {
    let addr = Addressing::new(0, AddrType::External).unwrap();
    let next = addr.incr(32).unwrap().incr(10).unwrap();
    assert_eq!(next.index, 42);
    assert!(next.incr(0x80000000).is_err());
}

#[test]
fn incr_checks_resulting_index() {
    let addr = Addressing::new(0, AddrType::External).unwrap();
    let near = addr.incr(0x7fffffff).unwrap();
    assert_eq!(near.index, 0x7fffffff);
    assert_eq!(near.incr(1), Err(Error::IndexOutOfBound(0x80000000)));
}

#[test]
fn path_symmetry() {
    let addr = Account::new(5)
        .unwrap()
        .internal()
        .unwrap()
        .index(7)
        .unwrap();
    assert_eq!(Addressing::from_path(addr.to_path()), Ok(addr));

    let addr = Account::new(0x7fffffff)
        .unwrap()
        .external()
        .unwrap()
        .index(0x7fffffff)
        .unwrap();
    assert_eq!(Addressing::from_path(addr.to_path()), Ok(addr));
}

#[test]
fn to_path_layout() {
    let addr = Addressing::new(0, AddrType::External).unwrap();
    let path = addr.to_path();
    assert_eq!(path.0, vec![BIP44_PURPOSE, BIP44_COIN_TYPE, 0x80000000, 0, 0]);

    let addr = Account::new(1).unwrap().internal().unwrap().index(9).unwrap();
    let path = addr.to_path();
    assert_eq!(path.0, vec![BIP44_PURPOSE, BIP44_COIN_TYPE, 0x80000001, 1, 9]);
}

#[test]
fn from_path_rejections() {
    assert_eq!(
        Addressing::from_path(Path::new(vec![BIP44_PURPOSE, BIP44_COIN_TYPE, 0x80000000, 0])),
        Err(Error::InvalidLength(4))
    );
    assert_eq!(
        Addressing::from_path(Path::new(vec![7, BIP44_COIN_TYPE, 0x80000000, 0, 0])),
        Err(Error::InvalidPurpose(7))
    );
    assert_eq!(
        Addressing::from_path(Path::new(vec![BIP44_PURPOSE, 9, 0x80000000, 0, 0])),
        Err(Error::InvalidType(9))
    );
    assert_eq!(
        Addressing::from_path(Path::new(vec![BIP44_PURPOSE, BIP44_COIN_TYPE, 3, 0, 0])),
        Err(Error::AccountOutOfBound(3))
    );
    assert_eq!(
        Addressing::from_path(Path::new(vec![
            BIP44_PURPOSE,
            BIP44_COIN_TYPE,
            0x80000000,
            0x80000001,
            0
        ])),
        Err(Error::ChangeOutOfBound(0x80000001))
    );
    assert_eq!(
        Addressing::from_path(Path::new(vec![
            BIP44_PURPOSE,
            BIP44_COIN_TYPE,
            0x80000000,
            1,
            0x90000000
        ])),
        Err(Error::IndexOutOfBound(0x90000000))
    );
}

#[test]
fn chunk_termination() {
    let addr = Addressing::new(0, AddrType::External)
        .unwrap()
        .incr(0x7ffffffe)
        .unwrap();
    let chunk = addr.next_chunks(10).unwrap();
    assert_eq!(chunk.len(), 2);
    assert_eq!(chunk[0].index, 0x7ffffffe);
    assert_eq!(chunk[1].index, 0x7fffffff);
}

#[test]
fn chunk_full_size() {
    let addr = Addressing::new(0, AddrType::External).unwrap();
    let chunk = addr.next_chunks(5).unwrap();
    assert_eq!(chunk.len(), 5);
    for (i, a) in chunk.iter().enumerate() {
        assert_eq!(a.index, i as u32);
        assert_eq!(a.change, 0);
    }
}

#[test]
fn address_type_mapping() {
    let external = Addressing::new(0, AddrType::External).unwrap();
    assert_eq!(external.change, 0);
    assert_eq!(external.address_type(), AddrType::External);

    let internal = Addressing::new(0, AddrType::Internal).unwrap();
    assert_eq!(internal.change, 1);
    assert_eq!(internal.address_type(), AddrType::Internal);
}

#[test]
fn change_boundary() {
    let account = Account::new(0).unwrap();
    assert!(Change::new(account, 0x7fffffff).is_ok());
    assert_eq!(Change::new(account, 0x80000000), Err(Error::ChangeOutOfBound(0x80000000)));
}

#[test]
fn change_index_boundary() {
    let change = Account::new(0).unwrap().external().unwrap();
    assert!(change.index(0x7fffffff).is_ok());
    assert_eq!(change.index(0x80000000), Err(Error::IndexOutOfBound(0x80000000)));
}

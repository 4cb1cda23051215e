use wallet_crypto::bip39::Seed;
use wallet_crypto::bip44::{AddrType, Error, BIP44_COIN_TYPE, BIP44_PURPOSE};
use wallet_crypto::wallet::Wallet;

fn test_wallet() -> Wallet {
    let seed = Seed::from_mnemonic_string(
        "abandon abandon abandon abandon abandon abandon abandon abandon abandon abandon abandon about",
        b"",
    );
    Wallet::generate(seed)
}

#[test]
fn gen_paths_preserves_order() {
    let wallet = test_wallet();
    let paths = wallet
        .gen_paths(0, AddrType::External, &vec![5, 1, 3])
        .unwrap();
    assert_eq!(paths.len(), 3);
    for (path, idx) in paths.iter().zip([5u32, 1, 3]) {
        assert_eq!(path.0, vec![BIP44_PURPOSE, BIP44_COIN_TYPE, 0x80000000, 0, idx]);
    }
}

#[test]
fn gen_paths_internal_branch() {
    let wallet = test_wallet();
    let paths = wallet.gen_paths(2, AddrType::Internal, &vec![0]).unwrap();
    assert_eq!(paths.len(), 1);
    assert_eq!(paths[0].0, vec![BIP44_PURPOSE, BIP44_COIN_TYPE, 0x80000002, 1, 0]);
}

#[test]
fn gen_paths_rejects_whole_batch() {
    let wallet = test_wallet();
    assert_eq!(
        wallet.gen_paths(0, AddrType::External, &vec![1, 0x80000000, 2]),
        Err(Error::IndexOutOfBound(0x80000000))
    );
}

#[test]
fn gen_paths_rejects_account_out_of_bound() {
    let wallet = test_wallet();
    assert_eq!(
        wallet.gen_paths(0x80000000, AddrType::External, &vec![0]),
        Err(Error::AccountOutOfBound(0x80000000))
    );
}

#[test]
fn wallet_keeps_seed() {
    let wallet = test_wallet();
    assert_eq!(wallet.seed().as_bytes().len(), 64);
}

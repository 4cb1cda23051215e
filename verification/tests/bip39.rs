use wallet_crypto::bip39::{Entropy, Error, MnemonicSize, Mnemonics, Seed};

const VECTOR_12: &str = "abandon abandon abandon abandon abandon abandon abandon abandon abandon abandon abandon about";

fn patterned(len: usize) -> Vec<u8> {
    (0..len).map(|i| (i * 37 + 11) as u8).collect()
}

#[test]
fn round_trip_all_sizes() {
    for len in [16usize, 20, 24, 28, 32] {
        let entropy = Entropy::from_slice(patterned(len)).unwrap();
        let mnemonics = entropy.to_mnemonics();
        let back = Entropy::from_mnemonics(&mnemonics).unwrap();
        assert_eq!(back.as_bytes(), &patterned(len));
        assert_eq!(back.size(), entropy.size());
    }
}

#[test]
fn zero_entropy_canonical_words() {
    let entropy = Entropy::from_slice(vec![0u8; 16]).unwrap();
    let mnemonics = entropy.to_mnemonics();
    assert_eq!(mnemonics.to_string(), VECTOR_12);
    let indices = mnemonics.indices();
    assert_eq!(indices.len(), 12);
    for j in 0..11 {
        assert_eq!(indices[j], 0);
    }
    assert_eq!(indices[11], 3);
}

#[test]
fn checksum_rejects_bit_flips() {
    let entropy = Entropy::from_slice(patterned(16)).unwrap();
    let good = entropy.to_mnemonics().indices().clone();
    let flips: [(usize, u16); 5] = [(0, 1), (0, 1024), (3, 64), (7, 2), (11, 16)];
    for (word, bit) in flips {
        let mut flipped = good.clone();
        flipped[word] ^= bit;
        let mnemonics = Mnemonics::from_indices(flipped).unwrap();
        assert_eq!(Entropy::from_mnemonics(&mnemonics), Err(Error::ChecksumMismatch));
    }
}

#[test]
fn checksum_rejects_checksum_bit_flip() {
    // the last 4 bits of the last word of a 12-word mnemonic are checksum
    // bits: flipping one of them always fails, whatever the entropy
    let entropy = Entropy::from_slice(patterned(16)).unwrap();
    let good = entropy.to_mnemonics().indices().clone();
    for bit in [1u16, 2, 4, 8] {
        let mut flipped = good.clone();
        flipped[11] ^= bit;
        let mnemonics = Mnemonics::from_indices(flipped).unwrap();
        assert_eq!(Entropy::from_mnemonics(&mnemonics), Err(Error::ChecksumMismatch));
    }
}

#[test]
fn seed_determinism_golden_vector() {
    let seed = Seed::from_mnemonic_string(VECTOR_12, b"");
    assert_eq!(
        hex::encode(seed.as_bytes()),
        "5eb00bbddcf069084889a8ab9155568165f5c453ccb85e70811aaed6f6da5fc19a5ac40b389cd370d086206dec8aa6c43daea6690f20ad3d8d48b2d2ce9e38e4"
    );
    let again = Seed::from_mnemonic_string(VECTOR_12, b"");
    assert_eq!(seed.as_bytes(), again.as_bytes());
}

#[test]
fn seed_golden_vector_with_passphrase() {
    let seed = Seed::from_mnemonic_string(VECTOR_12, b"TREZOR");
    assert_eq!(
        hex::encode(seed.as_bytes()),
        "c55257c360c07c72029aebc1b53c05ed0362ada38ead3e3e9efa3708e53495531f09a6987599d18264c1e1c92f2cf141630c7a3c4ab7c81b2f001698e7463b04"
    );
}

#[test]
fn passphrase_changes_seed() {
    let plain = Seed::from_mnemonic_string(VECTOR_12, b"");
    let salted = Seed::from_mnemonic_string(VECTOR_12, b"pass");
    assert_ne!(plain.as_bytes(), salted.as_bytes());
}

#[test]
fn words_round_trip() {
    let words: Vec<String> = VECTOR_12.split(' ').map(|w| w.to_string()).collect();
    let mnemonics = Mnemonics::from_words(&words).unwrap();
    assert_eq!(mnemonics.to_string(), VECTOR_12);
    let entropy = Entropy::from_mnemonics(&mnemonics).unwrap();
    assert_eq!(entropy.as_bytes(), &vec![0u8; 16]);
}

#[test]
fn word_not_found_reports_position() {
    let mut words: Vec<String> = VECTOR_12.split(' ').map(|w| w.to_string()).collect();
    words[4] = "zzzzzz".to_string();
    assert_eq!(Mnemonics::from_words(&words), Err(Error::WordNotFound(4)));
}

#[test]
fn invalid_word_count() {
    let words: Vec<String> = (0..13).map(|_| "abandon".to_string()).collect();
    assert_eq!(Mnemonics::from_words(&words), Err(Error::InvalidWordCount(13)));
    assert_eq!(Mnemonics::from_indices(vec![0u16; 13]), Err(Error::InvalidWordCount(13)));
}

#[test]
fn word_index_out_of_bound() {
    let mut indices = vec![0u16; 12];
    indices[5] = 2048;
    assert_eq!(Mnemonics::from_indices(indices), Err(Error::WordIndexOutOfBound(2048)));
}

#[test]
fn invalid_entropy_length() {
    assert_eq!(
        Entropy::from_slice(vec![0u8; 17]).unwrap_err(),
        Error::InvalidEntropyLength(17)
    );
    assert_eq!(
        Entropy::from_slice(Vec::new()).unwrap_err(),
        Error::InvalidEntropyLength(0)
    );
}

#[test]
fn mnemonic_size_table() {
    let cases: [(MnemonicSize, usize, usize, usize); 5] = [
        (MnemonicSize::Words12, 12, 16, 4),
        (MnemonicSize::Words15, 15, 20, 5),
        (MnemonicSize::Words18, 18, 24, 6),
        (MnemonicSize::Words21, 21, 28, 7),
        (MnemonicSize::Words24, 24, 32, 8),
    ];
    for (size, words, entropy_bytes, checksum_bits) in cases {
        assert_eq!(size.words(), words);
        assert_eq!(size.entropy_bytes(), entropy_bytes);
        assert_eq!(size.checksum_bits(), checksum_bits);
        assert_eq!(size.entropy_bits(), entropy_bytes * 8);
        assert_eq!(MnemonicSize::from_word_count(words), Ok(size));
        assert_eq!(MnemonicSize::from_entropy_len(entropy_bytes), Ok(size));
    }
    assert_eq!(MnemonicSize::from_word_count(9), Err(Error::InvalidWordCount(9)));
}

#[test]
fn generated_entropy_round_trips() {
    for size in [
        MnemonicSize::Words12,
        MnemonicSize::Words15,
        MnemonicSize::Words18,
        MnemonicSize::Words21,
        MnemonicSize::Words24,
    ] {
        let entropy = Entropy::generate(size);
        assert_eq!(entropy.as_bytes().len(), size.entropy_bytes());
        let mnemonics = entropy.to_mnemonics();
        assert_eq!(mnemonics.indices().len(), size.words());
        let back = Entropy::from_mnemonics(&mnemonics).unwrap();
        assert_eq!(back.as_bytes(), entropy.as_bytes());
    }
}

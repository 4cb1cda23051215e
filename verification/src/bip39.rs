//! The mnemonic/entropy/seed pipeline: entropy of one of five fixed sizes
//! is encoded (with an embedded checksum taken from the leading bits of its
//! 256-bit digest) into a sequence of dictionary words, decoded back with
//! checksum verification, and stretched together with a passphrase into a
//! fixed-length 64-byte seed.

use vstd::prelude::*;
use sha2::Digest;

verus! {

use crate::bits::{
    u8_bit,
    u16_bit,
    bytes_to_bits,
    groups_to_bits,
    bits_to_bytes,
    bits_to_groups,
    unpack_bytes,
    unpack_groups,
    pack_bytes,
    pack_groups,
    lemma_bits_bytes_roundtrip,
    lemma_groups_bits_roundtrip,
    lemma_grouped_index,
    lemma_u16_bits_inject,
};
use crate::dictionary::{word_of, word_in_dictionary, word_at, word_index};

/// Error relating to the mnemonic pipeline
#[derive(Clone, Copy, Debug, PartialEq, Eq, Structural)]
pub enum Error {
    /// the entropy byte length is not one of the five supported sizes
    InvalidEntropyLength(usize),
    /// the word count is not one of the five supported sizes
    InvalidWordCount(usize),
    /// a word index does not fit the 11-bit dictionary space
    WordIndexOutOfBound(u16),
    /// the word at this position is absent from the dictionary
    WordNotFound(usize),
    /// the embedded checksum does not match the entropy
    ChecksumMismatch,
}

/// The five supported mnemonic sizes. The word-count to bit-length table is
/// fixed: checksum bits = words / 3, entropy bits = 32 * checksum bits, and
/// entropy bits + checksum bits = 11 * words.
#[derive(Clone, Copy, Debug, PartialEq, Eq, Structural)]
pub enum MnemonicSize {
    Words12,
    Words15,
    Words18,
    Words21,
    Words24,
}

/// Whether a word count is one of the five supported sizes.
pub open spec fn spec_valid_word_count(n: int) -> bool {
    n == 12 || n == 15 || n == 18 || n == 21 || n == 24
}

/// Whether an entropy byte length is one of the five supported sizes.
pub open spec fn spec_valid_entropy_len(n: int) -> bool {
    n == 16 || n == 20 || n == 24 || n == 28 || n == 32
}

impl MnemonicSize {
    pub open spec fn spec_words(self) -> int {
        match self {
            MnemonicSize::Words12 => 12,
            MnemonicSize::Words15 => 15,
            MnemonicSize::Words18 => 18,
            MnemonicSize::Words21 => 21,
            MnemonicSize::Words24 => 24,
        }
    }

    pub open spec fn spec_checksum_bits(self) -> int {
        match self {
            MnemonicSize::Words12 => 4,
            MnemonicSize::Words15 => 5,
            MnemonicSize::Words18 => 6,
            MnemonicSize::Words21 => 7,
            MnemonicSize::Words24 => 8,
        }
    }

    pub open spec fn spec_entropy_bytes(self) -> int {
        match self {
            MnemonicSize::Words12 => 16,
            MnemonicSize::Words15 => 20,
            MnemonicSize::Words18 => 24,
            MnemonicSize::Words21 => 28,
            MnemonicSize::Words24 => 32,
        }
    }

    pub open spec fn spec_entropy_bits(self) -> int {
        self.spec_entropy_bytes() * 8
    }

    pub open spec fn spec_total_bits(self) -> int {
        self.spec_entropy_bits() + self.spec_checksum_bits()
    }

    pub fn words(&self) -> (r: usize)
        ensures
            r == self.spec_words(),
    {
        match self {
            MnemonicSize::Words12 => 12,
            MnemonicSize::Words15 => 15,
            MnemonicSize::Words18 => 18,
            MnemonicSize::Words21 => 21,
            MnemonicSize::Words24 => 24,
        }
    }

    pub fn checksum_bits(&self) -> (r: usize)
        ensures
            r == self.spec_checksum_bits(),
    {
        match self {
            MnemonicSize::Words12 => 4,
            MnemonicSize::Words15 => 5,
            MnemonicSize::Words18 => 6,
            MnemonicSize::Words21 => 7,
            MnemonicSize::Words24 => 8,
        }
    }

    pub fn entropy_bytes(&self) -> (r: usize)
        ensures
            r == self.spec_entropy_bytes(),
    {
        match self {
            MnemonicSize::Words12 => 16,
            MnemonicSize::Words15 => 20,
            MnemonicSize::Words18 => 24,
            MnemonicSize::Words21 => 28,
            MnemonicSize::Words24 => 32,
        }
    }

    pub fn entropy_bits(&self) -> (r: usize)
        ensures
            r == self.spec_entropy_bits(),
    {
        self.entropy_bytes() * 8
    }

    pub fn from_word_count(words: usize) -> (r: Result<MnemonicSize, Error>)
        ensures
            spec_valid_word_count(words as int) <==> r is Ok,
            r matches Ok(s) ==> s.spec_words() == words,
            !spec_valid_word_count(words as int) ==> r == Err::<MnemonicSize, Error>(
                Error::InvalidWordCount(words),
            ),
    {
        match words {
            12 => Ok(MnemonicSize::Words12),
            15 => Ok(MnemonicSize::Words15),
            18 => Ok(MnemonicSize::Words18),
            21 => Ok(MnemonicSize::Words21),
            24 => Ok(MnemonicSize::Words24),
            _ => Err(Error::InvalidWordCount(words)),
        }
    }

    pub fn from_entropy_len(len: usize) -> (r: Result<MnemonicSize, Error>)
        ensures
            spec_valid_entropy_len(len as int) <==> r is Ok,
            r matches Ok(s) ==> s.spec_entropy_bytes() == len,
            !spec_valid_entropy_len(len as int) ==> r == Err::<MnemonicSize, Error>(
                Error::InvalidEntropyLength(len),
            ),
    {
        match len {
            16 => Ok(MnemonicSize::Words12),
            20 => Ok(MnemonicSize::Words15),
            24 => Ok(MnemonicSize::Words18),
            28 => Ok(MnemonicSize::Words21),
            32 => Ok(MnemonicSize::Words24),
            _ => Err(Error::InvalidEntropyLength(len)),
        }
    }
}

/// The fixed relations of the word-count to bit-length table.
pub proof fn lemma_size_facts(s: MnemonicSize)
    ensures
        3 * s.spec_checksum_bits() == s.spec_words(),
        s.spec_checksum_bits() <= 8,
        s.spec_entropy_bytes() == 4 * s.spec_checksum_bits(),
        s.spec_entropy_bytes() <= 32,
        s.spec_entropy_bits() % 8 == 0,
        s.spec_total_bits() == 11 * s.spec_words(),
        s.spec_total_bits() % 11 == 0,
        spec_valid_word_count(s.spec_words()),
        spec_valid_entropy_len(s.spec_entropy_bytes()),
{
    match s {
        MnemonicSize::Words12 => {},
        MnemonicSize::Words15 => {},
        MnemonicSize::Words18 => {},
        MnemonicSize::Words21 => {},
        MnemonicSize::Words24 => {},
    }
}

/// The 256-bit digest of a byte sequence.
pub uninterp spec fn sha256_of(bytes: Seq<u8>) -> Seq<u8>;

/// Relies on `sha2::Sha256` (the standard 256-bit digest): the result is 32
/// bytes and depends on the input bytes alone.
#[verifier::external_body]
fn sha256(bytes: &Vec<u8>) -> (r: Vec<u8>)
    ensures
        r@ == sha256_of(bytes@),
        r@.len() == 32,
{
    sha2::Sha256::digest(bytes.as_slice()).to_vec()
}

/// Relies on `rand::random`: one byte from the operating-system-seeded
/// generator; nothing is promised of its value.
#[verifier::external_body]
fn random_byte() -> u8 {
    rand::random()
}

/// The leading checksum bits of an entropy value's digest: at most 8 of
/// them, so they all come from the digest's first byte.
pub open spec fn spec_checksum_seq(size: MnemonicSize, entropy: Seq<u8>) -> Seq<bool> {
    Seq::new(size.spec_checksum_bits() as nat, |i: int| u8_bit(sha256_of(entropy)[0], i))
}

/// The full bit sequence a mnemonic of this size encodes: the entropy bits
/// followed by the leading checksum bits of the entropy's digest.
pub open spec fn spec_full_bits(size: MnemonicSize, entropy: Seq<u8>) -> Seq<bool> {
    bytes_to_bits(entropy) + spec_checksum_seq(size, entropy)
}

/// The word indices encoding an entropy value: the full bit sequence
/// sliced into 11-bit groups.
pub open spec fn spec_encode(size: MnemonicSize, entropy: Seq<u8>) -> Seq<u16> {
    bits_to_groups(spec_full_bits(size, entropy))
}

/// The entropy bytes a sequence of word indices carries: the leading
/// entropy bits, packed back into bytes.
pub open spec fn spec_decoded_entropy(size: MnemonicSize, indices: Seq<u16>) -> Seq<u8> {
    bits_to_bytes(groups_to_bits(indices).take(size.spec_entropy_bits()))
}

/// Whether the trailing checksum bits of a sequence of word indices equal
/// the leading bits of the digest of the entropy it carries.
pub open spec fn spec_checksum_ok(size: MnemonicSize, indices: Seq<u16>) -> bool {
    groups_to_bits(indices).skip(size.spec_entropy_bits()) == spec_checksum_seq(
        size,
        spec_decoded_entropy(size, indices),
    )
}

/// An ordered sequence of dictionary word indices of one of the five
/// supported lengths, each index inside the 11-bit dictionary space.
#[derive(Debug, PartialEq, Eq)]
pub struct Mnemonics {
    size: MnemonicSize,
    indices: Vec<u16>,
}

/// A byte sequence whose length is one of the five supported entropy
/// sizes, destined to be encoded as a mnemonic.
#[derive(Debug, PartialEq, Eq)]
pub struct Entropy {
    size: MnemonicSize,
    bytes: Vec<u8>,
}

impl Entropy {
    pub closed spec fn spec_size(self) -> MnemonicSize {
        self.size
    }

    pub closed spec fn spec_bytes(self) -> Seq<u8> {
        self.bytes@
    }

    pub open spec fn is_valid(self) -> bool {
        self.spec_bytes().len() == self.spec_size().spec_entropy_bytes()
    }

    pub fn size(&self) -> (r: MnemonicSize)
        ensures
            r == self.spec_size(),
    {
        self.size
    }

    pub fn as_bytes(&self) -> (r: &Vec<u8>)
        ensures
            r@ == self.spec_bytes(),
    {
        &self.bytes
    }

    /// build an entropy value from raw bytes, inferring the size from the
    /// byte length
    pub fn from_slice(bytes: Vec<u8>) -> (r: Result<Entropy, Error>)
        ensures
            spec_valid_entropy_len(bytes@.len() as int) <==> r is Ok,
            r matches Ok(e) ==> e.is_valid() && e.spec_bytes() == bytes@
                && e.spec_size().spec_entropy_bytes() == bytes@.len(),
            !spec_valid_entropy_len(bytes@.len() as int) ==> r == Err::<Entropy, Error>(
                Error::InvalidEntropyLength(bytes@.len() as usize),
            ),
    {
        match MnemonicSize::from_entropy_len(bytes.len()) {
            Ok(size) => Ok(Entropy { size, bytes }),
            Err(e) => Err(e),
        }
    }

    /// draw fresh entropy of the given size from the random source
    pub fn generate(size: MnemonicSize) -> (r: Entropy)
        ensures
            r.is_valid(),
            r.spec_size() == size,
    {
        let n: usize = size.entropy_bytes();
        let mut bytes: Vec<u8> = Vec::new();
        let mut k: usize = 0;
        while k < n
            invariant
                k <= n,
                bytes@.len() == k,
            decreases n - k,
        {
            bytes.push(random_byte());
            k += 1;
        }
        Entropy { size, bytes }
    }

    /// encode this entropy into word indices: entropy bits, then the
    /// leading checksum bits of the entropy's digest, sliced into 11-bit
    /// groups
    pub fn to_mnemonics(&self) -> (r: Mnemonics)
        requires
            self.is_valid(),
        ensures
            r.is_valid(),
            r.spec_size() == self.spec_size(),
            r.spec_indices() == spec_encode(self.spec_size(), self.spec_bytes()),
    {
        proof {
            lemma_size_facts(self.spec_size());
        }
        let cs: usize = self.size.checksum_bits();
        let mut bits = unpack_bytes(&self.bytes);
        let hash = sha256(&self.bytes);
        let h0 = hash[0];
        let ghost cseq = spec_checksum_seq(self.spec_size(), self.spec_bytes());
        proof {
            assert(bits@ + cseq.take(0) =~= bits@);
        }
        let mut k: usize = 0;
        while k < cs
            invariant
                cs == self.spec_size().spec_checksum_bits(),
                cs <= 8,
                k <= cs,
                self.is_valid(),
                h0 == sha256_of(self.spec_bytes())[0],
                cseq == spec_checksum_seq(self.spec_size(), self.spec_bytes()),
                bits@ == bytes_to_bits(self.spec_bytes()) + cseq.take(k as int),
            decreases cs - k,
        {
            let sh: u8 = 7 - (k as u8);
            let bit = ((h0 >> sh) & 1) == 1;
            proof {
                assert(bit == cseq[k as int]);
                assert(bits@.push(bit) =~= bytes_to_bits(self.spec_bytes()) + cseq.take(k + 1));
            }
            bits.push(bit);
            k += 1;
        }
        proof {
            assert(cseq.take(cs as int) =~= cseq);
            assert(bits@ =~= spec_full_bits(self.spec_size(), self.spec_bytes()));
            assert(bits@.len() == self.spec_size().spec_total_bits());
        }
        let indices = pack_groups(&bits);
        proof {
            lemma_grouped_index(self.spec_size().spec_words(), 0, 11);
            assert(indices@.len() == self.spec_size().spec_words());
        }
        Mnemonics { size: self.size, indices }
    }

    /// decode word indices back to entropy, verifying the embedded
    /// checksum against the digest of the decoded entropy bytes
    pub fn from_mnemonics(m: &Mnemonics) -> (r: Result<Entropy, Error>)
        requires
            m.is_valid(),
        ensures
            spec_checksum_ok(m.spec_size(), m.spec_indices()) <==> r is Ok,
            r matches Ok(e) ==> e.is_valid() && e.spec_size() == m.spec_size() && e.spec_bytes()
                == spec_decoded_entropy(m.spec_size(), m.spec_indices()),
            !spec_checksum_ok(m.spec_size(), m.spec_indices()) ==> r == Err::<Entropy, Error>(
                Error::ChecksumMismatch,
            ),
    {
        proof {
            lemma_size_facts(m.spec_size());
        }
        let en: usize = m.size.entropy_bits();
        let cs: usize = m.size.checksum_bits();
        let bits = unpack_groups(&m.indices);
        proof {
            assert(bits@.len() == m.spec_size().spec_total_bits());
        }
        let mut ebits: Vec<bool> = Vec::new();
        let mut k: usize = 0;
        while k < en
            invariant
                en <= bits@.len(),
                bits@.len() <= 264,
                k <= en,
                ebits@ == bits@.take(k as int),
            decreases en - k,
        {
            let b = bits[k];
            proof {
                assert(bits@.take(k as int).push(bits@[k as int]) =~= bits@.take(k + 1));
            }
            ebits.push(b);
            k += 1;
        }
        let ebytes = pack_bytes(&ebits);
        let ghost decoded = spec_decoded_entropy(m.spec_size(), m.spec_indices());
        proof {
            assert(ebytes@ == decoded);
        }
        let hash = sha256(&ebytes);
        let h0 = hash[0];
        let ghost cseq = spec_checksum_seq(m.spec_size(), decoded);
        let mut ok = true;
        let mut j: usize = 0;
        while j < cs
            invariant
                cs == m.spec_size().spec_checksum_bits(),
                cs <= 8,
                en == m.spec_size().spec_entropy_bits(),
                en + cs == bits@.len(),
                j <= cs,
                h0 == sha256_of(decoded)[0],
                cseq == spec_checksum_seq(m.spec_size(), decoded),
                ok <==> (forall|i: int| 0 <= i < j ==> bits@[en + i] == cseq[i]),
            decreases cs - j,
        {
            let sh: u8 = 7 - (j as u8);
            let hbit = ((h0 >> sh) & 1) == 1;
            proof {
                assert(hbit == cseq[j as int]);
            }
            if bits[en + j] != hbit {
                ok = false;
            }
            j += 1;
        }
        if ok {
            proof {
                assert(bits@.skip(en as int) =~= cseq);
            }
            Ok(Entropy { size: m.size, bytes: ebytes })
        } else {
            proof {
                if spec_checksum_ok(m.spec_size(), m.spec_indices()) {
                    assert forall|i: int| 0 <= i < cs implies bits@[en + i] == cseq[i] by {
                        assert(bits@.skip(en as int) == cseq);
                        assert(bits@.skip(en as int)[i] == bits@[en + i]);
                    };
                    assert(false);
                }
            }
            Err(Error::ChecksumMismatch)
        }
    }
}

/// The space-joined rendering of a sequence of word indices through the
/// dictionary.
pub open spec fn spec_render(indices: Seq<u16>) -> Seq<char>
    decreases indices.len(),
{
    if indices.len() == 0 {
        Seq::empty()
    } else if indices.len() == 1 {
        word_of(indices[0] as int)
    } else {
        spec_render(indices.drop_last()) + seq![' '] + word_of(indices.last() as int)
    }
}

impl Mnemonics {
    pub closed spec fn spec_size(self) -> MnemonicSize {
        self.size
    }

    pub closed spec fn spec_indices(self) -> Seq<u16> {
        self.indices@
    }

    pub open spec fn is_valid(self) -> bool {
        &&& self.spec_indices().len() == self.spec_size().spec_words()
        &&& forall|j: int| 0 <= j < self.spec_indices().len() ==> self.spec_indices()[j] < 2048
    }

    pub fn size(&self) -> (r: MnemonicSize)
        ensures
            r == self.spec_size(),
    {
        self.size
    }

    pub fn indices(&self) -> (r: &Vec<u16>)
        ensures
            r@ == self.spec_indices(),
    {
        &self.indices
    }

    /// build a mnemonic from raw word indices, inferring the size from the
    /// index count
    pub fn from_indices(indices: Vec<u16>) -> (r: Result<Mnemonics, Error>)
        ensures
            (spec_valid_word_count(indices@.len() as int) && (forall|j: int|
                0 <= j < indices@.len() ==> indices@[j] < 2048)) <==> r is Ok,
            r matches Ok(m) ==> m.is_valid() && m.spec_indices() == indices@
                && m.spec_size().spec_words() == indices@.len(),
            !spec_valid_word_count(indices@.len() as int) ==> r == Err::<Mnemonics, Error>(
                Error::InvalidWordCount(indices@.len() as usize),
            ),
            spec_valid_word_count(indices@.len() as int) && !(forall|j: int|
                0 <= j < indices@.len() ==> indices@[j] < 2048) ==> (r matches Err(e) && (exists|
                j: int,
            |
                0 <= j < indices@.len() && e == Error::WordIndexOutOfBound(indices@[j])
                    && indices@[j] >= 2048 && (forall|k: int| 0 <= k < j ==> indices@[k] < 2048))),
    {
        let size = match MnemonicSize::from_word_count(indices.len()) {
            Ok(s) => s,
            Err(e) => {
                return Err(e);
            },
        };
        let mut j: usize = 0;
        while j < indices.len()
            invariant
                spec_valid_word_count(indices@.len() as int),
                size.spec_words() == indices@.len(),
                j <= indices@.len(),
                forall|k: int| 0 <= k < j ==> indices@[k] < 2048,
            decreases indices@.len() - j,
        {
            if indices[j] >= 2048 {
                return Err(Error::WordIndexOutOfBound(indices[j]));
            }
            j += 1;
        }
        Ok(Mnemonics { size, indices })
    }

    /// look every word up in the dictionary and build the mnemonic of
    /// their indices
    pub fn from_words(words: &Vec<String>) -> (r: Result<Mnemonics, Error>)
        ensures
            (spec_valid_word_count(words@.len() as int) && (forall|j: int|
                0 <= j < words@.len() ==> word_in_dictionary(words@[j]@))) <==> r is Ok,
            r matches Ok(m) ==> m.is_valid() && m.spec_size().spec_words() == words@.len() && (
            forall|j: int|
                0 <= j < words@.len() ==> word_of(m.spec_indices()[j] as int) == words@[j]@),
            !spec_valid_word_count(words@.len() as int) ==> r == Err::<Mnemonics, Error>(
                Error::InvalidWordCount(words@.len() as usize),
            ),
            spec_valid_word_count(words@.len() as int) && !(forall|j: int|
                0 <= j < words@.len() ==> word_in_dictionary(words@[j]@)) ==> (r matches Err(e)
                && (exists|j: int|
                0 <= j < words@.len() && e == Error::WordNotFound(j as usize)
                    && !word_in_dictionary(words@[j]@) && (forall|k: int|
                    0 <= k < j ==> word_in_dictionary(words@[k]@)))),
    {
        let size = match MnemonicSize::from_word_count(words.len()) {
            Ok(s) => s,
            Err(e) => {
                return Err(e);
            },
        };
        let mut indices: Vec<u16> = Vec::new();
        let mut j: usize = 0;
        while j < words.len()
            invariant
                spec_valid_word_count(words@.len() as int),
                size.spec_words() == words@.len(),
                j <= words@.len(),
                indices@.len() == j,
                forall|k: int|
                    0 <= k < j ==> indices@[k] < 2048 && word_of(indices@[k] as int) == words@[k]@,
            decreases words@.len() - j,
        {
            match word_index(words[j].as_str()) {
                Some(i) => {
                    indices.push(i);
                },
                None => {
                    return Err(Error::WordNotFound(j));
                },
            }
            j += 1;
        }
        proof {
            assert(forall|k: int|
                0 <= k < words@.len() ==> word_in_dictionary(#[trigger] words@[k]@));
        }
        Ok(Mnemonics { size, indices })
    }

    /// render the mnemonic as its space-joined dictionary words
    pub fn to_string(&self) -> (r: String)
        requires
            self.is_valid(),
        ensures
            r@ == spec_render(self.spec_indices()),
    {
        let mut r = String::new();
        let mut j: usize = 0;
        while j < self.indices.len()
            invariant
                self.is_valid(),
                j <= self.spec_indices().len(),
                r@ == spec_render(self.spec_indices().take(j as int)),
            decreases self.spec_indices().len() - j,
        {
            if j > 0 {
                let sep = " ";
                proof {
                    reveal_strlit(" ");
                    assert(sep@ =~= seq![' ']);
                }
                r.append(sep);
            }
            let w = word_at(self.indices[j]);
            r.append(w.as_str());
            proof {
                let taken = self.spec_indices().take(j + 1);
                assert(taken.drop_last() =~= self.spec_indices().take(j as int));
                assert(taken.last() == self.spec_indices()[j as int]);
            }
            j += 1;
        }
        proof {
            assert(self.spec_indices().take(self.spec_indices().len() as int) =~= self
                .spec_indices());
        }
        r
    }
}

/// The salt prefix of the seed-stretching function: the bytes of the word
/// "mnemonic", completed by the passphrase.
pub open spec fn spec_salt_prefix() -> Seq<u8> {
    seq![109u8, 110u8, 101u8, 109u8, 111u8, 110u8, 105u8, 99u8]
}

/// The 64-byte stretched seed of a mnemonic string and a salt.
pub uninterp spec fn stretched_of(mnemonic: Seq<char>, salt: Seq<u8>) -> Seq<u8>;

/// Relies on `pbkdf2::pbkdf2_hmac` with SHA-512 at the fixed standard round
/// count (2048): the 64-byte result is a function of the key string and the
/// salt alone.
#[verifier::external_body]
fn pbkdf2_stretch(mnemonic: &str, salt: &Vec<u8>) -> (r: Vec<u8>)
    ensures
        r@ == stretched_of(mnemonic@, salt@),
        r@.len() == 64,
{
    let mut out = [0u8; 64];
    pbkdf2::pbkdf2_hmac::<sha2::Sha512>(mnemonic.as_bytes(), salt.as_slice(), 2048, &mut out);
    out.to_vec()
}

/// A fixed-length 64-byte secret derived from a mnemonic string and a
/// passphrase; deterministic: identical inputs always yield the identical
/// seed.
pub struct Seed {
    bytes: Vec<u8>,
}

impl Seed {
    pub closed spec fn spec_bytes(self) -> Seq<u8> {
        self.bytes@
    }

    pub open spec fn is_valid(self) -> bool {
        self.spec_bytes().len() == 64
    }

    pub fn as_bytes(&self) -> (r: &Vec<u8>)
        ensures
            r@ == self.spec_bytes(),
    {
        &self.bytes
    }

    /// stretch a mnemonic string and a passphrase into the 64-byte seed; a
    /// missing passphrase is the empty passphrase, a valid and reproducible
    /// wallet
    pub fn from_mnemonic_string(mnemonic: &str, passphrase: &[u8]) -> (r: Seed)
        ensures
            r.is_valid(),
            r.spec_bytes() == stretched_of(mnemonic@, spec_salt_prefix() + passphrase@),
    {
        let mut salt: Vec<u8> = Vec::new();
        salt.push(109);
        salt.push(110);
        salt.push(101);
        salt.push(109);
        salt.push(111);
        salt.push(110);
        salt.push(105);
        salt.push(99);
        proof {
            assert(salt@ =~= spec_salt_prefix() + passphrase@.take(0));
        }
        let mut k: usize = 0;
        while k < passphrase.len()
            invariant
                k <= passphrase@.len(),
                salt@ == spec_salt_prefix() + passphrase@.take(k as int),
            decreases passphrase@.len() - k,
        {
            let b = passphrase[k];
            proof {
                assert(salt@.push(passphrase@[k as int]) =~= spec_salt_prefix() + passphrase@.take(
                    k + 1,
                ));
            }
            salt.push(b);
            k += 1;
        }
        proof {
            assert(passphrase@.take(passphrase@.len() as int) =~= passphrase@);
        }
        let bytes = pbkdf2_stretch(mnemonic, &salt);
        Seed { bytes }
    }
}

/// The mnemonic round-trip law: for every entropy value of a supported
/// size, decoding the encoded word indices passes the checksum and yields
/// the entropy bytes back.
pub proof fn lemma_mnemonic_round_trip(size: MnemonicSize, entropy: Seq<u8>)
    requires
        entropy.len() == size.spec_entropy_bytes(),
    ensures
        spec_checksum_ok(size, spec_encode(size, entropy)),
        spec_decoded_entropy(size, spec_encode(size, entropy)) == entropy,
{
    lemma_size_facts(size);
    let full = spec_full_bits(size, entropy);
    assert(full.len() == size.spec_total_bits());
    lemma_groups_bits_roundtrip(full);
    assert(groups_to_bits(spec_encode(size, entropy)) == full);
    assert(full.take(size.spec_entropy_bits()) =~= bytes_to_bits(entropy));
    lemma_bits_bytes_roundtrip(entropy);
    assert(spec_decoded_entropy(size, spec_encode(size, entropy)) == entropy);
    assert(full.skip(size.spec_entropy_bits()) =~= spec_checksum_seq(size, entropy));
}

/// The deterministic core of checksum rejection: two valid mnemonics of
/// the same size that carry the same entropy bits are the same mnemonic.
/// So any change to a valid mnemonic's word indices that leaves the
/// decoded entropy intact (a flip inside the checksum bits among them)
/// fails the checksum.
pub proof fn lemma_checksum_pins_mnemonic(size: MnemonicSize, a: Seq<u16>, b: Seq<u16>)
    requires
        a.len() == size.spec_words(),
        b.len() == size.spec_words(),
        forall|j: int| 0 <= j < a.len() ==> a[j] < 2048,
        forall|j: int| 0 <= j < b.len() ==> b[j] < 2048,
        spec_checksum_ok(size, a),
        spec_checksum_ok(size, b),
        groups_to_bits(a).take(size.spec_entropy_bits()) == groups_to_bits(b).take(
            size.spec_entropy_bits(),
        ),
    ensures
        a == b,
{
    lemma_size_facts(size);
    let en = size.spec_entropy_bits();
    let ba = groups_to_bits(a);
    let bb = groups_to_bits(b);
    assert(spec_decoded_entropy(size, a) == spec_decoded_entropy(size, b));
    assert(ba.skip(en) == bb.skip(en));
    assert forall|i: int| 0 <= i < ba.len() implies ba[i] == bb[i] by {
        if i < en {
            assert(ba.take(en)[i] == bb.take(en)[i]);
        } else {
            assert(ba.skip(en)[i - en] == bb.skip(en)[i - en]);
        }
    };
    assert forall|j: int| 0 <= j < a.len() implies a[j] == b[j] by {
        assert forall|i: int| 0 <= i < 11 implies u16_bit(a[j], i) == u16_bit(b[j], i) by {
            lemma_grouped_index(j, i, 11);
            assert(ba[11 * j + i] == u16_bit(a[j], i));
            assert(bb[11 * j + i] == u16_bit(b[j], i));
        };
        lemma_u16_bits_inject(a[j], b[j]);
    };
    assert(a =~= b);
}

} // verus!

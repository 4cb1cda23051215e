//! Address orchestration: given a wallet's root seed and an account /
//! address-type / index-list request, produce the ordered derivation paths
//! that the external key-derivation primitive consumes, preserving the
//! caller's index order and rejecting the whole batch on the first invalid
//! index.

use vstd::prelude::*;

verus! {

use crate::bip39::Seed;
use crate::bip44::{
    Account,
    AddrType,
    Addressing,
    Error,
    Path,
    BIP44_SOFT_UPPER_BOUND,
    lemma_account_from_value,
    spec_account_from,
    spec_to_path,
};

/// A wallet: the root key material that all address derivation starts
/// from.
pub struct Wallet {
    seed: Seed,
}

/// The change-branch value of an address type: 1 for internal, 0 for
/// external.
pub open spec fn spec_change_value(typ: AddrType) -> u32 {
    match typ {
        AddrType::Internal => 1u32,
        AddrType::External => 0u32,
    }
}

impl Wallet {
    pub closed spec fn spec_seed(self) -> Seed {
        self.seed
    }

    pub fn generate(seed: Seed) -> (r: Wallet)
        ensures
            r.spec_seed() == seed,
    {
        Wallet { seed }
    }

    pub fn seed(&self) -> (r: &Seed)
        ensures
            *r == self.spec_seed(),
    {
        &self.seed
    }

    /// build one derivation path per requested index, in the caller's
    /// order; the whole batch is rejected on an out-of-bound account or on
    /// the first out-of-bound index
    pub fn gen_paths(&self, account: u32, addr_type: AddrType, indices: &Vec<u32>) -> (r: Result<
        Vec<Path>,
        Error,
    >)
        ensures
            account >= BIP44_SOFT_UPPER_BOUND ==> (r matches Err(e) && e
                == Error::AccountOutOfBound(account)),
            account < BIP44_SOFT_UPPER_BOUND && (forall|k: int|
                0 <= k < indices@.len() ==> indices@[k] < BIP44_SOFT_UPPER_BOUND) ==> (r matches Ok(
            v) && v@.len() == indices@.len() && (forall|k: int|
                0 <= k < indices@.len() ==> v@[k]@ == spec_to_path(
                    (Addressing {
                        account: spec_account_from(account),
                        change: spec_change_value(addr_type),
                        index: indices@[k],
                    }),
                ))),
            account < BIP44_SOFT_UPPER_BOUND && !(forall|k: int|
                0 <= k < indices@.len() ==> indices@[k] < BIP44_SOFT_UPPER_BOUND) ==> (r matches Err(
            e) && (exists|j: int|
                0 <= j < indices@.len() && indices@[j] >= BIP44_SOFT_UPPER_BOUND && e
                    == Error::IndexOutOfBound(indices@[j]) && (forall|k: int|
                    0 <= k < j ==> indices@[k] < BIP44_SOFT_UPPER_BOUND))),
    {
        let acct = match Account::new(account) {
            Ok(a) => a,
            Err(e) => {
                return Err(e);
            },
        };
        let change = match acct.change(addr_type) {
            Ok(c) => c,
            Err(e) => {
                return Err(e);
            },
        };
        let mut out: Vec<Path> = Vec::new();
        let mut k: usize = 0;
        while k < indices.len()
            invariant
                account < BIP44_SOFT_UPPER_BOUND,
                acct.spec_value() == account,
                change.spec_account() == acct,
                change.spec_change() == spec_change_value(addr_type),
                k <= indices@.len(),
                out@.len() == k,
                forall|j: int|
                    0 <= j < k ==> indices@[j] < BIP44_SOFT_UPPER_BOUND && out@[j]@ == spec_to_path(
                        (Addressing {
                            account: spec_account_from(account),
                            change: spec_change_value(addr_type),
                            index: indices@[j],
                        }),
                    ),
            decreases indices@.len() - k,
        {
            let idx = indices[k];
            match change.index(idx) {
                Ok(addressing) => {
                    proof {
                        lemma_account_from_value(acct);
                    }
                    let path = addressing.to_path();
                    out.push(path);
                },
                Err(e) => {
                    return Err(e);
                },
            }
            k += 1;
        }
        Ok(out)
    }
}

} // verus!

//! BIP44 addressing: a typed, invariant-checked representation of the
//! 5-level hierarchical derivation path (purpose, coin type, account,
//! change, index) with hardened/soft boundary rules, path validation and
//! round-tripping, increment, and batch index generation.

use vstd::prelude::*;

verus! {

/// the BIP44 derivation path has a specific length
pub const BIP44_PATH_LENGTH: usize = 5;
/// the BIP44 derivation path has a specific purpose
pub const BIP44_PURPOSE: u32 = 0x8000002C;
/// the BIP44 coin type is set, by default, to cardano ada.
pub const BIP44_COIN_TYPE: u32 = 0x80000717;
/// the soft derivation is upper bounded
pub const BIP44_SOFT_UPPER_BOUND: u32 = 0x80000000;

/// Error relating to `bip44`'s `Addressing` operations
#[derive(Clone, Copy, Debug, PartialEq, Eq, Structural)]
pub enum Error {
    /// the given path has an incompatible length for bip44 derivation
    InvalidLength(usize),
    /// the given path has an incompatible purpose for bip44 derivation
    InvalidPurpose(u32),
    /// the given path has an incompatible coin type for bip44 derivation
    InvalidType(u32),
    /// the account derivation is expected to be a hard derivation
    AccountOutOfBound(u32),
    /// the change derivation is expected to be a soft derivation
    ChangeOutOfBound(u32),
    /// the index derivation is expected to be a soft derivation
    IndexOutOfBound(u32),
}

/// A raw derivation path: the ordered list of derivation indices that the
/// external key-derivation primitive consumes.
#[derive(Debug, PartialEq, Eq)]
pub struct Path(pub Vec<u32>);

impl View for Path {
    type V = Seq<u32>;

    open spec fn view(&self) -> Seq<u32> {
        self.0@
    }
}

impl Path {
    pub fn new(values: Vec<u32>) -> (r: Path)
        ensures
            r@ == values@,
    {
        Path(values)
    }
}

/// A hardened account index, before hardening is applied: a value in
/// `[0, 0x8000_0000)`.
#[derive(Clone, Copy, Debug, PartialEq, Eq, Structural)]
pub struct Account(u32);

impl Account {
    /// the raw (pre-hardening) account value
    pub closed spec fn spec_value(self) -> u32 {
        self.0
    }

    pub open spec fn is_valid(self) -> bool {
        self.spec_value() < BIP44_SOFT_UPPER_BOUND
    }

    pub fn new(account: u32) -> (r: Result<Account, Error>)
        ensures
            account < BIP44_SOFT_UPPER_BOUND ==> (r matches Ok(a) && a.spec_value() == account),
            account >= BIP44_SOFT_UPPER_BOUND ==> r == Err::<Account, Error>(
                Error::AccountOutOfBound(account),
            ),
            r matches Ok(a) ==> a.is_valid(),
    {
        if account >= BIP44_SOFT_UPPER_BOUND {
            return Err(Error::AccountOutOfBound(account));
        }
        Ok(Account(account))
    }

    /// the wire/path value of the account: the hardened derivation index
    pub fn index(&self) -> (r: u32)
        ensures
            r == self.spec_value() | BIP44_SOFT_UPPER_BOUND,
            self.is_valid() ==> r == self.spec_value() + BIP44_SOFT_UPPER_BOUND,
    {
        proof {
            let v = self.spec_value();
            assert(v < 0x80000000 ==> (v | 0x80000000u32) == v + 0x80000000) by (bit_vector);
        }
        self.0 | BIP44_SOFT_UPPER_BOUND
    }

    pub fn change(&self, typ: AddrType) -> (r: Result<Change, Error>)
        ensures
            r matches Ok(c) && c.spec_account() == *self && c.spec_change() == (match typ {
                AddrType::Internal => 1u32,
                AddrType::External => 0u32,
            }),
    {
        match typ {
            AddrType::Internal => self.internal(),
            AddrType::External => self.external(),
        }
    }

    pub fn internal(&self) -> (r: Result<Change, Error>)
        ensures
            r matches Ok(c) && c.spec_account() == *self && c.spec_change() == 1u32,
    {
        Change::new(*self, 1)
    }

    pub fn external(&self) -> (r: Result<Change, Error>)
        ensures
            r matches Ok(c) && c.spec_account() == *self && c.spec_change() == 0u32,
    {
        Change::new(*self, 0)
    }
}

/// An account together with a change level, the latter always a soft
/// derivation index.
#[derive(Clone, Copy, Debug, PartialEq, Eq, Structural)]
pub struct Change {
    account: Account,
    change: u32,
}

impl Change {
    pub closed spec fn spec_account(self) -> Account {
        self.account
    }

    pub closed spec fn spec_change(self) -> u32 {
        self.change
    }

    pub open spec fn is_valid(self) -> bool {
        self.spec_account().is_valid() && self.spec_change() < BIP44_SOFT_UPPER_BOUND
    }

    pub fn new(account: Account, change: u32) -> (r: Result<Change, Error>)
        ensures
            change < BIP44_SOFT_UPPER_BOUND ==> (r matches Ok(c) && c.spec_account() == account
                && c.spec_change() == change),
            change >= BIP44_SOFT_UPPER_BOUND ==> r == Err::<Change, Error>(
                Error::ChangeOutOfBound(change),
            ),
    {
        if change >= BIP44_SOFT_UPPER_BOUND {
            return Err(Error::ChangeOutOfBound(change));
        }
        Ok(Change { account, change })
    }

    pub fn index(&self, index: u32) -> (r: Result<Addressing, Error>)
        ensures
            index < BIP44_SOFT_UPPER_BOUND ==> r == Ok::<Addressing, Error>(
                (Addressing {
                    account: self.spec_account(),
                    change: self.spec_change(),
                    index,
                }),
            ),
            index >= BIP44_SOFT_UPPER_BOUND ==> r == Err::<Addressing, Error>(
                Error::IndexOutOfBound(index),
            ),
    {
        Addressing::new_from_change(*self, index)
    }
}

/// The address type of an `Addressing`: external (receiving) addresses live
/// on the change-0 branch, internal (change) addresses on the change-1
/// branch.
#[derive(Clone, Copy, Debug, PartialEq, Eq, Structural)]
pub enum AddrType {
    Internal,
    External,
}

/// Bip44 address derivation: the full 5-segment path, with the constant
/// purpose and coin-type segments left implicit.
#[derive(Clone, Copy, Debug, PartialEq, Eq, Structural)]
pub struct Addressing {
    pub account: Account,
    pub change: u32,
    pub index: u32,
}

pub open spec fn spec_address_type(a: Addressing) -> AddrType {
    if a.change == 0 {
        AddrType::External
    } else {
        AddrType::Internal
    }
}

/// The raw path of an addressing: purpose, coin type, hardened account,
/// change, index.
pub open spec fn spec_to_path(a: Addressing) -> Seq<u32> {
    seq![
        BIP44_PURPOSE,
        BIP44_COIN_TYPE,
        (a.account.spec_value() + BIP44_SOFT_UPPER_BOUND) as u32,
        a.change,
        a.index,
    ]
}

/// Whether a raw path matches the fixed BIP44 template: 5 segments, the
/// constant purpose and coin type, a hardened account, and soft change and
/// index segments.
pub open spec fn spec_path_ok(p: Seq<u32>) -> bool {
    &&& p.len() == BIP44_PATH_LENGTH
    &&& p[0] == BIP44_PURPOSE
    &&& p[1] == BIP44_COIN_TYPE
    &&& p[2] >= BIP44_SOFT_UPPER_BOUND
    &&& p[3] < BIP44_SOFT_UPPER_BOUND
    &&& p[4] < BIP44_SOFT_UPPER_BOUND
}

/// The first template violation of a raw path, for a path that has one.
pub open spec fn spec_path_error(p: Seq<u32>) -> Error {
    if p.len() != BIP44_PATH_LENGTH {
        Error::InvalidLength(p.len() as usize)
    } else if p[0] != BIP44_PURPOSE {
        Error::InvalidPurpose(p[0])
    } else if p[1] != BIP44_COIN_TYPE {
        Error::InvalidType(p[1])
    } else if p[2] < BIP44_SOFT_UPPER_BOUND {
        Error::AccountOutOfBound(p[2])
    } else if p[3] >= BIP44_SOFT_UPPER_BOUND {
        Error::ChangeOutOfBound(p[3])
    } else {
        Error::IndexOutOfBound(p[4])
    }
}

pub closed spec fn spec_account_from(v: u32) -> Account {
    Account(v)
}

/// The addressing encoded by a raw path that matches the template.
pub open spec fn spec_parsed(p: Seq<u32>) -> Addressing {
    Addressing {
        account: spec_account_from((p[2] - BIP44_SOFT_UPPER_BOUND) as u32),
        change: p[3],
        index: p[4],
    }
}

impl Addressing {
    pub open spec fn is_valid(self) -> bool {
        &&& self.account.is_valid()
        &&& self.change < BIP44_SOFT_UPPER_BOUND
        &&& self.index < BIP44_SOFT_UPPER_BOUND
    }

    /// create a new `Addressing` for the given account and `AddrType`.
    /// The default index is set to `0` (the starting index).
    pub fn new(account: u32, typ: AddrType) -> (r: Result<Addressing, Error>)
        ensures
            account < BIP44_SOFT_UPPER_BOUND ==> (r matches Ok(a) && a.account.spec_value()
                == account && a.change == (match typ {
                AddrType::Internal => 1u32,
                AddrType::External => 0u32,
            }) && a.index == 0 && a.is_valid()),
            account >= BIP44_SOFT_UPPER_BOUND ==> r == Err::<Addressing, Error>(
                Error::AccountOutOfBound(account),
            ),
    {
        let change: u32 = match typ {
            AddrType::Internal => 1,
            AddrType::External => 0,
        };
        match Account::new(account) {
            Ok(a) => Ok(Addressing { account: a, change, index: 0 }),
            Err(e) => Err(e),
        }
    }

    pub fn new_from_change(change: Change, index: u32) -> (r: Result<Addressing, Error>)
        ensures
            index < BIP44_SOFT_UPPER_BOUND ==> r == Ok::<Addressing, Error>(
                (Addressing {
                    account: change.spec_account(),
                    change: change.spec_change(),
                    index,
                }),
            ),
            index >= BIP44_SOFT_UPPER_BOUND ==> r == Err::<Addressing, Error>(
                Error::IndexOutOfBound(index),
            ),
    {
        if index >= BIP44_SOFT_UPPER_BOUND {
            return Err(Error::IndexOutOfBound(index));
        }
        Ok(Addressing { account: change.account, change: change.change, index })
    }

    /// return a path ready for derivation
    pub fn to_path(&self) -> (r: Path)
        requires
            self.is_valid(),
        ensures
            r@ == spec_to_path(*self),
    {
        let mut values: Vec<u32> = Vec::new();
        values.push(BIP44_PURPOSE);
        values.push(BIP44_COIN_TYPE);
        values.push(self.account.index());
        values.push(self.change);
        values.push(self.index);
        proof {
            assert(values@ =~= spec_to_path(*self));
        }
        Path::new(values)
    }

    pub fn address_type(&self) -> (r: AddrType)
        ensures
            r == spec_address_type(*self),
    {
        if self.change == 0 {
            AddrType::External
        } else {
            AddrType::Internal
        }
    }

    pub fn from_path(path: Path) -> (r: Result<Addressing, Error>)
        ensures
            spec_path_ok(path@) ==> (r matches Ok(a) && a == spec_parsed(path@) && a.is_valid()),
            !spec_path_ok(path@) ==> r == Err::<Addressing, Error>(spec_path_error(path@)),
    {
        let len = path.0.len();
        if len != BIP44_PATH_LENGTH {
            return Err(Error::InvalidLength(len));
        }

        let p = path.0[0];
        if p != BIP44_PURPOSE {
            return Err(Error::InvalidPurpose(p));
        }
        let t = path.0[1];
        if t != BIP44_COIN_TYPE {
            return Err(Error::InvalidType(t));
        }
        let a = path.0[2];
        if a < BIP44_SOFT_UPPER_BOUND {
            return Err(Error::AccountOutOfBound(a));
        }
        let c = path.0[3];
        if c >= BIP44_SOFT_UPPER_BOUND {
            return Err(Error::ChangeOutOfBound(c));
        }
        let i = path.0[4];
        if i >= BIP44_SOFT_UPPER_BOUND {
            return Err(Error::IndexOutOfBound(i));
        }
        Ok(Addressing { account: Account(a - BIP44_SOFT_UPPER_BOUND), change: c, index: i })
    }

    /// try to generate a new `Addressing` starting from the given
    /// `Addressing`'s index incremented by the given parameter
    pub fn incr(&self, incr: u32) -> (r: Result<Addressing, Error>)
        requires
            self.is_valid(),
        ensures
            incr >= BIP44_SOFT_UPPER_BOUND ==> r == Err::<Addressing, Error>(
                Error::IndexOutOfBound(incr),
            ),
            incr < BIP44_SOFT_UPPER_BOUND && self.index + incr >= BIP44_SOFT_UPPER_BOUND ==> r
                == Err::<Addressing, Error>(Error::IndexOutOfBound((self.index + incr) as u32)),
            incr < BIP44_SOFT_UPPER_BOUND && self.index + incr < BIP44_SOFT_UPPER_BOUND ==> r
                == Ok::<Addressing, Error>(
                (Addressing {
                    account: self.account,
                    change: self.change,
                    index: (self.index + incr) as u32,
                }),
            ),
            r matches Ok(a) ==> a.is_valid(),
    {
        if incr >= BIP44_SOFT_UPPER_BOUND {
            return Err(Error::IndexOutOfBound(incr));
        }
        let new_index = self.index + incr;
        if new_index >= BIP44_SOFT_UPPER_BOUND {
            return Err(Error::IndexOutOfBound(new_index));
        }
        Ok(Addressing { account: self.account, change: self.change, index: new_index })
    }

    /// The number of addressings that `next_chunks` yields: the requested
    /// chunk size, unless the soft-derivation space runs out first.
    pub open spec fn spec_chunk_len(self, chunk_size: usize) -> int {
        let room = BIP44_SOFT_UPPER_BOUND - self.index;
        if chunk_size <= room {
            chunk_size as int
        } else {
            room as int
        }
    }

    /// generate a sequence of Addressing from the given addressing as
    /// starting point up to the `chunk_size`.
    ///
    /// the function returns as soon as `chunk_size` is reached or the soft
    /// upper bound of the derivation space is met: running out of room is a
    /// normal, successful termination, never an error.
    pub fn next_chunks(&self, chunk_size: usize) -> (r: Result<Vec<Addressing>, Error>)
        requires
            self.is_valid(),
        ensures
            r matches Ok(v) && v@.len() == self.spec_chunk_len(chunk_size) && forall|k: int|
                0 <= k < v@.len() ==> v@[k] == (Addressing {
                    account: self.account,
                    change: self.change,
                    index: (self.index + k) as u32,
                }),
    {
        let mut v: Vec<Addressing> = Vec::new();
        let mut i: usize = 0;
        let mut stopped = false;
        while i < chunk_size && !stopped
            invariant
                self.is_valid(),
                i <= chunk_size,
                self.index + i <= BIP44_SOFT_UPPER_BOUND,
                stopped ==> self.index + i >= BIP44_SOFT_UPPER_BOUND,
                v@.len() == i,
                forall|k: int| 0 <= k < i ==> v@[k] == (Addressing {
                    account: self.account,
                    change: self.change,
                    index: (self.index + k) as u32,
                }),
            decreases chunk_size - i + (if stopped { 0int } else { 1 }),
        {
            match self.incr(i as u32) {
                Err(_) => {
                    stopped = true;
                },
                Ok(r) => {
                    v.push(r);
                    i += 1;
                },
            }
        }
        Ok(v)
    }
}

/// An account is determined by its raw value.
pub proof fn lemma_account_from_value(a: Account)
    ensures
        spec_account_from(a.spec_value()) == a,
{
}

/// The round-trip law of the path encoding: every valid addressing's raw
/// path matches the BIP44 template, and parsing that path gives back the
/// very same addressing.
pub proof fn lemma_path_round_trip(a: Addressing)
    requires
        a.is_valid(),
    ensures
        spec_path_ok(spec_to_path(a)),
        spec_parsed(spec_to_path(a)) == a,
{
    assert(a.account == spec_account_from(a.account.spec_value()));
}

/// The address-type law: for every addressing whose change tag is one of
/// the two values the constructors produce, the address type is `Internal`
/// exactly on the change-1 branch and `External` exactly on the change-0
/// branch.
pub proof fn lemma_address_type(a: Addressing)
    requires
        a.change == 0 || a.change == 1,
    ensures
        spec_address_type(a) == AddrType::Internal <==> a.change == 1,
        spec_address_type(a) == AddrType::External <==> a.change == 0,
{
}

} // verus!

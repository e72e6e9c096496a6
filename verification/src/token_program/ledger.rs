//! The table of balances of a ledger-backed token, and its stored form.
//!
//! The table holds at most [`DEFAULT_CAPACITY`] records, one for each owner
//! that ever received a credit, in the order in which the owners were first
//! credited. It is stored as one blob: the number of records in four
//! little-endian bytes, then for each record the owner's thirty-two bytes, the
//! balance in eight little-endian bytes and one byte for the frozen flag.

use crate::codec::{
    bool_byte, encode_counted, encode_each, fixed_width, injective,
    lemma_encode_counted_injective, lemma_encode_counted_layout,
};
use crate::error::TokenError;
use crate::identity::{lemma_identity_by_bytes, Identity};
use vstd::bytes::*;
use vstd::prelude::*;
use vstd::slice::slice_subrange;

verus! {

/// How many owners a ledger has room for.
pub const DEFAULT_CAPACITY: usize = 5;

/// What the ledger keeps for one owner.
#[derive(Clone, Copy, Debug, PartialEq, Eq)]
pub struct LedgerAccount {
    pub amount: u64,
    pub is_frozen: bool,
}

/// One record of the ledger: an owner and what is kept for it.
#[derive(Clone, Copy, Debug, PartialEq, Eq)]
pub struct LedgerEntry {
    pub owner: Identity,
    pub account: LedgerAccount,
}

/// The record of a new owner: no balance, not frozen.
pub open spec fn empty_account() -> LedgerAccount {
    LedgerAccount { amount: 0, is_frozen: false }
}

/// Where the record of `owner` stands among `entries`, if there is one.
pub open spec fn position(entries: Seq<LedgerEntry>, owner: Identity) -> Option<int>
    decreases entries.len(),
{
    if entries.len() == 0 {
        None
    } else {
        match position(entries.drop_last(), owner) {
            Some(i) => Some(i),
            None => if entries.last().owner == owner {
                Some(entries.len() - 1)
            } else {
                None
            },
        }
    }
}

/// What the ledger keeps for `owner`, if it has a record for it.
pub open spec fn account_of(entries: Seq<LedgerEntry>, owner: Identity) -> Option<LedgerAccount> {
    match position(entries, owner) {
        Some(i) => Some(entries[i].account),
        None => None,
    }
}

/// The balance of `owner`; an owner without a record holds nothing.
pub open spec fn balance_of(entries: Seq<LedgerEntry>, owner: Identity) -> nat {
    match account_of(entries, owner) {
        Some(account) => account.amount as nat,
        None => 0,
    }
}

/// No owner has two records.
pub open spec fn distinct_owners(entries: Seq<LedgerEntry>) -> bool {
    forall|i: int, j: int|
        0 <= i < j < entries.len() ==> (#[trigger] entries[i]).owner != (#[trigger] entries[j]).owner
}

/// The table is one that a ledger can hold: no owner twice, and no more
/// records than there is room for.
pub open spec fn well_formed(entries: Seq<LedgerEntry>) -> bool {
    entries.len() <= DEFAULT_CAPACITY && distinct_owners(entries)
}

/// The table with `account` kept for `owner`: in the owner's record where it
/// has one, in a new last record otherwise.
pub open spec fn with_account(
    entries: Seq<LedgerEntry>,
    owner: Identity,
    account: LedgerAccount,
) -> Seq<LedgerEntry> {
    match position(entries, owner) {
        Some(i) => entries.update(i, LedgerEntry { owner, account }),
        None => entries.push(LedgerEntry { owner, account }),
    }
}

/// The table after `amount` was taken from `owner`, or why it cannot be.
pub open spec fn debited(entries: Seq<LedgerEntry>, owner: Identity, amount: u64) -> Result<
    Seq<LedgerEntry>,
    TokenError,
> {
    match account_of(entries, owner) {
        None => Err(TokenError::AccountNotFound),
        Some(account) => if account.amount < amount {
            Err(TokenError::InsufficientFunds)
        } else {
            Ok(
                with_account(
                    entries,
                    owner,
                    LedgerAccount {
                        amount: (account.amount - amount) as u64,
                        is_frozen: account.is_frozen,
                    },
                ),
            )
        },
    }
}

/// The table after `amount` was given to `destination`, or why it cannot be.
/// A destination without a record gets one first, if there is room.
pub open spec fn credited(entries: Seq<LedgerEntry>, destination: Identity, amount: u64) -> Result<
    Seq<LedgerEntry>,
    TokenError,
> {
    match account_of(entries, destination) {
        None => if entries.len() >= DEFAULT_CAPACITY {
            Err(TokenError::LedgerFull)
        } else {
            Ok(with_account(entries, destination, LedgerAccount { amount, is_frozen: false }))
        },
        Some(account) => if account.amount + amount > u64::MAX {
            Err(TokenError::MathOverflow)
        } else {
            Ok(
                with_account(
                    entries,
                    destination,
                    LedgerAccount {
                        amount: (account.amount + amount) as u64,
                        is_frozen: account.is_frozen,
                    },
                ),
            )
        },
    }
}

/// The table after `amount` was added to the record that `owner` already
/// has, or why it cannot be.
pub open spec fn added(entries: Seq<LedgerEntry>, owner: Identity, amount: u64) -> Result<
    Seq<LedgerEntry>,
    TokenError,
> {
    match account_of(entries, owner) {
        None => Err(TokenError::AccountNotFound),
        Some(account) => if account.amount + amount > u64::MAX {
            Err(TokenError::MathOverflow)
        } else {
            Ok(
                with_account(
                    entries,
                    owner,
                    LedgerAccount {
                        amount: (account.amount + amount) as u64,
                        is_frozen: account.is_frozen,
                    },
                ),
            )
        },
    }
}

/// The table after `amount` moved from `owner` to `to`, or why it cannot: the
/// debit comes first, then the credit.
pub open spec fn transferred(
    entries: Seq<LedgerEntry>,
    owner: Identity,
    to: Identity,
    amount: u64,
) -> Result<Seq<LedgerEntry>, TokenError> {
    match debited(entries, owner, amount) {
        Err(e) => Err(e),
        Ok(after_debit) => credited(after_debit, to, amount),
    }
}

/// The table with the frozen flag of `owner` set to `value`, or why it
/// cannot be.
pub open spec fn frozen_set(entries: Seq<LedgerEntry>, owner: Identity, value: bool) -> Result<
    Seq<LedgerEntry>,
    TokenError,
> {
    match account_of(entries, owner) {
        None => Err(TokenError::AccountNotFound),
        Some(account) => Ok(
            with_account(entries, owner, LedgerAccount { amount: account.amount, is_frozen: value }),
        ),
    }
}

/// What `position` finds is the first record of the owner, and it finds
/// nothing only where the owner has no record.
pub proof fn lemma_position(entries: Seq<LedgerEntry>, owner: Identity)
    ensures
        match position(entries, owner) {
            Some(i) => 0 <= i < entries.len() && entries[i].owner == owner && forall|k: int|
                0 <= k < i ==> entries[k].owner != owner,
            None => forall|k: int| 0 <= k < entries.len() ==> entries[k].owner != owner,
        },
    decreases entries.len(),
{
    if entries.len() > 0 {
        let head = entries.drop_last();
        lemma_position(head, owner);
        assert forall|k: int| 0 <= k < head.len() implies head[k] == entries[k] by {}
        match position(head, owner) {
            Some(i) => {
                assert forall|k: int| 0 <= k < i implies entries[k].owner != owner by {
                    assert(head[k].owner != owner);
                }
            },
            None => {
                assert forall|k: int| 0 <= k < head.len() implies entries[k].owner != owner by {
                    assert(head[k].owner != owner);
                }
            },
        }
    }
}

/// In a table without repeated owners, the record at `i` is where
/// `position` finds its owner.
pub proof fn lemma_position_of_entry(entries: Seq<LedgerEntry>, i: int)
    requires
        distinct_owners(entries),
        0 <= i < entries.len(),
    ensures
        position(entries, entries[i].owner) == Some(i),
{
    lemma_position(entries, entries[i].owner);
    let found = position(entries, entries[i].owner);
    assert(found is Some);
    let j = found.unwrap();
    if j < i {
        assert(entries[j].owner != entries[i].owner);
    }
}

/// Keeping an account for an owner leaves the table well formed, as long as
/// a new owner still finds room; the owner then has that account, and every
/// other owner has what it had.
pub proof fn lemma_with_account(
    entries: Seq<LedgerEntry>,
    owner: Identity,
    account: LedgerAccount,
)
    requires
        well_formed(entries),
        position(entries, owner) is Some || entries.len() < DEFAULT_CAPACITY,
    ensures
        well_formed(with_account(entries, owner, account)),
        account_of(with_account(entries, owner, account), owner) == Some(account),
        forall|other: Identity|
            other != owner ==> #[trigger] account_of(with_account(entries, owner, account), other)
                == account_of(entries, other),
        with_account(entries, owner, account).len() == entries.len() + (if position(
            entries,
            owner,
        ) is Some {
            0int
        } else {
            1int
        }),
{
    let after = with_account(entries, owner, account);
    lemma_position(entries, owner);
    match position(entries, owner) {
        Some(i) => {
            assert forall|a: int, b: int| 0 <= a < b < after.len() implies (#[trigger] after[a]).owner
                != (#[trigger] after[b]).owner by {
                assert(after[a].owner == entries[a].owner);
                assert(after[b].owner == entries[b].owner);
            }
            lemma_position_of_entry(after, i);
            assert forall|other: Identity| other != owner implies #[trigger] account_of(
                after,
                other,
            ) == account_of(entries, other) by {
                lemma_position(entries, other);
                lemma_position(after, other);
                match position(entries, other) {
                    Some(j) => {
                        assert(after[j] == entries[j]);
                        lemma_position_of_entry(after, j);
                    },
                    None => {
                        if position(after, other) is Some {
                            let j = position(after, other).unwrap();
                            assert(after[j].owner == entries[j].owner);
                        }
                    },
                }
            }
        },
        None => {
            let n = entries.len() as int;
            assert forall|a: int, b: int| 0 <= a < b < after.len() implies (#[trigger] after[a]).owner
                != (#[trigger] after[b]).owner by {
                assert(after[a] == entries[a]);
                if b < n {
                    assert(after[b] == entries[b]);
                }
            }
            lemma_position_of_entry(after, n);
            assert forall|other: Identity| other != owner implies #[trigger] account_of(
                after,
                other,
            ) == account_of(entries, other) by {
                lemma_position(entries, other);
                lemma_position(after, other);
                match position(entries, other) {
                    Some(j) => {
                        assert(after[j] == entries[j]);
                        lemma_position_of_entry(after, j);
                    },
                    None => {
                        if position(after, other) is Some {
                            let j = position(after, other).unwrap();
                            if j < n {
                                assert(after[j] == entries[j]);
                            }
                        }
                    },
                }
            }
        },
    }
}

/// Crediting a new owner is opening an empty record for it and adding to
/// that; crediting a known owner is adding to its record.
pub proof fn lemma_credited_by_steps(entries: Seq<LedgerEntry>, destination: Identity, amount: u64)
    requires
        well_formed(entries),
    ensures
        account_of(entries, destination) is Some ==> credited(entries, destination, amount)
            == added(entries, destination, amount),
        account_of(entries, destination) is None && entries.len() < DEFAULT_CAPACITY ==> credited(
            entries,
            destination,
            amount,
        ) == added(with_account(entries, destination, empty_account()), destination, amount),
{
    if account_of(entries, destination) is None && entries.len() < DEFAULT_CAPACITY {
        let opened = with_account(entries, destination, empty_account());
        lemma_with_account(entries, destination, empty_account());
        lemma_position(entries, destination);
        lemma_position_of_entry(opened, entries.len() as int);
        let account = LedgerAccount { amount, is_frozen: false };
        assert(with_account(opened, destination, account) =~= with_account(
            entries,
            destination,
            account,
        ));
    }
}

/// One record in the blob.
pub open spec fn encode_entry(e: LedgerEntry) -> Seq<u8> {
    (e.owner@ + spec_u64_to_le_bytes(e.account.amount)).push(bool_byte(e.account.is_frozen))
}

/// The table as a blob.
pub open spec fn encode_accounts(entries: Seq<LedgerEntry>) -> Seq<u8> {
    encode_counted(entries, |e: LedgerEntry| encode_entry(e))
}

/// `data` is the blob of some table that a ledger can hold.
pub open spec fn is_ledger_blob(data: Seq<u8>) -> bool {
    exists|entries: Seq<LedgerEntry>|
        well_formed(entries) && #[trigger] encode_accounts(entries) == data
}

/// The table that a blob holds, where it holds one.
pub open spec fn decode_accounts(data: Seq<u8>) -> Option<Seq<LedgerEntry>> {
    if is_ledger_blob(data) {
        Some(choose|entries: Seq<LedgerEntry>| well_formed(entries) && #[trigger] encode_accounts(entries) == data)
    } else {
        None
    }
}

/// Records take forty-one bytes each, and different records differ in the
/// blob.
pub proof fn lemma_entry_encoding()
    ensures
        fixed_width(|e: LedgerEntry| encode_entry(e), 41),
        injective(|e: LedgerEntry| encode_entry(e)),
{
    let enc = |e: LedgerEntry| encode_entry(e);
    lemma_auto_spec_u64_to_from_le_bytes();
    assert forall|e: LedgerEntry| #[trigger] enc(e).len() == 41 by {
        lemma_identity_by_bytes(e.owner, e.owner);
    }
    assert forall|x: LedgerEntry, y: LedgerEntry|
        #![trigger enc(x), enc(y)]
        enc(x) == enc(y) implies x == y by {
        lemma_identity_by_bytes(x.owner, y.owner);
        assert(x.owner@ =~= enc(x).subrange(0, 32));
        assert(y.owner@ =~= enc(y).subrange(0, 32));
        assert(spec_u64_to_le_bytes(x.account.amount) =~= enc(x).subrange(32, 40));
        assert(spec_u64_to_le_bytes(y.account.amount) =~= enc(y).subrange(32, 40));
        assert(spec_u64_from_le_bytes(spec_u64_to_le_bytes(x.account.amount))
            == x.account.amount);
        assert(spec_u64_from_le_bytes(spec_u64_to_le_bytes(y.account.amount))
            == y.account.amount);
        assert(enc(x)[40] == bool_byte(x.account.is_frozen));
        assert(enc(y)[40] == bool_byte(y.account.is_frozen));
    }
}

/// Where the fields of a record stand in its encoding.
pub proof fn lemma_entry_layout(e: LedgerEntry)
    ensures
        encode_entry(e).len() == 41,
        encode_entry(e).subrange(0, 32) == e.owner@,
        encode_entry(e).subrange(32, 40) == spec_u64_to_le_bytes(e.account.amount),
        encode_entry(e)[40] == bool_byte(e.account.is_frozen),
{
    lemma_auto_spec_u64_to_from_le_bytes();
    lemma_identity_by_bytes(e.owner, e.owner);
    assert(encode_entry(e).subrange(0, 32) =~= e.owner@);
    assert(encode_entry(e).subrange(32, 40) =~= spec_u64_to_le_bytes(e.account.amount));
}

/// A blob determines its table: decoding the blob of a table gives that
/// table back.
pub proof fn lemma_decode_encode(entries: Seq<LedgerEntry>)
    requires
        well_formed(entries),
    ensures
        is_ledger_blob(encode_accounts(entries)),
        decode_accounts(encode_accounts(entries)) == Some(entries),
{
    let data = encode_accounts(entries);
    let other = choose|other: Seq<LedgerEntry>|
        well_formed(other) && #[trigger] encode_accounts(other) == data;
    lemma_entry_encoding();
    lemma_encode_counted_injective(other, entries, |e: LedgerEntry| encode_entry(e), 41);
}

/// Encoding what a blob decodes to gives the blob back.
pub proof fn lemma_encode_decode(data: Seq<u8>)
    requires
        is_ledger_blob(data),
    ensures
        well_formed(decode_accounts(data).unwrap()),
        encode_accounts(decode_accounts(data).unwrap()) == data,
{
}

/// Where the parts of a blob stand.
pub proof fn lemma_accounts_layout(entries: Seq<LedgerEntry>)
    requires
        entries.len() <= u32::MAX,
    ensures
        encode_accounts(entries).len() == 4 + 41 * entries.len(),
        spec_u32_from_le_bytes(encode_accounts(entries).subrange(0, 4)) == entries.len(),
        encode_accounts(entries).subrange(0, 4) == spec_u32_to_le_bytes(entries.len() as u32),
        forall|i: int, k: int|
            0 <= i < entries.len() && 0 <= k < 41 ==> #[trigger] encode_accounts(entries)[4 + i
                * 41 + k] == encode_entry(entries[i])[k],
{
    lemma_entry_encoding();
    let enc = |e: LedgerEntry| encode_entry(e);
    lemma_encode_counted_layout(entries, enc, 41);
    assert(entries.len() * 41 == 41 * entries.len());
    assert forall|i: int, k: int| 0 <= i < entries.len() && 0 <= k < 41 implies #[trigger] encode_accounts(
        entries,
    )[4 + i * 41 + k] == encode_entry(entries[i])[k] by {
        assert(encode_counted(entries, enc)[4 + i * 41 + k] == enc(entries[i])[k]);
    }
}

/// The table of a ledger while an operation works on it. Its view is the
/// sequence of its records, which is always one that a ledger can hold.
#[derive(Debug, PartialEq, Eq)]
pub struct LedgerAccounts {
    entries: Vec<LedgerEntry>,
}

impl View for LedgerAccounts {
    type V = Seq<LedgerEntry>;

    closed spec fn view(&self) -> Seq<LedgerEntry> {
        self.entries@
    }
}

impl LedgerAccounts {
    #[verifier::type_invariant]
    spec fn holds_a_table(self) -> bool {
        well_formed(self.entries@)
    }

    /// A table without records.
    pub fn new() -> (accounts: LedgerAccounts)
        ensures
            accounts@ == Seq::<LedgerEntry>::empty(),
    {
        LedgerAccounts { entries: Vec::new() }
    }

    /// The number of records.
    pub fn len(&self) -> (n: usize)
        ensures
            n == self@.len(),
            well_formed(self@),
    {
        proof {
            use_type_invariant(self);
        }
        self.entries.len()
    }

    /// Where the record of `owner` stands, if there is one.
    fn find(&self, owner: &Identity) -> (r: Option<usize>)
        ensures
            match r {
                Some(i) => position(self@, *owner) == Some(i as int) && i < self@.len(),
                None => position(self@, *owner) is None,
            },
    {
        let n = self.entries.len();
        let mut i: usize = 0;
        while i < n
            invariant
                i <= n,
                n == self.entries@.len(),
                forall|k: int| 0 <= k < i ==> self.entries@[k].owner != *owner,
            decreases n - i,
        {
            if self.entries[i].owner == *owner {
                proof {
                    lemma_position(self.entries@, *owner);
                }
                return Some(i);
            }
            i = i + 1;
        }
        proof {
            lemma_position(self.entries@, *owner);
        }
        None
    }

    /// What is kept for `owner`, if it has a record.
    pub fn get(&self, owner: &Identity) -> (r: Option<LedgerAccount>)
        ensures
            r == account_of(self@, *owner),
    {
        match self.find(owner) {
            Some(i) => Some(self.entries[i].account),
            None => None,
        }
    }

    /// The record at `index`, in the order in which the owners were first
    /// credited.
    pub fn entry(&self, index: usize) -> (r: Option<LedgerEntry>)
        ensures
            r == (if index < self@.len() {
                Some(self@[index as int])
            } else {
                None
            }),
    {
        if index < self.entries.len() {
            Some(self.entries[index])
        } else {
            None
        }
    }

    /// Keeps `account` for `owner`. A new owner needs room: without it the
    /// table stays as it is and the result is `LedgerFull`.
    pub fn insert(&mut self, owner: Identity, account: LedgerAccount) -> (r: Result<
        (),
        TokenError,
    >)
        ensures
            account_of(old(self)@, owner) is None && old(self)@.len() >= DEFAULT_CAPACITY ==> r
                == Err::<(), TokenError>(TokenError::LedgerFull) && final(self)@ == old(self)@,
            account_of(old(self)@, owner) is Some || old(self)@.len() < DEFAULT_CAPACITY ==> r
                is Ok && final(self)@ == with_account(old(self)@, owner, account),
    {
        proof {
            use_type_invariant(&*self);
        }
        let found = self.find(&owner);
        let n = self.entries.len();
        if found.is_none() && n >= DEFAULT_CAPACITY {
            return Err(TokenError::LedgerFull);
        }
        let ghost before = self.entries@;
        let ghost after = with_account(before, owner, account);
        let mut entries: Vec<LedgerEntry> = Vec::new();
        let mut i: usize = 0;
        while i < n
            invariant
                i <= n,
                n == self.entries@.len(),
                before == self.entries@,
                after == with_account(before, owner, account),
                match found {
                    Some(at) => position(before, owner) == Some(at as int) && at < n,
                    None => position(before, owner) is None,
                },
                entries@ == after.subrange(0, i as int),
            decreases n - i,
        {
            if found == Some(i) {
                entries.push(LedgerEntry { owner, account });
            } else {
                entries.push(self.entries[i]);
            }
            assert(entries@ =~= after.subrange(0, i + 1));
            i = i + 1;
        }
        if found.is_none() {
            entries.push(LedgerEntry { owner, account });
        }
        proof {
            assert(entries@ =~= after);
            lemma_with_account(before, owner, account);
        }
        self.entries = entries;
        Ok(())
    }

    /// The table as the blob that a ledger stores.
    pub fn try_to_vec(&self) -> (out: Vec<u8>)
        ensures
            out@ == encode_accounts(self@),
    {
        proof {
            use_type_invariant(self);
        }
        let n = self.entries.len();
        let mut out = u32_to_le_bytes(n as u32);
        let ghost enc = |e: LedgerEntry| encode_entry(e);
        let mut i: usize = 0;
        while i < n
            invariant
                i <= n,
                n == self.entries@.len(),
                enc == |e: LedgerEntry| encode_entry(e),
                out@ == spec_u32_to_le_bytes(n as u32) + encode_each(
                    self.entries@.subrange(0, i as int),
                    enc,
                ),
            decreases n - i,
        {
            let e = self.entries[i];
            let ghost before = out@;
            e.owner.write_to(&mut out);
            let mut amount = u64_to_le_bytes(e.account.amount);
            out.append(&mut amount);
            out.push(if e.account.is_frozen {
                1
            } else {
                0
            });
            proof {
                let prefix = self.entries@.subrange(0, i + 1);
                assert(prefix.drop_last() =~= self.entries@.subrange(0, i as int));
                assert(prefix.last() == e);
                assert(out@ =~= before + enc(e));
                assert(out@ =~= spec_u32_to_le_bytes(n as u32) + encode_each(prefix, enc));
            }
            i = i + 1;
        }
        assert(self.entries@.subrange(0, n as int) =~= self.entries@);
        out
    }
}

/// Adds `amount` to the balance of `owner`, or takes it from that balance.
/// The owner needs a record: without one the result is `AccountNotFound`. A
/// sum beyond `u64::MAX` is `MathOverflow`, a debit beyond the balance
/// `InsufficientFunds`. On a failure the table stays as it is.
pub fn update_balance(
    accounts: &mut LedgerAccounts,
    owner: &Identity,
    amount: u64,
    is_add: bool,
) -> (r: Result<(), TokenError>)
    ensures
        match (if is_add {
            added(old(accounts)@, *owner, amount)
        } else {
            debited(old(accounts)@, *owner, amount)
        }) {
            Ok(after) => r is Ok && final(accounts)@ == after,
            Err(e) => r == Err::<(), TokenError>(e) && final(accounts)@ == old(accounts)@,
        },
{
    let mut account = match accounts.get(owner) {
        Some(account) => account,
        None => {
            return Err(TokenError::AccountNotFound);
        },
    };
    if is_add {
        account.amount = match account.amount.checked_add(amount) {
            Some(sum) => sum,
            None => {
                return Err(TokenError::MathOverflow);
            },
        };
    } else {
        account.amount = match account.amount.checked_sub(amount) {
            Some(rest) => rest,
            None => {
                return Err(TokenError::InsufficientFunds);
            },
        };
    }
    accounts.insert(*owner, account)
}

/// Record `i` of a blob is the encoding of record `i` of its table.
pub proof fn lemma_accounts_records(entries: Seq<LedgerEntry>)
    requires
        entries.len() <= u32::MAX,
    ensures
        forall|i: int|
            0 <= i < entries.len() ==> #[trigger] encode_accounts(entries).subrange(
                4 + 41 * i,
                4 + 41 * i + 41,
            ) == encode_entry(entries[i]),
{
    lemma_accounts_layout(entries);
    lemma_entry_encoding();
    let data = encode_accounts(entries);
    let enc = |e: LedgerEntry| encode_entry(e);
    assert forall|i: int| 0 <= i < entries.len() implies #[trigger] data.subrange(
        4 + 41 * i,
        4 + 41 * i + 41,
    ) == encode_entry(entries[i]) by {
        let record = data.subrange(4 + 41 * i, 4 + 41 * i + 41);
        let wanted = encode_entry(entries[i]);
        assert(enc(entries[i]).len() == 41);
        assert forall|k: int| 0 <= k < 41 implies record[k] == wanted[k] by {
            assert(data[4 + i * 41 + k] == encode_entry(entries[i])[k]);
        }
        assert(record =~= wanted);
    }
}

/// Reads the table out of the blob of a ledger. It succeeds exactly on the
/// blobs of tables that a ledger can hold, and then returns the table that
/// was stored.
pub fn get_ledger_accounts(data: &[u8]) -> (r: Result<LedgerAccounts, TokenError>)
    ensures
        match r {
            Ok(accounts) => decode_accounts(data@) == Some(accounts@) && encode_accounts(
                accounts@,
            ) == data@,
            Err(e) => e == TokenError::InvalidAccountData && decode_accounts(data@) is None,
        },
{
    let len = data.len();
    if len < 4 {
        proof {
            assert forall|other: Seq<LedgerEntry>| well_formed(other) implies #[trigger] encode_accounts(
                other,
            ) != data@ by {
                lemma_accounts_layout(other);
            }
        }
        return Err(TokenError::InvalidAccountData);
    }
    let count = u32_from_le_bytes(slice_subrange(data, 0, 4));
    if count > 5 || len != 4 + 41 * (count as usize) {
        proof {
            assert forall|other: Seq<LedgerEntry>| well_formed(other) implies #[trigger] encode_accounts(
                other,
            ) != data@ by {
                lemma_accounts_layout(other);
            }
        }
        return Err(TokenError::InvalidAccountData);
    }
    let n = count as usize;
    let mut accounts = LedgerAccounts::new();
    let mut i: usize = 0;
    while i < n
        invariant
            i <= n,
            n == count,
            n <= 5,
            count == spec_u32_from_le_bytes(data@.subrange(0, 4)),
            len == data@.len(),
            len == 4 + 41 * n,
            accounts@.len() == i,
            forall|j: int|
                0 <= j < i ==> data@.subrange(4 + 41 * j, 4 + 41 * j + 41) == encode_entry(
                    #[trigger] accounts@[j],
                ),
        decreases n - i,
    {
        let offset = 4 + 41 * i;
        let owner = Identity::from_slice(data, offset);
        let amount = u64_from_le_bytes(slice_subrange(data, offset + 32, offset + 40));
        let frozen = data[offset + 40];
        let ghost so_far = accounts@;
        let ghost record = data@.subrange(offset as int, offset + 41);
        let known = accounts.get(&owner);
        if frozen > 1 || known.is_some() {
            proof {
                assert forall|other: Seq<LedgerEntry>| well_formed(other) implies #[trigger] encode_accounts(
                    other,
                ) != data@ by {
                    if encode_accounts(other) == data@ {
                        lemma_accounts_layout(other);
                        lemma_accounts_records(other);
                        assert(other.len() == n);
                        let theirs = other[i as int];
                        lemma_entry_layout(theirs);
                        assert(encode_entry(theirs) == data@.subrange(4 + 41 * i, 4 + 41 * i + 41));
                        assert(encode_entry(theirs) == record);
                        assert(record[40] == frozen);
                        if frozen <= 1 {
                            lemma_position(so_far, owner);
                            let j = position(so_far, owner).unwrap();
                            assert(0 <= j < i);
                            lemma_entry_layout(other[j]);
                            lemma_entry_layout(so_far[j]);
                            assert(encode_entry(other[j]) == data@.subrange(
                                4 + 41 * j,
                                4 + 41 * j + 41,
                            ));
                            assert(encode_entry(so_far[j]) == encode_entry(other[j]));
                            lemma_identity_by_bytes(other[j].owner, so_far[j].owner);
                            assert(other[j].owner == owner);
                            assert(owner@ =~= record.subrange(0, 32));
                            lemma_identity_by_bytes(theirs.owner, owner);
                            assert(theirs.owner == owner);
                            assert(other[j].owner == other[i as int].owner);
                            assert(false);
                        } else {
                            assert(false);
                        }
                    }
                }
            }
            return Err(TokenError::InvalidAccountData);
        }
        let account = LedgerAccount { amount, is_frozen: frozen == 1 };
        let inserted = accounts.insert(owner, account);
        proof {
            lemma_auto_spec_u64_to_from_le_bytes();
            lemma_identity_by_bytes(owner, owner);
            let entry = LedgerEntry { owner, account };
            assert(accounts@ == so_far.push(entry));
            let bytes = data@.subrange(offset + 32, offset + 40);
            assert(spec_u64_to_le_bytes(amount) == bytes);
            assert(encode_entry(entry) =~= record) by {
                assert forall|k: int| 0 <= k < 41 implies encode_entry(entry)[k] == record[k] by {
                    if k < 32 {
                        assert(owner@[k] == data@.subrange(offset as int, offset + 32)[k]);
                    } else if k < 40 {
                        assert(spec_u64_to_le_bytes(amount)[k - 32] == bytes[k - 32]);
                    }
                }
            }
            assert forall|j: int| 0 <= j < i + 1 implies data@.subrange(
                4 + 41 * j,
                4 + 41 * j + 41,
            ) == encode_entry(#[trigger] accounts@[j]) by {
                if j < i {
                    assert(accounts@[j] == so_far[j]);
                }
            }
        }
        i = i + 1;
    }
    proof {
        use_type_invariant(&accounts);
        lemma_accounts_layout(accounts@);
        lemma_auto_spec_u32_to_from_le_bytes();
        let e = encode_accounts(accounts@);
        assert(spec_u32_to_le_bytes(spec_u32_from_le_bytes(data@.subrange(0, 4)))
            == data@.subrange(0, 4));
        assert forall|p: int| 0 <= p < e.len() implies e[p] == data@[p] by {
            if p < 4 {
                assert(e[p] == e.subrange(0, 4)[p]);
                assert(data@[p] == data@.subrange(0, 4)[p]);
            } else {
                let j = (p - 4) / 41;
                let k = (p - 4) % 41;
                assert(p == 4 + j * 41 + k);
                assert(e[4 + j * 41 + k] == encode_entry(accounts@[j])[k]);
                assert(data@.subrange(4 + 41 * j, 4 + 41 * j + 41)[k] == data@[p]);
            }
        }
        assert(e =~= data@);
        lemma_decode_encode(accounts@);
    }
    Ok(accounts)
}

} // verus!

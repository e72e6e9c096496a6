//! A token whose balances live in one ledger account.
//!
//! The ledger keeps the total supply, the two authorities and the table of
//! balances. Every operation reads the table out of its stored blob, changes
//! it, and stores it again as a whole: an operation that fails leaves the
//! ledger exactly as it found it.

pub mod invariants;
pub mod ledger;

use crate::account::{AccountInfo, Context};
use crate::address::{derived_address, find_address};
use crate::error::TokenError;
use crate::identity::{lemma_identity_by_bytes, Identity};
use crate::token_interface::payload::{encode_payload, IAccountMeta, PreflightPayload};
use crate::token_program::ledger::{
    account_of, credited, debited, decode_accounts, encode_accounts, frozen_set,
    get_ledger_accounts, lemma_credited_by_steps, transferred, update_balance, LedgerAccount,
    LedgerAccounts, LedgerEntry, DEFAULT_CAPACITY,
};
use vstd::bytes::*;
use vstd::prelude::*;

pub use crate::token_interface::ITransfer;

verus! {

/// `32d7pdBNmDmXAXcHkivteqLjaNVovWQ1JMn85LdyyAux`, the identity of the ledger
/// program.
pub const ID: [u8; 32] = [
    30, 33, 202, 255, 245, 170, 188, 47, 143, 85, 248, 220, 176, 187, 147, 146, 3, 39, 224, 35, 1,
    137, 70, 215, 213, 141, 157, 71, 105, 63, 146, 195,
];

/// The bytes of `ledger`, the seed of the address of the ledger account.
pub const LEDGER_PREFIX: [u8; 6] = [108, 101, 100, 103, 101, 114];

/// The ledger of one asset. The total supply is a counter of its own: it is
/// set when the ledger is created and lowered by a burn, and no operation
/// holds the balances to it.
#[derive(Debug, PartialEq, Eq)]
pub struct Ledger {
    pub total_supply: u64,
    pub mint_authority: Identity,
    pub freeze_authority: Identity,
    /// The table of balances, stored as one blob.
    pub opaque_accounts: Vec<u8>,
}

/// The mathematical value of a [`Ledger`].
pub struct LedgerView {
    pub total_supply: u64,
    pub mint_authority: Identity,
    pub freeze_authority: Identity,
    pub opaque_accounts: Seq<u8>,
}

impl View for Ledger {
    type V = LedgerView;

    open spec fn view(&self) -> LedgerView {
        LedgerView {
            total_supply: self.total_supply,
            mint_authority: self.mint_authority,
            freeze_authority: self.freeze_authority,
            opaque_accounts: self.opaque_accounts@,
        }
    }
}

impl Clone for Ledger {
    fn clone(&self) -> (r: Ledger)
        ensures
            r@ == self@,
    {
        let opaque_accounts = self.opaque_accounts.clone();
        assert(opaque_accounts@ =~= self.opaque_accounts@);
        Ledger {
            total_supply: self.total_supply,
            mint_authority: self.mint_authority,
            freeze_authority: self.freeze_authority,
            opaque_accounts,
        }
    }
}

impl LedgerView {
    /// The table that the ledger stores, where its blob holds one.
    pub open spec fn accounts(self) -> Option<Seq<LedgerEntry>> {
        decode_accounts(self.opaque_accounts)
    }

    /// The same ledger with another table stored.
    pub open spec fn with_accounts(self, entries: Seq<LedgerEntry>) -> LedgerView {
        LedgerView {
            total_supply: self.total_supply,
            mint_authority: self.mint_authority,
            freeze_authority: self.freeze_authority,
            opaque_accounts: encode_accounts(entries),
        }
    }

    /// The ledger after its table went through `change`, or why it cannot:
    /// a blob that holds no table is `InvalidAccountData`.
    pub open spec fn changed(
        self,
        change: spec_fn(Seq<LedgerEntry>) -> Result<Seq<LedgerEntry>, TokenError>,
    ) -> Result<LedgerView, TokenError> {
        match self.accounts() {
            None => Err(TokenError::InvalidAccountData),
            Some(entries) => match change(entries) {
                Ok(after) => Ok(self.with_accounts(after)),
                Err(e) => Err(e),
            },
        }
    }

    /// The ledger after `amount` was taken from `owner`.
    pub open spec fn debit(self, owner: Identity, amount: u64) -> Result<LedgerView, TokenError> {
        self.changed(|entries: Seq<LedgerEntry>| debited(entries, owner, amount))
    }

    /// The ledger after `amount` was given to `destination`.
    pub open spec fn credit(self, destination: Identity, amount: u64) -> Result<
        LedgerView,
        TokenError,
    > {
        self.changed(|entries: Seq<LedgerEntry>| credited(entries, destination, amount))
    }

    /// The ledger after the frozen flag of `owner` was set to `value`.
    pub open spec fn set_frozen(self, owner: Identity, value: bool) -> Result<
        LedgerView,
        TokenError,
    > {
        self.changed(|entries: Seq<LedgerEntry>| frozen_set(entries, owner, value))
    }

    /// The ledger after `amount` moved from `owner` to `to`.
    pub open spec fn transfer(self, owner: Identity, to: Identity, amount: u64) -> Result<
        LedgerView,
        TokenError,
    > {
        self.changed(|entries: Seq<LedgerEntry>| transferred(entries, owner, to, amount))
    }

    /// The ledger after `amount` of what `owner` holds was destroyed: the
    /// owner is debited, then the total supply shrinks by as much. A supply
    /// smaller than the amount is `InsufficientFunds`.
    pub open spec fn burn(self, owner: Identity, amount: u64) -> Result<LedgerView, TokenError> {
        match self.debit(owner, amount) {
            Err(e) => Err(e),
            Ok(after) => if after.total_supply < amount {
                Err(TokenError::InsufficientFunds)
            } else {
                Ok(
                    LedgerView {
                        total_supply: (after.total_supply - amount) as u64,
                        mint_authority: after.mint_authority,
                        freeze_authority: after.freeze_authority,
                        opaque_accounts: after.opaque_accounts,
                    },
                )
            },
        }
    }
}

/// The stored form of a ledger: the total supply in eight little-endian
/// bytes, the mint authority, the freeze authority, and the blob of the
/// table.
pub open spec fn encode_ledger(ledger: LedgerView) -> Seq<u8> {
    spec_u64_to_le_bytes(ledger.total_supply) + ledger.mint_authority@
        + ledger.freeze_authority@ + ledger.opaque_accounts
}

/// `data` is the stored form of a ledger whose blob holds a table.
pub open spec fn is_ledger(data: Seq<u8>) -> bool {
    exists|ledger: LedgerView| ledger.accounts() is Some && #[trigger] encode_ledger(ledger) == data
}

/// The stored form of a ledger determines the ledger.
pub proof fn lemma_encode_ledger_injective(a: LedgerView, b: LedgerView)
    requires
        encode_ledger(a) == encode_ledger(b),
    ensures
        a == b,
{
    lemma_auto_spec_u64_to_from_le_bytes();
    lemma_identity_by_bytes(a.mint_authority, b.mint_authority);
    lemma_identity_by_bytes(a.freeze_authority, b.freeze_authority);
    let ea = encode_ledger(a);
    let eb = encode_ledger(b);
    assert(spec_u64_to_le_bytes(a.total_supply) =~= ea.subrange(0, 8));
    assert(spec_u64_to_le_bytes(b.total_supply) =~= eb.subrange(0, 8));
    assert(spec_u64_from_le_bytes(spec_u64_to_le_bytes(a.total_supply)) == a.total_supply);
    assert(spec_u64_from_le_bytes(spec_u64_to_le_bytes(b.total_supply)) == b.total_supply);
    assert(a.mint_authority@ =~= ea.subrange(8, 40));
    assert(b.mint_authority@ =~= eb.subrange(8, 40));
    assert(a.freeze_authority@ =~= ea.subrange(40, 72));
    assert(b.freeze_authority@ =~= eb.subrange(40, 72));
    assert(a.opaque_accounts =~= ea.subrange(72, ea.len() as int));
    assert(b.opaque_accounts =~= eb.subrange(72, eb.len() as int));
}

/// The stored form of a ledger tells its own length: seventy-six bytes and
/// forty-one more for each record that it counts.
pub proof fn lemma_ledger_length(data: Seq<u8>)
    requires
        is_ledger(data),
    ensures
        data.len() >= 76,
        spec_u32_from_le_bytes(data.subrange(72, 76)) <= DEFAULT_CAPACITY,
        data.len() == 76 + 41 * spec_u32_from_le_bytes(data.subrange(72, 76)),
{
    let ledger = choose|ledger: LedgerView|
        ledger.accounts() is Some && #[trigger] encode_ledger(ledger) == data;
    let entries = ledger.accounts().unwrap();
    crate::token_program::ledger::lemma_accounts_layout(entries);
    lemma_auto_spec_u64_to_from_le_bytes();
    lemma_identity_by_bytes(ledger.mint_authority, ledger.freeze_authority);
    assert(ledger.opaque_accounts =~= data.subrange(72, data.len() as int));
    assert(ledger.opaque_accounts.subrange(0, 4) =~= data.subrange(72, 76));
}

/// How an operation ends: with the ledger it was meant to produce, or with
/// its error and the ledger untouched.
pub open spec fn ends_as(
    expected: Result<LedgerView, TokenError>,
    before: LedgerView,
    r: Result<(), TokenError>,
    after: LedgerView,
) -> bool {
    match expected {
        Ok(ledger) => r is Ok && after == ledger,
        Err(e) => r == Err::<(), TokenError>(e) && after == before,
    }
}

/// The ledger that `initialize` creates: the authority holds both offices
/// and the whole supply.
pub open spec fn initial_ledger(authority: Identity, supply: u64) -> LedgerView {
    LedgerView {
        total_supply: supply,
        mint_authority: authority,
        freeze_authority: authority,
        opaque_accounts: encode_accounts(
            seq![
                LedgerEntry {
                    owner: authority,
                    account: LedgerAccount { amount: supply, is_frozen: false },
                },
            ],
        ),
    }
}

impl Ledger {
    /// A ledger whose whole `supply` belongs to `authority`, which is also
    /// its mint and its freeze authority.
    pub fn initialize(authority: Identity, supply: u64) -> (ledger: Ledger)
        ensures
            ledger@ == initial_ledger(authority, supply),
    {
        let mut accounts = LedgerAccounts::new();
        let account = LedgerAccount { amount: supply, is_frozen: false };
        let inserted = accounts.insert(authority, account);
        Ledger {
            total_supply: supply,
            mint_authority: authority,
            freeze_authority: authority,
            opaque_accounts: accounts.try_to_vec(),
        }
    }

    /// The ledger in its stored form.
    pub fn to_bytes(&self) -> (out: Vec<u8>)
        ensures
            out@ == encode_ledger(self@),
    {
        let mut out = u64_to_le_bytes(self.total_supply);
        self.mint_authority.write_to(&mut out);
        self.freeze_authority.write_to(&mut out);
        let n = self.opaque_accounts.len();
        let ghost head = out@;
        let mut i: usize = 0;
        while i < n
            invariant
                i <= n,
                n == self.opaque_accounts@.len(),
                out@ == head + self.opaque_accounts@.subrange(0, i as int),
            decreases n - i,
        {
            out.push(self.opaque_accounts[i]);
            assert(out@ =~= head + self.opaque_accounts@.subrange(0, i + 1));
            i = i + 1;
        }
        assert(self.opaque_accounts@.subrange(0, n as int) =~= self.opaque_accounts@);
        out
    }

    /// Reads a ledger from its stored form. It succeeds exactly on the stored
    /// forms of ledgers whose blob holds a table, and then returns the ledger
    /// that was stored.
    pub fn from_bytes(data: &[u8]) -> (r: Result<Ledger, TokenError>)
        ensures
            match r {
                Ok(ledger) => ledger@.accounts() is Some && encode_ledger(ledger@) == data@,
                Err(e) => e == TokenError::InvalidAccountData && !is_ledger(data@),
            },
    {
        let len = data.len();
        if len < 72 {
            proof {
                lemma_auto_spec_u64_to_from_le_bytes();
                assert forall|other: LedgerView| other.accounts() is Some implies #[trigger] encode_ledger(
                    other,
                ) != data@ by {
                    lemma_identity_by_bytes(other.mint_authority, other.freeze_authority);
                }
            }
            return Err(TokenError::InvalidAccountData);
        }
        let total_supply = u64_from_le_bytes(vstd::slice::slice_subrange(data, 0, 8));
        let mint_authority = Identity::from_slice(data, 8);
        let freeze_authority = Identity::from_slice(data, 40);
        let blob = vstd::slice::slice_subrange(data, 72, len);
        match get_ledger_accounts(blob) {
            Err(_) => {
                proof {
                    lemma_auto_spec_u64_to_from_le_bytes();
                    assert forall|other: LedgerView| other.accounts() is Some implies #[trigger] encode_ledger(
                        other,
                    ) != data@ by {
                        lemma_identity_by_bytes(other.mint_authority, other.freeze_authority);
                        if encode_ledger(other) == data@ {
                            assert(other.opaque_accounts =~= data@.subrange(72, len as int));
                        }
                    }
                }
                Err(TokenError::InvalidAccountData)
            },
            Ok(accounts) => {
                let opaque_accounts = vstd::slice::slice_to_vec(blob);
                let ledger = Ledger {
                    total_supply,
                    mint_authority,
                    freeze_authority,
                    opaque_accounts,
                };
                proof {
                    lemma_auto_spec_u64_to_from_le_bytes();
                    lemma_identity_by_bytes(mint_authority, freeze_authority);
                    assert(spec_u64_to_le_bytes(total_supply) == data@.subrange(0, 8));
                    assert(encode_ledger(ledger@) =~= data@);
                }
                Ok(ledger)
            },
        }
    }

    /// Reads a ledger from the head of an account's data, which may be
    /// longer than the ledger. It succeeds exactly where some head of `data`
    /// is the stored form of a ledger whose blob holds a table; there is at
    /// most one such head.
    pub fn from_prefix(data: &[u8]) -> (r: Result<Ledger, TokenError>)
        ensures
            match r {
                Ok(ledger) => ledger@.accounts() is Some && encode_ledger(ledger@).len()
                    <= data@.len() && encode_ledger(ledger@) == data@.subrange(
                    0,
                    encode_ledger(ledger@).len() as int,
                ),
                Err(e) => e == TokenError::InvalidAccountData && forall|n: int|
                    0 <= n <= data@.len() ==> !is_ledger(#[trigger] data@.subrange(0, n)),
            },
    {
        let len = data.len();
        if len < 76 {
            proof {
                assert forall|n: int| 0 <= n <= data@.len() implies !is_ledger(
                    #[trigger] data@.subrange(0, n),
                ) by {
                    if is_ledger(data@.subrange(0, n)) {
                        lemma_ledger_length(data@.subrange(0, n));
                    }
                }
            }
            return Err(TokenError::InvalidAccountData);
        }
        let count = u32_from_le_bytes(vstd::slice::slice_subrange(data, 72, 76));
        if count > 5 || len < 76 + 41 * (count as usize) {
            proof {
                assert forall|n: int| 0 <= n <= data@.len() implies !is_ledger(
                    #[trigger] data@.subrange(0, n),
                ) by {
                    let head = data@.subrange(0, n);
                    if is_ledger(head) {
                        lemma_ledger_length(head);
                        assert(head.subrange(72, 76) =~= data@.subrange(72, 76));
                    }
                }
            }
            return Err(TokenError::InvalidAccountData);
        }
        let need = 76 + 41 * (count as usize);
        let r = Ledger::from_bytes(vstd::slice::slice_subrange(data, 0, need));
        proof {
            if r is Err {
                assert forall|n: int| 0 <= n <= data@.len() implies !is_ledger(
                    #[trigger] data@.subrange(0, n),
                ) by {
                    let head = data@.subrange(0, n);
                    if is_ledger(head) {
                        lemma_ledger_length(head);
                        assert(head.subrange(72, 76) =~= data@.subrange(72, 76));
                        assert(n == need);
                    }
                }
            }
        }
        r
    }

    /// Takes `amount` from the balance of `owner`.
    pub fn debit(&mut self, owner: &Identity, amount: u64) -> (r: Result<(), TokenError>)
        ensures
            ends_as(old(self)@.debit(*owner, amount), old(self)@, r, final(self)@),
    {
        let mut accounts = get_ledger_accounts(self.opaque_accounts.as_slice())?;
        update_balance(&mut accounts, owner, amount, false)?;
        self.opaque_accounts = accounts.try_to_vec();
        Ok(())
    }

    /// Gives `amount` to `destination`, which gets a record if it has none
    /// and there is room for one.
    pub fn credit(&mut self, destination: &Identity, amount: u64) -> (r: Result<(), TokenError>)
        ensures
            ends_as(old(self)@.credit(*destination, amount), old(self)@, r, final(self)@),
    {
        let mut accounts = get_ledger_accounts(self.opaque_accounts.as_slice())?;
        credit_accounts(&mut accounts, destination, amount)?;
        self.opaque_accounts = accounts.try_to_vec();
        Ok(())
    }

    /// Sets the frozen flag of `owner`, which must have a record. The flag is
    /// kept with the balance; no operation of the ledger looks at it.
    pub fn set_frozen(&mut self, owner: &Identity, value: bool) -> (r: Result<(), TokenError>)
        ensures
            ends_as(old(self)@.set_frozen(*owner, value), old(self)@, r, final(self)@),
    {
        let mut accounts = get_ledger_accounts(self.opaque_accounts.as_slice())?;
        let account = match accounts.get(owner) {
            Some(account) => account,
            None => {
                return Err(TokenError::AccountNotFound);
            },
        };
        let inserted = accounts.insert(
            *owner,
            LedgerAccount { amount: account.amount, is_frozen: value },
        );
        self.opaque_accounts = accounts.try_to_vec();
        Ok(())
    }

    /// Destroys `amount` of what `owner` holds.
    pub fn burn(&mut self, owner: &Identity, amount: u64) -> (r: Result<(), TokenError>)
        ensures
            ends_as(old(self)@.burn(*owner, amount), old(self)@, r, final(self)@),
    {
        let mut accounts = get_ledger_accounts(self.opaque_accounts.as_slice())?;
        update_balance(&mut accounts, owner, amount, false)?;
        let supply = match self.total_supply.checked_sub(amount) {
            Some(rest) => rest,
            None => {
                return Err(TokenError::InsufficientFunds);
            },
        };
        self.total_supply = supply;
        self.opaque_accounts = accounts.try_to_vec();
        Ok(())
    }

    /// Moves `amount` from `owner` to `to`: the debit first, then the credit.
    pub fn transfer(&mut self, owner: &Identity, to: &Identity, amount: u64) -> (r: Result<
        (),
        TokenError,
    >)
        ensures
            ends_as(old(self)@.transfer(*owner, *to, amount), old(self)@, r, final(self)@),
    {
        let mut accounts = get_ledger_accounts(self.opaque_accounts.as_slice())?;
        update_balance(&mut accounts, owner, amount, false)?;
        credit_accounts(&mut accounts, to, amount)?;
        self.opaque_accounts = accounts.try_to_vec();
        Ok(())
    }

    /// What the ledger keeps for `owner`: `None` where it has no record, and
    /// `InvalidAccountData` where the blob holds no table.
    pub fn account(&self, owner: &Identity) -> (r: Result<Option<LedgerAccount>, TokenError>)
        ensures
            match self@.accounts() {
                Some(entries) => r == Ok::<Option<LedgerAccount>, TokenError>(
                    account_of(entries, *owner),
                ),
                None => r == Err::<Option<LedgerAccount>, TokenError>(
                    TokenError::InvalidAccountData,
                ),
            },
    {
        let accounts = get_ledger_accounts(self.opaque_accounts.as_slice())?;
        Ok(accounts.get(owner))
    }

    /// The balance of `owner`, if it has a record.
    pub fn balance_of(&self, owner: &Identity) -> (r: Result<Option<u64>, TokenError>)
        ensures
            match self@.accounts() {
                Some(entries) => r == Ok::<Option<u64>, TokenError>(
                    match account_of(entries, *owner) {
                        Some(account) => Some(account.amount),
                        None => None,
                    },
                ),
                None => r == Err::<Option<u64>, TokenError>(TokenError::InvalidAccountData),
            },
    {
        match self.account(owner)? {
            Some(account) => Ok(Some(account.amount)),
            None => Ok(None),
        }
    }

    /// Whether `owner` is frozen, if it has a record.
    pub fn is_frozen(&self, owner: &Identity) -> (r: Result<Option<bool>, TokenError>)
        ensures
            match self@.accounts() {
                Some(entries) => r == Ok::<Option<bool>, TokenError>(
                    match account_of(entries, *owner) {
                        Some(account) => Some(account.is_frozen),
                        None => None,
                    },
                ),
                None => r == Err::<Option<bool>, TokenError>(TokenError::InvalidAccountData),
            },
    {
        match self.account(owner)? {
            Some(account) => Ok(Some(account.is_frozen)),
            None => Ok(None),
        }
    }

    /// The number of owners with a record.
    pub fn len(&self) -> (r: Result<usize, TokenError>)
        ensures
            match self@.accounts() {
                Some(entries) => r == Ok::<usize, TokenError>(entries.len() as usize)
                    && entries.len() <= DEFAULT_CAPACITY,
                None => r == Err::<usize, TokenError>(TokenError::InvalidAccountData),
            },
    {
        let accounts = get_ledger_accounts(self.opaque_accounts.as_slice())?;
        Ok(accounts.len())
    }

    /// The total supply.
    pub fn total_supply(&self) -> (supply: u64)
        ensures
            supply == self@.total_supply,
    {
        self.total_supply
    }

    /// The authority that may mint.
    pub fn mint_authority(&self) -> (authority: Identity)
        ensures
            authority == self@.mint_authority,
    {
        self.mint_authority
    }

    /// The authority that may freeze.
    pub fn freeze_authority(&self) -> (authority: Identity)
        ensures
            authority == self@.freeze_authority,
    {
        self.freeze_authority
    }
}

/// The accounts of the entry point that creates the ledger.
#[derive(Debug, PartialEq, Eq)]
pub struct InitializeMint {
    /// Who pays for the ledger and becomes its authority.
    pub authority: AccountInfo,
    pub ledger: Ledger,
    pub system_program: AccountInfo,
}

/// The accounts of the transfer itself: those of the interface, and the
/// ledger that the preflight answer declared.
#[derive(Debug, PartialEq, Eq)]
pub struct Transfer {
    pub owner: AccountInfo,
    pub to: AccountInfo,
    pub authority: AccountInfo,
    pub mint: AccountInfo,
    pub ledger: Ledger,
}

/// The address of the ledger account: the one derived for the ledger program
/// from the seed `ledger`.
pub open spec fn ledger_address() -> Option<Identity> {
    derived_address(seq![LEDGER_PREFIX@], Identity { bytes: ID })
}

/// What the ledger program declares for a transfer: its ledger account,
/// which it will write and which need not sign.
pub open spec fn ledger_descriptor(ledger: Identity) -> IAccountMeta {
    IAccountMeta { pubkey: ledger, signer: false, writable: true }
}

/// Creates the ledger of the asset: the authority that signs holds both
/// offices and the whole supply.
pub fn initialize_mint(ctx: &mut Context<InitializeMint>, supply: u64) -> (r: Result<
    (),
    TokenError,
>)
    ensures
        r is Ok,
        final(ctx).accounts.ledger@ == initial_ledger(old(ctx).accounts.authority.key, supply),
        final(ctx).accounts.authority == old(ctx).accounts.authority,
        final(ctx).accounts.system_program == old(ctx).accounts.system_program,
        final(ctx).program_id == old(ctx).program_id,
        final(ctx).remaining_accounts == old(ctx).remaining_accounts,
{
    let authority = ctx.accounts.authority.key;
    let mut accounts = LedgerAccounts::new();
    ctx.accounts.ledger.mint_authority = authority;
    ctx.accounts.ledger.freeze_authority = authority;
    ctx.accounts.ledger.total_supply = supply;
    let inserted = accounts.insert(authority, LedgerAccount { amount: supply, is_frozen: false });
    ctx.accounts.ledger.opaque_accounts = accounts.try_to_vec();
    Ok(())
}

/// Answers the preflight call of a transfer: the one account that the
/// transfer needs beyond those of the interface is the ledger. The result is
/// the answer as it goes into the return-data slot.
pub fn preflight_transfer(ctx: &Context<ITransfer>, amount: u64) -> (r: Result<Vec<u8>, TokenError>)
    ensures
        match ledger_address() {
            Some(ledger) => r matches Ok(answer) && answer@ == encode_payload(
                seq![ledger_descriptor(ledger)],
            ),
            None => r matches Err(TokenError::NoProgramAddress),
        },
{
    let mut seeds: Vec<Vec<u8>> = Vec::new();
    seeds.push(crate::address::seed_of(&LEDGER_PREFIX));
    assert(crate::address::seeds_view(seeds@) =~= seq![LEDGER_PREFIX@]);
    let ledger = match find_address(&seeds, &Identity::new(ID)) {
        Some(ledger) => ledger,
        None => {
            return Err(TokenError::NoProgramAddress);
        },
    };
    let mut accounts: Vec<IAccountMeta> = Vec::new();
    accounts.push(IAccountMeta { pubkey: ledger, signer: false, writable: true });
    assert(accounts@ =~= seq![ledger_descriptor(ledger)]);
    PreflightPayload { accounts }.try_to_vec()
}

/// Moves `amount` from the owner to the destination in the ledger.
///
/// Only the owner may move its balance: another authority is refused with
/// `AuthorizationMismatch`. The owner is debited first and must have a
/// record; the destination gets one if it has none and there is room. Any
/// failure leaves the ledger as it was.
pub fn transfer(ctx: &mut Context<Transfer>, amount: u64) -> (r: Result<(), TokenError>)
    ensures
        old(ctx).accounts.authority.key != old(ctx).accounts.owner.key ==> r == Err::<
            (),
            TokenError,
        >(TokenError::AuthorizationMismatch) && final(ctx).accounts.ledger@ == old(
            ctx,
        ).accounts.ledger@,
        old(ctx).accounts.authority.key == old(ctx).accounts.owner.key ==> ends_as(
            old(ctx).accounts.ledger@.transfer(
                old(ctx).accounts.owner.key,
                old(ctx).accounts.to.key,
                amount,
            ),
            old(ctx).accounts.ledger@,
            r,
            final(ctx).accounts.ledger@,
        ),
        final(ctx).accounts.owner == old(ctx).accounts.owner,
        final(ctx).accounts.to == old(ctx).accounts.to,
        final(ctx).accounts.authority == old(ctx).accounts.authority,
        final(ctx).accounts.mint == old(ctx).accounts.mint,
        final(ctx).program_id == old(ctx).program_id,
        final(ctx).remaining_accounts == old(ctx).remaining_accounts,
{
    if ctx.accounts.authority.key != ctx.accounts.owner.key {
        return Err(TokenError::AuthorizationMismatch);
    }
    let owner = ctx.accounts.owner.key;
    let to = ctx.accounts.to.key;
    let mut accounts = get_ledger_accounts(ctx.accounts.ledger.opaque_accounts.as_slice())?;
    update_balance(&mut accounts, &owner, amount, false)?;
    let records = accounts.len();
    proof {
        lemma_credited_by_steps(accounts@, to, amount);
    }
    if accounts.get(&to).is_none() {
        if records >= DEFAULT_CAPACITY {
            return Err(TokenError::LedgerFull);
        } else {
            let opened = accounts.insert(to, LedgerAccount { amount: 0, is_frozen: false });
        }
    }
    update_balance(&mut accounts, &to, amount, true)?;
    ctx.accounts.ledger.opaque_accounts = accounts.try_to_vec();
    Ok(())
}

/// Gives `amount` to `destination` in a table that is being worked on. On a
/// failure the table stays as it is.
pub fn credit_accounts(accounts: &mut LedgerAccounts, destination: &Identity, amount: u64) -> (r:
    Result<(), TokenError>)
    ensures
        match credited(old(accounts)@, *destination, amount) {
            Ok(after) => r is Ok && final(accounts)@ == after,
            Err(e) => r == Err::<(), TokenError>(e) && final(accounts)@ == old(accounts)@,
        },
{
    let known = accounts.get(destination);
    let n = accounts.len();
    proof {
        lemma_credited_by_steps(accounts@, *destination, amount);
    }
    match known {
        None => {
            if n >= DEFAULT_CAPACITY {
                return Err(TokenError::LedgerFull);
            }
            let opened = accounts.insert(
                *destination,
                LedgerAccount { amount, is_frozen: false },
            );
            Ok(())
        },
        Some(account) => { update_balance(accounts, destination, amount, true) },
    }
}

} // verus!

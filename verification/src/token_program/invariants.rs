//! What holds of the ledger whatever is done to it.

use crate::error::TokenError;
use crate::identity::Identity;
use crate::token_program::ledger::{
    account_of, balance_of, credited, debited, lemma_decode_encode, lemma_position,
    lemma_with_account, position, transferred, well_formed, with_account, LedgerAccount,
    LedgerEntry, DEFAULT_CAPACITY,
};
use crate::token_program::LedgerView;
use vstd::prelude::*;

verus! {

/// One credit: who receives, and how much.
pub struct Credit {
    pub destination: Identity,
    pub amount: u64,
}

/// The table after the credits were applied in turn. A credit that fails
/// leaves the table as it was.
pub open spec fn after_credits(entries: Seq<LedgerEntry>, credits: Seq<Credit>) -> Seq<LedgerEntry>
    decreases credits.len(),
{
    if credits.len() == 0 {
        entries
    } else {
        let before = after_credits(entries, credits.drop_last());
        match credited(before, credits.last().destination, credits.last().amount) {
            Ok(after) => after,
            Err(_) => before,
        }
    }
}

/// A debit that succeeds leaves a table that a ledger can hold.
pub proof fn lemma_debit_keeps_well_formed(entries: Seq<LedgerEntry>, owner: Identity, amount: u64)
    requires
        well_formed(entries),
        debited(entries, owner, amount) is Ok,
    ensures
        well_formed(debited(entries, owner, amount).unwrap()),
        debited(entries, owner, amount).unwrap().len() == entries.len(),
{
    let account = account_of(entries, owner).unwrap();
    lemma_with_account(
        entries,
        owner,
        LedgerAccount {
            amount: (account.amount - amount) as u64,
            is_frozen: account.is_frozen,
        },
    );
}

/// A credit that succeeds leaves a table that a ledger can hold: no owner
/// twice, and no more records than there is room for.
pub proof fn lemma_credit_keeps_well_formed(
    entries: Seq<LedgerEntry>,
    destination: Identity,
    amount: u64,
)
    requires
        well_formed(entries),
        credited(entries, destination, amount) is Ok,
    ensures
        well_formed(credited(entries, destination, amount).unwrap()),
{
    match account_of(entries, destination) {
        None => {
            lemma_with_account(entries, destination, LedgerAccount { amount, is_frozen: false });
        },
        Some(account) => {
            lemma_with_account(
                entries,
                destination,
                LedgerAccount {
                    amount: (account.amount + amount) as u64,
                    is_frozen: account.is_frozen,
                },
            );
        },
    }
}

/// Capacity: whatever credits are applied to a ledger's table, in whatever
/// order, it never holds more records than there is room for.
pub proof fn lemma_credits_keep_capacity(entries: Seq<LedgerEntry>, credits: Seq<Credit>)
    requires
        well_formed(entries),
    ensures
        well_formed(after_credits(entries, credits)),
        after_credits(entries, credits).len() <= DEFAULT_CAPACITY,
    decreases credits.len(),
{
    if credits.len() > 0 {
        lemma_credits_keep_capacity(entries, credits.drop_last());
        let before = after_credits(entries, credits.drop_last());
        if credited(before, credits.last().destination, credits.last().amount) is Ok {
            lemma_credit_keeps_well_formed(
                before,
                credits.last().destination,
                credits.last().amount,
            );
        }
    }
}

/// Capacity: a ledger whose table is full refuses the credit of an owner
/// without a record, whatever the amount, and stays as it is.
pub proof fn lemma_full_ledger_refuses_new_owner(
    ledger: LedgerView,
    destination: Identity,
    amount: u64,
)
    requires
        ledger.accounts() matches Some(entries) && entries.len() == DEFAULT_CAPACITY && account_of(
            entries,
            destination,
        ) is None,
    ensures
        ledger.credit(destination, amount) == Err::<LedgerView, TokenError>(
            TokenError::LedgerFull,
        ),
{
}

/// Conservation in the table: a transfer that succeeds between two different
/// owners takes exactly the amount from the one and gives exactly the amount
/// to the other; every other owner keeps what it had, and the table stays one
/// that a ledger can hold.
pub proof fn lemma_transfer_conserves(
    entries: Seq<LedgerEntry>,
    owner: Identity,
    to: Identity,
    amount: u64,
)
    requires
        well_formed(entries),
        owner != to,
        transferred(entries, owner, to, amount) is Ok,
    ensures
        ({
            let after = transferred(entries, owner, to, amount).unwrap();
            &&& well_formed(after)
            &&& balance_of(after, owner) == balance_of(entries, owner) - amount
            &&& balance_of(after, to) == balance_of(entries, to) + amount
            &&& forall|other: Identity|
                other != owner && other != to ==> #[trigger] account_of(after, other) == account_of(
                    entries,
                    other,
                )
        }),
{
    let source = account_of(entries, owner).unwrap();
    let debit = LedgerAccount {
        amount: (source.amount - amount) as u64,
        is_frozen: source.is_frozen,
    };
    let middle = with_account(entries, owner, debit);
    lemma_with_account(entries, owner, debit);
    assert(account_of(middle, to) == account_of(entries, to));
    let credit = match account_of(middle, to) {
        None => LedgerAccount { amount, is_frozen: false },
        Some(account) => LedgerAccount {
            amount: (account.amount + amount) as u64,
            is_frozen: account.is_frozen,
        },
    };
    let after = with_account(middle, to, credit);
    assert(after == transferred(entries, owner, to, amount).unwrap());
    lemma_with_account(middle, to, credit);
    assert(account_of(after, owner) == account_of(middle, owner));
    assert forall|other: Identity| other != owner && other != to implies #[trigger] account_of(
        after,
        other,
    ) == account_of(entries, other) by {
        assert(account_of(after, other) == account_of(middle, other));
        assert(account_of(middle, other) == account_of(entries, other));
    }
}

/// Conservation in the ledger: a transfer that succeeds between two
/// different owners lowers the balance of the one by exactly the amount,
/// raises the balance of the other by exactly the amount, and leaves the
/// total supply and both authorities as they were.
pub proof fn lemma_ledger_transfer_conserves(
    ledger: LedgerView,
    owner: Identity,
    to: Identity,
    amount: u64,
)
    requires
        owner != to,
        ledger.transfer(owner, to, amount) is Ok,
    ensures
        ({
            let after = ledger.transfer(owner, to, amount).unwrap();
            &&& after.total_supply == ledger.total_supply
            &&& after.mint_authority == ledger.mint_authority
            &&& after.freeze_authority == ledger.freeze_authority
            &&& after.accounts() is Some
            &&& balance_of(after.accounts().unwrap(), owner) == balance_of(
                ledger.accounts().unwrap(),
                owner,
            ) - amount
            &&& balance_of(after.accounts().unwrap(), to) == balance_of(
                ledger.accounts().unwrap(),
                to,
            ) + amount
        }),
{
    let entries = ledger.accounts().unwrap();
    lemma_transfer_conserves(entries, owner, to, amount);
    lemma_decode_encode(transferred(entries, owner, to, amount).unwrap());
}

/// The sum of all balances of the table.
pub open spec fn total_of(entries: Seq<LedgerEntry>) -> nat
    decreases entries.len(),
{
    if entries.len() == 0 {
        0
    } else {
        total_of(entries.drop_last()) + entries.last().account.amount as nat
    }
}

/// Replacing one record changes the sum by the difference of the two
/// balances.
pub proof fn lemma_total_of_update(entries: Seq<LedgerEntry>, i: int, entry: LedgerEntry)
    requires
        0 <= i < entries.len(),
    ensures
        total_of(entries.update(i, entry)) + entries[i].account.amount == total_of(entries)
            + entry.account.amount,
    decreases entries.len(),
{
    let after = entries.update(i, entry);
    if i == entries.len() - 1 {
        assert(after.drop_last() =~= entries.drop_last());
    } else {
        assert(after.drop_last() =~= entries.drop_last().update(i, entry));
        lemma_total_of_update(entries.drop_last(), i, entry);
    }
}

/// Keeping an account for an owner changes the sum by the difference between
/// the new balance and what the owner held.
pub proof fn lemma_total_of_with_account(
    entries: Seq<LedgerEntry>,
    owner: Identity,
    account: LedgerAccount,
)
    ensures
        total_of(with_account(entries, owner, account)) + balance_of(entries, owner) == total_of(
            entries,
        ) + account.amount,
{
    lemma_position(entries, owner);
    match position(entries, owner) {
        Some(i) => {
            lemma_total_of_update(entries, i, LedgerEntry { owner, account });
        },
        None => {
            let after = entries.push(LedgerEntry { owner, account });
            assert(after.drop_last() =~= entries);
        },
    }
}

/// Conservation of the whole: a transfer that succeeds, between whichever
/// owners, leaves the sum of all balances as it was.
pub proof fn lemma_transfer_keeps_total(
    entries: Seq<LedgerEntry>,
    owner: Identity,
    to: Identity,
    amount: u64,
)
    requires
        well_formed(entries),
        transferred(entries, owner, to, amount) is Ok,
    ensures
        total_of(transferred(entries, owner, to, amount).unwrap()) == total_of(entries),
{
    let source = account_of(entries, owner).unwrap();
    let debit = LedgerAccount {
        amount: (source.amount - amount) as u64,
        is_frozen: source.is_frozen,
    };
    let middle = with_account(entries, owner, debit);
    lemma_with_account(entries, owner, debit);
    lemma_total_of_with_account(entries, owner, debit);
    let credit = match account_of(middle, to) {
        None => LedgerAccount { amount, is_frozen: false },
        Some(account) => LedgerAccount {
            amount: (account.amount + amount) as u64,
            is_frozen: account.is_frozen,
        },
    };
    assert(with_account(middle, to, credit) == transferred(entries, owner, to, amount).unwrap());
    lemma_total_of_with_account(middle, to, credit);
}

/// A transfer from an owner to itself that succeeds leaves every balance as
/// it was.
pub proof fn lemma_transfer_to_self(entries: Seq<LedgerEntry>, owner: Identity, amount: u64)
    requires
        well_formed(entries),
        transferred(entries, owner, owner, amount) is Ok,
    ensures
        forall|other: Identity| #[trigger]
            account_of(transferred(entries, owner, owner, amount).unwrap(), other) == account_of(
                entries,
                other,
            ),
{
    let source = account_of(entries, owner).unwrap();
    let debit = LedgerAccount {
        amount: (source.amount - amount) as u64,
        is_frozen: source.is_frozen,
    };
    let middle = with_account(entries, owner, debit);
    lemma_with_account(entries, owner, debit);
    let credit = LedgerAccount { amount: source.amount, is_frozen: source.is_frozen };
    let after = with_account(middle, owner, credit);
    lemma_with_account(middle, owner, credit);
    assert(after == transferred(entries, owner, owner, amount).unwrap());
    assert forall|other: Identity| #[trigger] account_of(after, other) == account_of(
        entries,
        other,
    ) by {
        if other != owner {
            assert(account_of(after, other) == account_of(middle, other));
            assert(account_of(middle, other) == account_of(entries, other));
        }
    }
}

/// Every operation that succeeds on a ledger leaves a ledger whose blob
/// holds a table again: a debit, a credit, a transfer.
pub proof fn lemma_ledger_stays_readable(
    ledger: LedgerView,
    owner: Identity,
    to: Identity,
    amount: u64,
)
    ensures
        ledger.debit(owner, amount) matches Ok(after) ==> after.accounts() == Some(
            debited(ledger.accounts().unwrap(), owner, amount).unwrap(),
        ),
        ledger.credit(to, amount) matches Ok(after) ==> after.accounts() == Some(
            credited(ledger.accounts().unwrap(), to, amount).unwrap(),
        ),
        ledger.transfer(owner, to, amount) matches Ok(after) ==> after.accounts() == Some(
            transferred(ledger.accounts().unwrap(), owner, to, amount).unwrap(),
        ),
{
    if ledger.accounts() is Some {
        let entries = ledger.accounts().unwrap();
        if debited(entries, owner, amount) is Ok {
            lemma_debit_keeps_well_formed(entries, owner, amount);
            let middle = debited(entries, owner, amount).unwrap();
            lemma_decode_encode(middle);
            if credited(middle, to, amount) is Ok {
                lemma_credit_keeps_well_formed(middle, to, amount);
                lemma_decode_encode(credited(middle, to, amount).unwrap());
            }
        }
        if credited(entries, to, amount) is Ok {
            lemma_credit_keeps_well_formed(entries, to, amount);
            lemma_decode_encode(credited(entries, to, amount).unwrap());
        }
    }
}

} // verus!

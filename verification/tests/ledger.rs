use transfer_dispatch::account::{AccountInfo, Context};
use transfer_dispatch::error::TokenError;
use transfer_dispatch::identity::Identity;
use transfer_dispatch::token_program::ledger::{
    get_ledger_accounts, update_balance, LedgerAccount, LedgerAccounts, LedgerEntry,
    DEFAULT_CAPACITY,
};
use transfer_dispatch::token_program::{
    credit_accounts, initialize_mint, transfer, InitializeMint, Ledger, Transfer,
};

fn id(n: u8) -> Identity {
    Identity::new([n; 32])
}

fn account(key: Identity, is_signer: bool) -> AccountInfo {
    AccountInfo { key, owner: id(0), is_signer, is_writable: false, data: Vec::new() }
}

fn entry_bytes(owner: u8, amount: u64, frozen: u8) -> Vec<u8> {
    let mut out = vec![owner; 32];
    out.extend_from_slice(&amount.to_le_bytes());
    out.push(frozen);
    out
}

fn blob(entries: &[(u8, u64, u8)]) -> Vec<u8> {
    let mut out = (entries.len() as u32).to_le_bytes().to_vec();
    for (owner, amount, frozen) in entries {
        out.extend_from_slice(&entry_bytes(*owner, *amount, *frozen));
    }
    out
}

fn full_ledger() -> Ledger {
    let mut ledger = Ledger::initialize(id(1), 1000);
    for n in 2..=5u8 {
        assert_eq!(ledger.credit(&id(n), 10), Ok(()));
    }
    ledger
}

#[test]
fn initialize_gives_the_authority_everything() {
    let ledger = Ledger::initialize(id(7), 1000);
    assert_eq!(ledger.total_supply, 1000);
    assert_eq!(ledger.mint_authority, id(7));
    assert_eq!(ledger.freeze_authority, id(7));
    assert_eq!(ledger.opaque_accounts, blob(&[(7, 1000, 0)]));
    assert_eq!(ledger.balance_of(&id(7)), Ok(Some(1000)));
    assert_eq!(ledger.is_frozen(&id(7)), Ok(Some(false)));
    assert_eq!(ledger.len(), Ok(1));
    assert_eq!(ledger.total_supply(), 1000);
    assert_eq!(ledger.mint_authority(), id(7));
    assert_eq!(ledger.freeze_authority(), id(7));
}

#[test]
fn blob_is_count_then_records_in_order_of_first_credit() {
    let mut ledger = Ledger::initialize(id(9), 0x0102030405060708);
    assert_eq!(ledger.credit(&id(3), 5), Ok(()));
    assert_eq!(ledger.set_frozen(&id(3), true), Ok(()));
    let mut expected = vec![2u8, 0, 0, 0];
    expected.extend_from_slice(&[9u8; 32]);
    expected.extend_from_slice(&[8, 7, 6, 5, 4, 3, 2, 1]);
    expected.push(0);
    expected.extend_from_slice(&[3u8; 32]);
    expected.extend_from_slice(&[5, 0, 0, 0, 0, 0, 0, 0]);
    expected.push(1);
    assert_eq!(ledger.opaque_accounts, expected);
    assert_eq!(ledger.opaque_accounts.len(), 4 + 2 * 41);
}

#[test]
fn capacity_is_five() {
    assert_eq!(DEFAULT_CAPACITY, 5);
}

#[test]
fn sixth_owner_is_refused_and_ledger_is_untouched() {
    let mut ledger = full_ledger();
    assert_eq!(ledger.len(), Ok(5));
    let before = ledger.clone();
    assert_eq!(ledger.credit(&id(6), 1), Err(TokenError::LedgerFull));
    assert_eq!(ledger, before);
    assert_eq!(ledger.to_bytes(), before.to_bytes());
    assert_eq!(ledger.len(), Ok(5));
}

#[test]
fn known_owner_is_credited_in_a_full_ledger() {
    let mut ledger = full_ledger();
    assert_eq!(ledger.credit(&id(3), 7), Ok(()));
    assert_eq!(ledger.balance_of(&id(3)), Ok(Some(17)));
    assert_eq!(ledger.len(), Ok(5));
}

#[test]
fn many_credits_never_exceed_capacity() {
    let mut ledger = Ledger::initialize(id(1), 0);
    for n in 0..40u8 {
        let _ = ledger.credit(&id(n % 9), 3);
        assert!(ledger.len().unwrap() <= DEFAULT_CAPACITY);
    }
    assert_eq!(ledger.len(), Ok(5));
    assert_eq!(ledger.balance_of(&id(8)), Ok(None));
}

#[test]
fn transfer_conserves() {
    let mut ledger = Ledger::initialize(id(1), 1000);
    assert_eq!(ledger.credit(&id(2), 50), Ok(()));
    assert_eq!(ledger.transfer(&id(1), &id(2), 300), Ok(()));
    assert_eq!(ledger.balance_of(&id(1)), Ok(Some(700)));
    assert_eq!(ledger.balance_of(&id(2)), Ok(Some(350)));
    assert_eq!(ledger.total_supply, 1000);
}

#[test]
fn transfer_to_self_changes_nothing() {
    let mut ledger = Ledger::initialize(id(1), 1000);
    let before = ledger.to_bytes();
    assert_eq!(ledger.transfer(&id(1), &id(1), 400), Ok(()));
    assert_eq!(ledger.to_bytes(), before);
    assert_eq!(ledger.transfer(&id(1), &id(1), 1001), Err(TokenError::InsufficientFunds));
    assert_eq!(ledger.to_bytes(), before);
}

#[test]
fn credit_overflow_is_refused() {
    let mut ledger = Ledger::initialize(id(1), u64::MAX - 1);
    let before = ledger.to_bytes();
    assert_eq!(ledger.credit(&id(1), 5), Err(TokenError::MathOverflow));
    assert_eq!(ledger.balance_of(&id(1)), Ok(Some(u64::MAX - 1)));
    assert_eq!(ledger.to_bytes(), before);
    assert_eq!(ledger.credit(&id(1), 1), Ok(()));
    assert_eq!(ledger.balance_of(&id(1)), Ok(Some(u64::MAX)));
}

#[test]
fn debit_beyond_balance_is_refused() {
    let mut ledger = Ledger::initialize(id(1), 10);
    let before = ledger.to_bytes();
    assert_eq!(ledger.debit(&id(1), 11), Err(TokenError::InsufficientFunds));
    assert_eq!(ledger.to_bytes(), before);
    assert_eq!(ledger.debit(&id(1), 10), Ok(()));
    assert_eq!(ledger.balance_of(&id(1)), Ok(Some(0)));
    assert_eq!(ledger.len(), Ok(1));
}

#[test]
fn debit_needs_a_record() {
    let mut ledger = Ledger::initialize(id(1), 10);
    let before = ledger.to_bytes();
    assert_eq!(ledger.debit(&id(2), 0), Err(TokenError::AccountNotFound));
    assert_eq!(ledger.set_frozen(&id(2), true), Err(TokenError::AccountNotFound));
    assert_eq!(ledger.burn(&id(2), 0), Err(TokenError::AccountNotFound));
    assert_eq!(ledger.transfer(&id(2), &id(1), 0), Err(TokenError::AccountNotFound));
    assert_eq!(ledger.to_bytes(), before);
}

#[test]
fn end_to_end() {
    let a = id(0xA);
    let b = id(0xB);
    let mut ledger = Ledger::initialize(a, 1000);
    assert_eq!(ledger.transfer(&a, &b, 300), Ok(()));
    assert_eq!(ledger.balance_of(&a), Ok(Some(700)));
    assert_eq!(ledger.balance_of(&b), Ok(Some(300)));
    assert_eq!(ledger.len(), Ok(2));
    assert_eq!(ledger.burn(&a, 200), Ok(()));
    assert_eq!(ledger.balance_of(&a), Ok(Some(500)));
    assert_eq!(ledger.total_supply, 800);
    assert_eq!(ledger.balance_of(&b), Ok(Some(300)));
}

#[test]
fn burn_beyond_supply_is_refused() {
    let mut ledger = Ledger::initialize(id(1), 100);
    ledger.total_supply = 40;
    let before = ledger.to_bytes();
    assert_eq!(ledger.burn(&id(1), 50), Err(TokenError::InsufficientFunds));
    assert_eq!(ledger.to_bytes(), before);
    assert_eq!(ledger.burn(&id(1), 101), Err(TokenError::InsufficientFunds));
    assert_eq!(ledger.burn(&id(1), 40), Ok(()));
    assert_eq!(ledger.total_supply, 0);
    assert_eq!(ledger.balance_of(&id(1)), Ok(Some(60)));
}

#[test]
fn set_frozen_keeps_the_balance() {
    let mut ledger = Ledger::initialize(id(1), 100);
    assert_eq!(ledger.set_frozen(&id(1), true), Ok(()));
    assert_eq!(ledger.is_frozen(&id(1)), Ok(Some(true)));
    assert_eq!(ledger.balance_of(&id(1)), Ok(Some(100)));
    assert_eq!(ledger.account(&id(1)), Ok(Some(LedgerAccount { amount: 100, is_frozen: true })));
    assert_eq!(ledger.set_frozen(&id(1), false), Ok(()));
    assert_eq!(ledger.is_frozen(&id(1)), Ok(Some(false)));
    assert_eq!(ledger.is_frozen(&id(2)), Ok(None));
}

#[test]
fn frozen_flag_survives_debit_and_credit() {
    let mut ledger = Ledger::initialize(id(1), 100);
    assert_eq!(ledger.set_frozen(&id(1), true), Ok(()));
    assert_eq!(ledger.debit(&id(1), 10), Ok(()));
    assert_eq!(ledger.credit(&id(1), 5), Ok(()));
    assert_eq!(ledger.account(&id(1)), Ok(Some(LedgerAccount { amount: 95, is_frozen: true })));
}

#[test]
fn malformed_blob_is_refused_everywhere() {
    let mut ledger = Ledger::initialize(id(1), 100);
    ledger.opaque_accounts = vec![1, 0, 0];
    let before = ledger.to_bytes();
    assert_eq!(ledger.credit(&id(1), 1), Err(TokenError::InvalidAccountData));
    assert_eq!(ledger.debit(&id(1), 1), Err(TokenError::InvalidAccountData));
    assert_eq!(ledger.transfer(&id(1), &id(2), 1), Err(TokenError::InvalidAccountData));
    assert_eq!(ledger.burn(&id(1), 1), Err(TokenError::InvalidAccountData));
    assert_eq!(ledger.set_frozen(&id(1), true), Err(TokenError::InvalidAccountData));
    assert_eq!(ledger.balance_of(&id(1)), Err(TokenError::InvalidAccountData));
    assert_eq!(ledger.is_frozen(&id(1)), Err(TokenError::InvalidAccountData));
    assert_eq!(ledger.len(), Err(TokenError::InvalidAccountData));
    assert_eq!(ledger.to_bytes(), before);
}

#[test]
fn table_decodes_what_was_encoded() {
    let data = blob(&[(4, 17, 0), (2, 0, 1), (9, u64::MAX, 0)]);
    let accounts = get_ledger_accounts(&data).unwrap();
    assert_eq!(accounts.len(), 3);
    assert_eq!(
        accounts.entry(0),
        Some(LedgerEntry { owner: id(4), account: LedgerAccount { amount: 17, is_frozen: false } })
    );
    assert_eq!(
        accounts.entry(1),
        Some(LedgerEntry { owner: id(2), account: LedgerAccount { amount: 0, is_frozen: true } })
    );
    assert_eq!(accounts.entry(3), None);
    assert_eq!(accounts.get(&id(9)), Some(LedgerAccount { amount: u64::MAX, is_frozen: false }));
    assert_eq!(accounts.get(&id(5)), None);
    assert_eq!(accounts.try_to_vec(), data);
}

#[test]
fn empty_table_is_four_zero_bytes() {
    let accounts = LedgerAccounts::new();
    assert_eq!(accounts.len(), 0);
    assert_eq!(accounts.try_to_vec(), vec![0u8, 0, 0, 0]);
    assert_eq!(get_ledger_accounts(&[0, 0, 0, 0]).unwrap().len(), 0);
}

#[test]
fn table_refuses_what_is_no_table() {
    let bad = |data: Vec<u8>| {
        assert_eq!(get_ledger_accounts(&data).err(), Some(TokenError::InvalidAccountData));
    };
    bad(vec![]);
    bad(vec![0, 0, 0]);
    bad(vec![1, 0, 0, 0]);
    bad(vec![0, 0, 0, 0, 0]);
    let mut short = blob(&[(1, 1, 0)]);
    short.pop();
    bad(short);
    let mut long = blob(&[(1, 1, 0)]);
    long.push(0);
    bad(long);
    bad(blob(&[(1, 1, 2)]));
    bad(blob(&[(1, 1, 0), (1, 2, 0)]));
    bad(blob(&[(1, 1, 0), (2, 1, 0), (3, 1, 0), (4, 1, 0), (5, 1, 0), (6, 1, 0)]));
    let mut wrong_count = blob(&[(1, 1, 0), (2, 1, 0)]);
    wrong_count[0] = 1;
    bad(wrong_count);
    let mut high_count = blob(&[(1, 1, 0)]);
    high_count[3] = 1;
    bad(high_count);
}

#[test]
fn insert_replaces_or_appends() {
    let mut accounts = LedgerAccounts::new();
    for n in 1..=5u8 {
        assert_eq!(accounts.insert(id(n), LedgerAccount { amount: n as u64, is_frozen: false }), Ok(()));
    }
    let before = accounts.try_to_vec();
    assert_eq!(
        accounts.insert(id(6), LedgerAccount { amount: 6, is_frozen: false }),
        Err(TokenError::LedgerFull)
    );
    assert_eq!(accounts.try_to_vec(), before);
    assert_eq!(accounts.insert(id(2), LedgerAccount { amount: 20, is_frozen: true }), Ok(()));
    assert_eq!(accounts.entry(1).unwrap().account, LedgerAccount { amount: 20, is_frozen: true });
    assert_eq!(accounts.entry(1).unwrap().owner, id(2));
    assert_eq!(accounts.len(), 5);
}

#[test]
fn update_balance_adds_or_takes() {
    let mut accounts = get_ledger_accounts(&blob(&[(1, 10, 1)])).unwrap();
    assert_eq!(update_balance(&mut accounts, &id(1), 5, true), Ok(()));
    assert_eq!(accounts.get(&id(1)), Some(LedgerAccount { amount: 15, is_frozen: true }));
    assert_eq!(update_balance(&mut accounts, &id(1), 15, false), Ok(()));
    assert_eq!(accounts.get(&id(1)), Some(LedgerAccount { amount: 0, is_frozen: true }));
    assert_eq!(update_balance(&mut accounts, &id(1), 1, false), Err(TokenError::InsufficientFunds));
    assert_eq!(update_balance(&mut accounts, &id(1), u64::MAX, true), Ok(()));
    assert_eq!(update_balance(&mut accounts, &id(1), 1, true), Err(TokenError::MathOverflow));
    assert_eq!(update_balance(&mut accounts, &id(2), 1, true), Err(TokenError::AccountNotFound));
    assert_eq!(update_balance(&mut accounts, &id(2), 1, false), Err(TokenError::AccountNotFound));
    assert_eq!(accounts.try_to_vec(), blob(&[(1, u64::MAX, 1)]));
}

#[test]
fn credit_accounts_opens_a_record() {
    let mut accounts = LedgerAccounts::new();
    assert_eq!(credit_accounts(&mut accounts, &id(3), 8), Ok(()));
    assert_eq!(credit_accounts(&mut accounts, &id(3), 2), Ok(()));
    assert_eq!(accounts.try_to_vec(), blob(&[(3, 10, 0)]));
}

#[test]
fn stored_ledger_is_supply_authorities_table() {
    let mut ledger = Ledger::initialize(id(1), 258);
    ledger.freeze_authority = id(2);
    let mut expected = vec![2u8, 1, 0, 0, 0, 0, 0, 0];
    expected.extend_from_slice(&[1u8; 32]);
    expected.extend_from_slice(&[2u8; 32]);
    expected.extend_from_slice(&blob(&[(1, 258, 0)]));
    assert_eq!(ledger.to_bytes(), expected);
    assert_eq!(Ledger::from_bytes(&expected), Ok(ledger));
}

#[test]
fn stored_ledger_must_hold_a_table() {
    assert_eq!(Ledger::from_bytes(&[0u8; 71]), Err(TokenError::InvalidAccountData));
    assert_eq!(Ledger::from_bytes(&[0u8; 72]), Err(TokenError::InvalidAccountData));
    assert_eq!(Ledger::from_bytes(&[0u8; 75]), Err(TokenError::InvalidAccountData));
    let empty = Ledger::from_bytes(&[0u8; 76]).unwrap();
    assert_eq!(empty.len(), Ok(0));
    assert_eq!(empty.total_supply, 0);
    assert_eq!(Ledger::from_bytes(&[0u8; 77]), Err(TokenError::InvalidAccountData));
}

#[test]
fn ledger_is_read_from_the_head_of_longer_data() {
    let mut ledger = Ledger::initialize(id(1), 258);
    assert_eq!(ledger.credit(&id(2), 3), Ok(()));
    let mut data = ledger.to_bytes();
    assert_eq!(data.len(), 76 + 2 * 41);
    assert_eq!(Ledger::from_prefix(&data), Ok(ledger.clone()));
    data.extend_from_slice(&[0u8; 86]);
    assert_eq!(Ledger::from_prefix(&data), Ok(ledger.clone()));
    data.truncate(76 + 2 * 41 - 1);
    assert_eq!(Ledger::from_prefix(&data), Err(TokenError::InvalidAccountData));
    assert_eq!(Ledger::from_prefix(&[0u8; 75]), Err(TokenError::InvalidAccountData));
    assert_eq!(Ledger::from_prefix(&[0u8; 100]).unwrap().len(), Ok(0));
    let mut six = vec![0u8; 76 + 6 * 41];
    six[72] = 6;
    assert_eq!(Ledger::from_prefix(&six), Err(TokenError::InvalidAccountData));
}

#[test]
fn initialize_mint_fills_the_ledger() {
    let mut ctx = Context {
        program_id: id(100),
        accounts: InitializeMint {
            authority: account(id(5), true),
            ledger: Ledger {
                total_supply: 0,
                mint_authority: id(0),
                freeze_authority: id(0),
                opaque_accounts: Vec::new(),
            },
            system_program: account(id(0), false),
        },
        remaining_accounts: Vec::new(),
    };
    assert_eq!(initialize_mint(&mut ctx, 1000), Ok(()));
    assert_eq!(ctx.accounts.ledger, Ledger::initialize(id(5), 1000));
    assert_eq!(ctx.accounts.ledger.balance_of(&id(5)), Ok(Some(1000)));
}

fn transfer_ctx(owner: u8, to: u8, authority: u8, ledger: Ledger) -> Context<Transfer> {
    Context {
        program_id: id(100),
        accounts: Transfer {
            owner: account(id(owner), false),
            to: account(id(to), false),
            authority: account(id(authority), true),
            mint: account(id(50), false),
            ledger,
        },
        remaining_accounts: Vec::new(),
    }
}

#[test]
fn transfer_moves_the_amount() {
    let mut ctx = transfer_ctx(1, 2, 1, Ledger::initialize(id(1), 1000));
    assert_eq!(transfer(&mut ctx, 300), Ok(()));
    assert_eq!(ctx.accounts.ledger.balance_of(&id(1)), Ok(Some(700)));
    assert_eq!(ctx.accounts.ledger.balance_of(&id(2)), Ok(Some(300)));
    assert_eq!(ctx.accounts.ledger.len(), Ok(2));
    assert_eq!(ctx.accounts.ledger.total_supply, 1000);
}

#[test]
fn transfer_needs_the_owner_as_authority() {
    let mut ctx = transfer_ctx(1, 2, 3, Ledger::initialize(id(1), 1000));
    assert_eq!(transfer(&mut ctx, 300), Err(TokenError::AuthorizationMismatch));
    assert_eq!(ctx.accounts.ledger, Ledger::initialize(id(1), 1000));
}

#[test]
fn transfer_fails_in_the_order_of_its_checks() {
    let mut ctx = transfer_ctx(9, 6, 9, full_ledger());
    assert_eq!(transfer(&mut ctx, 1), Err(TokenError::AccountNotFound));
    let mut ctx = transfer_ctx(2, 6, 2, full_ledger());
    assert_eq!(transfer(&mut ctx, 11), Err(TokenError::InsufficientFunds));
    assert_eq!(transfer(&mut ctx, 10), Err(TokenError::LedgerFull));
    assert_eq!(ctx.accounts.ledger, full_ledger());
    let mut ledger = Ledger::initialize(id(1), u64::MAX);
    assert_eq!(ledger.credit(&id(2), 1), Ok(()));
    let mut ctx = transfer_ctx(2, 1, 2, ledger);
    let before = ctx.accounts.ledger.to_bytes();
    assert_eq!(transfer(&mut ctx, 1), Err(TokenError::MathOverflow));
    assert_eq!(ctx.accounts.ledger.to_bytes(), before);
}

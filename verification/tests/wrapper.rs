use anchor_lang::prelude::Pubkey;
use anchor_lang::solana_program::program_option::COption;
use anchor_lang::solana_program::program_pack::Pack;
use std::str::FromStr;
use transfer_dispatch::account::{AccountInfo, AccountMeta, Context, ReturnData};
use transfer_dispatch::address::{
    associated_token_address, find_address, master_edition_address, seed_of,
    token_record_address, EDITION_SEED, METADATA_SEED, TOKEN_RECORD_SEED,
};
use transfer_dispatch::error::TokenError;
use transfer_dispatch::identity::{
    Identity, ASSOCIATED_TOKEN_PROGRAM_ID, AUTH_RULES_PROGRAM_ID, BPF_LOADER_ID,
    BPF_LOADER_UPGRADEABLE_ID, SYSTEM_PROGRAM_ID, SYSVAR_INSTRUCTIONS_ID, TOKEN_2022_PROGRAM_ID,
    TOKEN_METADATA_ID, TOKEN_PROGRAM_ID,
};
use transfer_dispatch::selector::{GLOBAL_PREFIX, PREFLIGHT_PREFIX};
use transfer_dispatch::token_interface::payload::{IAccountMeta, PreflightPayload};
use transfer_dispatch::token_interface::{CallAction, CallEvent, ITransfer};
use transfer_dispatch::token_program::{Ledger, Transfer, LEDGER_PREFIX};
use transfer_dispatch::token_wrapper::metadata::{
    metadata_transfer, preflight_token_metadata, Metadata, ProgrammableConfig,
};
use transfer_dispatch::token_wrapper::token_star::{
    checked_transfer, preflight_token_star, TransferChecked,
};
use transfer_dispatch::token_wrapper::{
    match_callee, preflight_transfer, transfer, CalleeProgram, PreflightAction, TransferAction,
};

const TRANSFER: [u8; 8] = [163, 52, 200, 231, 140, 3, 69, 186];
const PREFLIGHT_TRANSFER: [u8; 8] = [157, 132, 245, 90, 97, 234, 123, 226];

fn id(n: u8) -> Identity {
    Identity::new([n; 32])
}

fn key(id: &Identity) -> Pubkey {
    Pubkey::new_from_array(id.bytes)
}

fn account(k: u8, is_signer: bool, is_writable: bool) -> AccountInfo {
    AccountInfo { key: id(k), owner: id(200), is_signer, is_writable, data: Vec::new() }
}

fn request(mint_owner: [u8; 32], mint_data: Vec<u8>, remaining: Vec<AccountInfo>) -> Context<ITransfer> {
    Context {
        program_id: Identity::new(transfer_dispatch::token_wrapper::ID),
        accounts: ITransfer {
            owner: account(1, false, false),
            to: account(2, false, false),
            authority: account(1, true, true),
            mint: AccountInfo {
                key: id(4),
                owner: Identity::new(mint_owner),
                is_signer: false,
                is_writable: false,
                data: mint_data,
            },
        },
        remaining_accounts: remaining,
    }
}

fn mint_data(decimals: u8) -> Vec<u8> {
    let mint = anchor_spl::token::spl_token::state::Mint {
        mint_authority: COption::None,
        supply: 1_000,
        decimals,
        is_initialized: true,
        freeze_authority: COption::None,
    };
    let mut data = vec![0u8; anchor_spl::token::spl_token::state::Mint::LEN];
    anchor_spl::token::spl_token::state::Mint::pack(mint, &mut data).unwrap();
    data
}

fn metadata_data(mint: Identity, config: Option<Option<Identity>>) -> Vec<u8> {
    let stored = mpl_token_metadata::state::Metadata {
        key: mpl_token_metadata::state::Key::MetadataV1,
        update_authority: Pubkey::new_from_array([77; 32]),
        mint: key(&mint),
        data: mpl_token_metadata::state::Data {
            name: String::from("asset"),
            symbol: String::from("A"),
            uri: String::from("https://example.org/a.json"),
            seller_fee_basis_points: 250,
            creators: None,
        },
        primary_sale_happened: false,
        is_mutable: true,
        edition_nonce: Some(254),
        token_standard: Some(mpl_token_metadata::state::TokenStandard::ProgrammableNonFungible),
        collection: None,
        uses: None,
        collection_details: None,
        programmable_config: config.map(|rule_set| {
            mpl_token_metadata::state::ProgrammableConfig::V1 { rule_set: rule_set.map(|r| key(&r)) }
        }),
    };
    let mut data = vec![0u8; mpl_token_metadata::state::MAX_METADATA_LEN];
    stored.save(&mut data).unwrap();
    data
}

fn reads(k: Identity) -> IAccountMeta {
    IAccountMeta { pubkey: k, signer: false, writable: false }
}

fn writes(k: Identity) -> IAccountMeta {
    IAccountMeta { pubkey: k, signer: false, writable: true }
}

#[test]
fn identities_are_those_of_the_programs() {
    assert_eq!(TOKEN_PROGRAM_ID, anchor_spl::token::ID.to_bytes());
    assert_eq!(TOKEN_2022_PROGRAM_ID, anchor_spl::token_2022::ID.to_bytes());
    assert_eq!(ASSOCIATED_TOKEN_PROGRAM_ID, anchor_spl::associated_token::ID.to_bytes());
    assert_eq!(BPF_LOADER_ID, anchor_lang::solana_program::bpf_loader::ID.to_bytes());
    assert_eq!(
        BPF_LOADER_UPGRADEABLE_ID,
        anchor_lang::solana_program::bpf_loader_upgradeable::ID.to_bytes()
    );
    assert_eq!(SYSTEM_PROGRAM_ID, anchor_lang::solana_program::system_program::ID.to_bytes());
    assert_eq!(
        SYSVAR_INSTRUCTIONS_ID,
        anchor_lang::solana_program::sysvar::instructions::ID.to_bytes()
    );
    assert_eq!(AUTH_RULES_PROGRAM_ID, mpl_token_auth_rules::ID.to_bytes());
    assert_eq!(
        TOKEN_METADATA_ID,
        Pubkey::from_str("metaqbxxUerdq28cj1RbAWkYQm3ybzjb6a8bt518x1s").unwrap().to_bytes()
    );
    assert_eq!(
        transfer_dispatch::token_program::ID,
        Pubkey::from_str("32d7pdBNmDmXAXcHkivteqLjaNVovWQ1JMn85LdyyAux").unwrap().to_bytes()
    );
    assert_eq!(
        transfer_dispatch::token_wrapper::ID,
        Pubkey::from_str("F96CHxPDRgjUypdUqpJocgT59vEPT79AFJXjtyPCBaRt").unwrap().to_bytes()
    );
}

#[test]
fn seeds_spell_their_words() {
    assert_eq!(&GLOBAL_PREFIX[..], b"global:");
    assert_eq!(&PREFLIGHT_PREFIX[..], b"preflight_");
    assert_eq!(&LEDGER_PREFIX[..], b"ledger");
    assert_eq!(&METADATA_SEED[..], b"metadata");
    assert_eq!(&EDITION_SEED[..], b"edition");
    assert_eq!(&TOKEN_RECORD_SEED[..], b"token_record");
}

#[test]
fn derived_addresses_are_those_of_the_runtime() {
    let wallet = id(11);
    let mint = id(12);
    assert_eq!(
        associated_token_address(&wallet, &mint).map(|a| a.bytes),
        Some(
            anchor_spl::associated_token::get_associated_token_address(&key(&wallet), &key(&mint))
                .to_bytes()
        )
    );
    let registry = Pubkey::new_from_array(TOKEN_METADATA_ID);
    let (edition, _) = Pubkey::find_program_address(
        &[b"metadata", registry.as_ref(), &mint.bytes, b"edition"],
        &registry,
    );
    assert_eq!(master_edition_address(&mint).map(|a| a.bytes), Some(edition.to_bytes()));
    let token = id(13);
    let (record, _) = Pubkey::find_program_address(
        &[b"metadata", registry.as_ref(), &mint.bytes, b"token_record", &token.bytes],
        &registry,
    );
    assert_eq!(token_record_address(&mint, &token).map(|a| a.bytes), Some(record.to_bytes()));
    assert_ne!(master_edition_address(&mint), Some(mint));
    assert_ne!(associated_token_address(&wallet, &mint), associated_token_address(&mint, &wallet));
}

#[test]
fn seeds_beyond_the_limits_have_no_address() {
    let program = id(1);
    assert_eq!(find_address(&vec![vec![0u8; 33]], &program), None);
    assert_eq!(find_address(&vec![vec![1u8]; 16], &program), None);
    assert!(find_address(&vec![vec![1u8]; 15], &program).is_some());
    assert!(find_address(&vec![vec![0u8; 32]], &program).is_some());
    assert!(find_address(&Vec::new(), &program).is_some());
    assert_eq!(seed_of(b"abc"), vec![97, 98, 99]);
}

#[test]
fn ledger_program_declares_its_ledger() {
    let ctx = request(BPF_LOADER_ID, Vec::new(), Vec::new());
    let answer = transfer_dispatch::token_program::preflight_transfer(&ctx, 5).unwrap();
    let (ledger, _) = Pubkey::find_program_address(
        &[b"ledger"],
        &Pubkey::new_from_array(transfer_dispatch::token_program::ID),
    );
    let expected = PreflightPayload { accounts: vec![writes(Identity::new(ledger.to_bytes()))] };
    assert_eq!(answer, expected.try_to_vec().unwrap());
    assert_eq!(PreflightPayload::try_from_slice(&answer), Ok(expected));
}

#[test]
fn owners_select_the_backend() {
    assert_eq!(match_callee(&Identity::new(TOKEN_PROGRAM_ID)), CalleeProgram::TokenStar);
    assert_eq!(match_callee(&Identity::new(TOKEN_2022_PROGRAM_ID)), CalleeProgram::TokenStar);
    assert_eq!(match_callee(&Identity::new(BPF_LOADER_ID)), CalleeProgram::Interface);
    assert_eq!(match_callee(&Identity::new(BPF_LOADER_UPGRADEABLE_ID)), CalleeProgram::Interface);
    assert_eq!(match_callee(&Identity::new(TOKEN_METADATA_ID)), CalleeProgram::TokenMetadata);
    assert_eq!(match_callee(&Identity::new(SYSTEM_PROGRAM_ID)), CalleeProgram::Error);
    assert_eq!(match_callee(&Identity::new(ASSOCIATED_TOKEN_PROGRAM_ID)), CalleeProgram::Error);
    let mut near = TOKEN_PROGRAM_ID;
    near[31] ^= 1;
    assert_eq!(match_callee(&Identity::new(near)), CalleeProgram::Error);
}

#[test]
fn unknown_backend_is_refused() {
    let ctx = request(SYSTEM_PROGRAM_ID, Vec::new(), vec![account(9, false, false); 8]);
    assert_eq!(preflight_transfer(&ctx, 1, CallEvent::Start), Err(TokenError::UnknownBackend));
    assert_eq!(transfer(&ctx, 1, CallEvent::Start), Err(TokenError::UnknownBackend));
    let answer = ReturnData { program_id: id(4), data: vec![0, 0, 0, 0] };
    assert_eq!(
        transfer(&ctx, 1, CallEvent::PreflightReturned(answer)),
        Err(TokenError::UnknownBackend)
    );
}

#[test]
fn standard_token_declares_program_and_holding_accounts() {
    let ctx = request(TOKEN_2022_PROGRAM_ID, Vec::new(), Vec::new());
    let source = associated_token_address(&id(1), &id(4)).unwrap();
    let destination = associated_token_address(&id(2), &id(4)).unwrap();
    let expected = vec![reads(Identity::new(TOKEN_2022_PROGRAM_ID)), writes(source), writes(destination)];
    assert_eq!(preflight_token_star(&ctx.accounts), Ok(expected.clone()));
    let answer = PreflightPayload { accounts: expected }.try_to_vec().unwrap();
    assert_eq!(answer.len(), 4 + 3 * 34);
    assert_eq!(preflight_transfer(&ctx, 7, CallEvent::Start), Ok(PreflightAction::Respond(answer.clone())));
    let event = CallEvent::PreflightReturned(ReturnData { program_id: id(9), data: vec![1] });
    assert_eq!(preflight_transfer(&ctx, 7, event), Ok(PreflightAction::Respond(answer)));
}

#[test]
fn standard_token_is_moved_by_a_checked_transfer() {
    let remaining = vec![account(20, false, false), account(21, false, true), account(22, false, true), account(23, false, false)];
    let ctx = request(TOKEN_PROGRAM_ID, mint_data(6), remaining.clone());
    let expected = TransferChecked {
        program: remaining[0].clone(),
        from: remaining[1].clone(),
        mint: ctx.accounts.mint.clone(),
        to: remaining[2].clone(),
        authority: ctx.accounts.authority.clone(),
        amount: 300,
        decimals: 6,
    };
    assert_eq!(transfer(&ctx, 300, CallEvent::Start), Ok(TransferAction::TransferChecked(expected)));
    let ctx = request(TOKEN_2022_PROGRAM_ID, mint_data(9), remaining);
    match transfer(&ctx, 1, CallEvent::Start) {
        Ok(TransferAction::TransferChecked(t)) => assert_eq!(t.decimals, 9),
        other => panic!("{:?}", other),
    }
}

#[test]
fn standard_token_needs_its_accounts_and_its_mint() {
    let three = vec![account(20, false, false), account(21, false, true), account(22, false, true)];
    let ctx = request(TOKEN_PROGRAM_ID, mint_data(6), three[..2].to_vec());
    assert_eq!(transfer(&ctx, 1, CallEvent::Start), Err(TokenError::AccountNotFound));
    let ctx = request(TOKEN_PROGRAM_ID, vec![0u8; 82], three.clone());
    assert_eq!(transfer(&ctx, 1, CallEvent::Start), Err(TokenError::InvalidAccountData));
    let ctx = request(TOKEN_PROGRAM_ID, Vec::new(), three.clone());
    assert_eq!(transfer(&ctx, 1, CallEvent::Start), Err(TokenError::InvalidAccountData));
    let ctx = request(TOKEN_PROGRAM_ID, Vec::new(), Vec::new());
    assert_eq!(transfer(&ctx, 1, CallEvent::Start), Err(TokenError::AccountNotFound));
    assert_eq!(
        checked_transfer(&ctx.accounts, &three, 1, None),
        Err(TokenError::InvalidAccountData)
    );
    assert_eq!(checked_transfer(&ctx.accounts, &three, 1, Some(2)).map(|t| t.decimals), Ok(2));
}

#[test]
fn interface_preflight_is_passed_on() {
    let ctx = request(BPF_LOADER_UPGRADEABLE_ID, Vec::new(), Vec::new());
    match preflight_transfer(&ctx, 0x0102, CallEvent::Start) {
        Ok(PreflightAction::Preflight(call)) => {
            assert_eq!(call.instruction.program_id, id(4));
            assert_eq!(call.instruction.data, [&PREFLIGHT_TRANSFER[..], &[2u8, 1, 0, 0, 0, 0, 0, 0][..]].concat());
            assert_eq!(call.instruction.accounts.len(), 4);
            assert!(call.instruction.accounts.iter().all(|m| !m.is_signer && !m.is_writable));
            assert_eq!(call.instruction.accounts[2].pubkey, id(1));
            assert_eq!(call.account_infos.len(), 4);
            assert_eq!(call.account_infos[3], ctx.accounts.mint);
        }
        other => panic!("{:?}", other),
    }
    let answer = ReturnData { program_id: id(4), data: vec![9, 8, 7] };
    assert_eq!(
        preflight_transfer(&ctx, 1, CallEvent::PreflightReturned(answer)),
        Ok(PreflightAction::Respond(vec![9, 8, 7]))
    );
    let answer = ReturnData { program_id: id(5), data: vec![0, 0, 0, 0] };
    assert_eq!(
        preflight_transfer(&ctx, 1, CallEvent::PreflightReturned(answer)),
        Err(TokenError::ResponseIdentityMismatch)
    );
}

#[test]
fn interface_transfer_takes_both_phases() {
    let ledger_account = account(30, false, true);
    let ctx = request(BPF_LOADER_ID, Vec::new(), vec![account(29, false, false), ledger_account.clone()]);
    match transfer(&ctx, 300, CallEvent::Start) {
        Ok(TransferAction::Call(CallAction::Preflight(call))) => {
            assert_eq!(call.instruction.data, [&PREFLIGHT_TRANSFER[..], &300u64.to_le_bytes()[..]].concat());
            assert_eq!(call.instruction.program_id, id(4));
        }
        other => panic!("{:?}", other),
    }
    let declared = PreflightPayload { accounts: vec![writes(id(30))] };
    let answer = ReturnData { program_id: id(4), data: declared.try_to_vec().unwrap() };
    match transfer(&ctx, 300, CallEvent::PreflightReturned(answer)) {
        Ok(TransferAction::Call(CallAction::Execute(call))) => {
            assert_eq!(call.instruction.program_id, id(4));
            assert_eq!(call.instruction.data, [&TRANSFER[..], &300u64.to_le_bytes()[..]].concat());
            assert_eq!(
                call.instruction.accounts,
                vec![
                    AccountMeta { pubkey: id(1), is_signer: false, is_writable: false },
                    AccountMeta { pubkey: id(2), is_signer: false, is_writable: false },
                    AccountMeta { pubkey: id(1), is_signer: true, is_writable: true },
                    AccountMeta { pubkey: id(4), is_signer: false, is_writable: false },
                    AccountMeta { pubkey: id(30), is_signer: false, is_writable: true },
                ]
            );
            assert_eq!(call.account_infos.len(), 5);
            assert_eq!(call.account_infos[4], ledger_account);
        }
        other => panic!("{:?}", other),
    }
    let declared = PreflightPayload { accounts: vec![writes(id(30)), reads(id(31))] };
    let answer = ReturnData { program_id: id(4), data: declared.try_to_vec().unwrap() };
    assert_eq!(
        transfer(&ctx, 300, CallEvent::PreflightReturned(answer)),
        Err(TokenError::AccountNotFound)
    );
    let answer = ReturnData { program_id: id(3), data: declared.try_to_vec().unwrap() };
    assert_eq!(
        transfer(&ctx, 300, CallEvent::PreflightReturned(answer)),
        Err(TokenError::ResponseIdentityMismatch)
    );
    let answer = ReturnData { program_id: id(4), data: vec![1] };
    assert_eq!(
        transfer(&ctx, 300, CallEvent::PreflightReturned(answer)),
        Err(TokenError::MalformedResponse)
    );
}

fn companions(mint: Identity) -> Vec<IAccountMeta> {
    let source = associated_token_address(&id(1), &mint).unwrap();
    let destination = associated_token_address(&id(2), &mint).unwrap();
    vec![
        reads(Identity::new(TOKEN_METADATA_ID)),
        writes(source),
        writes(destination),
        reads(mint),
        reads(master_edition_address(&mint).unwrap()),
        writes(token_record_address(&mint, &source).unwrap()),
        writes(token_record_address(&mint, &destination).unwrap()),
        reads(Identity::new(SYSTEM_PROGRAM_ID)),
        reads(Identity::new(SYSVAR_INSTRUCTIONS_ID)),
        reads(Identity::new(TOKEN_PROGRAM_ID)),
        reads(Identity::new(ASSOCIATED_TOKEN_PROGRAM_ID)),
    ]
}

#[test]
fn registry_asset_declares_its_companions() {
    let ctx = request(TOKEN_METADATA_ID, metadata_data(id(40), None), Vec::new());
    let plain = Metadata { mint: id(40), programmable_config: None };
    assert_eq!(preflight_token_metadata(&ctx.accounts, &plain), Ok(companions(id(40))));
    let answer = PreflightPayload { accounts: companions(id(40)) }.try_to_vec().unwrap();
    assert_eq!(answer.len(), 4 + 11 * 34);
    assert_eq!(
        preflight_transfer(&ctx, 1, CallEvent::Start),
        Ok(PreflightAction::Respond(answer.clone()))
    );
    let unruled = Metadata {
        mint: id(40),
        programmable_config: Some(ProgrammableConfig::V1 { rule_set: None }),
    };
    assert_eq!(preflight_token_metadata(&ctx.accounts, &unruled), Ok(companions(id(40))));
    let ctx = request(TOKEN_METADATA_ID, metadata_data(id(40), Some(None)), Vec::new());
    assert_eq!(preflight_transfer(&ctx, 1, CallEvent::Start), Ok(PreflightAction::Respond(answer)));
}

#[test]
fn rule_set_adds_two_accounts() {
    let ctx = request(TOKEN_METADATA_ID, metadata_data(id(40), Some(Some(id(41)))), Vec::new());
    let ruled = Metadata {
        mint: id(40),
        programmable_config: Some(ProgrammableConfig::V1 { rule_set: Some(id(41)) }),
    };
    let mut expected = companions(id(40));
    expected.push(reads(Identity::new(AUTH_RULES_PROGRAM_ID)));
    expected.push(reads(id(41)));
    assert_eq!(expected.len(), 13);
    assert_eq!(preflight_token_metadata(&ctx.accounts, &ruled), Ok(expected.clone()));
    assert_eq!(
        preflight_transfer(&ctx, 1, CallEvent::Start),
        Ok(PreflightAction::Respond(PreflightPayload { accounts: expected }.try_to_vec().unwrap()))
    );
}

#[test]
fn registry_asset_needs_its_metadata() {
    let ctx = request(TOKEN_METADATA_ID, Vec::new(), Vec::new());
    assert_eq!(preflight_transfer(&ctx, 1, CallEvent::Start), Err(TokenError::InvalidAccountData));
    let mut data = metadata_data(id(40), None);
    data.pop();
    let ctx = request(TOKEN_METADATA_ID, data, Vec::new());
    assert_eq!(preflight_transfer(&ctx, 1, CallEvent::Start), Err(TokenError::InvalidAccountData));
    let mut data = metadata_data(id(40), None);
    data[0] = 6;
    let ctx = request(TOKEN_METADATA_ID, data, Vec::new());
    assert_eq!(preflight_transfer(&ctx, 1, CallEvent::Start), Err(TokenError::InvalidAccountData));
}

#[test]
fn registry_identity_is_that_of_its_crate() {
    assert_eq!(TOKEN_METADATA_ID, mpl_token_metadata::ID.to_bytes());
    let (record, _) = mpl_token_metadata::pda::find_token_record_account(&key(&id(12)), &key(&id(13)));
    assert_eq!(token_record_address(&id(12), &id(13)).map(|a| a.bytes), Some(record.to_bytes()));
    let (edition, _) = mpl_token_metadata::pda::find_master_edition_account(&key(&id(12)));
    assert_eq!(master_edition_address(&id(12)).map(|a| a.bytes), Some(edition.to_bytes()));
}

#[test]
fn registry_transfer_puts_the_request_at_its_places() {
    let remaining: Vec<AccountInfo> = (100..111u8).map(|k| account(k, false, k % 2 == 0)).collect();
    let ctx = request(TOKEN_METADATA_ID, Vec::new(), remaining.clone());
    let call = match transfer(&ctx, 0x0102, CallEvent::Start) {
        Ok(TransferAction::Call(CallAction::Execute(call))) => call,
        other => panic!("{:?}", other),
    };
    assert_eq!(call.instruction.program_id, id(100));
    assert_eq!(call.instruction.data, vec![49, 0, 2, 1, 0, 0, 0, 0, 0, 0, 0]);
    let a = &ctx.accounts;
    let expected = vec![
        remaining[1].clone(),
        a.owner.clone(),
        remaining[2].clone(),
        a.to.clone(),
        remaining[3].clone(),
        a.mint.clone(),
        remaining[4].clone(),
        remaining[5].clone(),
        remaining[6].clone(),
        a.authority.clone(),
        a.authority.clone(),
        remaining[7].clone(),
        remaining[8].clone(),
        remaining[9].clone(),
        remaining[10].clone(),
    ];
    assert_eq!(call.account_infos, expected);
    assert_eq!(call.instruction.accounts.len(), 15);
    for (meta, info) in call.instruction.accounts.iter().zip(expected.iter()) {
        assert_eq!(*meta, info.to_account_meta(None));
    }
    assert_eq!(call.instruction.accounts[9], AccountMeta { pubkey: id(1), is_signer: true, is_writable: true });
    assert_eq!(metadata_transfer(a, &remaining, 0x0102), Ok(call));
}

#[test]
fn registry_transfer_needs_seven_accounts() {
    let remaining: Vec<AccountInfo> = (100..106u8).map(|k| account(k, false, false)).collect();
    let ctx = request(TOKEN_METADATA_ID, Vec::new(), remaining);
    assert_eq!(transfer(&ctx, 1, CallEvent::Start), Err(TokenError::AccountNotFound));
    let remaining: Vec<AccountInfo> = (100..107u8).map(|k| account(k, false, false)).collect();
    let ctx = request(TOKEN_METADATA_ID, Vec::new(), remaining);
    match transfer(&ctx, 1, CallEvent::Start) {
        Ok(TransferAction::Call(CallAction::Execute(call))) => assert_eq!(call.account_infos.len(), 11),
        other => panic!("{:?}", other),
    }
    let ctx = request(TOKEN_METADATA_ID, Vec::new(), Vec::new());
    assert_eq!(transfer(&ctx, 1, CallEvent::Start), Err(TokenError::AccountNotFound));
}

#[test]
fn router_reaches_the_ledger_program() {
    let a = id(1);
    let b = id(2);
    let (ledger_key, _) = Pubkey::find_program_address(
        &[b"ledger"],
        &Pubkey::new_from_array(transfer_dispatch::token_program::ID),
    );
    let ledger_account = AccountInfo {
        key: Identity::new(ledger_key.to_bytes()),
        owner: Identity::new(transfer_dispatch::token_program::ID),
        is_signer: false,
        is_writable: true,
        data: Vec::new(),
    };
    let ctx = request(BPF_LOADER_UPGRADEABLE_ID, Vec::new(), vec![ledger_account.clone()]);
    let preflight = match transfer(&ctx, 300, CallEvent::Start) {
        Ok(TransferAction::Call(CallAction::Preflight(call))) => call,
        other => panic!("{:?}", other),
    };
    assert_eq!(&preflight.instruction.data[..8], &PREFLIGHT_TRANSFER[..]);
    let backend = Context {
        program_id: Identity::new(transfer_dispatch::token_program::ID),
        accounts: ctx.accounts.clone(),
        remaining_accounts: Vec::new(),
    };
    let answer = ReturnData {
        program_id: ctx.accounts.mint.key,
        data: transfer_dispatch::token_program::preflight_transfer(&backend, 300).unwrap(),
    };
    let execute = match transfer(&ctx, 300, CallEvent::PreflightReturned(answer)) {
        Ok(TransferAction::Call(CallAction::Execute(call))) => call,
        other => panic!("{:?}", other),
    };
    assert_eq!(execute.account_infos[4], ledger_account);
    assert_eq!(&execute.instruction.data[..8], &TRANSFER[..]);
    let mut amount = [0u8; 8];
    amount.copy_from_slice(&execute.instruction.data[8..]);
    let mut backend = Context {
        program_id: Identity::new(transfer_dispatch::token_program::ID),
        accounts: Transfer {
            owner: execute.account_infos[0].clone(),
            to: execute.account_infos[1].clone(),
            authority: execute.account_infos[2].clone(),
            mint: execute.account_infos[3].clone(),
            ledger: Ledger::initialize(a, 1000),
        },
        remaining_accounts: Vec::new(),
    };
    assert_eq!(
        transfer_dispatch::token_program::transfer(&mut backend, u64::from_le_bytes(amount)),
        Ok(())
    );
    assert_eq!(backend.accounts.ledger.balance_of(&a), Ok(Some(700)));
    assert_eq!(backend.accounts.ledger.balance_of(&b), Ok(Some(300)));
    assert_eq!(backend.accounts.ledger.len(), Ok(2));
    assert_eq!(backend.accounts.ledger.burn(&a, 200), Ok(()));
    assert_eq!(backend.accounts.ledger.balance_of(&a), Ok(Some(500)));
    assert_eq!(backend.accounts.ledger.total_supply, 800);
}

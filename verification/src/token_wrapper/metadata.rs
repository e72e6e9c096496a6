//! The adapter of the metadata registry.

use crate::account::{
    accounts_to_metas, clone_accounts, metas_of, views, AccountInfo, AccountInfoView, Instruction,
    InstructionView, Invocation, InvocationView,
};
use crate::address::{
    associated_token, associated_token_address, master_edition, master_edition_address,
    token_record, token_record_address,
};
use crate::error::TokenError;
use crate::identity::{
    Identity, ASSOCIATED_TOKEN_PROGRAM_ID, AUTH_RULES_PROGRAM_ID, SYSTEM_PROGRAM_ID,
    SYSVAR_INSTRUCTIONS_ID, TOKEN_METADATA_ID, TOKEN_PROGRAM_ID,
};
use crate::token_interface::payload::IAccountMeta;
use crate::token_interface::ITransfer;
use vstd::bytes::*;
use vstd::prelude::*;

verus! {

/// The rules that bind a programmable asset.
#[derive(Clone, Copy, Debug, PartialEq, Eq)]
pub enum ProgrammableConfig {
    V1 { rule_set: Option<Identity> },
}

/// What the router reads of the metadata that the registry keeps for an
/// asset.
#[derive(Clone, Copy, Debug, PartialEq, Eq)]
pub struct Metadata {
    /// The mint of the asset.
    pub mint: Identity,
    pub programmable_config: Option<ProgrammableConfig>,
}

/// What the data of an account of the registry holds of an asset, or `None`
/// where the data is not the metadata of an asset.
pub uninterp spec fn stored_metadata(data: Seq<u8>) -> Option<Metadata>;

/// `Metadata::safe_deserialize` of the registry's crate, which accepts data
/// of the length and kind of a metadata account and then decodes it, with the
/// mint and the programmable configuration taken out of what it decoded. The
/// result is `None` where the data is refused.
#[verifier::external_body]
pub(crate) fn read_metadata(data: &[u8]) -> (r: Option<Metadata>)
    ensures
        r == stored_metadata(data@),
{
    match <mpl_token_metadata::state::Metadata as mpl_token_metadata::state::TokenMetadataAccount>::safe_deserialize(data) {
        Ok(stored) => Some(Metadata {
            mint: Identity { bytes: stored.mint.to_bytes() },
            programmable_config: match stored.programmable_config {
                Some(mpl_token_metadata::state::ProgrammableConfig::V1 { rule_set: Some(rules) }) =>
                    Some(ProgrammableConfig::V1 { rule_set: Some(Identity { bytes: rules.to_bytes() }) }),
                Some(mpl_token_metadata::state::ProgrammableConfig::V1 { rule_set: None }) =>
                    Some(ProgrammableConfig::V1 { rule_set: None }),
                None => None,
            },
        }),
        Err(_) => None,
    }
}

/// The rule set that binds the asset, if it declares one.
pub open spec fn rule_set_of(metadata: Metadata) -> Option<Identity> {
    match metadata.programmable_config {
        Some(ProgrammableConfig::V1 { rule_set }) => rule_set,
        None => None,
    }
}

/// A descriptor of an account that is only read.
pub open spec fn read_only(pubkey: Identity) -> IAccountMeta {
    IAccountMeta { pubkey, signer: false, writable: false }
}

/// A descriptor of an account that is written.
pub open spec fn written(pubkey: Identity) -> IAccountMeta {
    IAccountMeta { pubkey, signer: false, writable: true }
}

/// The companion accounts of a transfer of an asset of the registry, in the
/// order of the registry's transfer instruction: the registry, the holding
/// accounts of owner and destination, the mint, the edition, the records of
/// the two holding accounts, the system program, the instructions account,
/// the token program and the associated-token program.
pub open spec fn companion_descriptors(
    mint: Identity,
    source: Identity,
    destination: Identity,
    edition: Identity,
    source_record: Identity,
    destination_record: Identity,
) -> Seq<IAccountMeta> {
    seq![
        read_only(Identity { bytes: TOKEN_METADATA_ID }),
        written(source),
        written(destination),
        read_only(mint),
        read_only(edition),
        written(source_record),
        written(destination_record),
        read_only(Identity { bytes: SYSTEM_PROGRAM_ID }),
        read_only(Identity { bytes: SYSVAR_INSTRUCTIONS_ID }),
        read_only(Identity { bytes: TOKEN_PROGRAM_ID }),
        read_only(Identity { bytes: ASSOCIATED_TOKEN_PROGRAM_ID }),
    ]
}

/// The two accounts that follow the companions where the asset declares a
/// rule set, and only then: the program that evaluates rule sets, and the
/// rule set.
pub open spec fn rule_descriptors(rule_set: Option<Identity>) -> Seq<IAccountMeta> {
    match rule_set {
        Some(rules) => seq![
            read_only(Identity { bytes: AUTH_RULES_PROGRAM_ID }),
            read_only(rules),
        ],
        None => Seq::empty(),
    }
}

/// What a transfer of an asset of the registry needs beyond the accounts of
/// the interface, given the metadata of the asset. It is `None` where one of
/// the derived accounts has no address.
pub open spec fn metadata_descriptors(owner: Identity, to: Identity, metadata: Metadata) -> Option<
    Seq<IAccountMeta>,
> {
    let mint = metadata.mint;
    match (associated_token(owner, mint), associated_token(to, mint), master_edition(mint)) {
        (Some(source), Some(destination), Some(edition)) => match (
            token_record(mint, source),
            token_record(mint, destination),
        ) {
            (Some(source_record), Some(destination_record)) => Some(
                companion_descriptors(
                    mint,
                    source,
                    destination,
                    edition,
                    source_record,
                    destination_record,
                ) + rule_descriptors(rule_set_of(metadata)),
            ),
            _ => None,
        },
        _ => None,
    }
}

/// A descriptor of an account that is only read.
fn reads(pubkey: Identity) -> (m: IAccountMeta)
    ensures
        m == read_only(pubkey),
{
    IAccountMeta { pubkey, signer: false, writable: false }
}

/// A descriptor of an account that is written.
fn writes(pubkey: Identity) -> (m: IAccountMeta)
    ensures
        m == written(pubkey),
{
    IAccountMeta { pubkey, signer: false, writable: true }
}

/// Declares what a transfer of an asset of the registry needs, from the
/// metadata that the registry keeps for the asset.
pub fn preflight_token_metadata(accounts: &ITransfer, metadata: &Metadata) -> (r: Result<
    Vec<IAccountMeta>,
    TokenError,
>)
    ensures
        match metadata_descriptors(accounts.owner.key, accounts.to.key, *metadata) {
            Some(descriptors) => r matches Ok(declared) && declared@ == descriptors,
            None => r matches Err(TokenError::NoProgramAddress),
        },
{
    let mint_address = metadata.mint;
    let owner_ata = match associated_token_address(&accounts.owner.key, &mint_address) {
        Some(address) => address,
        None => {
            return Err(TokenError::NoProgramAddress);
        },
    };
    let destination_ata = match associated_token_address(&accounts.to.key, &mint_address) {
        Some(address) => address,
        None => {
            return Err(TokenError::NoProgramAddress);
        },
    };
    let master_edition_address = match master_edition_address(&mint_address) {
        Some(address) => address,
        None => {
            return Err(TokenError::NoProgramAddress);
        },
    };
    let owner_token_record = match token_record_address(&mint_address, &owner_ata) {
        Some(address) => address,
        None => {
            return Err(TokenError::NoProgramAddress);
        },
    };
    let destination_token_record = match token_record_address(&mint_address, &destination_ata) {
        Some(address) => address,
        None => {
            return Err(TokenError::NoProgramAddress);
        },
    };
    let mut declared: Vec<IAccountMeta> = Vec::new();
    declared.push(reads(Identity::new(TOKEN_METADATA_ID)));
    declared.push(writes(owner_ata));
    declared.push(writes(destination_ata));
    declared.push(reads(mint_address));
    declared.push(reads(master_edition_address));
    declared.push(writes(owner_token_record));
    declared.push(writes(destination_token_record));
    declared.push(reads(Identity::new(SYSTEM_PROGRAM_ID)));
    declared.push(reads(Identity::new(SYSVAR_INSTRUCTIONS_ID)));
    declared.push(reads(Identity::new(TOKEN_PROGRAM_ID)));
    declared.push(reads(Identity::new(ASSOCIATED_TOKEN_PROGRAM_ID)));
    assert(declared@ =~= companion_descriptors(
        mint_address,
        owner_ata,
        destination_ata,
        master_edition_address,
        owner_token_record,
        destination_token_record,
    ));
    match metadata.programmable_config {
        Some(programmable_config) => match programmable_config {
            ProgrammableConfig::V1 { rule_set } => match rule_set {
                Some(rule_set_pubkey) => {
                    declared.push(reads(Identity::new(AUTH_RULES_PROGRAM_ID)));
                    declared.push(reads(rule_set_pubkey));
                },
                None => {},
            },
        },
        None => {},
    }
    assert(declared@ =~= metadata_descriptors(
        accounts.owner.key,
        accounts.to.key,
        *metadata,
    ).unwrap());
    Ok(declared)
}

/// The data of the registry's transfer instruction: its tag, the version of
/// its arguments, the amount in eight little-endian bytes, and the mark of
/// absent authorization data.
pub open spec fn transfer_data(amount: u64) -> Seq<u8> {
    (seq![49u8, 0u8] + spec_u64_to_le_bytes(amount)).push(0u8)
}

/// The accounts of the registry's transfer instruction: the declared
/// accounts without the registry itself, with the accounts of the request
/// put in at their places: the owner second, the destination fourth, the
/// asset's account sixth, and the authority tenth and, as payer, eleventh.
pub open spec fn transfer_accounts_of(
    owner: AccountInfoView,
    to: AccountInfoView,
    authority: AccountInfoView,
    mint: AccountInfoView,
    remaining: Seq<AccountInfoView>,
) -> Seq<AccountInfoView> {
    remaining.subrange(1, remaining.len() as int).insert(1, owner).insert(3, to).insert(
        5,
        mint,
    ).insert(9, authority).insert(10, authority)
}

/// The registry's transfer, or why it cannot be built: the first of the
/// remaining accounts is the registry, and at least six more must follow for
/// the accounts of the request to find their places.
pub open spec fn metadata_transfer_invocation(
    owner: AccountInfoView,
    to: AccountInfoView,
    authority: AccountInfoView,
    mint: AccountInfoView,
    remaining: Seq<AccountInfoView>,
    amount: u64,
) -> Result<InvocationView, TokenError> {
    if remaining.len() < 7 {
        Err(TokenError::AccountNotFound)
    } else {
        let accounts = transfer_accounts_of(owner, to, authority, mint, remaining);
        Ok(
            InvocationView {
                instruction: InstructionView {
                    program_id: remaining[0].key,
                    accounts: metas_of(accounts, None),
                    data: transfer_data(amount),
                },
                account_infos: accounts,
            },
        )
    }
}

/// Builds the registry's transfer of `amount`.
pub fn metadata_transfer(accounts: &ITransfer, remaining_accounts: &[AccountInfo], amount: u64) -> (r:
    Result<Invocation, TokenError>)
    ensures
        match metadata_transfer_invocation(
            accounts.owner@,
            accounts.to@,
            accounts.authority@,
            accounts.mint@,
            views(remaining_accounts@),
            amount,
        ) {
            Ok(call) => r matches Ok(built) && built@ == call,
            Err(e) => r matches Err(f) && f == e,
        },
{
    let n = remaining_accounts.len();
    if n < 7 {
        return Err(TokenError::AccountNotFound);
    }
    let program_id = remaining_accounts[0].key;
    let ghost remaining = views(remaining_accounts@);
    let mut infos = clone_accounts(vstd::slice::slice_subrange(remaining_accounts, 1, n));
    assert(views(infos@) =~= remaining.subrange(1, n as int));
    let ghost v0 = views(infos@);
    infos.insert(1, accounts.owner.clone());
    assert(views(infos@) =~= v0.insert(1, accounts.owner@));
    let ghost v1 = views(infos@);
    infos.insert(3, accounts.to.clone());
    assert(views(infos@) =~= v1.insert(3, accounts.to@));
    let ghost v2 = views(infos@);
    infos.insert(5, accounts.mint.clone());
    assert(views(infos@) =~= v2.insert(5, accounts.mint@));
    let ghost v3 = views(infos@);
    infos.insert(9, accounts.authority.clone());
    assert(views(infos@) =~= v3.insert(9, accounts.authority@));
    let ghost v4 = views(infos@);
    infos.insert(10, accounts.authority.clone());
    assert(views(infos@) =~= v4.insert(10, accounts.authority@));
    let mut ix_data: Vec<u8> = Vec::new();
    ix_data.push(49);
    ix_data.push(0);
    let mut amount_bytes = u64_to_le_bytes(amount);
    ix_data.append(&mut amount_bytes);
    ix_data.push(0);
    assert(ix_data@ =~= transfer_data(amount));
    let ix = Instruction {
        program_id,
        data: ix_data,
        accounts: accounts_to_metas(infos.as_slice(), None),
    };
    Ok(Invocation { instruction: ix, account_infos: infos })
}

} // verus!

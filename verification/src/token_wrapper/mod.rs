//! The router: one transfer entry point in front of every kind of backend.
//!
//! The owner of the asset's account tells which backend holds the asset. The
//! standard token programs are called through a checked transfer between the
//! holding accounts of owner and destination. A program that implements the
//! transfer interface is called through that interface. An asset of the
//! metadata registry is moved by the registry's own transfer instruction. An
//! asset of any other owner is refused.

pub mod metadata;
pub mod token_star;

use crate::account::{clone_accounts, views, AccountInfoView, Context, CpiContext, Invocation};
use crate::error::TokenError;
use crate::identity::{
    Identity, BPF_LOADER_ID, BPF_LOADER_UPGRADEABLE_ID, TOKEN_2022_PROGRAM_ID, TOKEN_METADATA_ID,
    TOKEN_PROGRAM_ID,
};
use crate::token_interface::payload::{encode_payload, PreflightPayload};
use crate::token_interface::{
    call, call_preflight_interface_function, call_step, preflight_invocation, CallAction,
    CallEvent,
};
use crate::token_wrapper::metadata::{
    metadata_descriptors, metadata_transfer, metadata_transfer_invocation,
    preflight_token_metadata, read_metadata, stored_metadata,
};
use crate::token_wrapper::token_star::{
    checked_transfer, mint_decimals, preflight_token_star, token_star_descriptors, TransferChecked,
};
use vstd::bytes::*;
use vstd::prelude::*;
use vstd::string::*;

pub use crate::token_interface::ITransfer;

verus! {

/// `F96CHxPDRgjUypdUqpJocgT59vEPT79AFJXjtyPCBaRt`, the identity of the
/// router.
pub const ID: [u8; 32] = [
    210, 22, 35, 25, 33, 48, 76, 61, 164, 154, 106, 60, 1, 180, 136, 35, 210, 5, 10, 73, 123, 120,
    12, 148, 192, 35, 155, 104, 120, 61, 183, 199,
];

/// A descriptor as clients decode it from the router's preflight answer: the
/// same three fields as the descriptor of the interface.
#[derive(Clone, Copy, Debug, PartialEq, Eq)]
pub struct ExternalIAccountMeta {
    pub pubkey: Identity,
    pub signer: bool,
    pub writable: bool,
}

/// The kinds of backend.
#[derive(Clone, Copy, Debug, PartialEq, Eq, Structural)]
pub enum CalleeProgram {
    /// One of the two standard token programs.
    TokenStar,
    /// A program of its own, which implements the transfer interface.
    Interface,
    /// The metadata registry.
    TokenMetadata,
    /// Anything else: there is no backend to call.
    Error,
}

/// The kind of backend that holds an asset whose account `mint_owner` owns.
pub open spec fn classify(mint_owner: Identity) -> CalleeProgram {
    if mint_owner == (Identity { bytes: TOKEN_2022_PROGRAM_ID }) || mint_owner == (Identity {
        bytes: TOKEN_PROGRAM_ID,
    }) {
        CalleeProgram::TokenStar
    } else if mint_owner == (Identity { bytes: BPF_LOADER_ID }) || mint_owner == (Identity {
        bytes: BPF_LOADER_UPGRADEABLE_ID,
    }) {
        CalleeProgram::Interface
    } else if mint_owner == (Identity { bytes: TOKEN_METADATA_ID }) {
        CalleeProgram::TokenMetadata
    } else {
        CalleeProgram::Error
    }
}

/// Tells which kind of backend holds an asset, by the owner of its account.
/// An account that a loader owns is itself a program, and so an implementer
/// of the interface.
pub fn match_callee(mint_owner: &Identity) -> (kind: CalleeProgram)
    ensures
        kind == classify(*mint_owner),
{
    if *mint_owner == Identity::new(TOKEN_2022_PROGRAM_ID) || *mint_owner == Identity::new(
        TOKEN_PROGRAM_ID,
    ) {
        CalleeProgram::TokenStar
    } else if *mint_owner == Identity::new(BPF_LOADER_ID) || *mint_owner == Identity::new(
        BPF_LOADER_UPGRADEABLE_ID,
    ) {
        CalleeProgram::Interface
    } else if *mint_owner == Identity::new(TOKEN_METADATA_ID) {
        CalleeProgram::TokenMetadata
    } else {
        CalleeProgram::Error
    }
}

/// `BorshSerialize::try_to_vec` on a `u64`: its eight bytes, the least
/// significant first. The bytes go into a vector, which takes every write, so
/// the call always succeeds.
#[verifier::external_body]
pub(crate) fn encode_amount(amount: u64) -> (r: Option<Vec<u8>>)
    ensures
        r is Some,
        r.unwrap()@ == spec_u64_to_le_bytes(amount),
{
    borsh::BorshSerialize::try_to_vec(&amount).ok()
}

/// The name of the operation that the router carries on.
pub open spec fn transfer_name() -> Seq<char> {
    "transfer"@
}

/// What [`preflight_transfer`] asks its caller to do next.
#[derive(Debug, PartialEq, Eq)]
pub enum PreflightAction {
    /// Put these bytes into the return-data slot: they are the answer.
    Respond(Vec<u8>),
    /// Make this preflight call, then report what it returned.
    Preflight(Invocation),
}

/// What [`transfer`] asks its caller to do next.
#[derive(Debug, PartialEq, Eq)]
pub enum TransferAction {
    /// Issue this checked transfer to the token program; with it the
    /// transfer is done.
    TransferChecked(TransferChecked),
    /// Take this step of a call of another program.
    Call(CallAction),
}

/// What one step of the router's preflight has to be.
///
/// A standard token answers at once with the token program and the two
/// holding accounts. An implementer of the interface is asked itself, and
/// its answer is passed on unchanged, but only if it set the answer itself.
/// An asset of the registry answers at once from the metadata in its
/// account; data that holds no metadata is `InvalidAccountData`. An asset of
/// any other owner is refused. Only the implementer of the interface looks at
/// the event.
pub open spec fn preflight_step(
    owner: AccountInfoView,
    to: AccountInfoView,
    authority: AccountInfoView,
    mint: AccountInfoView,
    amount: u64,
    event: CallEvent,
    r: Result<PreflightAction, TokenError>,
) -> bool {
    let accounts = crate::token_interface::transfer_accounts(owner, to, authority, mint);
    match classify(mint.owner) {
        CalleeProgram::TokenStar => match token_star_descriptors(owner.key, to.key, mint) {
            Some(descriptors) => r matches Ok(PreflightAction::Respond(answer)) && answer@
                == encode_payload(descriptors),
            None => r matches Err(TokenError::NoProgramAddress),
        },
        CalleeProgram::Interface => match event {
            CallEvent::PreflightReturned(answer) => if answer.program_id != mint.key {
                r matches Err(TokenError::ResponseIdentityMismatch)
            } else {
                r matches Ok(PreflightAction::Respond(passed_on)) && passed_on@ == answer.data@
            },
            CallEvent::Start => r matches Ok(PreflightAction::Preflight(call)) && call@
                == preflight_invocation(
                transfer_name(),
                mint.key,
                crate::account::metas_of(accounts, Some(false)),
                accounts,
                spec_u64_to_le_bytes(amount),
            ),
        },
        CalleeProgram::TokenMetadata => match stored_metadata(mint.data) {
            None => r matches Err(TokenError::InvalidAccountData),
            Some(metadata) => match metadata_descriptors(owner.key, to.key, metadata) {
                Some(descriptors) => r matches Ok(PreflightAction::Respond(answer)) && answer@
                    == encode_payload(descriptors),
                None => r matches Err(TokenError::NoProgramAddress),
            },
        },
        CalleeProgram::Error => r matches Err(TokenError::UnknownBackend),
    }
}

/// One step of the preflight of a transfer: what the backend of the asset
/// needs beyond the accounts of the interface.
pub fn preflight_transfer(ctx: &Context<ITransfer>, amount: u64, event: CallEvent) -> (r: Result<
    PreflightAction,
    TokenError,
>)
    ensures
        preflight_step(
            ctx.accounts.owner@,
            ctx.accounts.to@,
            ctx.accounts.authority@,
            ctx.accounts.mint@,
            amount,
            event,
            r,
        ),
{
    let mint = &ctx.accounts.mint;
    match match_callee(&mint.owner) {
        CalleeProgram::TokenStar => {
            let accounts = preflight_token_star(&ctx.accounts)?;
            Ok(PreflightAction::Respond(PreflightPayload { accounts }.try_to_vec()?))
        },
        CalleeProgram::Interface => {
            match event {
                CallEvent::PreflightReturned(answer) => {
                    if answer.program_id != mint.key {
                        return Err(TokenError::ResponseIdentityMismatch);
                    }
                    Ok(PreflightAction::Respond(answer.data))
                },
                CallEvent::Start => {
                    let cpi = CpiContext {
                        accounts: ctx.accounts.clone(),
                        remaining_accounts: Vec::new(),
                        program: mint.clone(),
                    };
                    let args = encode_amount(amount).unwrap();
                    let preflight = call_preflight_interface_function(
                        String::from_str("transfer"),
                        &cpi,
                        args.as_slice(),
                    );
                    Ok(PreflightAction::Preflight(preflight))
                },
            }
        },
        CalleeProgram::TokenMetadata => {
            let meta = match read_metadata(mint.data.as_slice()) {
                Some(meta) => meta,
                None => {
                    return Err(TokenError::InvalidAccountData);
                },
            };
            let accounts = preflight_token_metadata(&ctx.accounts, &meta)?;
            Ok(PreflightAction::Respond(PreflightPayload { accounts }.try_to_vec()?))
        },
        CalleeProgram::Error => Err(TokenError::UnknownBackend),
    }
}

/// What one step of the router's transfer has to be.
///
/// A standard token is moved by one checked transfer, with the decimals that
/// its mint declares. An implementer of the interface is called in the two
/// phases of the interface, with the amount as its argument. An asset of the
/// registry is moved by the registry's transfer instruction. An asset of any
/// other owner is refused, and nothing is called.
pub open spec fn transfer_step(
    owner: AccountInfoView,
    to: AccountInfoView,
    authority: AccountInfoView,
    mint: AccountInfoView,
    remaining: Seq<AccountInfoView>,
    amount: u64,
    event: CallEvent,
    r: Result<TransferAction, TokenError>,
) -> bool {
    let accounts = crate::token_interface::transfer_accounts(owner, to, authority, mint);
    match classify(mint.owner) {
        CalleeProgram::TokenStar => match crate::token_wrapper::token_star::checked_transfer_of(
            authority,
            mint,
            remaining,
            amount,
            mint_decimals(mint.data),
        ) {
            Ok(transfer) => r matches Ok(TransferAction::TransferChecked(built)) && built@
                == transfer,
            Err(e) => r matches Err(f) && f == e,
        },
        CalleeProgram::Interface => {
            let step = match r {
                Ok(TransferAction::Call(action)) => Some(Ok::<CallAction, TokenError>(action)),
                Ok(_) => None,
                Err(e) => Some(Err::<CallAction, TokenError>(e)),
            };
            step matches Some(step) && call_step(
                transfer_name(),
                spec_u64_to_le_bytes(amount),
                false,
                mint.key,
                crate::account::metas_of(accounts, Some(false)),
                accounts,
                mint.key,
                crate::account::metas_of(accounts, None),
                accounts,
                remaining,
                event,
                step,
            )
        },
        CalleeProgram::TokenMetadata => match metadata_transfer_invocation(
            owner,
            to,
            authority,
            mint,
            remaining,
            amount,
        ) {
            Ok(call) => r matches Ok(TransferAction::Call(CallAction::Execute(built))) && built@
                == call,
            Err(e) => r matches Err(f) && f == e,
        },
        CalleeProgram::Error => r matches Err(TokenError::UnknownBackend),
    }
}

/// The router fails closed, and a step that succeeds always asks for
/// something: an asset of an unknown owner never gets a step, and no step
/// succeeds with nothing left to do.
pub proof fn lemma_transfer_step_acts(
    owner: AccountInfoView,
    to: AccountInfoView,
    authority: AccountInfoView,
    mint: AccountInfoView,
    remaining: Seq<AccountInfoView>,
    amount: u64,
    event: CallEvent,
    r: Result<TransferAction, TokenError>,
)
    requires
        transfer_step(owner, to, authority, mint, remaining, amount, event, r),
        r is Ok,
    ensures
        classify(mint.owner) != CalleeProgram::Error,
        !(r matches Ok(TransferAction::Call(CallAction::Done))),
        event is Start && classify(mint.owner) == CalleeProgram::Interface ==> r matches Ok(
            TransferAction::Call(CallAction::Preflight(_)),
        ),
{
}

/// One step of a transfer of `amount` of the asset, through whichever
/// backend holds it.
pub fn transfer(ctx: &Context<ITransfer>, amount: u64, event: CallEvent) -> (r: Result<
    TransferAction,
    TokenError,
>)
    ensures
        transfer_step(
            ctx.accounts.owner@,
            ctx.accounts.to@,
            ctx.accounts.authority@,
            ctx.accounts.mint@,
            views(ctx.remaining_accounts@),
            amount,
            event,
            r,
        ),
{
    let mint = &ctx.accounts.mint;
    match match_callee(&mint.owner) {
        CalleeProgram::TokenStar => {
            let decimals = crate::token_wrapper::token_star::unpack_mint_decimals(
                mint.data.as_slice(),
            );
            let transfer = checked_transfer(
                &ctx.accounts,
                ctx.remaining_accounts.as_slice(),
                amount,
                decimals,
            )?;
            Ok(TransferAction::TransferChecked(transfer))
        },
        CalleeProgram::Interface => {
            let cpi = CpiContext {
                accounts: ctx.accounts.clone(),
                remaining_accounts: clone_accounts(ctx.remaining_accounts.as_slice()),
                program: mint.clone(),
            };
            let args = encode_amount(amount).unwrap();
            let action = call(String::from_str("transfer"), cpi, args, false, event)?;
            Ok(TransferAction::Call(action))
        },
        CalleeProgram::TokenMetadata => {
            let invocation = metadata_transfer(
                &ctx.accounts,
                ctx.remaining_accounts.as_slice(),
                amount,
            )?;
            Ok(TransferAction::Call(CallAction::Execute(invocation)))
        },
        CalleeProgram::Error => Err(TokenError::UnknownBackend),
    }
}

} // verus!

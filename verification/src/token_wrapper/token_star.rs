//! The adapter of the standard token programs.

use crate::account::{AccountInfo, AccountInfoView};
use crate::address::{associated_token, associated_token_address};
use crate::error::TokenError;
use crate::identity::Identity;
use crate::token_interface::payload::IAccountMeta;
use crate::token_interface::ITransfer;
use vstd::prelude::*;

verus! {

/// The number of decimals that the mint stored in `data` declares, or `None`
/// where `data` does not hold a mint.
pub uninterp spec fn mint_decimals(data: Seq<u8>) -> Option<u8>;

/// `anchor_spl::token_interface::Mint::try_deserialize`, which unpacks the
/// data of a mint of either token program, with the field `decimals` taken
/// out of the mint. The result is `None` where the unpacking fails.
#[verifier::external_body]
pub(crate) fn unpack_mint_decimals(data: &[u8]) -> (r: Option<u8>)
    ensures
        r == mint_decimals(data@),
{
    let mut rest = data;
    match <anchor_spl::token_interface::Mint as anchor_lang::AccountDeserialize>::try_deserialize(
        &mut rest,
    ) {
        Ok(mint) => Some(mint.decimals),
        Err(_) => None,
    }
}

/// A checked transfer that is ready to be issued to a token program.
#[derive(Debug, PartialEq, Eq)]
pub struct TransferChecked {
    /// The token program to call.
    pub program: AccountInfo,
    pub from: AccountInfo,
    pub mint: AccountInfo,
    pub to: AccountInfo,
    pub authority: AccountInfo,
    pub amount: u64,
    /// The decimals that the mint declares; the token program refuses the
    /// transfer where they differ from the mint's.
    pub decimals: u8,
}

/// The mathematical value of a [`TransferChecked`].
pub struct TransferCheckedView {
    pub program: AccountInfoView,
    pub from: AccountInfoView,
    pub mint: AccountInfoView,
    pub to: AccountInfoView,
    pub authority: AccountInfoView,
    pub amount: u64,
    pub decimals: u8,
}

impl View for TransferChecked {
    type V = TransferCheckedView;

    open spec fn view(&self) -> TransferCheckedView {
        TransferCheckedView {
            program: self.program@,
            from: self.from@,
            mint: self.mint@,
            to: self.to@,
            authority: self.authority@,
            amount: self.amount,
            decimals: self.decimals,
        }
    }
}

/// What a transfer of a standard token needs beyond the accounts of the
/// interface: the token program, which is the owner of the mint, and the
/// holding accounts of owner and destination, which are written. It is
/// `None` where one of the holding accounts has no address.
pub open spec fn token_star_descriptors(
    owner: Identity,
    to: Identity,
    mint: AccountInfoView,
) -> Option<Seq<IAccountMeta>> {
    match (associated_token(owner, mint.key), associated_token(to, mint.key)) {
        (Some(source), Some(destination)) => Some(
            seq![
                IAccountMeta { pubkey: mint.owner, signer: false, writable: false },
                IAccountMeta { pubkey: source, signer: false, writable: true },
                IAccountMeta { pubkey: destination, signer: false, writable: true },
            ],
        ),
        _ => None,
    }
}

/// Declares what a transfer of a standard token needs.
pub fn preflight_token_star(accounts: &ITransfer) -> (r: Result<Vec<IAccountMeta>, TokenError>)
    ensures
        match token_star_descriptors(accounts.owner.key, accounts.to.key, accounts.mint@) {
            Some(descriptors) => r matches Ok(declared) && declared@ == descriptors,
            None => r matches Err(TokenError::NoProgramAddress),
        },
{
    let source_ata = match associated_token_address(&accounts.owner.key, &accounts.mint.key) {
        Some(address) => address,
        None => {
            return Err(TokenError::NoProgramAddress);
        },
    };
    let destination_ata = match associated_token_address(&accounts.to.key, &accounts.mint.key) {
        Some(address) => address,
        None => {
            return Err(TokenError::NoProgramAddress);
        },
    };
    let mut declared: Vec<IAccountMeta> = Vec::new();
    declared.push(IAccountMeta { pubkey: accounts.mint.owner, signer: false, writable: false });
    declared.push(IAccountMeta { pubkey: source_ata, signer: false, writable: true });
    declared.push(IAccountMeta { pubkey: destination_ata, signer: false, writable: true });
    assert(declared@ =~= token_star_descriptors(
        accounts.owner.key,
        accounts.to.key,
        accounts.mint@,
    ).unwrap());
    Ok(declared)
}

/// The checked transfer that moves `amount`: the first three of the
/// remaining accounts are the token program and the holding accounts of
/// owner and destination, in the order in which the preflight answer
/// declared them. Fewer than three is `AccountNotFound`; mint data that
/// declares no decimals is `InvalidAccountData`.
pub open spec fn checked_transfer_of(
    authority: AccountInfoView,
    mint: AccountInfoView,
    remaining: Seq<AccountInfoView>,
    amount: u64,
    decimals: Option<u8>,
) -> Result<TransferCheckedView, TokenError> {
    if remaining.len() < 3 {
        Err(TokenError::AccountNotFound)
    } else {
        match decimals {
            None => Err(TokenError::InvalidAccountData),
            Some(decimals) => Ok(
                TransferCheckedView {
                    program: remaining[0],
                    from: remaining[1],
                    mint,
                    to: remaining[2],
                    authority,
                    amount,
                    decimals,
                },
            ),
        }
    }
}

/// Builds the checked transfer from the accounts of the request and the
/// decimals read from the mint.
pub fn checked_transfer(
    accounts: &ITransfer,
    remaining_accounts: &[AccountInfo],
    amount: u64,
    decimals: Option<u8>,
) -> (r: Result<TransferChecked, TokenError>)
    ensures
        match checked_transfer_of(
            accounts.authority@,
            accounts.mint@,
            crate::account::views(remaining_accounts@),
            amount,
            decimals,
        ) {
            Ok(transfer) => r matches Ok(built) && built@ == transfer,
            Err(e) => r matches Err(f) && f == e,
        },
{
    if remaining_accounts.len() < 3 {
        return Err(TokenError::AccountNotFound);
    }
    let token = remaining_accounts[0].clone();
    let from = remaining_accounts[1].clone();
    let to = remaining_accounts[2].clone();
    let decimals = match decimals {
        Some(decimals) => decimals,
        None => {
            return Err(TokenError::InvalidAccountData);
        },
    };
    Ok(
        TransferChecked {
            program: token,
            from,
            mint: accounts.mint.clone(),
            to,
            authority: accounts.authority.clone(),
            amount,
            decimals,
        },
    )
}

} // verus!

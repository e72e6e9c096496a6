//! Plain models of what the runtime hands to a program and takes from it:
//! accounts, account descriptors, instructions and call contexts.

use crate::identity::Identity;
use vstd::prelude::*;

verus! {

/// An account as a program sees it during one request.
#[derive(Debug, PartialEq, Eq)]
pub struct AccountInfo {
    /// The account's address.
    pub key: Identity,
    /// The program that owns the account.
    pub owner: Identity,
    /// Whether the account signed the request.
    pub is_signer: bool,
    /// Whether the request may change the account.
    pub is_writable: bool,
    /// The bytes stored in the account.
    pub data: Vec<u8>,
}

/// The mathematical value of an [`AccountInfo`].
pub struct AccountInfoView {
    pub key: Identity,
    pub owner: Identity,
    pub is_signer: bool,
    pub is_writable: bool,
    pub data: Seq<u8>,
}

impl View for AccountInfo {
    type V = AccountInfoView;

    open spec fn view(&self) -> AccountInfoView {
        AccountInfoView {
            key: self.key,
            owner: self.owner,
            is_signer: self.is_signer,
            is_writable: self.is_writable,
            data: self.data@,
        }
    }
}

impl DeepView for AccountInfo {
    type V = AccountInfoView;

    open spec fn deep_view(&self) -> AccountInfoView {
        self@
    }
}

impl Clone for AccountInfo {
    fn clone(&self) -> (r: AccountInfo)
        ensures
            r@ == self@,
    {
        let data = self.data.clone();
        assert(data@ =~= self.data@);
        AccountInfo {
            key: self.key,
            owner: self.owner,
            is_signer: self.is_signer,
            is_writable: self.is_writable,
            data,
        }
    }
}

/// One account of an instruction: its address and the rights the callee gets
/// on it.
#[derive(Clone, Copy, Debug, PartialEq, Eq)]
pub struct AccountMeta {
    pub pubkey: Identity,
    pub is_signer: bool,
    pub is_writable: bool,
}

/// A call of a program: which program, on which accounts, with which data.
#[derive(Debug, PartialEq, Eq)]
pub struct Instruction {
    pub program_id: Identity,
    pub accounts: Vec<AccountMeta>,
    pub data: Vec<u8>,
}

/// The mathematical value of an [`Instruction`].
pub struct InstructionView {
    pub program_id: Identity,
    pub accounts: Seq<AccountMeta>,
    pub data: Seq<u8>,
}

impl View for Instruction {
    type V = InstructionView;

    open spec fn view(&self) -> InstructionView {
        InstructionView { program_id: self.program_id, accounts: self.accounts@, data: self.data@ }
    }
}

/// A cross-program call that is ready to be made: the instruction, and the
/// accounts that are handed to the runtime with it.
#[derive(Debug, PartialEq, Eq)]
pub struct Invocation {
    pub instruction: Instruction,
    pub account_infos: Vec<AccountInfo>,
}

/// The mathematical value of an [`Invocation`].
pub struct InvocationView {
    pub instruction: InstructionView,
    pub account_infos: Seq<AccountInfoView>,
}

impl View for Invocation {
    type V = InvocationView;

    open spec fn view(&self) -> InvocationView {
        InvocationView {
            instruction: self.instruction@,
            account_infos: views(self.account_infos@),
        }
    }
}

/// What a callee left in the return-data slot: who set it, and the bytes.
#[derive(Debug, PartialEq, Eq)]
pub struct ReturnData {
    pub program_id: Identity,
    pub data: Vec<u8>,
}

/// What a program is entered with: its own identity, the accounts that the
/// entry point names, and the accounts passed beyond those.
#[derive(Debug)]
pub struct Context<T> {
    pub program_id: Identity,
    pub accounts: T,
    pub remaining_accounts: Vec<AccountInfo>,
}

/// What a call of another program is made with: the program, the accounts
/// that its entry point names, and the accounts passed beyond those.
#[derive(Debug)]
pub struct CpiContext<T> {
    pub accounts: T,
    pub remaining_accounts: Vec<AccountInfo>,
    pub program: AccountInfo,
}

/// The values of a list of accounts.
pub open spec fn views(accounts: Seq<AccountInfo>) -> Seq<AccountInfoView> {
    Seq::new(accounts.len(), |i: int| accounts[i]@)
}

/// The descriptor under which an account is passed on. Its right to write
/// is the account's own; its signature is the account's own unless
/// `is_signer` overrides it.
pub open spec fn meta_of(account: AccountInfoView, is_signer: Option<bool>) -> AccountMeta {
    AccountMeta {
        pubkey: account.key,
        is_signer: match is_signer {
            Some(forced) => forced,
            None => account.is_signer,
        },
        is_writable: account.is_writable,
    }
}

/// The descriptors under which a list of accounts is passed on.
pub open spec fn metas_of(accounts: Seq<AccountInfoView>, is_signer: Option<bool>) -> Seq<
    AccountMeta,
> {
    Seq::new(accounts.len(), |i: int| meta_of(accounts[i], is_signer))
}

/// Accounts that can be listed as the descriptors of an instruction.
pub trait ToAccountMetas {
    /// The descriptors, in the order in which the callee expects them.
    spec fn account_metas(&self, is_signer: Option<bool>) -> Seq<AccountMeta>;

    fn to_account_metas(&self, is_signer: Option<bool>) -> (metas: Vec<AccountMeta>)
        ensures
            metas@ == self.account_metas(is_signer),
    ;
}

/// Accounts that can be handed to the runtime with an instruction.
pub trait ToAccountInfos {
    /// The accounts, in the order in which the callee expects them.
    spec fn account_infos(&self) -> Seq<AccountInfoView>;

    fn to_account_infos(&self) -> (infos: Vec<AccountInfo>)
        ensures
            views(infos@) == self.account_infos(),
    ;
}

impl AccountInfo {
    /// The descriptor under which the account is passed on.
    pub fn to_account_meta(&self, is_signer: Option<bool>) -> (meta: AccountMeta)
        ensures
            meta == meta_of(self@, is_signer),
    {
        let signs = match is_signer {
            Some(forced) => forced,
            None => self.is_signer,
        };
        AccountMeta { pubkey: self.key, is_signer: signs, is_writable: self.is_writable }
    }
}

impl ToAccountMetas for AccountInfo {
    open spec fn account_metas(&self, is_signer: Option<bool>) -> Seq<AccountMeta> {
        seq![meta_of(self@, is_signer)]
    }

    fn to_account_metas(&self, is_signer: Option<bool>) -> (metas: Vec<AccountMeta>) {
        let mut metas: Vec<AccountMeta> = Vec::new();
        metas.push(self.to_account_meta(is_signer));
        assert(metas@ =~= seq![meta_of(self@, is_signer)]);
        metas
    }
}

impl ToAccountInfos for AccountInfo {
    open spec fn account_infos(&self) -> Seq<AccountInfoView> {
        seq![self@]
    }

    fn to_account_infos(&self) -> (infos: Vec<AccountInfo>) {
        let mut infos: Vec<AccountInfo> = Vec::new();
        infos.push(self.clone());
        assert(views(infos@) =~= seq![self@]);
        infos
    }
}

/// Copies a list of accounts.
pub fn clone_accounts(accounts: &[AccountInfo]) -> (copy: Vec<AccountInfo>)
    ensures
        views(copy@) == views(accounts@),
{
    let mut copy: Vec<AccountInfo> = Vec::new();
    let n = accounts.len();
    let mut i: usize = 0;
    while i < n
        invariant
            i <= n,
            n == accounts@.len(),
            copy@.len() == i,
            forall|j: int| 0 <= j < i ==> copy@[j]@ == accounts@[j]@,
        decreases n - i,
    {
        copy.push(accounts[i].clone());
        i = i + 1;
    }
    assert(views(copy@) =~= views(accounts@));
    copy
}

/// Appends copies of `more` to `accounts`.
pub fn extend_accounts(accounts: &mut Vec<AccountInfo>, more: &[AccountInfo])
    ensures
        views(final(accounts)@) == views(old(accounts)@) + views(more@),
{
    let n = more.len();
    let mut i: usize = 0;
    while i < n
        invariant
            i <= n,
            n == more@.len(),
            accounts@.len() == old(accounts)@.len() + i,
            forall|j: int| 0 <= j < old(accounts)@.len() ==> accounts@[j]@ == old(accounts)@[j]@,
            forall|j: int| 0 <= j < i ==> accounts@[old(accounts)@.len() + j]@ == more@[j]@,
        decreases n - i,
    {
        accounts.push(more[i].clone());
        i = i + 1;
    }
    assert(views(accounts@) =~= views(old(accounts)@) + views(more@));
}

/// The descriptors under which `accounts` are passed on, each with its own
/// rights unless `is_signer` overrides the signatures.
pub fn accounts_to_metas(accounts: &[AccountInfo], is_signer: Option<bool>) -> (metas: Vec<
    AccountMeta,
>)
    ensures
        metas@ == metas_of(views(accounts@), is_signer),
{
    let mut metas: Vec<AccountMeta> = Vec::new();
    let n = accounts.len();
    let mut i: usize = 0;
    while i < n
        invariant
            i <= n,
            n == accounts@.len(),
            metas@.len() == i,
            forall|j: int| 0 <= j < i ==> metas@[j] == meta_of(accounts@[j]@, is_signer),
        decreases n - i,
    {
        metas.push(accounts[i].to_account_meta(is_signer));
        i = i + 1;
    }
    assert(metas@ =~= metas_of(views(accounts@), is_signer));
    metas
}

} // verus!

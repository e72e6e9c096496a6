//! Turning the accounts of an entry point into a call of the program that one
//! of those accounts names.

use crate::account::{
    views, AccountInfo, AccountInfoView, AccountMeta, CpiContext, ToAccountInfos, ToAccountMetas,
};
use crate::identity::Identity;
use vstd::prelude::*;

verus! {

/// Accounts of which one is the program to call next. An implementation says
/// which one, and which accounts that program's entry point is given.
pub trait ToTargetProgram {
    /// The accounts of the target's entry point.
    type TargetCtx: ToAccountInfos + ToAccountMetas;

    /// The account of the program to call.
    spec fn target_program(&self) -> AccountInfoView;

    /// The accounts that the target's entry point is given.
    spec fn target_account_infos(&self) -> Seq<AccountInfoView>;

    /// The descriptors of those accounts.
    spec fn target_account_metas(&self, is_signer: Option<bool>) -> Seq<AccountMeta>;

    fn to_target_program(&self) -> (key: Identity)
        ensures
            key == self.target_program().key,
    ;

    fn get_target_program(&self) -> (program: AccountInfo)
        ensures
            program@ == self.target_program(),
    ;

    fn to_target_context(&self, remaining_accounts: Vec<AccountInfo>) -> (ctx: CpiContext<
        Self::TargetCtx,
    >)
        ensures
            ctx.program@ == self.target_program(),
            views(ctx.remaining_accounts@) == views(remaining_accounts@),
            ctx.accounts.account_infos() == self.target_account_infos(),
            forall|is_signer: Option<bool>|
                #[trigger] ctx.accounts.account_metas(is_signer) == self.target_account_metas(
                    is_signer,
                ),
    ;
}

} // verus!

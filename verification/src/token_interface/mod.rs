//! The transfer interface: how a caller finds out which accounts a backend
//! needs, and how it then calls the backend with them.
//!
//! A call of a backend takes two phases. In the first the caller invokes the
//! backend's preflight entry point with its own accounts, stripped of their
//! rights, and the backend answers with the list of accounts it will need. In
//! the second the caller looks each of those up among the accounts it was
//! given, and invokes the real entry point with its own accounts followed by
//! the ones it found.

pub mod payload;
pub mod to_target_program;

use crate::account::{
    clone_accounts, extend_accounts, metas_of, views, AccountInfo, AccountInfoView, AccountMeta,
    CpiContext, Instruction, InstructionView, Invocation, InvocationView, ReturnData,
    ToAccountInfos, ToAccountMetas,
};
use crate::error::TokenError;
use crate::identity::Identity;
use crate::selector::{build_instruction_data, instruction_data};
use crate::token_interface::payload::{decode_payload, IAccountMeta, PreflightPayload};
use crate::token_interface::to_target_program::ToTargetProgram;
use vstd::prelude::*;
use vstd::string::*;

verus! {

/// The accounts of the transfer entry point: value moves from `owner` to
/// `to` on the word of `authority`, in the asset that `mint` names.
#[derive(Debug, PartialEq, Eq)]
pub struct ITransfer {
    pub owner: AccountInfo,
    pub to: AccountInfo,
    pub authority: AccountInfo,
    pub mint: AccountInfo,
}

/// The accounts of a transfer in the order of the entry point: owner,
/// destination, authority, asset.
pub open spec fn transfer_accounts(
    owner: AccountInfoView,
    to: AccountInfoView,
    authority: AccountInfoView,
    mint: AccountInfoView,
) -> Seq<AccountInfoView> {
    seq![owner, to, authority, mint]
}

impl ITransfer {
    /// The four accounts in the order of the entry point.
    pub open spec fn infos(&self) -> Seq<AccountInfoView> {
        transfer_accounts(self.owner@, self.to@, self.authority@, self.mint@)
    }
}

impl Clone for ITransfer {
    fn clone(&self) -> (r: ITransfer)
        ensures
            r.infos() == self.infos(),
            r.owner@ == self.owner@,
            r.to@ == self.to@,
            r.authority@ == self.authority@,
            r.mint@ == self.mint@,
    {
        ITransfer {
            owner: self.owner.clone(),
            to: self.to.clone(),
            authority: self.authority.clone(),
            mint: self.mint.clone(),
        }
    }
}

impl ToAccountInfos for ITransfer {
    open spec fn account_infos(&self) -> Seq<AccountInfoView> {
        self.infos()
    }

    fn to_account_infos(&self) -> (infos: Vec<AccountInfo>) {
        let mut infos: Vec<AccountInfo> = Vec::new();
        infos.push(self.owner.clone());
        infos.push(self.to.clone());
        infos.push(self.authority.clone());
        infos.push(self.mint.clone());
        assert(views(infos@) =~= self.infos());
        infos
    }
}

impl ToAccountMetas for ITransfer {
    open spec fn account_metas(&self, is_signer: Option<bool>) -> Seq<AccountMeta> {
        metas_of(self.infos(), is_signer)
    }

    fn to_account_metas(&self, is_signer: Option<bool>) -> (metas: Vec<AccountMeta>) {
        let mut metas: Vec<AccountMeta> = Vec::new();
        metas.push(self.owner.to_account_meta(is_signer));
        metas.push(self.to.to_account_meta(is_signer));
        metas.push(self.authority.to_account_meta(is_signer));
        metas.push(self.mint.to_account_meta(is_signer));
        assert(metas@ =~= metas_of(self.infos(), is_signer));
        metas
    }
}

/// A transfer is carried on to the program that its asset names, with the
/// same four accounts.
impl ToTargetProgram for ITransfer {
    type TargetCtx = ITransfer;

    open spec fn target_program(&self) -> AccountInfoView {
        self.mint@
    }

    open spec fn target_account_infos(&self) -> Seq<AccountInfoView> {
        self.infos()
    }

    open spec fn target_account_metas(&self, is_signer: Option<bool>) -> Seq<AccountMeta> {
        metas_of(self.infos(), is_signer)
    }

    fn to_target_program(&self) -> (key: Identity) {
        self.mint.key
    }

    fn get_target_program(&self) -> (program: AccountInfo) {
        self.mint.clone()
    }

    fn to_target_context(&self, remaining_accounts: Vec<AccountInfo>) -> (ctx: CpiContext<
        ITransfer,
    >) {
        let inner = self.clone();
        CpiContext { accounts: inner, remaining_accounts, program: self.get_target_program() }
    }
}

/// The position of the last of `candidates` whose address is `key`, if any
/// has it. Where two candidates share an address, the later one stands for
/// it.
pub open spec fn find_last(candidates: Seq<AccountInfoView>, key: Identity) -> Option<int>
    decreases candidates.len(),
{
    if candidates.len() == 0 {
        None
    } else if candidates.last().key == key {
        Some(candidates.len() - 1)
    } else {
        find_last(candidates.drop_last(), key)
    }
}

/// Every descriptor names one of the candidates.
pub open spec fn all_matched(
    descriptors: Seq<IAccountMeta>,
    candidates: Seq<AccountInfoView>,
) -> bool {
    forall|i: int|
        0 <= i < descriptors.len() ==> (#[trigger] find_last(candidates, descriptors[i].pubkey))
            is Some
}

/// For each descriptor, in order, the candidate that it names.
pub open spec fn matched(
    descriptors: Seq<IAccountMeta>,
    candidates: Seq<AccountInfoView>,
) -> Seq<AccountInfoView> {
    Seq::new(
        descriptors.len(),
        |i: int| candidates[find_last(candidates, descriptors[i].pubkey).unwrap()],
    )
}

/// What `find_last` finds is a candidate with the address asked for, and no
/// later candidate has that address; it finds nothing only where no candidate
/// has it.
pub proof fn lemma_find_last(candidates: Seq<AccountInfoView>, key: Identity)
    ensures
        match find_last(candidates, key) {
            Some(j) => 0 <= j < candidates.len() && candidates[j].key == key && forall|k: int|
                j < k < candidates.len() ==> candidates[k].key != key,
            None => forall|k: int| 0 <= k < candidates.len() ==> candidates[k].key != key,
        },
    decreases candidates.len(),
{
    if candidates.len() > 0 && candidates.last().key != key {
        let head = candidates.drop_last();
        lemma_find_last(head, key);
        assert forall|k: int| 0 <= k < head.len() implies head[k] == candidates[k] by {}
        match find_last(head, key) {
            Some(j) => {
                assert forall|k: int| j < k < candidates.len() implies candidates[k].key
                    != key by {
                    if k < head.len() {
                        assert(head[k].key != key);
                    }
                }
            },
            None => {
                assert forall|k: int| 0 <= k < candidates.len() implies candidates[k].key
                    != key by {
                    if k < head.len() {
                        assert(head[k].key != key);
                    }
                }
            },
        }
    }
}

/// Nothing is made up: where every descriptor names a candidate, the account
/// picked for a descriptor is one of the candidates and has the address that
/// the descriptor asks for.
pub proof fn lemma_matched_are_candidates(
    descriptors: Seq<IAccountMeta>,
    candidates: Seq<AccountInfoView>,
)
    requires
        all_matched(descriptors, candidates),
    ensures
        matched(descriptors, candidates).len() == descriptors.len(),
        forall|i: int|
            0 <= i < descriptors.len() ==> candidates.contains(
                #[trigger] matched(descriptors, candidates)[i],
            ) && matched(descriptors, candidates)[i].key == descriptors[i].pubkey,
{
    assert forall|i: int| 0 <= i < descriptors.len() implies candidates.contains(
        #[trigger] matched(descriptors, candidates)[i],
    ) && matched(descriptors, candidates)[i].key == descriptors[i].pubkey by {
        lemma_find_last(candidates, descriptors[i].pubkey);
        assert(find_last(candidates, descriptors[i].pubkey) is Some);
    }
}

/// Looks `key` up among `candidates`, from the last one backwards.
pub fn find_account(candidates: &[AccountInfo], key: &Identity) -> (r: Option<usize>)
    ensures
        match r {
            Some(j) => find_last(views(candidates@), *key) == Some(j as int),
            None => find_last(views(candidates@), *key) is None,
        },
{
    let ghost all = views(candidates@);
    let mut i: usize = candidates.len();
    assert(all.subrange(0, i as int) =~= all);
    while i > 0
        invariant
            i <= candidates@.len(),
            all == views(candidates@),
            find_last(all, *key) == find_last(all.subrange(0, i as int), *key),
        decreases i,
    {
        proof {
            let head = all.subrange(0, i as int);
            assert(head.last() == candidates@[i - 1]@);
            assert(head.drop_last() =~= all.subrange(0, i - 1));
        }
        if candidates[i - 1].key == *key {
            return Some(i - 1);
        }
        i = i - 1;
    }
    None
}

impl PreflightPayload {
    /// Picks, for each declared descriptor in order, the candidate account
    /// with that address. It fails with `AccountNotFound` exactly where some
    /// descriptor names no candidate: no account is ever made up in its
    /// place.
    pub fn match_accounts(&self, accounts: &[AccountInfo]) -> (r: Result<
        Vec<AccountInfo>,
        TokenError,
    >)
        ensures
            match r {
                Ok(found) => all_matched(self@, views(accounts@)) && views(found@) == matched(
                    self@,
                    views(accounts@),
                ),
                Err(e) => e == TokenError::AccountNotFound && !all_matched(
                    self@,
                    views(accounts@),
                ),
            },
    {
        let ghost candidates = views(accounts@);
        let mut found_accounts: Vec<AccountInfo> = Vec::new();
        let n = self.accounts.len();
        let mut i: usize = 0;
        while i < n
            invariant
                i <= n,
                n == self@.len(),
                candidates == views(accounts@),
                found_accounts@.len() == i,
                forall|j: int|
                    0 <= j < i ==> (#[trigger] find_last(candidates, self@[j].pubkey)) is Some,
                forall|j: int|
                    0 <= j < i ==> (#[trigger] found_accounts@[j])@ == candidates[find_last(
                        candidates,
                        self@[j].pubkey,
                    ).unwrap()],
            decreases n - i,
        {
            let wanted = self.accounts[i].pubkey;
            match find_account(accounts, &wanted) {
                None => {
                    assert(find_last(candidates, self@[i as int].pubkey) is None);
                    return Err(TokenError::AccountNotFound);
                },
                Some(j) => {
                    proof {
                        lemma_find_last(candidates, wanted);
                    }
                    found_accounts.push(accounts[j].clone());
                },
            }
            i = i + 1;
        }
        assert(views(found_accounts@) =~= matched(self@, candidates));
        Ok(found_accounts)
    }
}

/// Reads the answer to a preflight call of the program `program_key` from
/// what the call left in the return-data slot.
///
/// The slot is trusted only if the called program itself set it: an answer
/// under another identity is refused with `ResponseIdentityMismatch`,
/// whatever it holds. An answer of the right program that does not decode is
/// refused with `MalformedResponse`.
pub fn get_interface_accounts(program_key: &Identity, return_data: &ReturnData) -> (r: Result<
    PreflightPayload,
    TokenError,
>)
    ensures
        return_data.program_id != *program_key ==> r == Err::<PreflightPayload, TokenError>(
            TokenError::ResponseIdentityMismatch,
        ),
        return_data.program_id == *program_key ==> match decode_payload(return_data.data@) {
            Some(accounts) => r matches Ok(payload) && payload@ == accounts,
            None => r matches Err(TokenError::MalformedResponse),
        },
{
    if return_data.program_id != *program_key {
        return Err(TokenError::ResponseIdentityMismatch);
    }
    PreflightPayload::try_from_slice(return_data.data.as_slice())
}

/// The same accounts without any right: none signs, none may be written.
pub open spec fn downgraded(metas: Seq<AccountMeta>) -> Seq<AccountMeta> {
    Seq::new(
        metas.len(),
        |i: int| AccountMeta { pubkey: metas[i].pubkey, is_signer: false, is_writable: false },
    )
}

/// The descriptors of an instruction that the declared descriptors become.
pub open spec fn declared_metas(descriptors: Seq<IAccountMeta>) -> Seq<AccountMeta> {
    Seq::new(
        descriptors.len(),
        |i: int|
            AccountMeta {
                pubkey: descriptors[i].pubkey,
                is_signer: descriptors[i].signer,
                is_writable: descriptors[i].writable,
            },
    )
}

/// The preflight call of `function_name`: the program's discovery entry
/// point, on the caller's own accounts stripped of their rights.
pub open spec fn preflight_invocation(
    function_name: Seq<char>,
    program: Identity,
    metas: Seq<AccountMeta>,
    infos: Seq<AccountInfoView>,
    args: Seq<u8>,
) -> InvocationView {
    InvocationView {
        instruction: InstructionView {
            program_id: program,
            accounts: downgraded(metas),
            data: instruction_data(true, vstd::utf8::encode_utf8(function_name), args),
        },
        account_infos: infos,
    }
}

/// The call of `function_name` itself: the caller's own accounts with their
/// full rights, followed by the accounts that the backend declared.
pub open spec fn execute_invocation(
    function_name: Seq<char>,
    program: Identity,
    metas: Seq<AccountMeta>,
    infos: Seq<AccountInfoView>,
    args: Seq<u8>,
    descriptors: Seq<IAccountMeta>,
    candidates: Seq<AccountInfoView>,
) -> InvocationView {
    InvocationView {
        instruction: InstructionView {
            program_id: program,
            accounts: metas + declared_metas(descriptors),
            data: instruction_data(false, vstd::utf8::encode_utf8(function_name), args),
        },
        account_infos: infos + matched(descriptors, candidates),
    }
}

/// Builds the preflight call of `function_name` on the target program.
pub fn call_preflight_interface_function<T: ToAccountInfos + ToAccountMetas>(
    function_name: String,
    ctx: &CpiContext<T>,
    args: &[u8],
) -> (call: Invocation)
    ensures
        call@ == preflight_invocation(
            function_name@,
            ctx.program.key,
            ctx.accounts.account_metas(Some(false)),
            ctx.accounts.account_infos(),
            args@,
        ),
{
    let ix_data = build_instruction_data(true, function_name.as_str(), args);
    let own = ctx.accounts.to_account_metas(Some(false));
    let mut ix_account_metas: Vec<AccountMeta> = Vec::new();
    let n = own.len();
    let mut i: usize = 0;
    while i < n
        invariant
            i <= n,
            n == own@.len(),
            ix_account_metas@.len() == i,
            forall|j: int|
                0 <= j < i ==> ix_account_metas@[j] == (AccountMeta {
                    pubkey: own@[j].pubkey,
                    is_signer: false,
                    is_writable: false,
                }),
        decreases n - i,
    {
        ix_account_metas.push(
            AccountMeta { pubkey: own[i].pubkey, is_signer: false, is_writable: false },
        );
        i = i + 1;
    }
    assert(ix_account_metas@ =~= downgraded(own@));
    let ix = Instruction {
        program_id: ctx.program.key,
        accounts: ix_account_metas,
        data: ix_data,
    };
    Invocation { instruction: ix, account_infos: ctx.accounts.to_account_infos() }
}

/// Builds the call of `function_name` on the target program, with the
/// accounts that its preflight answer declared.
///
/// Each declared account is looked up by its address among the remaining
/// accounts of `ctx`. Where one is missing the result is `AccountNotFound`
/// and there is no call to make. With `log_info` set the accounts are
/// resolved and nothing is called.
pub fn call_interface_function<T: ToAccountInfos + ToAccountMetas>(
    function_name: String,
    ctx: CpiContext<T>,
    args: &[u8],
    additional_interface_accounts: PreflightPayload,
    log_info: bool,
) -> (r: Result<Option<Invocation>, TokenError>)
    ensures
        match r {
            Ok(call) => all_matched(additional_interface_accounts@, views(ctx.remaining_accounts@))
                && match call {
                Some(call) => !log_info && call@ == execute_invocation(
                    function_name@,
                    ctx.program.key,
                    ctx.accounts.account_metas(None),
                    ctx.accounts.account_infos(),
                    args@,
                    additional_interface_accounts@,
                    views(ctx.remaining_accounts@),
                ),
                None => log_info,
            },
            Err(e) => e == TokenError::AccountNotFound && !all_matched(
                additional_interface_accounts@,
                views(ctx.remaining_accounts@),
            ),
        },
{
    let ix_data = build_instruction_data(false, function_name.as_str(), args);
    let mut ix_account_metas = ctx.accounts.to_account_metas(None);
    let ghost own = ix_account_metas@;
    let n = additional_interface_accounts.accounts.len();
    let mut i: usize = 0;
    while i < n
        invariant
            i <= n,
            n == additional_interface_accounts@.len(),
            ix_account_metas@.len() == own.len() + i,
            forall|j: int| 0 <= j < own.len() ==> ix_account_metas@[j] == own[j],
            forall|j: int|
                0 <= j < i ==> ix_account_metas@[own.len() + j] == declared_metas(
                    additional_interface_accounts@,
                )[j],
        decreases n - i,
    {
        let acc = additional_interface_accounts.accounts[i];
        ix_account_metas.push(
            AccountMeta { pubkey: acc.pubkey, is_signer: acc.signer, is_writable: acc.writable },
        );
        i = i + 1;
    }
    assert(ix_account_metas@ =~= own + declared_metas(additional_interface_accounts@));
    let ix = Instruction {
        program_id: ctx.program.key,
        accounts: ix_account_metas,
        data: ix_data,
    };
    let mut ix_ais = ctx.accounts.to_account_infos();
    let found = additional_interface_accounts.match_accounts(ctx.remaining_accounts.as_slice())?;
    extend_accounts(&mut ix_ais, found.as_slice());
    if log_info {
        Ok(None)
    } else {
        Ok(Some(Invocation { instruction: ix, account_infos: ix_ais }))
    }
}

/// What the caller of [`call`] reports: that the call is to begin, or what
/// the preflight call left in the return-data slot.
#[derive(Debug, PartialEq, Eq)]
pub enum CallEvent {
    Start,
    PreflightReturned(ReturnData),
}

/// What [`call`] asks its caller to do next.
#[derive(Debug, PartialEq, Eq)]
pub enum CallAction {
    /// Make this preflight call, then report what it returned.
    Preflight(Invocation),
    /// Make this call; with it the operation is done.
    Execute(Invocation),
    /// Nothing is left to do.
    Done,
}

/// What one step of a call has to be.
///
/// At the start it is the preflight call to `program`. Once that has
/// returned: an answer set by another program than `target` is refused, then
/// an answer that does not decode, then one that declares an account which
/// is not among `candidates`; otherwise the step is the call itself, or
/// nothing where `log_info` is set.
pub open spec fn call_step(
    ix_name: Seq<char>,
    args: Seq<u8>,
    log_info: bool,
    program: Identity,
    own_metas: Seq<AccountMeta>,
    own_infos: Seq<AccountInfoView>,
    target: Identity,
    target_metas: Seq<AccountMeta>,
    target_infos: Seq<AccountInfoView>,
    candidates: Seq<AccountInfoView>,
    event: CallEvent,
    r: Result<CallAction, TokenError>,
) -> bool {
    match event {
        CallEvent::Start => r matches Ok(CallAction::Preflight(call)) && call@
            == preflight_invocation(ix_name, program, own_metas, own_infos, args),
        CallEvent::PreflightReturned(answer) => {
            if answer.program_id != target {
                r matches Err(TokenError::ResponseIdentityMismatch)
            } else {
                match decode_payload(answer.data@) {
                    None => r matches Err(TokenError::MalformedResponse),
                    Some(declared) => if !all_matched(declared, candidates) {
                        r matches Err(TokenError::AccountNotFound)
                    } else if log_info {
                        r matches Ok(CallAction::Done)
                    } else {
                        r matches Ok(CallAction::Execute(call)) && call@ == execute_invocation(
                            ix_name,
                            target,
                            target_metas,
                            target_infos,
                            args,
                            declared,
                            candidates,
                        )
                    },
                }
            }
        },
    }
}

/// One step of a call of `ix_name` on the program that `ctx` targets.
///
/// At the start the step is the preflight call. Once that has returned, the
/// answer is accepted only from the target program, the accounts it declares
/// are looked up among the remaining accounts of `ctx`, and the step is the
/// call itself. A failure ends the call with nothing more to do.
pub fn call<C1, C2>(
    ix_name: String,
    ctx: CpiContext<C1>,
    args: Vec<u8>,
    log_info: bool,
    event: CallEvent,
) -> (r: Result<CallAction, TokenError>) where
    C1: ToAccountInfos + ToAccountMetas + ToTargetProgram<TargetCtx = C2>,
    C2: ToAccountInfos + ToAccountMetas,

    ensures
        call_step(
            ix_name@,
            args@,
            log_info,
            ctx.program.key,
            ctx.accounts.account_metas(Some(false)),
            ctx.accounts.account_infos(),
            ctx.accounts.target_program().key,
            ctx.accounts.target_account_metas(None),
            ctx.accounts.target_account_infos(),
            views(ctx.remaining_accounts@),
            event,
            r,
        ),
{
    match event {
        CallEvent::Start => {
            let preflight = call_preflight_interface_function(ix_name, &ctx, args.as_slice());
            Ok(CallAction::Preflight(preflight))
        },
        CallEvent::PreflightReturned(answer) => {
            let additional_interface_accounts = get_interface_accounts(
                &ctx.accounts.to_target_program(),
                &answer,
            )?;
            let cpi_ctx = ctx.accounts.to_target_context(
                clone_accounts(ctx.remaining_accounts.as_slice()),
            );
            match call_interface_function(
                ix_name,
                cpi_ctx,
                args.as_slice(),
                additional_interface_accounts,
                log_info,
            )? {
                Some(execute) => Ok(CallAction::Execute(execute)),
                None => Ok(CallAction::Done),
            }
        },
    }
}

} // verus!

use vstd::prelude::*;

use crate::approvals::{
    approvals_replayed, approved_in, lemma_push_fresh, lemma_without_spender, remove_spender,
    replay_approvals, without_spender,
};
use crate::env::{BlockInfo, Env, MessageInfo};
use crate::error::ContractError;
use crate::expiration::Expiration;
use crate::msg::{expiration_or_never, ExecuteMsg, InstantiateMsg, MintMsg};
use crate::receiver::Cw721ReceiveMsg;
use crate::response::{attr, attrs_view, Notification, Response};
use crate::state::{
    approvals_view, opt_str_view, Approval, ApprovalView, ContractInfoResponse, ContractState,
    Cw721Contract, TokenInfo, TokenView,
};

verus! {

/// The owner index that a token store determines.
pub open spec fn index_of<T>(tokens: Map<Seq<char>, TokenView<T>>) -> Set<(Seq<char>, Seq<char>)> {
    Set::new(|p: (Seq<char>, Seq<char>)| tokens.contains_key(p.1) && tokens[p.1].owner == p.0)
}

/// In a reachable state the owner index is the one the token store determines.
pub proof fn lemma_index_is_derived<T>(s: ContractState<T>)
    requires
        s.inv(),
    ensures
        s.owner_index == index_of(s.tokens),
{
    assert forall|p: (Seq<char>, Seq<char>)| #[trigger]
        s.owner_index.contains(p) == index_of(s.tokens).contains(p) by {
        assert(s.owner_index.contains((p.0, p.1)) <==> (s.tokens.contains_key(p.1)
            && s.tokens[p.1].owner == p.0));
    }
    assert(s.owner_index =~= index_of(s.tokens));
}

/// The response a successful request gives: the attributes of its operation
/// and, for Send, one notification to the receiving contract.
pub open spec fn response_of<T, E>(msg: ExecuteMsg<T, E>, sender: Seq<char>, resp: Response) -> bool {
    let a = attrs_view(resp.attributes@);
    let n = resp.messages@;
    match msg {
        ExecuteMsg::Mint(m) => a == seq![
            ("action"@, "mint"@),
            ("minter"@, sender),
            ("owner"@, m.owner@),
            ("token_id"@, m.token_id@),
        ] && n.len() == 0,
        ExecuteMsg::Approve { spender, token_id, expires } => a == seq![
            ("action"@, "approve"@),
            ("sender"@, sender),
            ("spender"@, spender@),
            ("token_id"@, token_id@),
        ] && n.len() == 0,
        ExecuteMsg::Revoke { spender, token_id } => a == seq![
            ("action"@, "revoke"@),
            ("sender"@, sender),
            ("spender"@, spender@),
            ("token_id"@, token_id@),
        ] && n.len() == 0,
        ExecuteMsg::ApproveAll { operator, expires } => a == seq![
            ("action"@, "approve_all"@),
            ("sender"@, sender),
            ("operator"@, operator@),
        ] && n.len() == 0,
        ExecuteMsg::RevokeAll { operator } => a == seq![
            ("action"@, "revoke_all"@),
            ("sender"@, sender),
            ("operator"@, operator@),
        ] && n.len() == 0,
        ExecuteMsg::TransferNft { recipient, token_id } => a == seq![
            ("action"@, "transfer"@),
            ("sender"@, sender),
            ("recipient"@, recipient@),
            ("token_id"@, token_id@),
        ] && n.len() == 0,
        ExecuteMsg::SendNft { contract, token_id, msg } => a == seq![
            ("action"@, "send"@),
            ("sender"@, sender),
            ("recipient"@, contract@),
            ("token_id"@, token_id@),
        ] && n.len() == 1 && n[0].contract_addr@ == contract@ && n[0].msg.sender@ == sender
            && n[0].msg.token_id@ == token_id@ && n[0].msg.msg@ == msg@,
        ExecuteMsg::Burn { token_id } => a == seq![
            ("action"@, "burn"@),
            ("sender"@, sender),
            ("token_id"@, token_id@),
        ] && n.len() == 0,
        ExecuteMsg::Extension { msg } => a.len() == 0 && n.len() == 0,
    }
}

impl<T> ContractState<T> {
    /// This state with `tokens` as its token store and the owner index to match.
    pub open spec fn with_tokens(self, tokens: Map<Seq<char>, TokenView<T>>) -> Self {
        ContractState { tokens, owner_index: index_of(tokens), ..self }
    }

    /// Mint of record `rec` under `id` by `sender`.
    pub open spec fn mint_result(self, sender: Seq<char>, id: Seq<char>, rec: TokenView<T>) -> Result<
        Self,
        ContractError,
    > {
        if sender != self.minter {
            Err(ContractError::Unauthorized)
        } else if self.tokens.contains_key(id) {
            Err(ContractError::AlreadyExists)
        } else {
            Ok(
                ContractState {
                    token_count: self.token_count + 1,
                    ..self.with_tokens(self.tokens.insert(id, rec))
                },
            )
        }
    }

    /// Transfer (or send) of token `id` by `sender` to `recipient`.
    pub open spec fn transfer_result(
        self,
        block: BlockInfo,
        sender: Seq<char>,
        recipient: Seq<char>,
        id: Seq<char>,
    ) -> Result<Self, ContractError> {
        if !self.tokens.contains_key(id) {
            Err(ContractError::NotFound)
        } else if !self.can_transfer(self.tokens[id], sender, block) {
            Err(ContractError::Unauthorized)
        } else {
            Ok(
                self.with_tokens(
                    self.tokens.insert(
                        id,
                        TokenView { owner: recipient, approvals: Seq::empty(), ..self.tokens[id] },
                    ),
                ),
            )
        }
    }

    /// Approval of `spender` on token `id` by `sender`, until `expires`.
    pub open spec fn approve_result(
        self,
        block: BlockInfo,
        sender: Seq<char>,
        spender: Seq<char>,
        id: Seq<char>,
        expires: Expiration,
    ) -> Result<Self, ContractError> {
        if !self.tokens.contains_key(id) {
            Err(ContractError::NotFound)
        } else if !self.can_approve(self.tokens[id].owner, sender, block) {
            Err(ContractError::Unauthorized)
        } else if expires.expired_at(block) {
            Err(ContractError::Expired)
        } else {
            let rec = self.tokens[id];
            let approvals = without_spender(rec.approvals, spender).push(
                ApprovalView { spender, expires },
            );
            Ok(self.with_tokens(self.tokens.insert(id, TokenView { approvals, ..rec })))
        }
    }

    /// Revocation of `spender`'s approval on token `id` by `sender`.
    pub open spec fn revoke_result(
        self,
        block: BlockInfo,
        sender: Seq<char>,
        spender: Seq<char>,
        id: Seq<char>,
    ) -> Result<Self, ContractError> {
        if !self.tokens.contains_key(id) {
            Err(ContractError::NotFound)
        } else if !self.can_approve(self.tokens[id].owner, sender, block) {
            Err(ContractError::Unauthorized)
        } else {
            let rec = self.tokens[id];
            let approvals = without_spender(rec.approvals, spender);
            Ok(self.with_tokens(self.tokens.insert(id, TokenView { approvals, ..rec })))
        }
    }

    /// A blanket grant from `sender` to `operator`, until `expires`.
    pub open spec fn approve_all_result(
        self,
        block: BlockInfo,
        sender: Seq<char>,
        operator: Seq<char>,
        expires: Expiration,
    ) -> Result<Self, ContractError> {
        if expires.expired_at(block) {
            Err(ContractError::Expired)
        } else {
            Ok(ContractState { operators: self.operators.insert((sender, operator), expires), ..self })
        }
    }

    /// Withdrawal of `sender`'s blanket grant to `operator`.
    pub open spec fn revoke_all_result(self, sender: Seq<char>, operator: Seq<char>) -> Self {
        ContractState { operators: self.operators.remove((sender, operator)), ..self }
    }

    /// Burn of token `id` by `sender`.
    pub open spec fn burn_result(self, block: BlockInfo, sender: Seq<char>, id: Seq<char>) -> Result<
        Self,
        ContractError,
    > {
        if !self.tokens.contains_key(id) {
            Err(ContractError::NotFound)
        } else if !self.can_transfer(self.tokens[id], sender, block) {
            Err(ContractError::Unauthorized)
        } else {
            Ok(
                ContractState {
                    token_count: (self.token_count - 1) as nat,
                    ..self.with_tokens(self.tokens.remove(id))
                },
            )
        }
    }

    /// The record a mint request creates.
    pub open spec fn minted_record(m: MintMsg<T>) -> TokenView<T> {
        TokenView {
            owner: m.owner@,
            approvals: Seq::empty(),
            token_uri: opt_str_view(m.token_uri),
            extension: m.extension,
        }
    }

    /// The outcome of any request.
    pub open spec fn execute_result<E>(self, block: BlockInfo, sender: Seq<char>, msg: ExecuteMsg<
        T,
        E,
    >) -> Result<Self, ContractError> {
        match msg {
            ExecuteMsg::Mint(m) => self.mint_result(sender, m.token_id@, Self::minted_record(m)),
            ExecuteMsg::Approve { spender, token_id, expires } => self.approve_result(
                block,
                sender,
                spender@,
                token_id@,
                expiration_or_never(expires),
            ),
            ExecuteMsg::Revoke { spender, token_id } => self.revoke_result(
                block,
                sender,
                spender@,
                token_id@,
            ),
            ExecuteMsg::ApproveAll { operator, expires } => self.approve_all_result(
                block,
                sender,
                operator@,
                expiration_or_never(expires),
            ),
            ExecuteMsg::RevokeAll { operator } => Ok(self.revoke_all_result(sender, operator@)),
            ExecuteMsg::TransferNft { recipient, token_id } => self.transfer_result(
                block,
                sender,
                recipient@,
                token_id@,
            ),
            ExecuteMsg::SendNft { contract, token_id, msg } => self.transfer_result(
                block,
                sender,
                contract@,
                token_id@,
            ),
            ExecuteMsg::Burn { token_id } => self.burn_result(block, sender, token_id@),
            ExecuteMsg::Extension { msg } => Ok(self),
        }
    }
}

impl<T> Cw721Contract<T> {
    /// A new collection with no tokens and `msg.minter` as its minter.
    pub fn instantiate(_env: &Env, _info: &MessageInfo, msg: InstantiateMsg) -> (r: Self)
        ensures
            r.wf(),
            r@.name == msg.name@,
            r@.symbol == msg.symbol@,
            r@.minter == msg.minter@,
            r@.token_count == 0,
            r@.tokens == Map::<Seq<char>, TokenView<T>>::empty(),
            r@.operators == Map::<(Seq<char>, Seq<char>), Expiration>::empty(),
    {
        let info = ContractInfoResponse { name: msg.name, symbol: msg.symbol };
        Cw721Contract::new(info, msg.minter)
    }

    /// Whether `info.sender` may approve or revoke on `token`.
    pub fn check_can_approve(&self, env: &Env, info: &MessageInfo, token: &TokenInfo<T>) -> (r:
        Result<(), ContractError>)
        requires
            self.store_wf(),
        ensures
            r is Ok <==> self@.can_approve(token.owner@, info.sender@, env.block),
            !(r is Ok) ==> r == Err::<(), ContractError>(ContractError::Unauthorized),
    {
        if token.owner == info.sender {
            return Ok(());
        }
        match self.operator_expiration(&token.owner, &info.sender) {
            Some(ex) => {
                if ex.is_expired(&env.block) {
                    Err(ContractError::Unauthorized)
                } else {
                    Ok(())
                }
            },
            None => Err(ContractError::Unauthorized),
        }
    }

    /// Whether `info.sender` may transfer, send or burn `token`.
    pub fn check_can_send(&self, env: &Env, info: &MessageInfo, token: &TokenInfo<T>) -> (r: Result<
        (),
        ContractError,
    >)
        requires
            self.store_wf(),
        ensures
            r is Ok <==> self@.can_transfer(token@, info.sender@, env.block),
            !(r is Ok) ==> r == Err::<(), ContractError>(ContractError::Unauthorized),
    {
        if token.owner == info.sender {
            return Ok(());
        }
        let ghost av = approvals_view(token.approvals@);
        let mut i: usize = 0;
        while i < token.approvals.len()
            invariant
                0 <= i <= token.approvals@.len(),
                av == approvals_view(token.approvals@),
                forall|j: int|
                    0 <= j < i ==> !(#[trigger] av[j].spender == info.sender@ && !av[j].expires.expired_at(
                        env.block,
                    )),
            decreases token.approvals@.len() - i,
        {
            let apr = &token.approvals[i];
            if apr.spender == info.sender && !apr.is_expired(&env.block) {
                assert(av[i as int] == apr@);
                assert(av[i as int].spender == info.sender@);
                assert(approved_in(av, info.sender@, env.block));
                return Ok(());
            }
            i = i + 1;
        }
        assert(!approved_in(av, info.sender@, env.block));
        match self.operator_expiration(&token.owner, &info.sender) {
            Some(ex) => {
                if ex.is_expired(&env.block) {
                    Err(ContractError::Unauthorized)
                } else {
                    Ok(())
                }
            },
            None => Err(ContractError::Unauthorized),
        }
    }

    /// Creates token `msg.token_id` owned by `msg.owner`; only the minter may.
    pub fn mint(&mut self, _env: &Env, info: &MessageInfo, msg: MintMsg<T>) -> (r: Result<
        Response,
        ContractError,
    >)
        requires
            old(self).wf(),
            old(self)@.token_count < u64::MAX,
        ensures
            final(self).wf(),
            match old(self)@.mint_result(info.sender@, msg.token_id@, ContractState::minted_record(msg)) {
                Ok(s) => final(self)@ == s && (r matches Ok(resp) && attrs_view(resp.attributes@)
                    == seq![
                    ("action"@, "mint"@),
                    ("minter"@, info.sender@),
                    ("owner"@, msg.owner@),
                    ("token_id"@, msg.token_id@),
                ] && resp.messages@.len() == 0),
                Err(e) => r == Err::<Response, ContractError>(e) && final(self)@ == old(self)@,
            },
    {
        if !(info.sender == *self.minter()) {
            return Err(ContractError::Unauthorized);
        }
        let MintMsg { token_id, owner, token_uri, extension } = msg;
        proof {
            self.lemma_wf_parts();
        }
        match self.get_token(&token_id) {
            Some(_) => {
                return Err(ContractError::AlreadyExists);
            },
            None => {},
        }
        let token = TokenInfo { owner: owner.clone(), approvals: Vec::new(), token_uri, extension };
        proof {
            assert(approvals_view(token.approvals@) =~= Seq::<ApprovalView>::empty());
        }
        self.insert_new(token_id.clone(), token);
        self.increment_tokens();
        proof {
            assert(self@.tokens.dom() =~= old(self)@.tokens.dom().insert(token_id@));
            self.lemma_wf_from_count();
            self.lemma_inv();
            lemma_index_is_derived(self@);
        }
        let attributes = vec![
            attr("action", "mint"),
            attr("minter", info.sender.as_str()),
            attr("owner", owner.as_str()),
            attr("token_id", token_id.as_str()),
        ];
        assert(attrs_view(attributes@) =~= seq![
            ("action"@, "mint"@),
            ("minter"@, info.sender@),
            ("owner"@, owner@),
            ("token_id"@, token_id@),
        ]);
        Ok(Response { attributes, messages: Vec::new() })
    }

    /// Moves token `token_id` to `recipient` and clears its approvals, if
    /// `info.sender` may.
    pub fn _transfer_nft(&mut self, env: &Env, info: &MessageInfo, recipient: &String, token_id: &String) -> (r:
        Result<(), ContractError>)
        requires
            old(self).wf(),
        ensures
            final(self).wf(),
            match old(self)@.transfer_result(env.block, info.sender@, recipient@, token_id@) {
                Ok(s) => r is Ok && final(self)@ == s,
                Err(e) => r == Err::<(), ContractError>(e) && final(self)@ == old(self)@,
            },
    {
        proof {
            self.lemma_wf_parts();
        }
        let tok = match self.get_token(token_id) {
            Some(t) => t,
            None => {
                return Err(ContractError::NotFound);
            },
        };
        match self.check_can_send(env, info, tok) {
            Ok(()) => {},
            Err(e) => {
                return Err(e);
            },
        }
        let mut tok = self.take_token(token_id);
        tok.owner = recipient.clone();
        tok.approvals = Vec::new();
        proof {
            assert(approvals_view(tok.approvals@) =~= Seq::<ApprovalView>::empty());
        }
        self.insert_new(token_id.clone(), tok);
        proof {
            assert(self@.tokens =~= old(self)@.tokens.insert(token_id@, tok@));
            assert(self@.tokens.dom() =~= old(self)@.tokens.dom());
            self.lemma_wf_from_count();
            self.lemma_inv();
            lemma_index_is_derived(self@);
        }
        Ok(())
    }

    /// Transfers token `token_id` to `recipient`.
    pub fn transfer_nft(&mut self, env: &Env, info: &MessageInfo, recipient: String, token_id: String) -> (r:
        Result<Response, ContractError>)
        requires
            old(self).wf(),
        ensures
            final(self).wf(),
            match old(self)@.transfer_result(env.block, info.sender@, recipient@, token_id@) {
                Ok(s) => final(self)@ == s && (r matches Ok(resp) && attrs_view(resp.attributes@)
                    == seq![
                    ("action"@, "transfer"@),
                    ("sender"@, info.sender@),
                    ("recipient"@, recipient@),
                    ("token_id"@, token_id@),
                ] && resp.messages@.len() == 0),
                Err(e) => r == Err::<Response, ContractError>(e) && final(self)@ == old(self)@,
            },
    {
        match self._transfer_nft(env, info, &recipient, &token_id) {
            Ok(()) => {},
            Err(e) => {
                return Err(e);
            },
        }
        let attributes = vec![
            attr("action", "transfer"),
            attr("sender", info.sender.as_str()),
            attr("recipient", recipient.as_str()),
            attr("token_id", token_id.as_str()),
        ];
        assert(attrs_view(attributes@) =~= seq![
            ("action"@, "transfer"@),
            ("sender"@, info.sender@),
            ("recipient"@, recipient@),
            ("token_id"@, token_id@),
        ]);
        Ok(Response { attributes, messages: Vec::new() })
    }

    /// Transfers token `token_id` to `contract` and notifies it, passing `msg` on.
    pub fn send_nft(
        &mut self,
        env: &Env,
        info: &MessageInfo,
        contract: String,
        token_id: String,
        msg: Vec<u8>,
    ) -> (r: Result<Response, ContractError>)
        requires
            old(self).wf(),
        ensures
            final(self).wf(),
            match old(self)@.transfer_result(env.block, info.sender@, contract@, token_id@) {
                Ok(s) => final(self)@ == s && (r matches Ok(resp) && attrs_view(resp.attributes@)
                    == seq![
                    ("action"@, "send"@),
                    ("sender"@, info.sender@),
                    ("recipient"@, contract@),
                    ("token_id"@, token_id@),
                ] && resp.messages@.len() == 1 && resp.messages@[0].contract_addr@ == contract@
                    && resp.messages@[0].msg.sender@ == info.sender@
                    && resp.messages@[0].msg.token_id@ == token_id@ && resp.messages@[0].msg.msg@
                    == msg@),
                Err(e) => r == Err::<Response, ContractError>(e) && final(self)@ == old(self)@,
            },
    {
        match self._transfer_nft(env, info, &contract, &token_id) {
            Ok(()) => {},
            Err(e) => {
                return Err(e);
            },
        }
        let send = Cw721ReceiveMsg { sender: info.sender.clone(), token_id: token_id.clone(), msg };
        let attributes = vec![
            attr("action", "send"),
            attr("sender", info.sender.as_str()),
            attr("recipient", contract.as_str()),
            attr("token_id", token_id.as_str()),
        ];
        assert(attrs_view(attributes@) =~= seq![
            ("action"@, "send"@),
            ("sender"@, info.sender@),
            ("recipient"@, contract@),
            ("token_id"@, token_id@),
        ]);
        let messages = vec![Notification { contract_addr: contract, msg: send }];
        Ok(Response { attributes, messages })
    }

    /// Approves `spender` on token `token_id` (`add`), or revokes its approval.
    pub fn _update_approvals(
        &mut self,
        env: &Env,
        info: &MessageInfo,
        spender: &String,
        token_id: &String,
        add: bool,
        expires: Option<Expiration>,
    ) -> (r: Result<(), ContractError>)
        requires
            old(self).wf(),
        ensures
            final(self).wf(),
            match (if add {
                old(self)@.approve_result(
                    env.block,
                    info.sender@,
                    spender@,
                    token_id@,
                    expiration_or_never(expires),
                )
            } else {
                old(self)@.revoke_result(env.block, info.sender@, spender@, token_id@)
            }) {
                Ok(s) => r is Ok && final(self)@ == s,
                Err(e) => r == Err::<(), ContractError>(e) && final(self)@ == old(self)@,
            },
    {
        proof {
            self.lemma_wf_parts();
            self.lemma_inv();
        }
        let tok = match self.get_token(token_id) {
            Some(t) => t,
            None => {
                return Err(ContractError::NotFound);
            },
        };
        match self.check_can_approve(env, info, tok) {
            Ok(()) => {},
            Err(e) => {
                return Err(e);
            },
        }
        let expires = match expires {
            Some(e) => e,
            None => Expiration::Never,
        };
        if add && expires.is_expired(&env.block) {
            return Err(ContractError::Expired);
        }
        let mut tok = self.take_token(token_id);
        let ghost before = tok@.approvals;
        let mut approvals = remove_spender(&tok.approvals, spender);
        proof {
            lemma_without_spender(before, spender@);
        }
        if add {
            let a = Approval { spender: spender.clone(), expires };
            let ghost w = approvals@;
            approvals.push(a);
            proof {
                assert(approvals_view(approvals@) =~= approvals_view(w).push(a@));
                lemma_push_fresh(approvals_view(w), a@);
            }
        }
        tok.approvals = approvals;
        self.insert_new(token_id.clone(), tok);
        proof {
            assert(self@.tokens =~= old(self)@.tokens.insert(token_id@, tok@));
            assert(self@.tokens.dom() =~= old(self)@.tokens.dom());
            self.lemma_wf_from_count();
            self.lemma_inv();
            lemma_index_is_derived(self@);
        }
        Ok(())
    }

    /// Lets `spender` transfer token `token_id` until `expires` (never, if none).
    pub fn approve(
        &mut self,
        env: &Env,
        info: &MessageInfo,
        spender: String,
        token_id: String,
        expires: Option<Expiration>,
    ) -> (r: Result<Response, ContractError>)
        requires
            old(self).wf(),
        ensures
            final(self).wf(),
            match old(self)@.approve_result(
                env.block,
                info.sender@,
                spender@,
                token_id@,
                expiration_or_never(expires),
            ) {
                Ok(s) => final(self)@ == s && (r matches Ok(resp) && attrs_view(resp.attributes@)
                    == seq![
                    ("action"@, "approve"@),
                    ("sender"@, info.sender@),
                    ("spender"@, spender@),
                    ("token_id"@, token_id@),
                ] && resp.messages@.len() == 0),
                Err(e) => r == Err::<Response, ContractError>(e) && final(self)@ == old(self)@,
            },
    {
        match self._update_approvals(env, info, &spender, &token_id, true, expires) {
            Ok(()) => {},
            Err(e) => {
                return Err(e);
            },
        }
        let attributes = vec![
            attr("action", "approve"),
            attr("sender", info.sender.as_str()),
            attr("spender", spender.as_str()),
            attr("token_id", token_id.as_str()),
        ];
        assert(attrs_view(attributes@) =~= seq![
            ("action"@, "approve"@),
            ("sender"@, info.sender@),
            ("spender"@, spender@),
            ("token_id"@, token_id@),
        ]);
        Ok(Response { attributes, messages: Vec::new() })
    }

    /// Withdraws `spender`'s approval on token `token_id`, if it has one.
    pub fn revoke(&mut self, env: &Env, info: &MessageInfo, spender: String, token_id: String) -> (r:
        Result<Response, ContractError>)
        requires
            old(self).wf(),
        ensures
            final(self).wf(),
            match old(self)@.revoke_result(env.block, info.sender@, spender@, token_id@) {
                Ok(s) => final(self)@ == s && (r matches Ok(resp) && attrs_view(resp.attributes@)
                    == seq![
                    ("action"@, "revoke"@),
                    ("sender"@, info.sender@),
                    ("spender"@, spender@),
                    ("token_id"@, token_id@),
                ] && resp.messages@.len() == 0),
                Err(e) => r == Err::<Response, ContractError>(e) && final(self)@ == old(self)@,
            },
    {
        match self._update_approvals(env, info, &spender, &token_id, false, None) {
            Ok(()) => {},
            Err(e) => {
                return Err(e);
            },
        }
        let attributes = vec![
            attr("action", "revoke"),
            attr("sender", info.sender.as_str()),
            attr("spender", spender.as_str()),
            attr("token_id", token_id.as_str()),
        ];
        assert(attrs_view(attributes@) =~= seq![
            ("action"@, "revoke"@),
            ("sender"@, info.sender@),
            ("spender"@, spender@),
            ("token_id"@, token_id@),
        ]);
        Ok(Response { attributes, messages: Vec::new() })
    }

    /// Lets `operator` act on all of the sender's tokens until `expires`.
    pub fn approve_all(
        &mut self,
        env: &Env,
        info: &MessageInfo,
        operator: String,
        expires: Option<Expiration>,
    ) -> (r: Result<Response, ContractError>)
        requires
            old(self).wf(),
        ensures
            final(self).wf(),
            match old(self)@.approve_all_result(
                env.block,
                info.sender@,
                operator@,
                expiration_or_never(expires),
            ) {
                Ok(s) => final(self)@ == s && (r matches Ok(resp) && attrs_view(resp.attributes@)
                    == seq![
                    ("action"@, "approve_all"@),
                    ("sender"@, info.sender@),
                    ("operator"@, operator@),
                ] && resp.messages@.len() == 0),
                Err(e) => r == Err::<Response, ContractError>(e) && final(self)@ == old(self)@,
            },
    {
        let expires = match expires {
            Some(e) => e,
            None => Expiration::Never,
        };
        if expires.is_expired(&env.block) {
            return Err(ContractError::Expired);
        }
        proof {
            self.lemma_wf_parts();
        }
        self.save_grant(info.sender.clone(), operator.clone(), expires);
        proof {
            self.lemma_wf_from_count();
        }
        let attributes = vec![
            attr("action", "approve_all"),
            attr("sender", info.sender.as_str()),
            attr("operator", operator.as_str()),
        ];
        assert(attrs_view(attributes@) =~= seq![
            ("action"@, "approve_all"@),
            ("sender"@, info.sender@),
            ("operator"@, operator@),
        ]);
        Ok(Response { attributes, messages: Vec::new() })
    }

    /// Withdraws the sender's grant to `operator`, if there is one.
    pub fn revoke_all(&mut self, _env: &Env, info: &MessageInfo, operator: String) -> (r: Result<
        Response,
        ContractError,
    >)
        requires
            old(self).wf(),
        ensures
            final(self).wf(),
            final(self)@ == old(self)@.revoke_all_result(info.sender@, operator@),
            r matches Ok(resp) && attrs_view(resp.attributes@) == seq![
                ("action"@, "revoke_all"@),
                ("sender"@, info.sender@),
                ("operator"@, operator@),
            ] && resp.messages@.len() == 0,
    {
        proof {
            self.lemma_wf_parts();
        }
        self.remove_grant(&info.sender, &operator);
        proof {
            self.lemma_wf_from_count();
        }
        let attributes = vec![
            attr("action", "revoke_all"),
            attr("sender", info.sender.as_str()),
            attr("operator", operator.as_str()),
        ];
        assert(attrs_view(attributes@) =~= seq![
            ("action"@, "revoke_all"@),
            ("sender"@, info.sender@),
            ("operator"@, operator@),
        ]);
        Ok(Response { attributes, messages: Vec::new() })
    }

    /// Destroys token `token_id`, if `info.sender` may transfer it.
    pub fn burn(&mut self, env: &Env, info: &MessageInfo, token_id: String) -> (r: Result<
        Response,
        ContractError,
    >)
        requires
            old(self).wf(),
        ensures
            final(self).wf(),
            match old(self)@.burn_result(env.block, info.sender@, token_id@) {
                Ok(s) => final(self)@ == s && (r matches Ok(resp) && attrs_view(resp.attributes@)
                    == seq![
                    ("action"@, "burn"@),
                    ("sender"@, info.sender@),
                    ("token_id"@, token_id@),
                ] && resp.messages@.len() == 0),
                Err(e) => r == Err::<Response, ContractError>(e) && final(self)@ == old(self)@,
            },
    {
        proof {
            self.lemma_wf_parts();
        }
        let tok = match self.get_token(&token_id) {
            Some(t) => t,
            None => {
                return Err(ContractError::NotFound);
            },
        };
        match self.check_can_send(env, info, tok) {
            Ok(()) => {},
            Err(e) => {
                return Err(e);
            },
        }
        proof {
            assert(self@.tokens.dom().contains(token_id@));
        }
        let _ = self.take_token(&token_id);
        self.decrement_tokens();
        proof {
            assert(self@.tokens.dom() =~= old(self)@.tokens.dom().remove(token_id@));
            self.lemma_wf_from_count();
            self.lemma_inv();
            lemma_index_is_derived(self@);
        }
        let attributes = vec![
            attr("action", "burn"),
            attr("sender", info.sender.as_str()),
            attr("token_id", token_id.as_str()),
        ];
        assert(attrs_view(attributes@) =~= seq![
            ("action"@, "burn"@),
            ("sender"@, info.sender@),
            ("token_id"@, token_id@),
        ]);
        Ok(Response { attributes, messages: Vec::new() })
    }

    /// Runs one request against the collection.
    pub fn execute<E>(&mut self, env: &Env, info: &MessageInfo, msg: ExecuteMsg<T, E>) -> (r: Result<
        Response,
        ContractError,
    >)
        requires
            old(self).wf(),
            msg is Mint ==> old(self)@.token_count < u64::MAX,
        ensures
            final(self).wf(),
            match old(self)@.execute_result(env.block, info.sender@, msg) {
                Ok(s) => final(self)@ == s && (r matches Ok(resp) && response_of(
                    msg,
                    info.sender@,
                    resp,
                )),
                Err(e) => r == Err::<Response, ContractError>(e) && final(self)@ == old(self)@,
            },
    {
        match msg {
            ExecuteMsg::Mint(m) => self.mint(env, info, m),
            ExecuteMsg::Approve { spender, token_id, expires } => self.approve(
                env,
                info,
                spender,
                token_id,
                expires,
            ),
            ExecuteMsg::Revoke { spender, token_id } => self.revoke(env, info, spender, token_id),
            ExecuteMsg::ApproveAll { operator, expires } => self.approve_all(
                env,
                info,
                operator,
                expires,
            ),
            ExecuteMsg::RevokeAll { operator } => self.revoke_all(env, info, operator),
            ExecuteMsg::TransferNft { recipient, token_id } => self.transfer_nft(
                env,
                info,
                recipient,
                token_id,
            ),
            ExecuteMsg::SendNft { contract, token_id, msg } => self.send_nft(
                env,
                info,
                contract,
                token_id,
                msg,
            ),
            ExecuteMsg::Burn { token_id } => self.burn(env, info, token_id),
            ExecuteMsg::Extension { msg: _ } => Ok(Response { attributes: Vec::new(), messages: Vec::new() }),
        }
    }

    /// Puts back a record read from persistent storage. Its approvals are
    /// replayed in order, so a spender listed twice keeps its last entry.
    pub fn restore_token(&mut self, id: String, tok: TokenInfo<T>) -> (r: Result<(), ContractError>)
        requires
            old(self).wf(),
            old(self)@.token_count < u64::MAX,
        ensures
            final(self).wf(),
            old(self)@.tokens.contains_key(id@) ==> r == Err::<(), ContractError>(
                ContractError::AlreadyExists,
            ) && final(self)@ == old(self)@,
            !old(self)@.tokens.contains_key(id@) ==> r is Ok && final(self)@ == (ContractState {
                token_count: old(self)@.token_count + 1,
                ..old(self)@.with_tokens(
                    old(self)@.tokens.insert(
                        id@,
                        TokenView { approvals: approvals_replayed(tok@.approvals), ..tok@ },
                    ),
                )
            }),
    {
        proof {
            self.lemma_wf_parts();
        }
        match self.get_token(&id) {
            Some(_) => {
                return Err(ContractError::AlreadyExists);
            },
            None => {},
        }
        let mut tok = tok;
        let ghost before = tok@;
        tok.approvals = replay_approvals(&tok.approvals);
        self.insert_new(id.clone(), tok);
        self.increment_tokens();
        proof {
            assert(tok@ == TokenView { approvals: approvals_replayed(before.approvals), ..before });
            assert(self@.tokens.dom() =~= old(self)@.tokens.dom().insert(id@));
            self.lemma_wf_from_count();
            self.lemma_inv();
            lemma_index_is_derived(self@);
        }
        Ok(())
    }

    /// Puts back an operator grant read from persistent storage.
    pub fn restore_grant(&mut self, owner: String, operator: String, expires: Expiration)
        requires
            old(self).wf(),
        ensures
            final(self).wf(),
            final(self)@ == (ContractState {
                operators: old(self)@.operators.insert((owner@, operator@), expires),
                ..old(self)@
            }),
    {
        proof {
            self.lemma_wf_parts();
        }
        self.save_grant(owner, operator, expires);
        proof {
            self.lemma_wf_from_count();
        }
    }
}

} // verus!

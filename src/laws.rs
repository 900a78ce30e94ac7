use vstd::prelude::*;

use crate::approvals::{
    lemma_push_fresh, lemma_single_entry, lemma_without_absent, lemma_without_spender,
    spender_count, spenders_unique, without_spender,
};
use crate::env::BlockInfo;
use crate::error::ContractError;
use crate::execute::lemma_index_is_derived;
use crate::expiration::Expiration;
use crate::state::{ApprovalView, ContractState, Cw721Contract, TokenView};

verus! {

/// Every token id either has no record and no owner index entry, or has a
/// record whose single owner is the only account the index lists for it.
pub proof fn lemma_single_owner<T>(c: &Cw721Contract<T>, id: Seq<char>)
    requires
        c.wf(),
    ensures
        (!c@.tokens.contains_key(id) && forall|o: Seq<char>| !#[trigger] c@.owner_index.contains((o, id)))
            || (c@.tokens.contains_key(id) && forall|o: Seq<char>| #[trigger]
            c@.owner_index.contains((o, id)) <==> o == c@.tokens[id].owner),
        c@.token_count == c@.tokens.dom().len(),
{
    c.lemma_inv();
}

/// Minting by the minter fails with `AlreadyExists` exactly when the id has a
/// live record, and succeeds otherwise, also right after the id was burned.
pub proof fn lemma_mint_guard<T>(
    s: ContractState<T>,
    block: BlockInfo,
    burner: Seq<char>,
    id: Seq<char>,
    rec: TokenView<T>,
)
    ensures
        s.tokens.contains_key(id) ==> s.mint_result(s.minter, id, rec) == Err::<
            ContractState<T>,
            ContractError,
        >(ContractError::AlreadyExists),
        !s.tokens.contains_key(id) ==> s.mint_result(s.minter, id, rec) is Ok,
        s.burn_result(block, burner, id) matches Ok(b) ==> b.mint_result(b.minter, id, rec) is Ok,
{
}

/// A successful transfer or send leaves the token with no approvals,
/// whichever way the sender was authorized.
pub proof fn lemma_transfer_clears_approvals<T>(
    s: ContractState<T>,
    block: BlockInfo,
    sender: Seq<char>,
    recipient: Seq<char>,
    id: Seq<char>,
)
    ensures
        s.transfer_result(block, sender, recipient, id) matches Ok(t) ==> t.tokens.contains_key(id)
            && t.tokens[id].approvals == Seq::<ApprovalView>::empty() && t.tokens[id].owner
            == recipient,
{
}

/// The owner may always transfer and approve, whatever approvals or grants exist.
pub proof fn lemma_owner_always_authorized<T>(
    s: ContractState<T>,
    tok: TokenView<T>,
    block: BlockInfo,
)
    ensures
        s.can_transfer(tok, tok.owner, block),
        s.can_approve(tok.owner, tok.owner, block),
{
}

/// An expiration that has already elapsed is refused: by ApproveAll always
/// with `Expired`, by Approve never accepted and refused with `Expired` once the
/// token exists and the sender may approve.
pub proof fn lemma_elapsed_expiration_rejected<T>(
    s: ContractState<T>,
    block: BlockInfo,
    sender: Seq<char>,
    spender: Seq<char>,
    id: Seq<char>,
    expires: Expiration,
)
    requires
        expires.expired_at(block),
    ensures
        s.approve_all_result(block, sender, spender, expires) == Err::<
            ContractState<T>,
            ContractError,
        >(ContractError::Expired),
        s.approve_result(block, sender, spender, id, expires) is Err,
        s.tokens.contains_key(id) && s.can_approve(s.tokens[id].owner, sender, block)
            ==> s.approve_result(block, sender, spender, id, expires) == Err::<
            ContractState<T>,
            ContractError,
        >(ContractError::Expired),
{
}

/// After a successful Approve the token holds exactly one entry for the
/// spender, and its spenders stay unique.
pub proof fn lemma_approve_single_entry<T>(
    s: ContractState<T>,
    block: BlockInfo,
    sender: Seq<char>,
    spender: Seq<char>,
    id: Seq<char>,
    expires: Expiration,
)
    requires
        s.inv(),
    ensures
        s.approve_result(block, sender, spender, id, expires) matches Ok(t) ==> spender_count(
            t.tokens[id].approvals,
            spender,
        ) == 1 && spenders_unique(t.tokens[id].approvals),
{
    if s.approve_result(block, sender, spender, id, expires) is Ok {
        let old_list = s.tokens[id].approvals;
        let w = without_spender(old_list, spender);
        lemma_without_spender(old_list, spender);
        lemma_single_entry(w, ApprovalView { spender, expires });
        lemma_push_fresh(w, ApprovalView { spender, expires });
    }
}

/// RevokeAll without a matching grant changes nothing, and neither does a
/// second RevokeAll.
pub proof fn lemma_revoke_all_idempotent<T>(
    s: ContractState<T>,
    sender: Seq<char>,
    operator: Seq<char>,
)
    ensures
        !s.operators.contains_key((sender, operator)) ==> s.revoke_all_result(sender, operator) == s,
        s.revoke_all_result(sender, operator).revoke_all_result(sender, operator)
            == s.revoke_all_result(sender, operator),
{
    if !s.operators.contains_key((sender, operator)) {
        assert(s.operators.remove((sender, operator)) =~= s.operators);
    }
    let t = s.revoke_all_result(sender, operator);
    assert(t.operators.remove((sender, operator)) =~= t.operators);
}

/// Revoke of a spender that holds no approval succeeds and changes nothing,
/// and a second Revoke after a successful one does the same.
pub proof fn lemma_revoke_idempotent<T>(
    s: ContractState<T>,
    block: BlockInfo,
    sender: Seq<char>,
    spender: Seq<char>,
    id: Seq<char>,
)
    requires
        s.inv(),
    ensures
        s.tokens.contains_key(id) && s.can_approve(s.tokens[id].owner, sender, block) && (forall|
            j: int,
        |
            0 <= j < s.tokens[id].approvals.len() ==> (#[trigger] s.tokens[id].approvals[j]).spender
                != spender) ==> s.revoke_result(block, sender, spender, id) == Ok::<
            ContractState<T>,
            ContractError,
        >(s),
        s.revoke_result(block, sender, spender, id) matches Ok(t) ==> t.revoke_result(
            block,
            sender,
            spender,
            id,
        ) == Ok::<ContractState<T>, ContractError>(t),
{
    if s.tokens.contains_key(id) && s.can_approve(s.tokens[id].owner, sender, block) {
        let rec = s.tokens[id];
        if forall|j: int| 0 <= j < rec.approvals.len() ==> (#[trigger] rec.approvals[j]).spender != spender {
            lemma_without_absent(rec.approvals, spender);
            assert(TokenView { approvals: without_spender(rec.approvals, spender), ..rec } == rec);
            assert(s.tokens.insert(id, rec) =~= s.tokens);
            lemma_index_is_derived(s);
        }
        let w = without_spender(rec.approvals, spender);
        lemma_without_spender(rec.approvals, spender);
        let t = s.with_tokens(s.tokens.insert(id, TokenView { approvals: w, ..rec }));
        assert(t.tokens[id].approvals == w);
        lemma_without_absent(w, spender);
        assert(t.tokens.insert(id, TokenView { approvals: without_spender(w, spender), ..t.tokens[id] }) =~= t.tokens);
    }
}

/// Burn asks for the same authorization as Transfer; a successful Burn leaves
/// the id without a record and the supply one lower.
pub proof fn lemma_burn_like_transfer<T>(
    s: ContractState<T>,
    block: BlockInfo,
    sender: Seq<char>,
    recipient: Seq<char>,
    id: Seq<char>,
)
    requires
        s.inv(),
    ensures
        (s.burn_result(block, sender, id) is Ok) == (s.transfer_result(block, sender, recipient, id) is Ok),
        s.burn_result(block, sender, id) == Err::<ContractState<T>, ContractError>(ContractError::Unauthorized)
            <==> s.transfer_result(block, sender, recipient, id) == Err::<ContractState<T>, ContractError>(
            ContractError::Unauthorized,
        ),
        s.burn_result(block, sender, id) matches Ok(t) ==> !t.tokens.contains_key(id)
            && t.token_count == s.token_count - 1 && t.inv(),
{
    if s.burn_result(block, sender, id) is Ok {
        let t = s.burn_result(block, sender, id)->Ok_0;
        assert(s.tokens.dom().contains(id));
        assert(t.tokens.dom() =~= s.tokens.dom().remove(id));
    }
}

} // verus!

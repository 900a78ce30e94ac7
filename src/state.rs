use vstd::prelude::*;

use crate::env::BlockInfo;
use crate::approvals::{approved_in, spenders_unique};
use crate::expiration::Expiration;

verus! {

/// A right given to one spender to move one token until it expires.
pub struct Approval {
    /// Account that can transfer or send the token.
    pub spender: String,
    /// When the right lapses.
    pub expires: Expiration,
}

/// An approval as a mathematical value.
pub ghost struct ApprovalView {
    pub spender: Seq<char>,
    pub expires: Expiration,
}

impl View for Approval {
    type V = ApprovalView;

    open spec fn view(&self) -> ApprovalView {
        ApprovalView { spender: self.spender@, expires: self.expires }
    }
}

impl Approval {
    /// Whether the approval has lapsed in `block`.
    pub fn is_expired(&self, block: &BlockInfo) -> (r: bool)
        ensures
            r == self.expires.expired_at(*block),
    {
        self.expires.is_expired(block)
    }

    /// A field-by-field copy.
    pub fn duplicate(&self) -> (r: Approval)
        ensures
            r@ == self@,
    {
        Approval { spender: self.spender.clone(), expires: self.expires }
    }
}

/// What is stored for each token.
pub struct TokenInfo<T> {
    /// The current owner.
    pub owner: String,
    /// Per-token approvals, at most one per spender; cleared on every transfer.
    pub approvals: Vec<Approval>,
    /// Optional resource identifier of the token's metadata.
    pub token_uri: Option<String>,
    /// Application-defined payload, never inspected here.
    pub extension: T,
}

/// A stored record as a mathematical value.
pub ghost struct TokenView<T> {
    pub owner: Seq<char>,
    pub approvals: Seq<ApprovalView>,
    pub token_uri: Option<Seq<char>>,
    pub extension: T,
}

/// The characters of an optional string.
pub open spec fn opt_str_view(o: Option<String>) -> Option<Seq<char>> {
    match o {
        Some(s) => Some(s@),
        None => None,
    }
}

/// An approval list as mathematical values.
pub open spec fn approvals_view(s: Seq<Approval>) -> Seq<ApprovalView> {
    s.map_values(|a: Approval| a@)
}

impl<T> View for TokenInfo<T> {
    type V = TokenView<T>;

    open spec fn view(&self) -> TokenView<T> {
        TokenView {
            owner: self.owner@,
            approvals: approvals_view(self.approvals@),
            token_uri: opt_str_view(self.token_uri),
            extension: self.extension,
        }
    }
}

/// Name and symbol of the collection.
pub struct ContractInfoResponse {
    pub name: String,
    pub symbol: String,
}

/// A blanket grant from `owner` to `operator` over all of the owner's tokens.
pub struct OperatorGrant {
    pub owner: String,
    pub operator: String,
    pub expires: Expiration,
}

/// The owner index: one `(owner, token id)` entry per stored token.
pub struct TokenIndexes {
    owner: Vec<(String, String)>,
}

/// The owner index key of a stored token.
pub fn token_owner_idx<T>(_pk: &[u8], d: &TokenInfo<T>) -> (r: String)
    ensures
        r@ == d.owner@,
{
    d.owner.clone()
}

/// The abstract state of a collection.
pub ghost struct ContractState<T> {
    /// Name of the collection.
    pub name: Seq<char>,
    /// Symbol of the collection.
    pub symbol: Seq<char>,
    /// The only account allowed to mint.
    pub minter: Seq<char>,
    /// The supply counter.
    pub token_count: nat,
    /// The token store, by token id.
    pub tokens: Map<Seq<char>, TokenView<T>>,
    /// Operator grants, by (owner, operator).
    pub operators: Map<(Seq<char>, Seq<char>), Expiration>,
    /// The owner index, as a set of (owner, token id) pairs.
    pub owner_index: Set<(Seq<char>, Seq<char>)>,
}

impl<T> ContractState<T> {
    /// The properties every reachable state has.
    pub open spec fn inv(self) -> bool {
        &&& self.tokens.dom().finite()
        &&& self.token_count == self.tokens.dom().len()
        &&& forall|id: Seq<char>| #[trigger]
            self.tokens.contains_key(id) ==> spenders_unique(self.tokens[id].approvals)
        &&& forall|o: Seq<char>, id: Seq<char>| #[trigger]
            self.owner_index.contains((o, id)) <==> (self.tokens.contains_key(id)
                && self.tokens[id].owner == o)
    }

    /// `actor` holds a grant from `owner` that has not expired in `block`.
    pub open spec fn operator_active(
        self,
        owner: Seq<char>,
        actor: Seq<char>,
        block: BlockInfo,
    ) -> bool {
        self.operators.contains_key((owner, actor)) && !self.operators[(owner, actor)].expired_at(
            block,
        )
    }

    /// `actor` may approve or revoke on a token held by `owner`.
    pub open spec fn can_approve(
        self,
        owner: Seq<char>,
        actor: Seq<char>,
        block: BlockInfo,
    ) -> bool {
        actor == owner || self.operator_active(owner, actor, block)
    }

    /// `actor` may transfer, send or burn the token `tok`.
    pub open spec fn can_transfer(self, tok: TokenView<T>, actor: Seq<char>, block: BlockInfo) -> bool {
        actor == tok.owner || approved_in(tok.approvals, actor, block) || self.operator_active(
            tok.owner,
            actor,
            block,
        )
    }
}

/// The collection: the token store with its owner index, the operator grants,
/// the minter and the supply counter.
pub struct Cw721Contract<T> {
    contract_info: ContractInfoResponse,
    minter: String,
    token_count: u64,
    operators: Vec<OperatorGrant>,
    tokens: Vec<(String, TokenInfo<T>)>,
    indexes: TokenIndexes,
}

/// The token store a list of (id, record) entries stands for.
pub open spec fn token_map<T>(s: Seq<(String, TokenInfo<T>)>) -> Map<Seq<char>, TokenView<T>> {
    Map::new(
        |k: Seq<char>| exists|i: int| 0 <= i < s.len() && #[trigger] s[i].0@ == k,
        |k: Seq<char>| s[choose|i: int| 0 <= i < s.len() && #[trigger] s[i].0@ == k].1@,
    )
}

/// No token id appears twice in the list.
pub open spec fn ids_unique<T>(s: Seq<(String, TokenInfo<T>)>) -> bool {
    forall|i: int, j: int|
        0 <= i < s.len() && 0 <= j < s.len() && i != j ==> #[trigger] s[i].0@ != #[trigger] s[j].0@
}

/// The grants a list of operator grants stands for.
pub open spec fn grant_map(s: Seq<OperatorGrant>) -> Map<(Seq<char>, Seq<char>), Expiration> {
    Map::new(
        |k: (Seq<char>, Seq<char>)|
            exists|i: int| 0 <= i < s.len() && (#[trigger] s[i].owner@, s[i].operator@) == k,
        |k: (Seq<char>, Seq<char>)|
            s[choose|i: int|
                0 <= i < s.len() && (#[trigger] s[i].owner@, s[i].operator@) == k].expires,
    )
}

/// No (owner, operator) pair appears twice in the list.
pub open spec fn grants_unique(s: Seq<OperatorGrant>) -> bool {
    forall|i: int, j: int|
        0 <= i < s.len() && 0 <= j < s.len() && i != j ==> (#[trigger] s[i].owner@, s[i].operator@)
            != (#[trigger] s[j].owner@, s[j].operator@)
}

/// The (owner, token id) pairs of an owner index.
pub open spec fn index_set(s: Seq<(String, String)>) -> Set<(Seq<char>, Seq<char>)> {
    Set::new(|p: (Seq<char>, Seq<char>)| exists|i: int| 0 <= i < s.len() && (#[trigger] s[i].0@, s[i].1@) == p)
}

/// `id` is one of the strings in `r`.
pub open spec fn listed(r: Seq<String>, id: Seq<char>) -> bool {
    exists|k: int| 0 <= k < r.len() && #[trigger] r[k]@ == id
}

/// Among the first `n` index entries is one for (`owner`, `id`).
closed spec fn indexed_before(idx: Seq<(String, String)>, owner: Seq<char>, n: int, id: Seq<char>) -> bool {
    exists|j: int| 0 <= j < n && (#[trigger] idx[j]).0@ == owner && idx[j].1@ == id
}

proof fn lemma_token_at<T>(s: Seq<(String, TokenInfo<T>)>, i: int)
    requires
        ids_unique(s),
        0 <= i < s.len(),
    ensures
        token_map(s).contains_key(s[i].0@),
        token_map(s)[s[i].0@] == s[i].1@,
{
    reveal(token_map);
    reveal(ids_unique);
    let k = s[i].0@;
    assert(exists|j: int| 0 <= j < s.len() && #[trigger] s[j].0@ == k);
    let j = choose|j: int| 0 <= j < s.len() && #[trigger] s[j].0@ == k;
    assert(j == i);
}

proof fn lemma_token_push<T>(s: Seq<(String, TokenInfo<T>)>, e: (String, TokenInfo<T>))
    requires
        ids_unique(s),
        !token_map(s).contains_key(e.0@),
    ensures
        ids_unique(s.push(e)),
        token_map(s.push(e)) == token_map(s).insert(e.0@, e.1@),
{
    reveal(token_map);
    reveal(ids_unique);
    let t = s.push(e);
    assert forall|i: int| 0 <= i < s.len() implies #[trigger] s[i].0@ != e.0@ by {
        if s[i].0@ == e.0@ {
            assert(exists|j: int| 0 <= j < s.len() && #[trigger] s[j].0@ == e.0@);
        }
    }
    assert forall|i: int, j: int|
        0 <= i < t.len() && 0 <= j < t.len() && i != j implies #[trigger] t[i].0@ != #[trigger] t[j].0@ by {
        if i < s.len() && j < s.len() {
            assert(t[i] == s[i] && t[j] == s[j]);
        } else if i < s.len() {
            assert(t[i] == s[i]);
        } else {
            assert(t[j] == s[j]);
        }
    }
    let m = token_map(s).insert(e.0@, e.1@);
    assert forall|k: Seq<char>| #[trigger] token_map(t).contains_key(k) == m.contains_key(k) by {
        if m.contains_key(k) && k != e.0@ {
            let j = choose|j: int| 0 <= j < s.len() && #[trigger] s[j].0@ == k;
            assert(t[j] == s[j]);
        }
        if k == e.0@ {
            assert(t[s.len() as int] == e);
        }
        if token_map(t).contains_key(k) {
            let j = choose|j: int| 0 <= j < t.len() && #[trigger] t[j].0@ == k;
            if j < s.len() {
                assert(t[j] == s[j]);
            }
        }
    }
    assert forall|k: Seq<char>| #[trigger] token_map(t).contains_key(k) implies token_map(t)[k]
        == m[k] by {
        let j = choose|j: int| 0 <= j < t.len() && #[trigger] t[j].0@ == k;
        if k == e.0@ {
            assert(t[s.len() as int] == e);
            assert(j == s.len());
        } else {
            assert(j < s.len());
            assert(t[j] == s[j]);
            let j2 = choose|j2: int| 0 <= j2 < s.len() && #[trigger] s[j2].0@ == k;
            assert(t[j2] == s[j2]);
        }
    }
    assert(token_map(t) =~= m);
}

proof fn lemma_token_remove<T>(s: Seq<(String, TokenInfo<T>)>, i: int)
    requires
        ids_unique(s),
        0 <= i < s.len(),
    ensures
        ids_unique(s.remove(i)),
        token_map(s.remove(i)) == token_map(s).remove(s[i].0@),
{
    reveal(token_map);
    reveal(ids_unique);
    let t = s.remove(i);
    let k0 = s[i].0@;
    assert forall|a: int| 0 <= a < t.len() implies #[trigger] t[a] == s[if a < i { a } else { a + 1 }] by {}
    assert forall|a: int, b: int|
        0 <= a < t.len() && 0 <= b < t.len() && a != b implies #[trigger] t[a].0@ != #[trigger] t[b].0@ by {
        assert(t[a] == s[if a < i { a } else { a + 1 }]);
        assert(t[b] == s[if b < i { b } else { b + 1 }]);
    }
    let m = token_map(s).remove(k0);
    assert forall|k: Seq<char>| #[trigger] token_map(t).contains_key(k) == m.contains_key(k) by {
        if token_map(t).contains_key(k) {
            let j = choose|j: int| 0 <= j < t.len() && #[trigger] t[j].0@ == k;
            let js = if j < i { j } else { j + 1 };
            assert(t[j] == s[js]);
            assert(s[js].0@ == k);
        }
        if m.contains_key(k) {
            let j = choose|j: int| 0 <= j < s.len() && #[trigger] s[j].0@ == k;
            assert(j != i);
            let jt = if j < i { j } else { j - 1 };
            assert(t[jt] == s[j]);
        }
    }
    assert forall|k: Seq<char>| #[trigger] token_map(t).contains_key(k) implies token_map(t)[k]
        == m[k] by {
        let j = choose|j: int| 0 <= j < t.len() && #[trigger] t[j].0@ == k;
        let js = if j < i { j } else { j + 1 };
        assert(t[j] == s[js]);
        let j2 = choose|j2: int| 0 <= j2 < s.len() && #[trigger] s[j2].0@ == k;
        assert(s[js].0@ == k);
        assert(j2 == js);
    }
    assert(token_map(t) =~= m);
}

proof fn lemma_grant_at(s: Seq<OperatorGrant>, i: int)
    requires
        grants_unique(s),
        0 <= i < s.len(),
    ensures
        grant_map(s).contains_key((s[i].owner@, s[i].operator@)),
        grant_map(s)[(s[i].owner@, s[i].operator@)] == s[i].expires,
{
    reveal(grant_map);
    reveal(grants_unique);
    let k = (s[i].owner@, s[i].operator@);
    assert(exists|j: int| 0 <= j < s.len() && (#[trigger] s[j].owner@, s[j].operator@) == k);
    let j = choose|j: int| 0 <= j < s.len() && (#[trigger] s[j].owner@, s[j].operator@) == k;
    assert(j == i);
}

proof fn lemma_grant_push(s: Seq<OperatorGrant>, e: OperatorGrant)
    requires
        grants_unique(s),
        !grant_map(s).contains_key((e.owner@, e.operator@)),
    ensures
        grants_unique(s.push(e)),
        grant_map(s.push(e)) == grant_map(s).insert((e.owner@, e.operator@), e.expires),
{
    reveal(grant_map);
    reveal(grants_unique);
    let t = s.push(e);
    assert forall|i: int| 0 <= i < s.len() implies (#[trigger] s[i].owner@, s[i].operator@) != (e.owner@, e.operator@) by {
        if (s[i].owner@, s[i].operator@) == (e.owner@, e.operator@) {
            assert(exists|j: int| 0 <= j < s.len() && (#[trigger] s[j].owner@, s[j].operator@) == (e.owner@, e.operator@));
        }
    }
    assert forall|i: int, j: int|
        0 <= i < t.len() && 0 <= j < t.len() && i != j implies (#[trigger] t[i].owner@, t[i].operator@) != (#[trigger] t[j].owner@, t[j].operator@) by {
        if i < s.len() && j < s.len() {
            assert(t[i] == s[i] && t[j] == s[j]);
        } else if i < s.len() {
            assert(t[i] == s[i]);
        } else {
            assert(t[j] == s[j]);
        }
    }
    let m = grant_map(s).insert((e.owner@, e.operator@), e.expires);
    assert forall|k: (Seq<char>, Seq<char>)| #[trigger] grant_map(t).contains_key(k) == m.contains_key(k) by {
        if m.contains_key(k) && k != (e.owner@, e.operator@) {
            let j = choose|j: int| 0 <= j < s.len() && (#[trigger] s[j].owner@, s[j].operator@) == k;
            assert(t[j] == s[j]);
        }
        if k == (e.owner@, e.operator@) {
            assert(t[s.len() as int] == e);
        }
        if grant_map(t).contains_key(k) {
            let j = choose|j: int| 0 <= j < t.len() && (#[trigger] t[j].owner@, t[j].operator@) == k;
            if j < s.len() {
                assert(t[j] == s[j]);
            }
        }
    }
    assert forall|k: (Seq<char>, Seq<char>)| #[trigger] grant_map(t).contains_key(k) implies grant_map(t)[k]
        == m[k] by {
        let j = choose|j: int| 0 <= j < t.len() && (#[trigger] t[j].owner@, t[j].operator@) == k;
        if k == (e.owner@, e.operator@) {
            assert(t[s.len() as int] == e);
            assert(j == s.len());
        } else {
            assert(j < s.len());
            assert(t[j] == s[j]);
            let j2 = choose|j2: int| 0 <= j2 < s.len() && (#[trigger] s[j2].owner@, s[j2].operator@) == k;
            assert(t[j2] == s[j2]);
        }
    }
    assert(grant_map(t) =~= m);
}

proof fn lemma_grant_remove(s: Seq<OperatorGrant>, i: int)
    requires
        grants_unique(s),
        0 <= i < s.len(),
    ensures
        grants_unique(s.remove(i)),
        grant_map(s.remove(i)) == grant_map(s).remove((s[i].owner@, s[i].operator@)),
{
    reveal(grant_map);
    reveal(grants_unique);
    let t = s.remove(i);
    let k0 = (s[i].owner@, s[i].operator@);
    assert forall|a: int| 0 <= a < t.len() implies #[trigger] t[a] == s[if a < i { a } else { a + 1 }] by {}
    assert forall|a: int, b: int|
        0 <= a < t.len() && 0 <= b < t.len() && a != b implies (#[trigger] t[a].owner@, t[a].operator@) != (#[trigger] t[b].owner@, t[b].operator@) by {
        assert(t[a] == s[if a < i { a } else { a + 1 }]);
        assert(t[b] == s[if b < i { b } else { b + 1 }]);
    }
    let m = grant_map(s).remove(k0);
    assert forall|k: (Seq<char>, Seq<char>)| #[trigger] grant_map(t).contains_key(k) == m.contains_key(k) by {
        if grant_map(t).contains_key(k) {
            let j = choose|j: int| 0 <= j < t.len() && (#[trigger] t[j].owner@, t[j].operator@) == k;
            let js = if j < i { j } else { j + 1 };
            assert(t[j] == s[js]);
            assert((s[js].owner@, s[js].operator@) == k);
        }
        if m.contains_key(k) {
            let j = choose|j: int| 0 <= j < s.len() && (#[trigger] s[j].owner@, s[j].operator@) == k;
            assert(j != i);
            let jt = if j < i { j } else { j - 1 };
            assert(t[jt] == s[j]);
        }
    }
    assert forall|k: (Seq<char>, Seq<char>)| #[trigger] grant_map(t).contains_key(k) implies grant_map(t)[k]
        == m[k] by {
        let j = choose|j: int| 0 <= j < t.len() && (#[trigger] t[j].owner@, t[j].operator@) == k;
        let js = if j < i { j } else { j + 1 };
        assert(t[j] == s[js]);
        let j2 = choose|j2: int| 0 <= j2 < s.len() && (#[trigger] s[j2].owner@, s[j2].operator@) == k;
        assert((s[js].owner@, s[js].operator@) == k);
        assert(j2 == js);
    }
    assert(grant_map(t) =~= m);
}


impl<T> View for Cw721Contract<T> {
    type V = ContractState<T>;

    closed spec fn view(&self) -> ContractState<T> {
        ContractState {
            name: self.contract_info.name@,
            symbol: self.contract_info.symbol@,
            minter: self.minter@,
            token_count: self.token_count as nat,
            tokens: token_map(self.tokens@),
            operators: grant_map(self.operators@),
            owner_index: index_set(self.indexes.owner@),
        }
    }
}

impl<T> Cw721Contract<T> {
    /// The store's own invariant, apart from the supply counter.
    pub closed spec fn store_wf(&self) -> bool {
        let s = self.tokens@;
        let idx = self.indexes.owner@;
        &&& ids_unique(s)
        &&& grants_unique(self.operators@)
        &&& token_map(s).dom().finite()
        &&& token_map(s).dom().len() == s.len()
        &&& idx.len() == s.len()
        &&& forall|i: int|
            0 <= i < s.len() ==> (#[trigger] idx[i]).0@ == s[i].1.owner@ && idx[i].1@ == s[i].0@
        &&& forall|i: int| 0 <= i < s.len() ==> spenders_unique(#[trigger] s[i].1@.approvals)
    }

    /// Well-formedness: the store invariant, and the counter equals the number of records.
    pub closed spec fn wf(&self) -> bool {
        self.store_wf() && self.token_count as int == self.tokens@.len()
    }

    proof fn lemma_store_inv(&self)
        requires
            self.store_wf(),
        ensures
            forall|id: Seq<char>| #[trigger]
                self@.tokens.contains_key(id) ==> spenders_unique(self@.tokens[id].approvals),
            forall|o: Seq<char>, id: Seq<char>| #[trigger]
                self@.owner_index.contains((o, id)) <==> (self@.tokens.contains_key(id)
                    && self@.tokens[id].owner == o),
    {
        let s = self.tokens@;
        let idx = self.indexes.owner@;
        reveal(token_map);
        reveal(index_set);
        assert forall|id: Seq<char>| #[trigger] self@.tokens.contains_key(id) implies spenders_unique(
            self@.tokens[id].approvals,
        ) by {
            let j = choose|j: int| 0 <= j < s.len() && #[trigger] s[j].0@ == id;
            lemma_token_at(s, j);
        }
        assert forall|o: Seq<char>, id: Seq<char>| #[trigger]
            self@.owner_index.contains((o, id)) <==> (self@.tokens.contains_key(id)
                && self@.tokens[id].owner == o) by {
            if self@.owner_index.contains((o, id)) {
                let i = choose|i: int| 0 <= i < idx.len() && (#[trigger] idx[i].0@, idx[i].1@) == (o, id);
                lemma_token_at(s, i);
            }
            if self@.tokens.contains_key(id) && self@.tokens[id].owner == o {
                let j = choose|j: int| 0 <= j < s.len() && #[trigger] s[j].0@ == id;
                lemma_token_at(s, j);
                assert((idx[j].0@, idx[j].1@) == (o, id));
            }
        }
    }

    /// A well-formed collection is in a reachable state.
    pub proof fn lemma_inv(&self)
        requires
            self.wf(),
        ensures
            self@.inv(),
    {
        self.lemma_store_inv();
    }

    /// Position of the record of `id`, if there is one.
    fn find_token(&self, id: &String) -> (r: Option<usize>)
        requires
            self.store_wf(),
        ensures
            match r {
                Some(i) => i < self.tokens@.len() && self.tokens@[i as int].0@ == id@
                    && self@.tokens.contains_key(id@) && self@.tokens[id@] == self.tokens@[i as int].1@,
                None => !self@.tokens.contains_key(id@),
            },
    {
        let mut i: usize = 0;
        while i < self.tokens.len()
            invariant
                self.store_wf(),
                0 <= i <= self.tokens@.len(),
                forall|j: int| 0 <= j < i ==> #[trigger] self.tokens@[j].0@ != id@,
            decreases self.tokens@.len() - i,
        {
            if self.tokens[i].0 == *id {
                proof {
                    lemma_token_at(self.tokens@, i as int);
                }
                return Some(i);
            }
            i = i + 1;
        }
        proof {
            reveal(token_map);
        }
        None
    }

    /// Takes the record at position `i` out of the store and the index.
    fn remove_at(&mut self, i: usize) -> (r: (String, TokenInfo<T>))
        requires
            old(self).store_wf(),
            i < old(self).tokens@.len(),
        ensures
            final(self).store_wf(),
            r.0@ == old(self).tokens@[i as int].0@,
            r.1 == old(self).tokens@[i as int].1,
            old(self)@.tokens.contains_key(r.0@),
            old(self)@.tokens[r.0@] == r.1@,
            final(self)@.tokens == old(self)@.tokens.remove(r.0@),
            final(self).tokens@.len() == old(self).tokens@.len() - 1,
            final(self)@.token_count == old(self)@.token_count,
            final(self)@.minter == old(self)@.minter,
            final(self)@.name == old(self)@.name,
            final(self)@.symbol == old(self)@.symbol,
            final(self)@.operators == old(self)@.operators,
    {
        proof {
            lemma_token_at(self.tokens@, i as int);
            lemma_token_remove(self.tokens@, i as int);
        }
        let ghost s0 = self.tokens@;
        let ghost idx0 = self.indexes.owner@;
        let r = self.tokens.remove(i);
        let _ = self.indexes.owner.remove(i);
        proof {
            let s = self.tokens@;
            let idx = self.indexes.owner@;
            assert forall|a: int| 0 <= a < s.len() implies (#[trigger] idx[a]).0@ == s[a].1.owner@
                && idx[a].1@ == s[a].0@ by {
                let b = if a < i { a } else { a + 1 };
                assert(s[a] == s0[b] && idx[a] == idx0[b]);
            }
            assert forall|a: int| 0 <= a < s.len() implies spenders_unique(#[trigger] s[a].1@.approvals) by {
                let b = if a < i { a } else { a + 1 };
                assert(s[a] == s0[b]);
            }
        }
        r
    }

    /// Puts a record for a new id into the store and the index.
    pub(crate) fn insert_new(&mut self, id: String, tok: TokenInfo<T>)
        requires
            old(self).store_wf(),
            !old(self)@.tokens.contains_key(id@),
            spenders_unique(tok@.approvals),
        ensures
            final(self).store_wf(),
            final(self)@.tokens == old(self)@.tokens.insert(id@, tok@),
            final(self)@.token_count == old(self)@.token_count,
            final(self)@.minter == old(self)@.minter,
            final(self)@.name == old(self)@.name,
            final(self)@.symbol == old(self)@.symbol,
            final(self)@.operators == old(self)@.operators,
    {
        proof {
            lemma_token_push(self.tokens@, (id, tok));
        }
        let key = token_owner_idx(id.as_str().as_bytes(), &tok);
        let ghost s0 = self.tokens@;
        let ghost idx0 = self.indexes.owner@;
        self.indexes.owner.push((key, id.clone()));
        self.tokens.push((id, tok));
        proof {
            let s = self.tokens@;
            let idx = self.indexes.owner@;
            assert forall|a: int| 0 <= a < s.len() implies (#[trigger] idx[a]).0@ == s[a].1.owner@
                && idx[a].1@ == s[a].0@ by {
                if a < s0.len() {
                    assert(s[a] == s0[a] && idx[a] == idx0[a]);
                }
            }
            assert forall|a: int| 0 <= a < s.len() implies spenders_unique(#[trigger] s[a].1@.approvals) by {
                if a < s0.len() {
                    assert(s[a] == s0[a]);
                }
            }
        }
    }

    /// The record stored under `id`, if any.
    pub fn get_token(&self, id: &String) -> (r: Option<&TokenInfo<T>>)
        requires
            self.store_wf(),
        ensures
            match r {
                Some(t) => self@.tokens.contains_key(id@) && self@.tokens[id@] == t@,
                None => !self@.tokens.contains_key(id@),
            },
    {
        match self.find_token(id) {
            Some(i) => Some(&self.tokens[i].1),
            None => None,
        }
    }

    /// Removes the record stored under `id` and hands it back.
    pub(crate) fn take_token(&mut self, id: &String) -> (r: TokenInfo<T>)
        requires
            old(self).store_wf(),
            old(self)@.tokens.contains_key(id@),
        ensures
            final(self).store_wf(),
            r@ == old(self)@.tokens[id@],
            final(self)@.tokens == old(self)@.tokens.remove(id@),
            final(self)@.token_count == old(self)@.token_count,
            final(self)@.minter == old(self)@.minter,
            final(self)@.name == old(self)@.name,
            final(self)@.symbol == old(self)@.symbol,
            final(self)@.operators == old(self)@.operators,
    {
        let i = self.find_token(id);
        let i = match i {
            Some(i) => i,
            None => 0,
        };
        let (_, t) = self.remove_at(i);
        t
    }

    /// Position of the grant of `owner` to `operator`, if there is one.
    fn find_grant(&self, owner: &String, operator: &String) -> (r: Option<usize>)
        requires
            self.store_wf(),
        ensures
            match r {
                Some(i) => i < self.operators@.len() && self.operators@[i as int].owner@ == owner@
                    && self.operators@[i as int].operator@ == operator@
                    && self@.operators.contains_key((owner@, operator@))
                    && self@.operators[(owner@, operator@)] == self.operators@[i as int].expires,
                None => !self@.operators.contains_key((owner@, operator@)),
            },
    {
        let mut i: usize = 0;
        while i < self.operators.len()
            invariant
                self.store_wf(),
                0 <= i <= self.operators@.len(),
                forall|j: int|
                    0 <= j < i ==> (#[trigger] self.operators@[j].owner@, self.operators@[j].operator@)
                        != (owner@, operator@),
            decreases self.operators@.len() - i,
        {
            if self.operators[i].owner == *owner && self.operators[i].operator == *operator {
                proof {
                    lemma_grant_at(self.operators@, i as int);
                }
                return Some(i);
            }
            i = i + 1;
        }
        proof {
            reveal(grant_map);
        }
        None
    }

    /// The expiration of the grant of `owner` to `operator`, if there is one.
    pub fn operator_expiration(&self, owner: &String, operator: &String) -> (r: Option<Expiration>)
        requires
            self.store_wf(),
        ensures
            r == (if self@.operators.contains_key((owner@, operator@)) {
                Some(self@.operators[(owner@, operator@)])
            } else {
                None
            }),
    {
        match self.find_grant(owner, operator) {
            Some(i) => Some(self.operators[i].expires),
            None => None,
        }
    }

    /// Removes the grant of `owner` to `operator`, if there is one.
    pub(crate) fn remove_grant(&mut self, owner: &String, operator: &String)
        requires
            old(self).store_wf(),
        ensures
            final(self).store_wf(),
            final(self)@ == (ContractState {
                operators: old(self)@.operators.remove((owner@, operator@)),
                ..old(self)@
            }),
    {
        match self.find_grant(owner, operator) {
            Some(i) => {
                proof {
                    lemma_grant_remove(self.operators@, i as int);
                }
                let _ = self.operators.remove(i);
            },
            None => {
                assert(old(self)@.operators.remove((owner@, operator@)) =~= old(self)@.operators);
            },
        }
    }

    /// Sets the grant of `owner` to `operator`, replacing any earlier one.
    pub(crate) fn save_grant(&mut self, owner: String, operator: String, expires: Expiration)
        requires
            old(self).store_wf(),
        ensures
            final(self).store_wf(),
            final(self)@ == (ContractState {
                operators: old(self)@.operators.insert((owner@, operator@), expires),
                ..old(self)@
            }),
    {
        self.remove_grant(&owner, &operator);
        let g = OperatorGrant { owner, operator, expires };
        proof {
            lemma_grant_push(self.operators@, g);
        }
        self.operators.push(g);
        assert(self@.operators =~= old(self)@.operators.insert((owner@, operator@), expires));
    }

    /// The supply counter.
    pub fn token_count(&self) -> (r: u64)
        ensures
            r == self@.token_count,
    {
        self.token_count
    }

    /// Adds one to the supply counter and returns the new value.
    pub fn increment_tokens(&mut self) -> (r: u64)
        requires
            old(self)@.token_count < u64::MAX,
        ensures
            r == old(self)@.token_count + 1,
            final(self)@ == (ContractState { token_count: r as nat, ..old(self)@ }),
            final(self).store_wf() == old(self).store_wf(),
    {
        self.token_count = self.token_count + 1;
        self.token_count
    }

    /// Takes one from the supply counter and returns the new value.
    pub fn decrement_tokens(&mut self) -> (r: u64)
        requires
            old(self)@.token_count > 0,
        ensures
            r == old(self)@.token_count - 1,
            final(self)@ == (ContractState { token_count: r as nat, ..old(self)@ }),
            final(self).store_wf() == old(self).store_wf(),
    {
        self.token_count = self.token_count - 1;
        self.token_count
    }

    /// With the store in order, a counter equal to the number of records makes
    /// the collection well formed.
    pub proof fn lemma_wf_from_count(&self)
        requires
            self.store_wf(),
            self@.token_count == self@.tokens.dom().len(),
        ensures
            self.wf(),
    {
    }

    /// A well-formed collection's store is in order and its counter equals the
    /// number of records.
    pub proof fn lemma_wf_parts(&self)
        requires
            self.wf(),
        ensures
            self.store_wf(),
            self@.token_count == self@.tokens.dom().len(),
            self@.tokens.dom().finite(),
    {
    }

    /// An empty collection whose only minter is `minter`.
    pub fn new(contract_info: ContractInfoResponse, minter: String) -> (r: Self)
        ensures
            r.wf(),
            r@.name == contract_info.name@,
            r@.symbol == contract_info.symbol@,
            r@.minter == minter@,
            r@.token_count == 0,
            r@.tokens == Map::<Seq<char>, TokenView<T>>::empty(),
            r@.operators == Map::<(Seq<char>, Seq<char>), Expiration>::empty(),
    {
        let r = Cw721Contract {
            contract_info,
            minter,
            token_count: 0,
            operators: Vec::new(),
            tokens: Vec::new(),
            indexes: TokenIndexes { owner: Vec::new() },
        };
        proof {
            reveal(token_map);
            reveal(grant_map);
            reveal(ids_unique);
            reveal(grants_unique);
            assert(token_map(r.tokens@) =~= Map::<Seq<char>, TokenView<T>>::empty());
            assert(grant_map(r.operators@) =~= Map::<(Seq<char>, Seq<char>), Expiration>::empty());
        }
        r
    }

    /// The only account allowed to mint.
    pub fn minter(&self) -> (r: &String)
        ensures
            r@ == self@.minter,
    {
        &self.minter
    }

    /// Name and symbol of the collection.
    pub fn contract_info(&self) -> (r: &ContractInfoResponse)
        ensures
            r.name@ == self@.name,
            r.symbol@ == self@.symbol,
    {
        &self.contract_info
    }

    /// The token ids the owner index lists for `owner`.
    pub fn tokens_of(&self, owner: &String) -> (r: Vec<String>)
        requires
            self.store_wf(),
        ensures
            forall|id: Seq<char>| #[trigger]
                self@.owner_index.contains((owner@, id)) <==> listed(r@, id),
    {
        let ghost idx = self.indexes.owner@;
        let mut r: Vec<String> = Vec::new();
        let mut i: usize = 0;
        while i < self.indexes.owner.len()
            invariant
                idx == self.indexes.owner@,
                0 <= i <= idx.len(),
                forall|id: Seq<char>| #[trigger] listed(r@, id) <==> indexed_before(idx, owner@, i as int, id),
            decreases idx.len() - i,
        {
            let ghost r0 = r@;
            if self.indexes.owner[i].0 == *owner {
                r.push(self.indexes.owner[i].1.clone());
            }
            proof {
                assert forall|id: Seq<char>| #[trigger] listed(r@, id) <==> indexed_before(idx, owner@, i + 1, id) by {
                    if listed(r@, id) {
                        let k = choose|k: int| 0 <= k < r@.len() && #[trigger] r@[k]@ == id;
                        if k < r0.len() {
                            assert(r0[k] == r@[k]);
                            assert(listed(r0, id));
                        }
                    }
                    if indexed_before(idx, owner@, i + 1, id) {
                        let j = choose|j: int| 0 <= j < i + 1 && (#[trigger] idx[j]).0@ == owner@ && idx[j].1@ == id;
                        if j < i {
                            assert(indexed_before(idx, owner@, i as int, id));
                            assert(listed(r0, id));
                            let k = choose|k: int| 0 <= k < r0.len() && #[trigger] r0[k]@ == id;
                            assert(r@[k] == r0[k]);
                        } else {
                            assert(r@[r@.len() - 1]@ == id);
                        }
                    }
                    if listed(r0, id) {
                        let k = choose|k: int| 0 <= k < r0.len() && #[trigger] r0[k]@ == id;
                        assert(r@[k] == r0[k]);
                    }
                }
            }
            i = i + 1;
        }
        proof {
            reveal(index_set);
            assert forall|id: Seq<char>| #[trigger]
                self@.owner_index.contains((owner@, id)) <==> listed(r@, id) by {
                if self@.owner_index.contains((owner@, id)) {
                    let j = choose|j: int| 0 <= j < idx.len() && (#[trigger] idx[j].0@, idx[j].1@) == (owner@, id);
                    assert(idx[j].0@ == owner@);
                }
                if indexed_before(idx, owner@, idx.len() as int, id) {
                    let j = choose|j: int| 0 <= j < idx.len() && (#[trigger] idx[j]).0@ == owner@ && idx[j].1@ == id;
                    assert((idx[j].0@, idx[j].1@) == (owner@, id));
                }
            }
        }
        r
    }

    /// The stored records, one entry per token id.
    pub fn records(&self) -> (r: &Vec<(String, TokenInfo<T>)>)
        requires
            self.store_wf(),
        ensures
            token_map(r@) == self@.tokens,
            ids_unique(r@),
    {
        &self.tokens
    }

    /// The stored operator grants, one entry per (owner, operator).
    pub fn grants(&self) -> (r: &Vec<OperatorGrant>)
        requires
            self.store_wf(),
        ensures
            grant_map(r@) == self@.operators,
            grants_unique(r@),
    {
        &self.operators
    }
}

} // verus!

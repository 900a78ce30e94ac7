use cw721_base::env::{BlockInfo, Env, MessageInfo};
use cw721_base::error::ContractError;
use cw721_base::expiration::Expiration;
use cw721_base::msg::{ExecuteMsg, InstantiateMsg, MintMsg};
use cw721_base::response::Response;
use cw721_base::state::{Approval, Cw721Contract, TokenInfo};

fn env_at(height: u64) -> Env {
    Env { block: BlockInfo { height, time: 1_000 + height } }
}

fn sender(name: &str) -> MessageInfo {
    MessageInfo { sender: name.to_string() }
}

fn new_collection() -> Cw721Contract<()> {
    Cw721Contract::instantiate(
        &env_at(1),
        &sender("creator"),
        InstantiateMsg {
            name: "Ships".to_string(),
            symbol: "SHIP".to_string(),
            minter: "minter".to_string(),
        },
    )
}

fn mint_msg(id: &str, owner: &str) -> MintMsg<()> {
    MintMsg { token_id: id.to_string(), owner: owner.to_string(), token_uri: None, extension: () }
}

fn minted(id: &str, owner: &str) -> Cw721Contract<()> {
    let mut c = new_collection();
    c.mint(&env_at(1), &sender("minter"), mint_msg(id, owner)).unwrap();
    c
}

fn attrs(r: &Response) -> Vec<(String, String)> {
    r.attributes.iter().map(|a| (a.key.clone(), a.value.clone())).collect()
}

fn pairs(v: &[(&str, &str)]) -> Vec<(String, String)> {
    v.iter().map(|(k, v)| (k.to_string(), v.to_string())).collect()
}

fn owner_of(c: &Cw721Contract<()>, id: &str) -> String {
    c.get_token(&id.to_string()).unwrap().owner.clone()
}

#[test]
fn mint_by_minter_creates_record() {
    let mut c = new_collection();
    let r = c.mint(&env_at(1), &sender("minter"), mint_msg("1", "alice")).unwrap();
    assert_eq!(c.token_count(), 1);
    let tok = c.get_token(&"1".to_string()).unwrap();
    assert_eq!(tok.owner, "alice");
    assert!(tok.approvals.is_empty());
    assert_eq!(tok.token_uri, None);
    assert_eq!(
        attrs(&r),
        pairs(&[("action", "mint"), ("minter", "minter"), ("owner", "alice"), ("token_id", "1")])
    );
    assert!(r.messages.is_empty());
}

#[test]
fn mint_keeps_token_uri() {
    let mut c = new_collection();
    let m = MintMsg {
        token_id: "7".to_string(),
        owner: "alice".to_string(),
        token_uri: Some("https://example.com/7.json".to_string()),
        extension: (),
    };
    c.mint(&env_at(1), &sender("minter"), m).unwrap();
    let tok = c.get_token(&"7".to_string()).unwrap();
    assert_eq!(tok.token_uri, Some("https://example.com/7.json".to_string()));
}

#[test]
fn mint_by_other_account_is_unauthorized() {
    let mut c = new_collection();
    let r = c.mint(&env_at(1), &sender("alice"), mint_msg("1", "alice"));
    assert!(matches!(r, Err(ContractError::Unauthorized)));
    assert_eq!(c.token_count(), 0);
    assert!(c.get_token(&"1".to_string()).is_none());
}

#[test]
fn mint_of_live_id_already_exists() {
    let mut c = minted("1", "alice");
    let r = c.mint(&env_at(1), &sender("minter"), mint_msg("1", "bob"));
    assert!(matches!(r, Err(ContractError::AlreadyExists)));
    assert_eq!(c.token_count(), 1);
    assert_eq!(owner_of(&c, "1"), "alice");
}

#[test]
fn approved_spender_transfers_before_expiry() {
    let mut c = minted("1", "alice");
    c.approve(&env_at(10), &sender("alice"), "bob".to_string(), "1".to_string(), Some(Expiration::AtHeight(100)))
        .unwrap();
    let r = c
        .transfer_nft(&env_at(50), &sender("bob"), "carol".to_string(), "1".to_string())
        .unwrap();
    let tok = c.get_token(&"1".to_string()).unwrap();
    assert_eq!(tok.owner, "carol");
    assert!(tok.approvals.is_empty());
    assert_eq!(
        attrs(&r),
        pairs(&[("action", "transfer"), ("sender", "bob"), ("recipient", "carol"), ("token_id", "1")])
    );
}

#[test]
fn expired_approval_cannot_transfer() {
    let mut c = minted("1", "alice");
    c.approve(&env_at(10), &sender("alice"), "bob".to_string(), "1".to_string(), Some(Expiration::AtHeight(100)))
        .unwrap();
    let r = c.transfer_nft(&env_at(150), &sender("bob"), "carol".to_string(), "1".to_string());
    assert!(matches!(r, Err(ContractError::Unauthorized)));
    assert_eq!(owner_of(&c, "1"), "alice");
    assert_eq!(c.get_token(&"1".to_string()).unwrap().approvals.len(), 1);
}

#[test]
fn operator_transfers_without_token_approval() {
    let mut c = minted("1", "alice");
    let r = c.approve_all(&env_at(10), &sender("alice"), "dave".to_string(), None).unwrap();
    assert_eq!(attrs(&r), pairs(&[("action", "approve_all"), ("sender", "alice"), ("operator", "dave")]));
    assert_eq!(c.operator_expiration(&"alice".to_string(), &"dave".to_string()), Some(Expiration::Never));
    assert!(c.get_token(&"1".to_string()).unwrap().approvals.is_empty());
    c.transfer_nft(&env_at(20), &sender("dave"), "eve".to_string(), "1".to_string()).unwrap();
    assert_eq!(owner_of(&c, "1"), "eve");
}

#[test]
fn burn_then_remint_same_id() {
    let mut c = minted("1", "carol");
    let r = c.burn(&env_at(5), &sender("carol"), "1".to_string()).unwrap();
    assert_eq!(attrs(&r), pairs(&[("action", "burn"), ("sender", "carol"), ("token_id", "1")]));
    assert_eq!(c.token_count(), 0);
    assert!(c.get_token(&"1".to_string()).is_none());
    c.mint(&env_at(6), &sender("minter"), mint_msg("1", "frank")).unwrap();
    assert_eq!(c.token_count(), 1);
    assert_eq!(owner_of(&c, "1"), "frank");
}

#[test]
fn burn_by_stranger_is_unauthorized() {
    let mut c = minted("1", "carol");
    let r = c.burn(&env_at(5), &sender("mallory"), "1".to_string());
    assert!(matches!(r, Err(ContractError::Unauthorized)));
    assert_eq!(c.token_count(), 1);
}

#[test]
fn burn_missing_token_not_found() {
    let mut c = minted("1", "carol");
    let r = c.burn(&env_at(5), &sender("carol"), "2".to_string());
    assert!(matches!(r, Err(ContractError::NotFound)));
    assert_eq!(c.token_count(), 1);
}

#[test]
fn transfer_missing_token_not_found() {
    let mut c = new_collection();
    let r = c.transfer_nft(&env_at(5), &sender("alice"), "bob".to_string(), "9".to_string());
    assert!(matches!(r, Err(ContractError::NotFound)));
}

#[test]
fn transfer_by_stranger_is_unauthorized() {
    let mut c = minted("1", "alice");
    let r = c.transfer_nft(&env_at(5), &sender("mallory"), "mallory".to_string(), "1".to_string());
    assert!(matches!(r, Err(ContractError::Unauthorized)));
    assert_eq!(owner_of(&c, "1"), "alice");
}

#[test]
fn transfer_by_operator_clears_approvals() {
    let mut c = minted("1", "alice");
    c.approve(&env_at(5), &sender("alice"), "bob".to_string(), "1".to_string(), None).unwrap();
    c.approve_all(&env_at(5), &sender("alice"), "dave".to_string(), Some(Expiration::AtTime(10_000)))
        .unwrap();
    c.transfer_nft(&env_at(6), &sender("dave"), "eve".to_string(), "1".to_string()).unwrap();
    assert!(c.get_token(&"1".to_string()).unwrap().approvals.is_empty());
    let r = c.transfer_nft(&env_at(7), &sender("bob"), "bob".to_string(), "1".to_string());
    assert!(matches!(r, Err(ContractError::Unauthorized)));
}

#[test]
fn send_builds_notification() {
    let mut c = minted("1", "alice");
    let r = c
        .send_nft(&env_at(5), &sender("alice"), "market".to_string(), "1".to_string(), vec![1, 2, 3])
        .unwrap();
    assert_eq!(owner_of(&c, "1"), "market");
    assert_eq!(
        attrs(&r),
        pairs(&[("action", "send"), ("sender", "alice"), ("recipient", "market"), ("token_id", "1")])
    );
    assert_eq!(r.messages.len(), 1);
    assert_eq!(r.messages[0].contract_addr, "market");
    assert_eq!(r.messages[0].msg.sender, "alice");
    assert_eq!(r.messages[0].msg.token_id, "1");
    assert_eq!(r.messages[0].msg.msg, vec![1, 2, 3]);
}

#[test]
fn approve_with_elapsed_expiration_is_expired() {
    let mut c = minted("1", "alice");
    let r = c.approve(&env_at(100), &sender("alice"), "bob".to_string(), "1".to_string(), Some(Expiration::AtHeight(100)));
    assert!(matches!(r, Err(ContractError::Expired)));
    assert!(c.get_token(&"1".to_string()).unwrap().approvals.is_empty());
}

#[test]
fn approve_all_with_elapsed_expiration_is_expired() {
    let mut c = minted("1", "alice");
    let r = c.approve_all(&env_at(20), &sender("alice"), "dave".to_string(), Some(Expiration::AtTime(1_020)));
    assert!(matches!(r, Err(ContractError::Expired)));
    assert_eq!(c.operator_expiration(&"alice".to_string(), &"dave".to_string()), None);
}

#[test]
fn approve_twice_keeps_one_entry() {
    let mut c = minted("1", "alice");
    c.approve(&env_at(5), &sender("alice"), "bob".to_string(), "1".to_string(), Some(Expiration::AtHeight(50)))
        .unwrap();
    c.approve(&env_at(5), &sender("alice"), "carl".to_string(), "1".to_string(), None).unwrap();
    let r = c
        .approve(&env_at(6), &sender("alice"), "bob".to_string(), "1".to_string(), Some(Expiration::AtHeight(80)))
        .unwrap();
    assert_eq!(
        attrs(&r),
        pairs(&[("action", "approve"), ("sender", "alice"), ("spender", "bob"), ("token_id", "1")])
    );
    let tok = c.get_token(&"1".to_string()).unwrap();
    let bobs: Vec<_> = tok.approvals.iter().filter(|a| a.spender == "bob").collect();
    assert_eq!(bobs.len(), 1);
    assert_eq!(bobs[0].expires, Expiration::AtHeight(80));
    assert_eq!(tok.approvals.len(), 2);
    assert_eq!(tok.approvals[0].spender, "carl");
}

#[test]
fn approve_by_stranger_is_unauthorized() {
    let mut c = minted("1", "alice");
    let r = c.approve(&env_at(5), &sender("mallory"), "mallory".to_string(), "1".to_string(), None);
    assert!(matches!(r, Err(ContractError::Unauthorized)));
    let r = c.approve(&env_at(5), &sender("alice"), "bob".to_string(), "2".to_string(), None);
    assert!(matches!(r, Err(ContractError::NotFound)));
}

#[test]
fn operator_may_approve_until_grant_expires() {
    let mut c = minted("1", "alice");
    c.approve_all(&env_at(5), &sender("alice"), "dave".to_string(), Some(Expiration::AtHeight(30)))
        .unwrap();
    c.approve(&env_at(10), &sender("dave"), "bob".to_string(), "1".to_string(), None).unwrap();
    assert_eq!(c.get_token(&"1".to_string()).unwrap().approvals.len(), 1);
    let r = c.revoke(&env_at(30), &sender("dave"), "bob".to_string(), "1".to_string());
    assert!(matches!(r, Err(ContractError::Unauthorized)));
}

#[test]
fn revoke_is_idempotent() {
    let mut c = minted("1", "alice");
    c.approve(&env_at(5), &sender("alice"), "bob".to_string(), "1".to_string(), None).unwrap();
    let r = c.revoke(&env_at(6), &sender("alice"), "bob".to_string(), "1".to_string()).unwrap();
    assert_eq!(
        attrs(&r),
        pairs(&[("action", "revoke"), ("sender", "alice"), ("spender", "bob"), ("token_id", "1")])
    );
    assert!(c.get_token(&"1".to_string()).unwrap().approvals.is_empty());
    c.revoke(&env_at(7), &sender("alice"), "bob".to_string(), "1".to_string()).unwrap();
    assert!(c.get_token(&"1".to_string()).unwrap().approvals.is_empty());
    assert_eq!(owner_of(&c, "1"), "alice");
}

#[test]
fn revoke_all_is_idempotent() {
    let mut c = minted("1", "alice");
    c.approve_all(&env_at(5), &sender("alice"), "dave".to_string(), None).unwrap();
    let r = c.revoke_all(&env_at(6), &sender("alice"), "dave".to_string()).unwrap();
    assert_eq!(attrs(&r), pairs(&[("action", "revoke_all"), ("sender", "alice"), ("operator", "dave")]));
    assert_eq!(c.operator_expiration(&"alice".to_string(), &"dave".to_string()), None);
    c.revoke_all(&env_at(7), &sender("alice"), "dave".to_string()).unwrap();
    assert_eq!(c.operator_expiration(&"alice".to_string(), &"dave".to_string()), None);
    let r = c.transfer_nft(&env_at(8), &sender("dave"), "dave".to_string(), "1".to_string());
    assert!(matches!(r, Err(ContractError::Unauthorized)));
}

#[test]
fn expiration_compares_height_and_time() {
    let b = BlockInfo { height: 100, time: 5_000 };
    assert!(Expiration::AtHeight(100).is_expired(&b));
    assert!(!Expiration::AtHeight(101).is_expired(&b));
    assert!(Expiration::AtTime(5_000).is_expired(&b));
    assert!(!Expiration::AtTime(5_001).is_expired(&b));
    assert!(!Expiration::Never.is_expired(&b));
    assert_eq!(Expiration::default(), Expiration::Never);
}

#[test]
fn execute_dispatches_requests() {
    let mut c = new_collection();
    let e = env_at(5);
    c.execute::<()>(&e, &sender("minter"), ExecuteMsg::Mint(mint_msg("1", "alice"))).unwrap();
    c.execute::<()>(
        &e,
        &sender("alice"),
        ExecuteMsg::TransferNft { recipient: "bob".to_string(), token_id: "1".to_string() },
    )
    .unwrap();
    assert_eq!(owner_of(&c, "1"), "bob");
    let r = c.execute::<()>(&e, &sender("alice"), ExecuteMsg::Burn { token_id: "1".to_string() });
    assert!(matches!(r, Err(ContractError::Unauthorized)));
    let r = c.execute(&e, &sender("alice"), ExecuteMsg::Extension { msg: 3u8 }).unwrap();
    assert!(r.attributes.is_empty());
    c.execute::<()>(&e, &sender("bob"), ExecuteMsg::Burn { token_id: "1".to_string() }).unwrap();
    assert_eq!(c.token_count(), 0);
}

#[test]
fn counter_tracks_mints_and_burns() {
    let mut c = new_collection();
    for i in 0..5u32 {
        c.mint(&env_at(1), &sender("minter"), mint_msg(&i.to_string(), "alice")).unwrap();
    }
    assert_eq!(c.token_count(), 5);
    c.burn(&env_at(2), &sender("alice"), "3".to_string()).unwrap();
    assert_eq!(c.token_count(), 4);
    assert!(c.get_token(&"3".to_string()).is_none());
    assert_eq!(owner_of(&c, "4"), "alice");
}

#[test]
fn owner_index_follows_transfers() {
    let mut c = new_collection();
    c.mint(&env_at(1), &sender("minter"), mint_msg("1", "alice")).unwrap();
    c.mint(&env_at(1), &sender("minter"), mint_msg("2", "alice")).unwrap();
    c.mint(&env_at(1), &sender("minter"), mint_msg("3", "bob")).unwrap();
    let sorted = |mut v: Vec<String>| {
        v.sort();
        v
    };
    assert_eq!(sorted(c.tokens_of(&"alice".to_string())), vec!["1".to_string(), "2".to_string()]);
    c.transfer_nft(&env_at(2), &sender("alice"), "bob".to_string(), "2".to_string()).unwrap();
    assert_eq!(sorted(c.tokens_of(&"alice".to_string())), vec!["1".to_string()]);
    assert_eq!(sorted(c.tokens_of(&"bob".to_string())), vec!["2".to_string(), "3".to_string()]);
    c.burn(&env_at(3), &sender("bob"), "3".to_string()).unwrap();
    assert_eq!(sorted(c.tokens_of(&"bob".to_string())), vec!["2".to_string()]);
    assert!(c.tokens_of(&"carol".to_string()).is_empty());
}

#[test]
fn restore_rebuilds_collection() {
    let mut c = new_collection();
    let tok = TokenInfo {
        owner: "alice".to_string(),
        approvals: vec![
            Approval { spender: "bob".to_string(), expires: Expiration::AtHeight(5) },
            Approval { spender: "carl".to_string(), expires: Expiration::Never },
            Approval { spender: "bob".to_string(), expires: Expiration::AtHeight(9) },
        ],
        token_uri: None,
        extension: (),
    };
    c.restore_token("1".to_string(), tok).unwrap();
    assert_eq!(c.token_count(), 1);
    let t = c.get_token(&"1".to_string()).unwrap();
    assert_eq!(t.approvals.len(), 2);
    assert_eq!(t.approvals[0].spender, "carl");
    assert_eq!(t.approvals[1].spender, "bob");
    assert_eq!(t.approvals[1].expires, Expiration::AtHeight(9));
    let again = TokenInfo { owner: "zed".to_string(), approvals: vec![], token_uri: None, extension: () };
    assert!(matches!(c.restore_token("1".to_string(), again), Err(ContractError::AlreadyExists)));
    c.restore_grant("alice".to_string(), "dave".to_string(), Expiration::AtHeight(40));
    assert_eq!(c.grants().len(), 1);
    assert_eq!(c.records().len(), 1);
    c.transfer_nft(&env_at(39), &sender("dave"), "eve".to_string(), "1".to_string()).unwrap();
    assert_eq!(owner_of(&c, "1"), "eve");
}

#[test]
fn instantiate_keeps_name_and_symbol() {
    let c = new_collection();
    assert_eq!(c.contract_info().name, "Ships");
    assert_eq!(c.contract_info().symbol, "SHIP");
    assert_eq!(c.minter(), "minter");
    assert_eq!(c.token_count(), 0);
}

#[test]
fn execute_returns_handler_response() {
    let mut c = minted("1", "alice");
    let r = c
        .execute::<()>(
            &env_at(5),
            &sender("alice"),
            ExecuteMsg::SendNft { contract: "market".to_string(), token_id: "1".to_string(), msg: vec![9] },
        )
        .unwrap();
    assert_eq!(
        attrs(&r),
        pairs(&[("action", "send"), ("sender", "alice"), ("recipient", "market"), ("token_id", "1")])
    );
    assert_eq!(r.messages.len(), 1);
    assert_eq!(r.messages[0].contract_addr, "market");
    assert_eq!(r.messages[0].msg.sender, "alice");
    assert_eq!(r.messages[0].msg.token_id, "1");
    assert_eq!(r.messages[0].msg.msg, vec![9]);
    let r = c
        .execute::<()>(&env_at(6), &sender("market"), ExecuteMsg::RevokeAll { operator: "dave".to_string() })
        .unwrap();
    assert_eq!(attrs(&r), pairs(&[("action", "revoke_all"), ("sender", "market"), ("operator", "dave")]));
    assert!(r.messages.is_empty());
}

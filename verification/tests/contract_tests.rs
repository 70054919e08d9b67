use cw_posts::contract::{
    compute_share, deposit_funds, execute, get_balance, instantiate, latest_posts, post_count,
    query, withdraw_funds,
};
use cw_posts::error::{ContractError, PaymentError};
use cw_posts::msg::{
    AttrValue, AuthMeta, AuthOutcome, AuthToken, Coin, ExecuteMsg, InstantiateMsg, MessageInfo,
    PostMsg, QueryAnswer, QueryMsg,
};
use cw_posts::contract::Contract;

fn info(sender: &str, funds: Vec<Coin>) -> MessageInfo {
    MessageInfo {
        sender: sender.to_string(),
        funds,
    }
}

fn coins(amount: u128, denom: &str) -> Vec<Coin> {
    vec![Coin {
        denom: denom.to_string(),
        amount,
    }]
}

/// name_chars 20, post_chars 140, post_fee 10000, agent_cut 90, owner "creator".
fn setup() -> Contract {
    let msg = InstantiateMsg {
        name_chars: 20,
        post_chars: 140,
        agent_cut: 90,
        post_fee: 10000,
    };
    let (contract, _) = instantiate(info("creator", coins(1000, "earth")), msg);
    contract
}

fn fund(contract: &mut Contract, who: &str, amount: u128) {
    let res = deposit_funds(contract, info(who, coins(amount, "ujunox")), amount);
    assert!(res.is_ok());
}

fn balance_of(contract: &Contract, who: &str) -> u128 {
    get_balance(contract, &who.to_string()).balance
}

fn token(user: &str, agent: &str, username: &str) -> AuthToken {
    AuthToken {
        user: user.to_string(),
        agent: agent.to_string(),
        meta: AuthMeta {
            username: username.to_string(),
        },
    }
}

fn post_msg(user: &str, agent: &str, username: &str, content: &str) -> ExecuteMsg {
    ExecuteMsg::Post {
        auth: AuthOutcome::Verified(token(user, agent, username)),
        msg: PostMsg {
            content: content.to_string(),
        },
    }
}

#[test]
fn proper_initialization() {
    let msg = InstantiateMsg {
        name_chars: 20,
        post_chars: 140,
        post_fee: 10000,
        agent_cut: 90,
    };
    let creator = info("creator", coins(1000, "earth"));

    let (contract, res) = instantiate(creator, msg);
    assert_eq!(0, res.messages.len());

    let answer = query(&contract, QueryMsg::PostCount);
    match answer {
        QueryAnswer::PostCount(value) => assert_eq!(0, value.count),
        _ => panic!("wrong answer variant"),
    }
}

#[test]
fn instantiate_acknowledges_method_and_owner() {
    let msg = InstantiateMsg {
        name_chars: 20,
        post_chars: 140,
        post_fee: 10000,
        agent_cut: 90,
    };
    let (_, res) = instantiate(info("creator", vec![]), msg);
    assert_eq!(2, res.attributes.len());
    assert_eq!("method", res.attributes[0].key);
    assert!(matches!(&res.attributes[0].value, AttrValue::Text(t) if t == "instantiate"));
    assert_eq!("owner", res.attributes[1].key);
    assert!(matches!(&res.attributes[1].value, AttrValue::Text(t) if t == "creator"));
}

#[test]
fn post_splits_fee_between_owner_and_agent() {
    let mut contract = setup();
    fund(&mut contract, "user1", 10000);

    let res = execute(
        &mut contract,
        info("user1", vec![]),
        post_msg("user1", "agentx", "alice", "hello tmrw"),
    );
    let response = res.unwrap();
    assert_eq!(1, response.attributes.len());
    assert_eq!("method", response.attributes[0].key);
    assert!(matches!(&response.attributes[0].value, AttrValue::Text(t) if t == "post"));
    assert_eq!(0, response.messages.len());

    assert_eq!(0, balance_of(&contract, "user1"));
    assert_eq!(1000, balance_of(&contract, "creator"));
    assert_eq!(9000, balance_of(&contract, "agentx"));

    assert_eq!(1, post_count(&contract).count);
    let latest = latest_posts(&contract, Some(1));
    assert_eq!(1, latest.posts.len());
    assert_eq!("user1", latest.posts[0].user_addr);
    assert_eq!("alice", latest.posts[0].username);
    assert_eq!("hello tmrw", latest.posts[0].content);
}

#[test]
fn post_with_short_balance_moves_nothing() {
    let mut contract = setup();
    fund(&mut contract, "user1", 9999);

    let res = execute(
        &mut contract,
        info("user1", vec![]),
        post_msg("user1", "agentx", "alice", "hello tmrw"),
    );
    match res {
        Err(ContractError::InsufficientFunds { got, needed }) => {
            // the owner leg (1000) went through first; the agent leg
            // found 8999 of the 9000 it needed, and both were undone
            assert_eq!(8999, got);
            assert_eq!(9000, needed);
        }
        _ => panic!("expected an insufficient-funds failure"),
    }
    assert_eq!(9999, balance_of(&contract, "user1"));
    assert_eq!(0, balance_of(&contract, "creator"));
    assert_eq!(0, balance_of(&contract, "agentx"));
    assert_eq!(0, post_count(&contract).count);
}

#[test]
fn post_content_over_limit_fails_before_any_movement() {
    let mut contract = setup();
    fund(&mut contract, "user1", 10000);

    let long_content = "a".repeat(141);
    let res = execute(
        &mut contract,
        info("user1", vec![]),
        post_msg("user1", "agentx", "alice", &long_content),
    );
    match res {
        Err(ContractError::ExceededCharLimit { field, length, max }) => {
            assert_eq!("content", field);
            assert_eq!(141, length);
            assert_eq!(140, max);
        }
        _ => panic!("expected a char-limit failure"),
    }
    assert_eq!(10000, balance_of(&contract, "user1"));
    assert_eq!(0, post_count(&contract).count);
}

#[test]
fn post_username_over_limit_fails_after_content_check() {
    let mut contract = setup();
    fund(&mut contract, "user1", 10000);

    let long_name = "n".repeat(21);
    let res = execute(
        &mut contract,
        info("user1", vec![]),
        post_msg("user1", "agentx", &long_name, "hello tmrw"),
    );
    match res {
        Err(ContractError::ExceededCharLimit { field, length, max }) => {
            assert_eq!("username", field);
            assert_eq!(21, length);
            assert_eq!(20, max);
        }
        _ => panic!("expected a char-limit failure"),
    }

    // when both fields are too long, the content error surfaces first
    let long_content = "a".repeat(141);
    let res = execute(
        &mut contract,
        info("user1", vec![]),
        post_msg("user1", "agentx", &long_name, &long_content),
    );
    match res {
        Err(ContractError::ExceededCharLimit { field, .. }) => assert_eq!("content", field),
        _ => panic!("expected a char-limit failure"),
    }
}

#[test]
fn post_rejected_token_is_unauthorized() {
    let mut contract = setup();
    fund(&mut contract, "user1", 10000);

    let res = execute(
        &mut contract,
        info("user1", vec![]),
        ExecuteMsg::Post {
            auth: AuthOutcome::Rejected,
            msg: PostMsg {
                content: "hello tmrw".to_string(),
            },
        },
    );
    assert!(matches!(res, Err(ContractError::Unauthorized)));
    assert_eq!(10000, balance_of(&contract, "user1"));
    assert_eq!(0, post_count(&contract).count);
}

#[test]
fn byte_length_wraps_at_256() {
    // lengths are a byte count carried in 8 bits: 256 bytes read as 0
    // and pass a limit of 140
    let mut contract = setup();
    fund(&mut contract, "user1", 10000);

    let wrapped = "a".repeat(256);
    let res = execute(
        &mut contract,
        info("user1", vec![]),
        post_msg("user1", "agentx", "alice", &wrapped),
    );
    assert!(res.is_ok());
    assert_eq!(1, post_count(&contract).count);
}

#[test]
fn deposit_credits_declared_amount() {
    let mut contract = setup();
    let res = deposit_funds(&mut contract, info("user1", coins(500, "ujunox")), 500);
    let response = res.unwrap();
    assert_eq!(500, balance_of(&contract, "user1"));
    assert_eq!("action", response.attributes[0].key);
    assert!(matches!(&response.attributes[0].value, AttrValue::Text(t) if t == "deposit_funds"));
    assert_eq!("balance", response.attributes[1].key);
    assert!(matches!(response.attributes[1].value, AttrValue::Amount(b) if b == 500));
    assert_eq!(0, response.messages.len());
}

#[test]
fn deposit_underpayment_fails() {
    let mut contract = setup();
    let res = deposit_funds(&mut contract, info("user1", coins(400, "ujunox")), 500);
    match res {
        Err(ContractError::InsufficientFunds { got, needed }) => {
            assert_eq!(400, got);
            assert_eq!(500, needed);
        }
        _ => panic!("expected an insufficient-funds failure"),
    }
    assert_eq!(0, balance_of(&contract, "user1"));
}

#[test]
fn deposit_overpayment_credits_only_declared_amount() {
    let mut contract = setup();
    let res = deposit_funds(&mut contract, info("user1", coins(800, "ujunox")), 500);
    assert!(res.is_ok());
    assert_eq!(500, balance_of(&contract, "user1"));
}

#[test]
fn deposit_payment_errors() {
    let mut contract = setup();

    let res = deposit_funds(&mut contract, info("user1", vec![]), 500);
    assert!(matches!(
        res,
        Err(ContractError::Payment(PaymentError::NoFunds))
    ));

    let res = deposit_funds(&mut contract, info("user1", coins(0, "ujunox")), 0);
    assert!(matches!(
        res,
        Err(ContractError::Payment(PaymentError::NoFunds))
    ));

    let mut two = coins(500, "ujunox");
    two.push(Coin {
        denom: "earth".to_string(),
        amount: 1,
    });
    let res = deposit_funds(&mut contract, info("user1", two), 500);
    assert!(matches!(
        res,
        Err(ContractError::Payment(PaymentError::MultipleDenoms))
    ));

    let res = deposit_funds(&mut contract, info("user1", coins(500, "earth")), 500);
    match res {
        Err(ContractError::Payment(PaymentError::MissingDenom(d))) => assert_eq!("ujunox", d),
        _ => panic!("expected a missing-denomination failure"),
    }

    assert_eq!(0, balance_of(&contract, "user1"));
}

#[test]
fn deposit_overflow_is_fatal() {
    let mut contract = setup();
    fund(&mut contract, "user1", u128::MAX);
    let res = deposit_funds(&mut contract, info("user1", coins(1, "ujunox")), 1);
    assert!(matches!(res, Err(ContractError::Overflow)));
    assert_eq!(u128::MAX, balance_of(&contract, "user1"));
}

#[test]
fn withdraw_moves_balance_out() {
    let mut contract = setup();
    fund(&mut contract, "user1", 800);
    let res = withdraw_funds(&mut contract, info("user1", vec![]), 300);
    let response = res.unwrap();
    assert_eq!(500, balance_of(&contract, "user1"));
    assert_eq!("method", response.attributes[0].key);
    assert!(matches!(&response.attributes[0].value, AttrValue::Text(t) if t == "withdraw_funds"));
    assert!(matches!(response.attributes[1].value, AttrValue::Amount(b) if b == 500));
    assert_eq!(1, response.messages.len());
    assert_eq!("user1", response.messages[0].to_address);
    assert_eq!("ujunox", response.messages[0].denom);
    assert_eq!(300, response.messages[0].amount);
}

#[test]
fn withdraw_over_balance_emits_no_transfer() {
    let mut contract = setup();
    fund(&mut contract, "user1", 200);
    let res = withdraw_funds(&mut contract, info("user1", vec![]), 300);
    match res {
        Err(ContractError::InsufficientFunds { got, needed }) => {
            assert_eq!(200, got);
            assert_eq!(300, needed);
        }
        _ => panic!("expected an insufficient-funds failure"),
    }
    assert_eq!(200, balance_of(&contract, "user1"));
}

#[test]
fn deposit_then_withdraw_is_a_round_trip() {
    let mut contract = setup();
    fund(&mut contract, "user1", 700);
    let res = withdraw_funds(&mut contract, info("user1", vec![]), 700);
    assert!(res.is_ok());
    assert_eq!(0, balance_of(&contract, "user1"));
}

#[test]
fn share_formula_exact_values() {
    assert_eq!(9000, compute_share(10000, 90));
    assert_eq!(1000, compute_share(10000, 10));
    assert_eq!(3299, compute_share(9999, 33));
    assert_eq!(0, compute_share(10000, 0));
    assert_eq!(10000, compute_share(10000, 100));
    // floor rounding loses at most one minor unit across the two sides
    assert_eq!(4999 + 4999, compute_share(9999, 50) + compute_share(9999, 50));
}

#[test]
fn latest_posts_orders_newest_first() {
    let mut contract = setup();
    fund(&mut contract, "user1", 30000);
    for content in ["first", "second", "third"] {
        let res = execute(
            &mut contract,
            info("user1", vec![]),
            post_msg("user1", "agentx", "alice", content),
        );
        assert!(res.is_ok());
    }
    assert_eq!(3, post_count(&contract).count);

    let latest = latest_posts(&contract, None);
    assert_eq!(3, latest.posts.len());
    assert_eq!("third", latest.posts[0].content);
    assert_eq!("second", latest.posts[1].content);
    assert_eq!("first", latest.posts[2].content);

    let two = latest_posts(&contract, Some(2));
    assert_eq!(2, two.posts.len());
    assert_eq!("third", two.posts[0].content);

    match query(&contract, QueryMsg::LatestPosts { limit: Some(1) }) {
        QueryAnswer::LatestPosts(lp) => {
            assert_eq!(1, lp.posts.len());
            assert_eq!("third", lp.posts[0].content);
        }
        _ => panic!("wrong answer variant"),
    }
}

#[test]
fn query_get_balance_defaults_to_zero() {
    let contract = setup();
    match query(
        &contract,
        QueryMsg::GetBalance {
            addr: "nobody".to_string(),
        },
    ) {
        QueryAnswer::GetBalance(gb) => assert_eq!(0, gb.balance),
        _ => panic!("wrong answer variant"),
    }
}

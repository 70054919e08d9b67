//! The contract itself: configuration fixed at initialization, the
//! balance ledger, and the append-only post store, together with the
//! posting engine, the funding operations, and the read-only queries.
//! Every mutating operation either completes fully or leaves the whole
//! state exactly as it was: an operation that fails after its first
//! transfer leg rolls that leg back before it reports the error.

use vstd::prelude::*;

use crate::error::{ContractError, PaymentError};
use crate::ledger::{map_credit, map_debit, map_transfer, transfer_fits, Ledger};
use crate::msg::{
    Attribute, AttrValue, AuthMsg, AuthOutcome, Coin, ExecuteMsg, GetBalanceResponse,
    InstantiateMsg, LatestPostsResponse, MessageInfo, PostCountResponse, PostMsg, QueryAnswer,
    QueryMsg, Response, TransferMsg,
};
use crate::state::{Post, State};
use vstd::utf8::encode_utf8;

verus! {

/// The whole persisted state: the configuration, the per-address
/// balances, and the posts in order of creation. A post's id is its
/// one-based position, so ids are dense, strictly increasing, and never
/// reused.
pub struct Contract {
    state: State,
    funds: Ledger,
    posts: Vec<Post>,
}

impl Contract {
    /// The configuration written at initialization.
    pub closed spec fn config(self) -> State {
        self.state
    }

    /// The balance of every address; addresses never written read as 0.
    pub closed spec fn balances(self) -> Map<Seq<char>, u128> {
        self.funds@
    }

    /// The stored posts, oldest first; the post with id `i` sits at
    /// index `i - 1`.
    pub closed spec fn posts_seq(self) -> Seq<Post> {
        self.posts@
    }

    /// A contract is well-formed when its configuration is.
    pub open spec fn wf(self) -> bool {
        self.config().wf()
    }
}

/// The denomination of the native coin the contract accounts for.
pub open spec fn coin_denom() -> Seq<char> {
    "ujunox"@
}

/// The length a limit check sees: the byte length of the string, carried
/// in 8 bits, exactly as a narrowing cast of the byte count would carry
/// it.
pub open spec fn length_tag(s: Seq<char>) -> u8 {
    ((encode_utf8(s).len() as usize) % 256) as u8
}

/// floor(fee * pct / 100): the side of the fee a percentage names.
pub open spec fn share(fee: u128, pct: u8) -> u128 {
    (fee * pct / 100) as u128
}

/// The share of each post fee owed to the configured owner.
pub open spec fn owner_share(st: State) -> u128 {
    share(st.post_fee, (100 - st.agent_cut) as u8)
}

/// The share of each post fee owed to the agent the token names.
pub open spec fn agent_share(st: State) -> u128 {
    share(st.post_fee, st.agent_cut)
}

/// The record a successful post appends.
pub open spec fn new_post(msg: AuthMsg) -> Post {
    Post {
        user_addr: msg.auth_token.user,
        username: msg.auth_token.meta.username,
        content: msg.message.content,
    }
}

/// Neither the ledger nor the post store moved.
pub open spec fn unchanged(pre: Contract, next: Contract) -> bool {
    &&& next.balances() == pre.balances()
    &&& next.posts_seq() == pre.posts_seq()
}

/// The attribute carries this key and this text.
pub open spec fn attr_text(a: Attribute, key: Seq<char>, value: Seq<char>) -> bool {
    &&& a.key@ == key
    &&& (a.value matches AttrValue::Text(t) && t@ == value)
}

/// The attribute carries this key and this amount.
pub open spec fn attr_amount(a: Attribute, key: Seq<char>, value: u128) -> bool {
    &&& a.key@ == key
    &&& a.value == AttrValue::Amount(value)
}

/// A successful post answers with the method attribute alone and no
/// outbound transfer: the fee moves inside the ledger.
pub open spec fn post_response(resp: Response) -> bool {
    &&& resp.attributes@.len() == 1
    &&& attr_text(resp.attributes@[0], "method"@, "post"@)
    &&& resp.messages@.len() == 0
}

/// Everything `post` does, for every input: which check refuses first,
/// what each refusal leaves untouched, and what a success moves and
/// appends. The two transfer legs run in order — the owner leg, then the
/// agent leg on the ledger the owner leg left — and a failed second leg
/// rolls the first back.
pub open spec fn post_spec(
    pre: Contract,
    msg: AuthMsg,
    next: Contract,
    r: Result<Response, ContractError>,
) -> bool {
    let st = pre.config();
    let user = msg.auth_token.user@;
    let agent = msg.auth_token.agent@;
    let clen = length_tag(msg.message.content@);
    let nlen = length_tag(msg.auth_token.meta.username@);
    let osh = owner_share(st);
    let ash = agent_share(st);
    let m0 = pre.balances();
    let m1 = map_transfer(m0, user, st.owner@, osh);
    &&& next.config() == st
    &&& if clen > st.post_chars {
        &&& unchanged(pre, next)
        &&& (r matches Err(ContractError::ExceededCharLimit { field, length, max })
            && field@ == "content"@ && length == clen && max == st.post_chars)
    } else if nlen > st.name_chars {
        &&& unchanged(pre, next)
        &&& (r matches Err(ContractError::ExceededCharLimit { field, length, max })
            && field@ == "username"@ && length == nlen && max == st.name_chars)
    } else if m0[user] < osh {
        &&& unchanged(pre, next)
        &&& r == Err::<Response, ContractError>(
            (ContractError::InsufficientFunds { got: m0[user], needed: osh }),
        )
    } else if map_debit(m0, user, osh)[st.owner@] + osh > u128::MAX {
        &&& unchanged(pre, next)
        &&& r == Err::<Response, ContractError>(ContractError::Overflow)
    } else if m1[user] < ash {
        &&& unchanged(pre, next)
        &&& r == Err::<Response, ContractError>(
            (ContractError::InsufficientFunds { got: m1[user], needed: ash }),
        )
    } else if map_debit(m1, user, ash)[agent] + ash > u128::MAX {
        &&& unchanged(pre, next)
        &&& r == Err::<Response, ContractError>(ContractError::Overflow)
    } else {
        &&& next.balances() == map_transfer(m1, user, agent, ash)
        &&& next.posts_seq() == pre.posts_seq().push(new_post(msg))
        &&& (r matches Ok(resp) && post_response(resp))
    }
}

/// The attached payment is exactly one coin of the required
/// denomination, with a positive amount.
pub open spec fn valid_payment(funds: Seq<Coin>, denom: Seq<char>) -> bool {
    &&& funds.len() == 1
    &&& funds[0].amount > 0
    &&& funds[0].denom@ == denom
}

/// Which payment error an invalid attachment earns, in the order the
/// checks run: no coin, several coins, a zero amount, a wrong
/// denomination.
pub open spec fn payment_error_spec(funds: Seq<Coin>, denom: Seq<char>, e: PaymentError) -> bool {
    if funds.len() == 0 {
        e == PaymentError::NoFunds
    } else if funds.len() > 1 {
        e == PaymentError::MultipleDenoms
    } else if funds[0].amount == 0 {
        e == PaymentError::NoFunds
    } else {
        e matches PaymentError::MissingDenom(d) && d@ == denom
    }
}

/// Everything `deposit_funds` does: an invalid attachment and an
/// attachment below the declared amount are refused with nothing moved;
/// otherwise exactly the declared amount — not the full attachment — is
/// credited to the sender.
pub open spec fn deposit_spec(
    pre: Contract,
    info: MessageInfo,
    amount: u128,
    next: Contract,
    r: Result<Response, ContractError>,
) -> bool {
    let m0 = pre.balances();
    let sender = info.sender@;
    &&& next.config() == pre.config()
    &&& next.posts_seq() == pre.posts_seq()
    &&& if !valid_payment(info.funds@, coin_denom()) {
        &&& next.balances() == m0
        &&& (r matches Err(ContractError::Payment(e)) && payment_error_spec(
            info.funds@,
            coin_denom(),
            e,
        ))
    } else if info.funds@[0].amount < amount {
        &&& next.balances() == m0
        &&& r == Err::<Response, ContractError>(
            (ContractError::InsufficientFunds { got: info.funds@[0].amount, needed: amount }),
        )
    } else if m0[sender] + amount > u128::MAX {
        &&& next.balances() == m0
        &&& r == Err::<Response, ContractError>(ContractError::Overflow)
    } else {
        &&& next.balances() == map_credit(m0, sender, amount)
        &&& (r matches Ok(resp) && {
            &&& resp.attributes@.len() == 2
            &&& attr_text(resp.attributes@[0], "action"@, "deposit_funds"@)
            &&& attr_amount(resp.attributes@[1], "balance"@, (m0[sender] + amount) as u128)
            &&& resp.messages@.len() == 0
        })
    }
}

/// Everything `withdraw_funds` does: an uncovered amount is refused with
/// nothing moved and no outbound instruction; otherwise the sender's
/// balance drops by the amount and exactly one outbound transfer of that
/// amount to the sender is instructed.
pub open spec fn withdraw_spec(
    pre: Contract,
    info: MessageInfo,
    amount: u128,
    next: Contract,
    r: Result<Response, ContractError>,
) -> bool {
    let m0 = pre.balances();
    let sender = info.sender@;
    &&& next.config() == pre.config()
    &&& next.posts_seq() == pre.posts_seq()
    &&& if m0[sender] < amount {
        &&& next.balances() == m0
        &&& r == Err::<Response, ContractError>(
            (ContractError::InsufficientFunds { got: m0[sender], needed: amount }),
        )
    } else {
        &&& next.balances() == map_debit(m0, sender, amount)
        &&& (r matches Ok(resp) && {
            &&& resp.attributes@.len() == 2
            &&& attr_text(resp.attributes@[0], "method"@, "withdraw_funds"@)
            &&& attr_amount(resp.attributes@[1], "balance"@, (m0[sender] - amount) as u128)
            &&& resp.messages@.len() == 1
            &&& resp.messages@[0].to_address@ == sender
            &&& resp.messages@[0].denom@ == coin_denom()
            &&& resp.messages@[0].amount == amount
        })
    }
}

/// Up to `limit` (10 when unspecified) most recent posts, newest first.
pub open spec fn latest_posts_spec(c: Contract, limit: Option<u8>, out: Seq<Post>) -> bool {
    let lim = (match limit {
        Some(l) => l,
        None => 10u8,
    }) as int;
    let total = c.posts_seq().len() as int;
    let n = if lim <= total {
        lim
    } else {
        total
    };
    &&& out.len() == n
    &&& forall|i: int| 0 <= i < n ==> out[i] == c.posts_seq()[total - 1 - i]
}

/// Computes `share(fee, pct)` without overflowing 128 bits, on the
/// quotient and remainder of the fee by 100 separately.
pub fn compute_share(fee: u128, pct: u8) -> (r: u128)
    requires
        pct <= 100,
    ensures
        r == share(fee, pct),
        r <= fee,
{
    let q: u128 = fee / 100;
    let rem: u128 = fee % 100;
    let p: u128 = pct as u128;
    proof {
        assert(q * p <= q * 100) by (nonlinear_arith)
            requires
                p <= 100,
                q >= 0,
        ;
        assert(100 * q + rem == fee && rem < 100) by {
            vstd::arithmetic::div_mod::lemma_fundamental_div_mod(fee as int, 100);
            vstd::arithmetic::div_mod::lemma_mod_bound(fee as int, 100);
        }
        assert(q * 100 <= fee);
        assert(rem * p <= 9900) by (nonlinear_arith)
            requires
                rem < 100,
                p <= 100,
        ;
    }
    let whole: u128 = q * p;
    let frac: u128 = (rem * p) / 100;
    proof {
        assert(fee * p == (rem * p) + (q * p) * 100) by (nonlinear_arith)
            requires
                fee == 100 * q + rem,
        ;
        vstd::arithmetic::div_mod::lemma_hoist_over_denominator(rem * p, q * p, 100nat);
        assert(whole + frac == fee * p / 100);
        assert(fee * p <= fee * 100) by (nonlinear_arith)
            requires
                p <= 100,
                fee >= 0,
        ;
        vstd::arithmetic::div_mod::lemma_div_is_ordered(fee * p, fee * 100, 100);
        assert(fee * 100 / 100 == fee) by {
            vstd::arithmetic::div_mod::lemma_div_multiples_vanish(fee as int, 100);
        }
    }
    whole + frac
}

/// Stands in front of the posting engine: it trusts the collaborator's
/// verdict, pairs the decoded token with the action on success, and
/// refuses with `Unauthorized` when the collaborator refused.
pub fn authorize(auth: AuthOutcome, message: PostMsg) -> (r: Result<AuthMsg, ContractError>)
    ensures
        match auth {
            AuthOutcome::Verified(token) => r == Ok::<AuthMsg, ContractError>(
                (AuthMsg { auth_token: token, message }),
            ),
            AuthOutcome::Rejected => r == Err::<AuthMsg, ContractError>(
                ContractError::Unauthorized,
            ),
        },
{
    match auth {
        AuthOutcome::Verified(token) => Ok(AuthMsg { auth_token: token, message }),
        AuthOutcome::Rejected => Err(ContractError::Unauthorized),
    }
}

/// Checks that exactly one coin of `denom` with a positive amount is
/// attached and returns its amount; the error says what was wrong, in
/// the order the checks run.
pub fn must_pay(info: &MessageInfo, denom: &String) -> (r: Result<u128, PaymentError>)
    ensures
        info.funds@.len() == 0 ==> r == Err::<u128, PaymentError>(PaymentError::NoFunds),
        info.funds@.len() > 1 ==> r == Err::<u128, PaymentError>(PaymentError::MultipleDenoms),
        info.funds@.len() == 1 && info.funds@[0].amount == 0 ==> r == Err::<u128, PaymentError>(
            PaymentError::NoFunds,
        ),
        info.funds@.len() == 1 && info.funds@[0].amount > 0 && info.funds@[0].denom@ != denom@
            ==> (r matches Err(PaymentError::MissingDenom(d)) && d@ == denom@),
        info.funds@.len() == 1 && info.funds@[0].amount > 0 && info.funds@[0].denom@ == denom@
            ==> r == Ok::<u128, PaymentError>(info.funds@[0].amount),
{
    if info.funds.len() == 0 {
        Err(PaymentError::NoFunds)
    } else if info.funds.len() > 1 {
        Err(PaymentError::MultipleDenoms)
    } else {
        let amount: u128 = info.funds[0].amount;
        if amount == 0 {
            Err(PaymentError::NoFunds)
        } else if info.funds[0].denom == *denom {
            Ok(amount)
        } else {
            Err(PaymentError::MissingDenom(denom.clone()))
        }
    }
}

/// Writes the configuration — the sender becomes the owner — beside an
/// empty ledger and an empty post store, and acknowledges with the
/// method and owner attributes.
pub fn instantiate(info: MessageInfo, msg: InstantiateMsg) -> (r: (Contract, Response))
    requires
        msg.agent_cut <= 100,
    ensures
        r.0.wf(),
        r.0.config() == (State {
            owner: info.sender,
            name_chars: msg.name_chars,
            post_chars: msg.post_chars,
            agent_cut: msg.agent_cut,
            post_fee: msg.post_fee,
        }),
        forall|a: Seq<char>| r.0.balances()[a] == 0,
        r.0.posts_seq().len() == 0,
        r.1.attributes@.len() == 2,
        attr_text(r.1.attributes@[0], "method"@, "instantiate"@),
        attr_text(r.1.attributes@[1], "owner"@, info.sender@),
        r.1.messages@.len() == 0,
{
    let owner_attr: String = info.sender.clone();
    let contract = Contract {
        state: State {
            owner: info.sender,
            name_chars: msg.name_chars,
            post_chars: msg.post_chars,
            agent_cut: msg.agent_cut,
            post_fee: msg.post_fee,
        },
        funds: Ledger::new(),
        posts: Vec::new(),
    };
    let mut attributes: Vec<Attribute> = Vec::new();
    attributes.push(
        Attribute { key: "method".to_owned(), value: AttrValue::Text("instantiate".to_owned()) },
    );
    attributes.push(Attribute { key: "owner".to_owned(), value: AttrValue::Text(owner_attr) });
    (contract, Response { attributes, messages: Vec::new() })
}

/// The posting engine: validates the content and username lengths
/// against the configured limits (content first), moves the owner's and
/// then the agent's share of the post fee from the poster, and appends
/// the post. A failure at any step leaves every balance and the post
/// store exactly as they were — in particular, a failed second transfer
/// leg rolls the first leg back — and a failed post never consumes an
/// id.
pub fn post(c: &mut Contract, msg: AuthMsg) -> (r: Result<Response, ContractError>)
    requires
        old(c).wf(),
    ensures
        final(c).wf(),
        post_spec(*old(c), msg, *final(c), r),
{
    let content_length: u8 = (msg.message.content.as_str().len() % 256) as u8;
    let name_length: u8 = (msg.auth_token.meta.username.as_str().len() % 256) as u8;
    if content_length > c.state.post_chars {
        return Err(
            ContractError::ExceededCharLimit {
                field: "content".to_owned(),
                length: content_length,
                max: c.state.post_chars,
            },
        );
    }
    if name_length > c.state.name_chars {
        return Err(
            ContractError::ExceededCharLimit {
                field: "username".to_owned(),
                length: name_length,
                max: c.state.name_chars,
            },
        );
    }
    let owner_part: u128 = compute_share(c.state.post_fee, 100 - c.state.agent_cut);
    let agent_part: u128 = compute_share(c.state.post_fee, c.state.agent_cut);
    let ghost l0 = c.funds;
    let ghost m0 = c.funds@;
    proof {
        crate::ledger::lemma_ledger_dom(l0);
    }
    match c.funds.transfer(&msg.auth_token.user, &c.state.owner, owner_part) {
        Ok(_) => {},
        Err(e) => {
            return Err(e);
        },
    }
    let ghost m1 = c.funds@;
    match c.funds.transfer(&msg.auth_token.user, &msg.auth_token.agent, agent_part) {
        Ok(_) => {},
        Err(e) => {
            // undo the owner leg, so that a failed post moves nothing;
            // the owner holds at least the share that leg delivered, and
            // restoring the poster's balance cannot overflow
            proof {
                assert(transfer_fits(m1, c.state.owner@, msg.auth_token.user@, owner_part));
            }
            let undone = c.funds.transfer(&c.state.owner, &msg.auth_token.user, owner_part);
            proof {
                assert(map_transfer(m1, c.state.owner@, msg.auth_token.user@, owner_part)
                    =~= m0);
            }
            match undone {
                Ok(_) => {
                    return Err(e);
                },
                Err(_) => {
                    proof {
                        assert(false);
                    }
                    return Err(e);
                },
            }
        },
    }
    c.posts.push(
        Post {
            user_addr: msg.auth_token.user,
            username: msg.auth_token.meta.username,
            content: msg.message.content,
        },
    );
    let mut attributes: Vec<Attribute> = Vec::new();
    attributes.push(Attribute { key: "method".to_owned(), value: AttrValue::Text("post".to_owned()) });
    Ok(Response { attributes, messages: Vec::new() })
}

/// Checks the attached payment against the declared amount and credits
/// the sender with the declared amount; any surplus in the attachment is
/// not credited.
pub fn deposit_funds(c: &mut Contract, info: MessageInfo, amount: u128) -> (r: Result<
    Response,
    ContractError,
>)
    requires
        old(c).wf(),
    ensures
        final(c).wf(),
        deposit_spec(*old(c), info, amount, *final(c), r),
{
    let denom: String = "ujunox".to_owned();
    let payment: u128 = match must_pay(&info, &denom) {
        Ok(p) => p,
        Err(e) => {
            return Err(ContractError::Payment(e));
        },
    };
    if payment < amount {
        return Err(ContractError::InsufficientFunds { got: payment, needed: amount });
    }
    let balance: u128 = match c.funds.credit(&info.sender, amount) {
        Ok(b) => b,
        Err(e) => {
            return Err(e);
        },
    };
    let mut attributes: Vec<Attribute> = Vec::new();
    attributes.push(
        Attribute { key: "action".to_owned(), value: AttrValue::Text("deposit_funds".to_owned()) },
    );
    attributes.push(Attribute { key: "balance".to_owned(), value: AttrValue::Amount(balance) });
    Ok(Response { attributes, messages: Vec::new() })
}

/// Debits the sender and instructs one outbound transfer of the amount
/// back to the sender; an uncovered amount is refused before any
/// instruction is emitted.
pub fn withdraw_funds(c: &mut Contract, info: MessageInfo, amount: u128) -> (r: Result<
    Response,
    ContractError,
>)
    requires
        old(c).wf(),
    ensures
        final(c).wf(),
        withdraw_spec(*old(c), info, amount, *final(c), r),
{
    let balance: u128 = match c.funds.debit(&info.sender, amount) {
        Ok(b) => b,
        Err(e) => {
            return Err(e);
        },
    };
    let mut attributes: Vec<Attribute> = Vec::new();
    attributes.push(
        Attribute {
            key: "method".to_owned(),
            value: AttrValue::Text("withdraw_funds".to_owned()),
        },
    );
    attributes.push(Attribute { key: "balance".to_owned(), value: AttrValue::Amount(balance) });
    let mut messages: Vec<TransferMsg> = Vec::new();
    messages.push(
        TransferMsg { to_address: info.sender, denom: "ujunox".to_owned(), amount },
    );
    Ok(Response { attributes, messages })
}

/// Dispatches a mutating request: a post passes through `authorize` first;
/// deposits and withdrawals go straight to the ledger.
pub fn execute(c: &mut Contract, info: MessageInfo, msg: ExecuteMsg) -> (r: Result<
    Response,
    ContractError,
>)
    requires
        old(c).wf(),
    ensures
        final(c).wf(),
        match msg {
            ExecuteMsg::Post { auth, msg: post_msg } => match auth {
                AuthOutcome::Verified(token) => post_spec(
                    *old(c),
                    (AuthMsg { auth_token: token, message: post_msg }),
                    *final(c),
                    r,
                ),
                AuthOutcome::Rejected => r == Err::<Response, ContractError>(
                    ContractError::Unauthorized,
                ) && unchanged(*old(c), *final(c)) && final(c).config() == old(c).config(),
            },
            ExecuteMsg::DepositFunds { amount } => deposit_spec(
                *old(c),
                info,
                amount,
                *final(c),
                r,
            ),
            ExecuteMsg::WithdrawFunds { amount } => withdraw_spec(
                *old(c),
                info,
                amount,
                *final(c),
                r,
            ),
        },
{
    match msg {
        ExecuteMsg::Post { auth, msg: post_msg } => match authorize(auth, post_msg) {
            Ok(authed) => post(c, authed),
            Err(e) => Err(e),
        },
        ExecuteMsg::DepositFunds { amount } => deposit_funds(c, info, amount),
        ExecuteMsg::WithdrawFunds { amount } => withdraw_funds(c, info, amount),
    }
}

/// The current post count: the id the most recent post received, or 0.
pub fn post_count(c: &Contract) -> (r: PostCountResponse)
    ensures
        r.count == c.posts_seq().len(),
{
    PostCountResponse { count: c.posts.len() as u64 }
}

/// Up to `limit` (10 when unspecified) most recent posts, newest first.
pub fn latest_posts(c: &Contract, limit: Option<u8>) -> (r: LatestPostsResponse)
    ensures
        latest_posts_spec(*c, limit, r.posts@),
{
    let lim: usize = match limit {
        Some(l) => l as usize,
        None => 10,
    };
    let total: usize = c.posts.len();
    let mut out: Vec<Post> = Vec::new();
    let mut i: usize = 0;
    while i < lim && i < total
        invariant
            total == c.posts@.len(),
            i <= lim,
            i <= total,
            out@.len() == i as int,
            forall|k: int| 0 <= k < i ==> out@[k] == c.posts@[total - 1 - k],
        decreases total - i,
    {
        let p = &c.posts[total - 1 - i];
        out.push(
            Post {
                user_addr: p.user_addr.clone(),
                username: p.username.clone(),
                content: p.content.clone(),
            },
        );
        i += 1;
    }
    LatestPostsResponse { posts: out }
}

/// The sender's balance, 0 when the address was never written.
pub fn get_balance(c: &Contract, addr: &String) -> (r: GetBalanceResponse)
    ensures
        r.balance == c.balances()[addr@],
{
    GetBalanceResponse { balance: c.funds.read(addr) }
}

/// Answers a read-only request; queries never fail and never mutate.
pub fn query(c: &Contract, msg: QueryMsg) -> (r: QueryAnswer)
    ensures
        match msg {
            QueryMsg::PostCount => (r matches QueryAnswer::PostCount(pc) && pc.count
                == c.posts_seq().len()),
            QueryMsg::LatestPosts { limit } => (r matches QueryAnswer::LatestPosts(lp)
                && latest_posts_spec(*c, limit, lp.posts@)),
            QueryMsg::GetBalance { addr } => (r matches QueryAnswer::GetBalance(gb) && gb.balance
                == c.balances()[addr@]),
        },
{
    match msg {
        QueryMsg::PostCount => QueryAnswer::PostCount(post_count(c)),
        QueryMsg::LatestPosts { limit } => QueryAnswer::LatestPosts(latest_posts(c, limit)),
        QueryMsg::GetBalance { addr } => QueryAnswer::GetBalance(get_balance(c, &addr)),
    }
}

/// Law: the two shares of a post fee never exceed the fee, and floor
/// rounding loses at most one minor unit per post.
pub proof fn lemma_fee_split(fee: u128, cut: u8)
    requires
        cut <= 100,
    ensures
        share(fee, (100 - cut) as u8) + share(fee, cut) <= fee,
        fee - (share(fee, (100 - cut) as u8) + share(fee, cut)) <= 1,
{
    let a = fee * (100 - cut);
    let b = fee * cut;
    assert(fee * (100 - cut) + fee * cut == 100 * fee) by (nonlinear_arith);
    assert(a + b == 100 * fee);
    let qa = a / 100;
    let ra = a % 100;
    let qb = b / 100;
    let rb = b % 100;
    vstd::arithmetic::div_mod::lemma_fundamental_div_mod(a, 100);
    vstd::arithmetic::div_mod::lemma_mod_bound(a, 100);
    vstd::arithmetic::div_mod::lemma_fundamental_div_mod(b, 100);
    vstd::arithmetic::div_mod::lemma_mod_bound(b, 100);
    assert(fee * (100 - cut) >= 0 && fee * cut >= 0) by (nonlinear_arith)
        requires
            fee >= 0,
            0 <= cut <= 100,
    ;
    assert(a >= 0 && b >= 0);
    vstd::arithmetic::div_mod::lemma_div_is_ordered(0, a, 100);
    vstd::arithmetic::div_mod::lemma_div_is_ordered(0, b, 100);
    assert(100 * fee == 100 * (qa + qb) + (ra + rb));
    vstd::arithmetic::div_mod::lemma_hoist_over_denominator(ra + rb, qa + qb, 100nat);
    vstd::arithmetic::div_mod::lemma_div_multiples_vanish(fee as int, 100);
    assert((100 * fee) / 100 == fee);
    assert(fee == qa + qb + (ra + rb) / 100);
    assert(0 <= (ra + rb) / 100 <= 1) by {
        vstd::arithmetic::div_mod::lemma_div_is_ordered(0, ra + rb, 100);
        vstd::arithmetic::div_mod::lemma_div_is_ordered(ra + rb, 199, 100);
    }
}

/// Law: post ids are dense and never reused — the count rises by exactly
/// one on a successful post, the new post sits at the new highest id,
/// every stored post is untouched, and a failed attempt leaves the count
/// and the store exactly as they were.
pub proof fn lemma_post_count(
    pre: Contract,
    msg: AuthMsg,
    next: Contract,
    r: Result<Response, ContractError>,
)
    requires
        post_spec(pre, msg, next, r),
    ensures
        r matches Ok(_) ==> next.posts_seq().len() == pre.posts_seq().len() + 1,
        r matches Ok(_) ==> next.posts_seq().last() == new_post(msg),
        r matches Ok(_) ==> forall|i: int|
            0 <= i < pre.posts_seq().len() ==> next.posts_seq()[i] == pre.posts_seq()[i],
        r matches Err(_) ==> next.posts_seq() == pre.posts_seq(),
{
}

} // verus!

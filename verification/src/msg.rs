//! Request and response shapes of the contract, as the plain values the
//! host hands in and takes back: addresses are strings, amounts are
//! unsigned integers, and an outbound coin movement is a structured
//! instruction for the host's asset-transfer collaborator.

use vstd::prelude::*;

use crate::state::Post;

verus! {

/// One attached or outbound coin: a denomination and an amount.
pub struct Coin {
    pub denom: String,
    pub amount: u128,
}

/// Who sent the request, and what payment came attached to it.
pub struct MessageInfo {
    pub sender: String,
    pub funds: Vec<Coin>,
}

/// The metadata carried inside an authorization token.
pub struct AuthMeta {
    pub username: String,
}

/// The trusted triple a verified token yields: who signed, who provides,
/// and the token's metadata. The verification itself is the external
/// collaborator's work; the core only reads the triple.
pub struct AuthToken {
    pub user: String,
    pub agent: String,
    pub meta: AuthMeta,
}

/// What the external token-verification collaborator reported for one
/// incoming envelope: the decoded token, or a refusal.
pub enum AuthOutcome {
    Verified(AuthToken),
    Rejected,
}

/// The action a post request asks for.
pub struct PostMsg {
    pub content: String,
}

/// A post action together with its validated and decoded auth token.
pub struct AuthMsg {
    pub auth_token: AuthToken,
    pub message: PostMsg,
}

/// The parameters fixed at initialization.
pub struct InstantiateMsg {
    pub name_chars: u8,
    pub post_chars: u8,
    pub agent_cut: u8,
    pub post_fee: u128,
}

/// A mutating request. A post arrives with the collaborator's verdict on
/// its token; deposits and withdrawals skip the authorization step.
pub enum ExecuteMsg {
    Post { auth: AuthOutcome, msg: PostMsg },
    DepositFunds { amount: u128 },
    WithdrawFunds { amount: u128 },
}

/// A read-only request.
pub enum QueryMsg {
    PostCount,
    LatestPosts { limit: Option<u8> },
    GetBalance { addr: String },
}

/// Answer to `QueryMsg::PostCount`.
pub struct PostCountResponse {
    pub count: u64,
}

/// Answer to `QueryMsg::LatestPosts`: most recent first.
pub struct LatestPostsResponse {
    pub posts: Vec<Post>,
}

/// Answer to `QueryMsg::GetBalance`.
pub struct GetBalanceResponse {
    pub balance: u128,
}

/// The answer a query returns; queries never fail.
pub enum QueryAnswer {
    PostCount(PostCountResponse),
    LatestPosts(LatestPostsResponse),
    GetBalance(GetBalanceResponse),
}

/// The value of one response attribute: text, or an amount the host
/// renders in decimal.
pub enum AttrValue {
    Text(String),
    Amount(u128),
}

/// One key-value attribute of a response.
pub struct Attribute {
    pub key: String,
    pub value: AttrValue,
}

/// One outbound native-coin transfer instruction for the host's
/// asset-transfer collaborator.
pub struct TransferMsg {
    pub to_address: String,
    pub denom: String,
    pub amount: u128,
}

/// What a successful mutating request hands back: observable attributes
/// and the outbound transfer instructions the host must carry out.
pub struct Response {
    pub attributes: Vec<Attribute>,
    pub messages: Vec<TransferMsg>,
}

} // verus!

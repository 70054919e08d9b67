//! The configuration record, fixed at initialization, and the post record,
//! immutable once written.

use vstd::prelude::*;

verus! {

/// The configuration of the contract, written exactly once at
/// initialization and never mutated afterwards.
pub struct State {
    /// The account that receives the owner's side of every post fee.
    pub owner: String,
    /// Upper bound on the byte length of a poster's username.
    pub name_chars: u8,
    /// Upper bound on the byte length of a post's content.
    pub post_chars: u8,
    /// Percentage of the post fee paid to the agent named in the token;
    /// the rest goes to the owner. At most 100.
    pub agent_cut: u8,
    /// The fee debited from the poster for each successful post.
    pub post_fee: u128,
}

impl State {
    /// A configuration is valid when the agent's percentage is a
    /// percentage: the split arithmetic depends on it.
    pub open spec fn wf(self) -> bool {
        self.agent_cut <= 100
    }
}

/// One stored post. Its identifier is not a field: a post's id is its
/// one-based position in the append-only store.
pub struct Post {
    /// The poster, as verified by the authorization token.
    pub user_addr: String,
    /// The username carried inside the token.
    pub username: String,
    /// The posted message.
    pub content: String,
}

} // verus!

use vstd::prelude::*;
use crate::state::{Ballot, Coin, Config, Poll};

verus! {

/// Who sent a message, and the funds sent with it.
#[derive(Debug, PartialEq, Eq, Clone)]
pub struct MessageInfo {
    pub sender: String,
    pub funds: Vec<Coin>,
}

/// The funds of a message as a sequence of coin views.
pub open spec fn funds_view(funds: Seq<Coin>) -> Seq<crate::state::CoinView> {
    funds.map_values(|c: Coin| c@)
}

/// The message that instantiates the contract.
#[derive(Debug, PartialEq, Eq, Clone)]
pub struct InstantiateMsg {
    pub admin: Option<String>,
    pub create_poll_fee: Option<Coin>,
}

/// The messages that change the contract's state.
#[derive(Debug, PartialEq, Eq, Clone)]
pub enum ExecuteMsg {
    CreatePoll { poll_id: String, question: String, options: Vec<String> },
    DeletePoll { poll_id: String },
    ClosePoll { poll_id: String },
    Vote { poll_id: String, vote: String },
    UnVote { poll_id: String },
}

/// The messages that read the contract's state.
#[derive(Debug, PartialEq, Eq, Clone)]
pub enum QueryMsg {
    AllPolls {},
    Poll { poll_id: String },
    Vote { address: String, poll_id: String },
    Votes { address: String },
    Config {},
}

/// Every stored poll, in ascending order of poll id.
#[derive(Debug, PartialEq, Eq, Clone)]
pub struct AllPollsResponse {
    pub polls: Vec<Poll>,
}

/// The poll stored under an id, if any.
#[derive(Debug, PartialEq, Eq, Clone)]
pub struct PollResponse {
    pub poll: Option<Poll>,
}

/// The ballot of one voter in one poll, if any.
#[derive(Debug, PartialEq, Eq, Clone)]
pub struct VoteResponse {
    pub vote: Option<Ballot>,
}

/// The contract's configuration.
#[derive(Debug, PartialEq, Eq, Clone)]
pub struct ConfigResponse {
    pub config: Config,
}

/// The answer to a query, one variant per kind of query.
#[derive(Debug, PartialEq, Eq, Clone)]
pub enum QueryResponse {
    AllPolls(AllPollsResponse),
    Poll(PollResponse),
    Vote(VoteResponse),
    Config(ConfigResponse),
}

/// A key-value pair that a handler reports about what it did.
#[derive(Debug, PartialEq, Eq, Clone)]
pub struct Attribute {
    pub key: String,
    pub value: String,
}

impl View for Attribute {
    type V = (Seq<char>, Seq<char>);

    open spec fn view(&self) -> (Seq<char>, Seq<char>) {
        (self.key@, self.value@)
    }
}

/// What a successful handler reports: its attributes, in order.
#[derive(Debug, PartialEq, Eq, Clone)]
pub struct Response {
    pub attributes: Vec<Attribute>,
}

impl View for Response {
    type V = Seq<(Seq<char>, Seq<char>)>;

    open spec fn view(&self) -> Seq<(Seq<char>, Seq<char>)> {
        self.attributes@.map_values(|a: Attribute| a@)
    }
}

/// An attribute with the given key and value.
pub fn attr(key: &str, value: String) -> (a: Attribute)
    ensures
        a@ == (key@, value@),
{
    Attribute { key: key.to_owned(), value }
}

} // verus!

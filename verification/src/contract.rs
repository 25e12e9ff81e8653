use vstd::prelude::*;
use cosmwasm_std::StdError;
use crate::decimal::{decimal, decimal_string};
use crate::error::{ContractError, ErrorKind};
use crate::msg::{
    attr, funds_view, AllPollsResponse, ConfigResponse, ExecuteMsg, InstantiateMsg, MessageInfo,
    PollResponse, QueryMsg, QueryResponse, Response, VoteResponse,
};
use crate::poll::{add_to_tally, cast, find_option, option_index, vote_safe, withdraw};
use crate::state::{
    listed_in_key_order, opt_ballot_view, opt_coin_view, opt_poll_view, Ballot, Coin, CoinView,
    Config, ConfigView, Poll, PollView, Store, StoreView,
};

verus! {

/// The most options a poll may have.
pub const MAX_OPTIONS: usize = 10;

/// The coin that stands for "no fee": no denomination, amount zero.
pub open spec fn no_coin() -> CoinView {
    CoinView { denom: Seq::empty(), amount: 0 }
}

/// The fee for creating a poll that a configuration asks for.
pub open spec fn fee_of(fee: Option<CoinView>) -> CoinView {
    match fee {
        Some(c) => c,
        None => no_coin(),
    }
}

/// The funds pay the fee: it is zero, or one coin of its denomination is at
/// least as large.
pub open spec fn fee_paid(funds: Seq<CoinView>, fee: CoinView) -> bool {
    fee.amount == 0 || exists|i: int|
        0 <= i < funds.len() && funds[i].denom == fee.denom && funds[i].amount >= fee.amount
}

/// A new poll: open, and every option with a tally of zero.
pub open spec fn fresh_poll(creator: Seq<char>, question: Seq<char>, options: Seq<Seq<char>>) -> PollView {
    PollView {
        creator,
        question,
        options: options.map_values(|o: Seq<char>| (o, 0u64)),
        is_closed: false,
    }
}

/// The names of the options of a create-poll message.
pub open spec fn names_view(options: Seq<String>) -> Seq<Seq<char>> {
    options.map_values(|o: String| o@)
}

/// The attributes that `instantiate` reports.
pub open spec fn instantiate_attributes(admin: Seq<char>, fee: Option<CoinView>) -> Seq<(Seq<char>, Seq<char>)> {
    seq![
        ("action"@, "instantiate"@),
        ("admin"@, admin),
        ("create_poll_fee_denom"@, fee_of(fee).denom),
        ("create_poll_fee_amount"@, decimal(fee_of(fee).amount as nat)),
    ]
}

/// The attributes that creating a poll reports.
pub open spec fn create_poll_attributes(question: Seq<char>) -> Seq<(Seq<char>, Seq<char>)> {
    seq![("action"@, "create_poll"@), ("question"@, question)]
}

/// The attributes that closing a poll reports.
pub open spec fn close_poll_attributes(question: Seq<char>) -> Seq<(Seq<char>, Seq<char>)> {
    seq![("action"@, "close_poll"@), ("question"@, question), ("is_closed"@, "true"@)]
}

/// The attributes that a vote reports.
pub open spec fn vote_attributes(question: Seq<char>, vote: Seq<char>) -> Seq<(Seq<char>, Seq<char>)> {
    seq![("action"@, "vote"@), ("question"@, question), ("voted_option"@, vote)]
}

/// The address that `instantiate` validates and makes the admin: the one the
/// message names, or else the sender's.
pub fn admin_to_validate(info: &MessageInfo, msg: &InstantiateMsg) -> (r: String)
    ensures
        r@ == match msg.admin {
            Some(a) => a@,
            None => info.sender@,
        },
{
    match &msg.admin {
        Some(a) => a.clone(),
        None => info.sender.clone(),
    }
}

/// The configuration and response of `instantiate`, given the outcome of
/// validating the admin address (see `admin_to_validate`).
pub fn instantiate_config(validated_admin: Result<String, StdError>, create_poll_fee: Option<Coin>) -> (res: Result<(Config, Response), ContractError>)
    ensures
        match validated_admin {
            Err(e) => res matches Err(ContractError::Std(e2)) && e2 == e,
            Ok(admin) => res matches Ok((config, r)) && config@ == (ConfigView {
                admin: admin@,
                create_poll_fee: opt_coin_view(create_poll_fee),
            }) && r@ == instantiate_attributes(admin@, opt_coin_view(create_poll_fee)),
        },
{
    let admin = match validated_admin {
        Err(e) => return Err(ContractError::Std(e)),
        Ok(a) => a,
    };
    let (denom, amount) = match &create_poll_fee {
        Some(c) => (c.denom.clone(), c.amount),
        None => (String::new(), 0u128),
    };
    let attributes = vec![
        attr("action", "instantiate".to_owned()),
        attr("admin", admin.clone()),
        attr("create_poll_fee_denom", denom),
        attr("create_poll_fee_amount", decimal_string(amount)),
    ];
    let r = Response { attributes };
    assert(r@ =~= instantiate_attributes(admin@, opt_coin_view(create_poll_fee)));
    Ok((Config { admin, create_poll_fee }, r))
}

/// Whether `funds` pay `fee`.
fn pays_fee(funds: &Vec<Coin>, fee: &Coin) -> (r: bool)
    ensures
        r == fee_paid(funds_view(funds@), fee@),
{
    if fee.amount == 0 {
        return true;
    }
    let ghost fv = funds_view(funds@);
    let mut i: usize = 0;
    while i < funds.len()
        invariant
            fv == funds_view(funds@),
            i <= funds@.len(),
            forall|k: int|
                0 <= k < i ==> !(fv[k].denom == fee@.denom && fv[k].amount >= fee@.amount),
        decreases funds@.len() - i,
    {
        if funds[i].denom == fee.denom && funds[i].amount >= fee.amount {
            assert(fv[i as int].denom == fee@.denom && fv[i as int].amount >= fee@.amount);
            return true;
        }
        i = i + 1;
    }
    false
}

/// Creating a poll: too many options are refused first, then a failure to
/// read the configuration, then funds that do not pay the fee; otherwise the
/// new poll, to be stored under its id, and the response.
pub fn execute_create_poll(
    config: Result<Config, StdError>,
    info: &MessageInfo,
    question: String,
    options: Vec<String>,
) -> (res: Result<(Poll, Response), ContractError>)
    ensures
        if options@.len() > MAX_OPTIONS {
            res matches Err(e) && e@ == ErrorKind::TooManyOptions
        } else {
            match config {
                Err(e) => res matches Err(ContractError::Std(e2)) && e2 == e,
                Ok(c) => if !fee_paid(funds_view(info.funds@), fee_of(c@.create_poll_fee)) {
                    res matches Err(e) && e@ == ErrorKind::InsufficientFunds
                } else {
                    res matches Ok((p, r)) && p@ == fresh_poll(info.sender@, question@, names_view(options@))
                        && r@ == create_poll_attributes(question@)
                },
            }
        },
{
    if options.len() > MAX_OPTIONS {
        return Err(ContractError::TooManyOptions {});
    }
    let config = match config {
        Err(e) => return Err(ContractError::Std(e)),
        Ok(c) => c,
    };
    let fee = match config.create_poll_fee {
        Some(c) => c,
        None => Coin { denom: String::new(), amount: 0 },
    };
    if !pays_fee(&info.funds, &fee) {
        return Err(ContractError::InsufficientFunds {});
    }
    let mut opts: Vec<(String, u64)> = Vec::new();
    let n = options.len();
    let mut i: usize = 0;
    while i < n
        invariant
            n == options@.len(),
            i <= n,
            opts@.len() == i,
            forall|j: int| 0 <= j < i ==> #[trigger] opts@[j].0@ == options@[j]@ && opts@[j].1 == 0,
        decreases n - i,
    {
        opts.push((options[i].clone(), 0));
        i = i + 1;
    }
    let poll = Poll {
        creator: info.sender.clone(),
        question: question.clone(),
        options: opts,
        is_closed: false,
    };
    assert(poll@.options =~= fresh_poll(info.sender@, question@, names_view(options@)).options);
    let r = Response { attributes: vec![attr("action", "create_poll".to_owned()), attr("question", question)] };
    assert(r@ =~= create_poll_attributes(question@));
    Ok((poll, r))
}

/// Closing a poll: a failure to read it, a missing poll and a closed poll are
/// refused; otherwise the closed poll and the response.
pub fn execute_close_poll(poll: Result<Option<Poll>, StdError>) -> (res: Result<(Poll, Response), ContractError>)
    ensures
        match poll {
            Err(e) => res matches Err(ContractError::Std(e2)) && e2 == e,
            Ok(None) => res matches Err(e) && e@ == ErrorKind::PollNotFound,
            Ok(Some(p)) => if p.is_closed {
                res matches Err(e) && e@ == ErrorKind::PollClosed
            } else {
                res matches Ok((np, r)) && np@ == (PollView { is_closed: true, ..p@ })
                    && r@ == close_poll_attributes(p@.question)
            },
        },
{
    let mut poll = match poll {
        Err(e) => return Err(ContractError::Std(e)),
        Ok(None) => return Err(ContractError::PollNotFound {}),
        Ok(Some(p)) => p,
    };
    if poll.is_closed {
        return Err(ContractError::PollClosed {});
    }
    poll.is_closed = true;
    let r = Response {
        attributes: vec![
            attr("action", "close_poll".to_owned()),
            attr("question", poll.question.clone()),
            attr("is_closed", "true".to_owned()),
        ],
    };
    assert(r@ =~= close_poll_attributes(poll@.question));
    Ok((poll, r))
}

/// Voting: a failure to read the poll, a missing poll and a closed poll are
/// refused; then a failure to read the voter's earlier ballot; then the
/// earlier choice is taken back and the voter's new ballot is written (the
/// first part of the result: the ballot to store, if any); then a vote for an
/// option the poll does not have is refused; otherwise the poll with the vote
/// counted, to be stored, and the response.
pub fn execute_vote(
    poll: Result<Option<Poll>, StdError>,
    ballot: Result<Option<Ballot>, StdError>,
    vote: String,
) -> (res: (Option<Ballot>, Result<(Poll, Response), ContractError>))
    requires
        poll matches Ok(Some(p)) ==> (ballot matches Ok(b) ==> vote_safe(p@, opt_ballot_view(b), vote@)),
    ensures
        res.0 is Some <==> (poll matches Ok(Some(p)) && !p.is_closed && ballot is Ok),
        res.0 matches Some(nb) ==> nb@ == vote@,
        match poll {
            Err(e) => res.1 matches Err(ContractError::Std(e2)) && e2 == e,
            Ok(None) => res.1 matches Err(e) && e@ == ErrorKind::PollNotFound,
            Ok(Some(p)) => if p.is_closed {
                res.1 matches Err(e) && e@ == ErrorKind::PollClosed
            } else {
                match ballot {
                    Err(e) => res.1 matches Err(ContractError::Std(e2)) && e2 == e,
                    Ok(b) => {
                        let w = withdraw(p@.options, opt_ballot_view(b));
                        if option_index(w, vote@) < 0 {
                            res.1 matches Err(e) && e@ == ErrorKind::VoteOptionNotFound
                        } else {
                            res.1 matches Ok((np, r)) && np@ == (PollView { options: cast(w, vote@), ..p@ })
                                && r@ == vote_attributes(p@.question, vote@)
                        }
                    },
                }
            },
        },
{
    let mut poll = match poll {
        Err(e) => return (None, Err(ContractError::Std(e))),
        Ok(None) => return (None, Err(ContractError::PollNotFound {})),
        Ok(Some(p)) => p,
    };
    if poll.is_closed {
        return (None, Err(ContractError::PollClosed {}));
    }
    let old = match ballot {
        Err(e) => return (None, Err(ContractError::Std(e))),
        Ok(b) => b,
    };
    let ghost p0 = poll@;
    if let Some(b) = &old {
        let p = find_option(&poll.options, &b.option);
        match p {
            Some(p) => add_to_tally(&mut poll, p, false),
            None => { assert(false); },
        }
    }
    assert(poll@.options == withdraw(p0.options, opt_ballot_view(old)));
    let written = Ballot { option: vote.clone() };
    let q = find_option(&poll.options, &vote);
    let q = match q {
        None => return (Some(written), Err(ContractError::VoteOptionNotFound {})),
        Some(q) => q,
    };
    let ghost w = poll@.options;
    assert(crate::poll::is_first_option(w, vote@, q as int));
    add_to_tally(&mut poll, q, true);
    assert(poll@.options.len() == poll.options@.len());
    assert(poll@.options[q as int].0 == vote@);
    let r = Response {
        attributes: vec![
            attr("action", "vote".to_owned()),
            attr("question", poll.question.clone()),
            attr("voted_option", poll.options[q].0.clone()),
        ],
    };
    assert(r@ =~= vote_attributes(p0.question, vote@));
    (Some(written), Ok((poll, r)))
}

/// What a message does to the storage: applied, with the new storage and the
/// attributes reported, or rejected with an error, with the storage as the
/// handler left it (unchanged, but for a vote for an option that the poll
/// lacks: the voter's new ballot is written before that option is looked up).
pub enum Outcome {
    Applied(StoreView, Seq<(Seq<char>, Seq<char>)>),
    Rejected(StoreView, ErrorKind),
}

/// The ballot that `voter` holds in poll `id`, if any.
pub open spec fn ballot_of(s: StoreView, voter: Seq<char>, id: Seq<char>) -> Option<Seq<char>> {
    s.ballots.get((voter, id))
}

/// Creating poll `id` in storage `s`.
pub open spec fn create_poll_model(
    s: StoreView,
    sender: Seq<char>,
    funds: Seq<CoinView>,
    id: Seq<char>,
    question: Seq<char>,
    options: Seq<Seq<char>>,
) -> Outcome {
    if options.len() > MAX_OPTIONS {
        Outcome::Rejected(s, ErrorKind::TooManyOptions)
    } else {
        match s.config {
            None => Outcome::Rejected(s, ErrorKind::Std),
            Some(c) => if !fee_paid(funds, fee_of(c.create_poll_fee)) {
                Outcome::Rejected(s, ErrorKind::InsufficientFunds)
            } else {
                Outcome::Applied(
                    StoreView { polls: s.polls.insert(id, fresh_poll(sender, question, options)), ..s },
                    create_poll_attributes(question),
                )
            },
        }
    }
}

/// Closing poll `id` in storage `s`.
pub open spec fn close_poll_model(s: StoreView, id: Seq<char>) -> Outcome {
    if !s.polls.contains_key(id) {
        Outcome::Rejected(s, ErrorKind::PollNotFound)
    } else if s.polls[id].is_closed {
        Outcome::Rejected(s, ErrorKind::PollClosed)
    } else {
        Outcome::Applied(
            StoreView { polls: s.polls.insert(id, PollView { is_closed: true, ..s.polls[id] }), ..s },
            close_poll_attributes(s.polls[id].question),
        )
    }
}

/// `voter` voting for option `vote` of poll `id` in storage `s`.
pub open spec fn vote_model(s: StoreView, voter: Seq<char>, id: Seq<char>, vote: Seq<char>) -> Outcome {
    if !s.polls.contains_key(id) {
        Outcome::Rejected(s, ErrorKind::PollNotFound)
    } else if s.polls[id].is_closed {
        Outcome::Rejected(s, ErrorKind::PollClosed)
    } else {
        let p = s.polls[id];
        let w = withdraw(p.options, ballot_of(s, voter, id));
        if option_index(w, vote) < 0 {
            Outcome::Rejected(
                StoreView { ballots: s.ballots.insert((voter, id), vote), ..s },
                ErrorKind::VoteOptionNotFound,
            )
        } else {
            Outcome::Applied(
                StoreView {
                    polls: s.polls.insert(id, PollView { options: cast(w, vote), ..p }),
                    ballots: s.ballots.insert((voter, id), vote),
                    ..s
                },
                vote_attributes(p.question, vote),
            )
        }
    }
}

/// The messages that `execute` handles (deleting a poll and taking back a
/// vote are not implemented).
pub open spec fn is_handled(msg: ExecuteMsg) -> bool {
    !(msg is DeletePoll) && !(msg is UnVote)
}

/// What `execute` does with a handled message.
pub open spec fn execute_model(s: StoreView, info: MessageInfo, msg: ExecuteMsg) -> Outcome
    recommends
        is_handled(msg),
{
    match msg {
        ExecuteMsg::CreatePoll { poll_id, question, options } => create_poll_model(
            s,
            info.sender@,
            funds_view(info.funds@),
            poll_id@,
            question@,
            names_view(options@),
        ),
        ExecuteMsg::ClosePoll { poll_id } => close_poll_model(s, poll_id@),
        ExecuteMsg::Vote { poll_id, vote } => vote_model(s, info.sender@, poll_id@, vote@),
        _ => arbitrary(),
    }
}

/// `execute` runs without a fault on `msg`: a vote on an existing poll is
/// `vote_safe` for the voter's earlier ballot.
pub open spec fn execute_safe(s: StoreView, info: MessageInfo, msg: ExecuteMsg) -> bool {
    msg matches ExecuteMsg::Vote { poll_id, vote } ==> (s.polls.contains_key(poll_id@) ==> vote_safe(
        s.polls[poll_id@],
        ballot_of(s, info.sender@, poll_id@),
        vote@,
    ))
}

/// The kind of thing that a not-found error reports missing, if it is one.
pub open spec fn not_found_kind(e: StdError) -> Option<Seq<char>> {
    match e {
        StdError::NotFound { kind, .. } => Some(kind@),
        _ => None,
    }
}

/// The error that loading a missing item gives: `StdError::not_found`, which
/// builds `StdError::NotFound` with the given kind.
#[verifier::external_body]
fn std_not_found(kind: &str) -> (e: StdError)
    ensures
        not_found_kind(e) == Some(kind@),
{
    StdError::not_found(kind)
}

/// What the storage reports as missing when the configuration is: its type
/// and its storage key ("config").
pub open spec fn config_not_found_kind() -> Seq<char> {
    "type: cw_starter::state::Config; key: [63, 6F, 6E, 66, 69, 67]"@
}

/// The stored configuration, or the error of loading it when there is none.
fn load_config(store: &Store) -> (r: Result<Config, StdError>)
    ensures
        match store@.config {
            Some(c) => r matches Ok(rc) && rc@ == c,
            None => r matches Err(e) && not_found_kind(e) == Some(config_not_found_kind()),
        },
{
    match store.config() {
        Some(c) => Ok(c),
        None => Err(std_not_found("type: cw_starter::state::Config; key: [63, 6F, 6E, 66, 69, 67]")),
    }
}

/// Instantiates the contract on `store`: stores the configuration, with the
/// admin that validating `admin_to_validate(info, &msg)` gave, and the fee.
pub fn instantiate(store: &mut Store, msg: InstantiateMsg, validated_admin: Result<String, StdError>) -> (res: Result<Response, ContractError>)
    requires
        old(store).wf(),
    ensures
        final(store).wf(),
        match validated_admin {
            Err(e) => res matches Err(ContractError::Std(e2)) && e2 == e && final(store)@ == old(store)@,
            Ok(admin) => {
                &&& res matches Ok(r) && r@ == instantiate_attributes(admin@, opt_coin_view(msg.create_poll_fee))
                &&& final(store)@ == (StoreView {
                    config: Some(ConfigView { admin: admin@, create_poll_fee: opt_coin_view(msg.create_poll_fee) }),
                    ..old(store)@
                })
            },
        },
{
    let (config, r) = instantiate_config(validated_admin, msg.create_poll_fee)?;
    store.save_config(config);
    Ok(r)
}

/// Handles a message that changes the contract's state. A rejected message
/// leaves the storage as it was, except that a vote for an option that the
/// poll lacks still records the voter's ballot.
pub fn execute(store: &mut Store, info: MessageInfo, msg: ExecuteMsg) -> (res: Result<Response, ContractError>)
    requires
        old(store).wf(),
        is_handled(msg),
        execute_safe(old(store)@, info, msg),
    ensures
        final(store).wf(),
        match execute_model(old(store)@, info, msg) {
            Outcome::Applied(s, attributes) => res matches Ok(r) && r@ == attributes && final(store)@ == s,
            Outcome::Rejected(s, kind) => res matches Err(e) && e@ == kind && final(store)@ == s,
        },
        (msg matches ExecuteMsg::CreatePoll { options, .. } && options@.len() <= MAX_OPTIONS
            && old(store)@.config is None) ==> (res matches Err(ContractError::Std(e))
            && not_found_kind(e) == Some(config_not_found_kind())),
{
    match msg {
        ExecuteMsg::CreatePoll { poll_id, question, options } => {
            let config = load_config(store);
            let (poll, r) = execute_create_poll(config, &info, question, options)?;
            store.save_poll(poll_id, poll);
            Ok(r)
        },
        ExecuteMsg::ClosePoll { poll_id } => {
            let poll = store.poll(&poll_id);
            let (poll, r) = execute_close_poll(Ok(poll))?;
            store.save_poll(poll_id, poll);
            Ok(r)
        },
        ExecuteMsg::Vote { poll_id, vote } => {
            let poll = store.poll(&poll_id);
            let ballot = store.ballot(&info.sender, &poll_id);
            let (written, outcome) = execute_vote(Ok(poll), Ok(ballot), vote);
            if let Some(b) = written {
                store.save_ballot(info.sender, poll_id.clone(), b);
            }
            let (poll, r) = outcome?;
            store.save_poll(poll_id, poll);
            Ok(r)
        },
        _ => {
            assert(false);
            Err(ContractError::Unauthorized {})
        },
    }
}

/// The address that a query validates before it answers: that of a `Vote`
/// query.
pub fn address_to_validate(msg: &QueryMsg) -> (r: Option<String>)
    ensures
        match msg {
            QueryMsg::Vote { address, .. } => r matches Some(a) && a@ == address@,
            _ => r is None,
        },
{
    match msg {
        QueryMsg::Vote { address, .. } => Some(address.clone()),
        _ => None,
    }
}

/// Answers a query from the storage. A `Vote` query reads the ballot under
/// the address that validating `address_to_validate(&msg)` gave; an address
/// that fails validation is a fault, left out here.
pub fn query(store: &Store, msg: QueryMsg, validated_address: Option<Result<String, StdError>>) -> (res: Result<QueryResponse, StdError>)
    requires
        store.wf(),
        !(msg is Votes),
        msg is Vote ==> validated_address matches Some(Ok(_)),
    ensures
        match msg {
            QueryMsg::AllPolls {} => res matches Ok(QueryResponse::AllPolls(r))
                && listed_in_key_order(store@.polls, r.polls@.map_values(|p: Poll| p@)),
            QueryMsg::Poll { poll_id } => res matches Ok(QueryResponse::Poll(r))
                && opt_poll_view(r.poll) == store@.polls.get(poll_id@),
            QueryMsg::Vote { poll_id, .. } => validated_address matches Some(Ok(a))
                && res matches Ok(QueryResponse::Vote(r))
                && opt_ballot_view(r.vote) == ballot_of(store@, a@, poll_id@),
            QueryMsg::Config {} => match store@.config {
                Some(c) => res matches Ok(QueryResponse::Config(r)) && r.config@ == c,
                None => res matches Err(e) && not_found_kind(e) == Some(config_not_found_kind()),
            },
            QueryMsg::Votes { .. } => true,
        },
{
    match msg {
        QueryMsg::AllPolls {} => Ok(QueryResponse::AllPolls(AllPollsResponse { polls: store.all_polls() })),
        QueryMsg::Poll { poll_id } => Ok(QueryResponse::Poll(PollResponse { poll: store.poll(&poll_id) })),
        QueryMsg::Vote { poll_id, .. } => {
            let address = match validated_address {
                Some(Ok(a)) => a,
                _ => {
                    assert(false);
                    return Err(std_not_found(""));
                },
            };
            Ok(QueryResponse::Vote(VoteResponse { vote: store.ballot(&address, &poll_id) }))
        },
        QueryMsg::Config {} => {
            let config = load_config(store)?;
            Ok(QueryResponse::Config(ConfigResponse { config }))
        },
        QueryMsg::Votes { .. } => {
            assert(false);
            Err(std_not_found(""))
        },
    }
}

} // verus!

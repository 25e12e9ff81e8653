use cosmwasm_std::testing::MockApi;
use cosmwasm_std::{Api, StdError};
use cw_starter::contract::{
    admin_to_validate, execute, execute_close_poll, execute_create_poll, execute_vote,
    instantiate, query,
};
use cw_starter::decimal::decimal_string;
use cw_starter::error::ContractError;
use cw_starter::msg::{ExecuteMsg, InstantiateMsg, MessageInfo, QueryMsg, QueryResponse, Response};
use cw_starter::state::{Ballot, Coin, Config, Poll, Store};

fn info(sender: &str, funds: Vec<Coin>) -> MessageInfo {
    MessageInfo { sender: sender.to_string(), funds }
}

fn coin_of(amount: u128, denom: &str) -> Coin {
    Coin { denom: denom.to_string(), amount }
}

fn setup(fee: Option<Coin>) -> Store {
    let mut store = Store::new();
    let msg = InstantiateMsg { admin: None, create_poll_fee: fee };
    let admin = admin_to_validate(&info("addr1", vec![]), &msg);
    let validated = MockApi::default().addr_validate(&admin).map(|a| a.to_string());
    instantiate(&mut store, msg, validated).unwrap();
    store
}

fn create(store: &mut Store, id: &str, question: &str, options: &[&str]) -> Result<Response, ContractError> {
    let msg = ExecuteMsg::CreatePoll {
        poll_id: id.to_string(),
        question: question.to_string(),
        options: options.iter().map(|o| o.to_string()).collect(),
    };
    execute(store, info("addr1", vec![]), msg)
}

fn vote(store: &mut Store, voter: &str, id: &str, option: &str) -> Result<Response, ContractError> {
    let msg = ExecuteMsg::Vote { poll_id: id.to_string(), vote: option.to_string() };
    execute(store, info(voter, vec![]), msg)
}

fn poll(store: &Store, id: &str) -> Option<Poll> {
    match query(store, QueryMsg::Poll { poll_id: id.to_string() }, None).unwrap() {
        QueryResponse::Poll(r) => r.poll,
        other => panic!("unexpected answer {:?}", other),
    }
}

fn tallies(store: &Store, id: &str) -> Vec<u64> {
    poll(store, id).unwrap().options.iter().map(|o| o.1).collect()
}

fn ballot(store: &Store, voter: &str, id: &str) -> Option<Ballot> {
    let msg = QueryMsg::Vote { address: voter.to_string(), poll_id: id.to_string() };
    match query(store, msg, Some(Ok(voter.to_string()))).unwrap() {
        QueryResponse::Vote(r) => r.vote,
        other => panic!("unexpected answer {:?}", other),
    }
}

fn value_of(res: &Response, key: &str) -> String {
    res.attributes.iter().find(|a| a.key == key).unwrap().value.clone()
}

#[test]
fn tallies_follow_the_ballots() {
    let mut store = setup(None);
    create(&mut store, "p", "Which coin?", &["Cosmos Hub", "Juno", "Osmosis"]).unwrap();
    vote(&mut store, "addr1", "p", "Juno").unwrap();
    vote(&mut store, "addr2", "p", "Juno").unwrap();
    assert_eq!(tallies(&store, "p"), vec![0, 2, 0]);
    vote(&mut store, "addr1", "p", "Osmosis").unwrap();
    assert_eq!(tallies(&store, "p"), vec![0, 1, 1]);
    assert_eq!(tallies(&store, "p").iter().sum::<u64>(), 2);
    assert_eq!(ballot(&store, "addr1", "p").unwrap().option, "Osmosis");
    assert_eq!(ballot(&store, "addr2", "p").unwrap().option, "Juno");
}

#[test]
fn repeated_vote_changes_nothing() {
    let mut store = setup(None);
    create(&mut store, "p", "Which coin?", &["Cosmos Hub", "Juno"]).unwrap();
    let first = vote(&mut store, "addr1", "p", "Juno").unwrap();
    let polls_before = poll(&store, "p");
    let second = vote(&mut store, "addr1", "p", "Juno").unwrap();
    assert_eq!(first, second);
    assert_eq!(poll(&store, "p"), polls_before);
    assert_eq!(tallies(&store, "p"), vec![0, 1]);
}

#[test]
fn vote_for_missing_option_records_the_ballot_but_no_tally() {
    let mut store = setup(None);
    create(&mut store, "p", "Which coin?", &["Cosmos Hub", "Juno"]).unwrap();
    vote(&mut store, "addr1", "p", "Juno").unwrap();
    let err = vote(&mut store, "addr1", "p", "DVPN").unwrap_err();
    assert_eq!(err, ContractError::VoteOptionNotFound {});
    assert_eq!(tallies(&store, "p"), vec![0, 1]);
    assert_eq!(ballot(&store, "addr1", "p").unwrap().option, "DVPN");
}

#[test]
fn other_refusals_leave_storage_as_it_was() {
    let mut store = setup(None);
    create(&mut store, "p", "Which coin?", &["Cosmos Hub", "Juno"]).unwrap();
    vote(&mut store, "addr1", "p", "Juno").unwrap();
    assert_eq!(vote(&mut store, "addr2", "q", "Juno").unwrap_err(), ContractError::PollNotFound {});
    assert!(ballot(&store, "addr2", "q").is_none());
    execute(&mut store, info("addr1", vec![]), ExecuteMsg::ClosePoll { poll_id: "p".to_string() }).unwrap();
    assert_eq!(vote(&mut store, "addr1", "p", "Cosmos Hub").unwrap_err(), ContractError::PollClosed {});
    assert_eq!(ballot(&store, "addr1", "p").unwrap().option, "Juno");
    assert_eq!(tallies(&store, "p"), vec![0, 1]);
}

#[test]
fn closed_poll_keeps_its_tallies() {
    let mut store = setup(None);
    create(&mut store, "p", "Which coin?", &["Cosmos Hub", "Juno"]).unwrap();
    vote(&mut store, "addr1", "p", "Juno").unwrap();
    execute(&mut store, info("addr2", vec![]), ExecuteMsg::ClosePoll { poll_id: "p".to_string() }).unwrap();
    assert_eq!(vote(&mut store, "addr2", "p", "Juno").unwrap_err(), ContractError::PollClosed {});
    let p = poll(&store, "p").unwrap();
    assert!(p.is_closed);
    assert_eq!(tallies(&store, "p"), vec![0, 1]);
}

#[test]
fn duplicate_option_names_count_at_the_first() {
    let mut store = setup(None);
    create(&mut store, "p", "Pick", &["A", "A", "B"]).unwrap();
    vote(&mut store, "addr1", "p", "A").unwrap();
    vote(&mut store, "addr2", "p", "B").unwrap();
    assert_eq!(tallies(&store, "p"), vec![1, 0, 1]);
}

#[test]
fn all_polls_come_in_byte_order_of_id() {
    let mut store = setup(None);
    for id in ["b", "\u{e9}", "a", "z", "c"] {
        create(&mut store, id, id, &["x"]).unwrap();
    }
    let polls = match query(&store, QueryMsg::AllPolls {}, None).unwrap() {
        QueryResponse::AllPolls(r) => r.polls,
        other => panic!("unexpected answer {:?}", other),
    };
    let questions: Vec<String> = polls.iter().map(|p| p.question.clone()).collect();
    assert_eq!(questions, vec!["a", "b", "c", "z", "\u{e9}"]);
}

#[test]
fn creating_under_a_used_id_replaces_the_poll() {
    let mut store = setup(None);
    create(&mut store, "p", "First?", &["x", "y"]).unwrap();
    vote(&mut store, "addr1", "p", "y").unwrap();
    create(&mut store, "p", "Second?", &["u", "v", "w"]).unwrap();
    let p = poll(&store, "p").unwrap();
    assert_eq!(p.question, "Second?");
    assert_eq!(tallies(&store, "p"), vec![0, 0, 0]);
    assert_eq!(p.creator, "addr1");
    assert!(!p.is_closed);
}

#[test]
fn ten_options_are_accepted_eleven_refused_before_anything_else() {
    let mut store = Store::new();
    let eleven: Vec<String> = (1..=11).map(|i| i.to_string()).collect();
    let msg = ExecuteMsg::CreatePoll { poll_id: "p".to_string(), question: "q".to_string(), options: eleven };
    assert_eq!(execute(&mut store, info("addr1", vec![]), msg).unwrap_err(), ContractError::TooManyOptions {});
    let mut store = setup(None);
    let ten: Vec<&str> = vec!["1", "2", "3", "4", "5", "6", "7", "8", "9", "10"];
    create(&mut store, "p", "q", &ten).unwrap();
    assert_eq!(tallies(&store, "p").len(), 10);
}

#[test]
fn creating_a_poll_before_instantiation_fails_to_load_the_config() {
    let mut store = Store::new();
    let err = create(&mut store, "p", "q", &["x"]).unwrap_err();
    assert!(matches!(err, ContractError::Std(StdError::NotFound { .. })));
    assert!(poll(&store, "p").is_none());
}

#[test]
fn config_query_before_instantiation_is_not_found() {
    let store = Store::new();
    let err = query(&store, QueryMsg::Config {}, None).unwrap_err();
    match err {
        StdError::NotFound { kind, .. } => {
            assert_eq!(kind, "type: cw_starter::state::Config; key: [63, 6F, 6E, 66, 69, 67]")
        }
        other => panic!("unexpected error {:?}", other),
    }
}

#[test]
fn invalid_admin_is_a_storage_error_and_stores_nothing() {
    let mut store = Store::new();
    let msg = InstantiateMsg { admin: Some("ab".to_string()), create_poll_fee: None };
    let admin = admin_to_validate(&info("addr1", vec![]), &msg);
    assert_eq!(admin, "ab");
    let validated = MockApi::default().addr_validate(&admin).map(|a| a.to_string());
    let err = instantiate(&mut store, msg, validated).unwrap_err();
    assert!(matches!(err, ContractError::Std(_)));
    assert!(query(&store, QueryMsg::Config {}, None).is_err());
}

#[test]
fn the_fee_needs_one_coin_of_its_denomination_large_enough() {
    let mut store = setup(Some(coin_of(5, "atom")));
    let msg = |id: &str| ExecuteMsg::CreatePoll {
        poll_id: id.to_string(),
        question: "q".to_string(),
        options: vec!["x".to_string()],
    };
    let funds = vec![coin_of(10, "osmo")];
    assert_eq!(execute(&mut store, info("addr1", funds), msg("a")).unwrap_err(), ContractError::InsufficientFunds {});
    let funds = vec![coin_of(4, "atom"), coin_of(4, "atom")];
    assert_eq!(execute(&mut store, info("addr1", funds), msg("b")).unwrap_err(), ContractError::InsufficientFunds {});
    let funds = vec![coin_of(3, "osmo"), coin_of(5, "atom")];
    execute(&mut store, info("addr1", funds), msg("c")).unwrap();
    assert!(poll(&store, "c").is_some());
    assert!(poll(&store, "a").is_none());
}

#[test]
fn fee_amounts_are_reported_in_decimal() {
    assert_eq!(decimal_string(0), "0");
    assert_eq!(decimal_string(1234567890), "1234567890");
    assert_eq!(decimal_string(u128::MAX), u128::MAX.to_string());
    let mut store = Store::new();
    let msg = InstantiateMsg { admin: None, create_poll_fee: Some(coin_of(1000000007, "uatom")) };
    let res = instantiate(&mut store, msg, Ok("addr1".to_string())).unwrap();
    assert_eq!(value_of(&res, "create_poll_fee_amount"), "1000000007");
    assert_eq!(value_of(&res, "create_poll_fee_denom"), "uatom");
}

#[test]
fn instantiate_sets_the_admin_that_validation_gave() {
    let mut store = Store::new();
    let msg = InstantiateMsg { admin: None, create_poll_fee: None };
    assert_eq!(admin_to_validate(&info("addr9", vec![]), &msg), "addr9");
    instantiate(&mut store, msg, Ok("addr9".to_string())).unwrap();
    match query(&store, QueryMsg::Config {}, None).unwrap() {
        QueryResponse::Config(r) => assert_eq!(r.config, Config { admin: "addr9".to_string(), create_poll_fee: None }),
        other => panic!("unexpected answer {:?}", other),
    }
}

#[test]
fn step_functions_pass_storage_errors_through() {
    let err = execute_close_poll(Err(StdError::generic_err("boom"))).unwrap_err();
    assert_eq!(err, ContractError::Std(StdError::generic_err("boom")));
    let open = Poll { creator: "c".to_string(), question: "q".to_string(), options: vec![("x".to_string(), 0)], is_closed: false };
    let (written, res) = execute_vote(Ok(Some(open.clone())), Err(StdError::generic_err("ballot")), "x".to_string());
    assert_eq!(written, None);
    assert_eq!(res.unwrap_err(), ContractError::Std(StdError::generic_err("ballot")));
    let (written, res) = execute_vote(Ok(None), Err(StdError::generic_err("ballot")), "x".to_string());
    assert_eq!(written, None);
    assert_eq!(res.unwrap_err(), ContractError::PollNotFound {});
    let (written, res) = execute_vote(Ok(Some(open.clone())), Ok(None), "y".to_string());
    assert_eq!(written, Some(Ballot { option: "y".to_string() }));
    assert_eq!(res.unwrap_err(), ContractError::VoteOptionNotFound {});
    let (written, res) = execute_vote(Ok(Some(open)), Ok(None), "x".to_string());
    let (p, _) = res.unwrap();
    assert_eq!(p.options, vec![("x".to_string(), 1)]);
    assert_eq!(written, Some(Ballot { option: "x".to_string() }));
    let err = execute_create_poll(Err(StdError::generic_err("cfg")), &info("a", vec![]), "q".to_string(), vec![]).unwrap_err();
    assert_eq!(err, ContractError::Std(StdError::generic_err("cfg")));
}

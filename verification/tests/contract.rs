use cosmwasm_std::testing::MockApi;
use cosmwasm_std::{attr, coin, Api, StdError};
use cw_starter::contract::{address_to_validate, admin_to_validate, execute, instantiate, query};
use cw_starter::error::ContractError;
use cw_starter::msg::{
    AllPollsResponse, ConfigResponse, ExecuteMsg, InstantiateMsg, MessageInfo, PollResponse,
    QueryMsg, QueryResponse, Response, VoteResponse,
};
use cw_starter::state::{Coin, Store};

// Two fake addresses and a denomination used by the tests.
pub const ADDR1: &str = "addr1";
pub const ADDR2: &str = "addr2";
pub const ATOM: &str = "atom";

fn to_coin(c: &cosmwasm_std::Coin) -> Coin {
    Coin { denom: c.denom.clone(), amount: c.amount.u128() }
}

/// The message info of `sender` sending `funds`, as `mock_info` builds it.
fn mock_info(sender: &str, funds: &[cosmwasm_std::Coin]) -> MessageInfo {
    MessageInfo { sender: sender.to_string(), funds: funds.iter().map(to_coin).collect() }
}

fn instantiate_msg(admin: Option<String>, fee: Option<cosmwasm_std::Coin>) -> InstantiateMsg {
    InstantiateMsg { admin, create_poll_fee: fee.as_ref().map(to_coin) }
}

/// Instantiates as the entry point does: the admin address is validated by
/// the mock chain's API first.
fn do_instantiate(store: &mut Store, info: &MessageInfo, msg: InstantiateMsg) -> Result<Response, ContractError> {
    let admin = admin_to_validate(info, &msg);
    let validated = MockApi::default().addr_validate(&admin).map(|a| a.to_string());
    instantiate(store, msg, validated)
}

/// Queries as the entry point does: a vote query validates its address first,
/// and an invalid address is a fault.
fn do_query(store: &Store, msg: QueryMsg) -> Result<QueryResponse, StdError> {
    let validated = address_to_validate(&msg)
        .map(|a| Ok(MockApi::default().addr_validate(&a).unwrap().to_string()));
    query(store, msg, validated)
}

fn attrs(res: &Response) -> Vec<cosmwasm_std::Attribute> {
    res.attributes.iter().map(|a| attr(a.key.clone(), a.value.clone())).collect()
}

fn all_polls(store: &Store) -> AllPollsResponse {
    match do_query(store, QueryMsg::AllPolls {}).unwrap() {
        QueryResponse::AllPolls(r) => r,
        other => panic!("unexpected answer {:?}", other),
    }
}

fn poll_of(store: &Store, poll_id: &str) -> PollResponse {
    match do_query(store, QueryMsg::Poll { poll_id: poll_id.to_string() }).unwrap() {
        QueryResponse::Poll(r) => r,
        other => panic!("unexpected answer {:?}", other),
    }
}

fn vote_of(store: &Store, address: &str, poll_id: &str) -> VoteResponse {
    let msg = QueryMsg::Vote { address: address.to_string(), poll_id: poll_id.to_string() };
    match do_query(store, msg).unwrap() {
        QueryResponse::Vote(r) => r,
        other => panic!("unexpected answer {:?}", other),
    }
}

fn config_of(store: &Store) -> ConfigResponse {
    match do_query(store, QueryMsg::Config {}).unwrap() {
        QueryResponse::Config(r) => r,
        other => panic!("unexpected answer {:?}", other),
    }
}

fn cosmos_poll(poll_id: &str) -> ExecuteMsg {
    ExecuteMsg::CreatePoll {
        poll_id: poll_id.to_string(),
        question: "What's your favourite Cosmos coin?".to_string(),
        options: vec!["Cosmos Hub".to_string(), "Juno".to_string(), "Osmosis".to_string()],
    }
}


#[test]
fn test_instantiate() {
    let mut store = Store::new();
    let info = mock_info(ADDR1, &[]);
    let msg = instantiate_msg(None, None);
    let res = do_instantiate(&mut store, &info, msg).unwrap();
    assert_eq!(
        attrs(&res),
        vec![
            attr("action", "instantiate"),
            attr("admin", ADDR1),
            attr("create_poll_fee_denom", ""),
            attr("create_poll_fee_amount", "0")
        ]
    )
}

#[test]
fn test_instantiate_with_admin() {
    let mut store = Store::new();
    let info = mock_info(ADDR1, &[]);
    let msg = instantiate_msg(Some(ADDR2.to_string()), None);
    let res = do_instantiate(&mut store, &info, msg).unwrap();
    assert_eq!(
        attrs(&res),
        vec![
            attr("action", "instantiate"),
            attr("admin", ADDR2),
            attr("create_poll_fee_denom", ""),
            attr("create_poll_fee_amount", "0")
        ]
    )
}

#[test]
fn test_instantiate_with_create_poll_fee() {
    let mut store = Store::new();
    let info = mock_info(ADDR1, &[]);
    let msg = instantiate_msg(Some(ADDR2.to_string()), Some(coin(1, ATOM)));
    let res = do_instantiate(&mut store, &info, msg).unwrap();
    assert_eq!(
        attrs(&res),
        vec![
            attr("action", "instantiate"),
            attr("admin", ADDR2),
            attr("create_poll_fee_denom", ATOM),
            attr("create_poll_fee_amount", "1")
        ]
    )
}

#[test]
fn test_execute_create_poll_valid_without_create_poll_fee() {
    let mut store = Store::new();
    let info = mock_info(ADDR1, &[]);
    do_instantiate(&mut store, &info, instantiate_msg(None, None)).unwrap();

    let question = "What's your favourite Cosmos coin?";
    let msg = ExecuteMsg::CreatePoll {
        poll_id: "some_id".to_string(),
        question: question.to_string(),
        options: vec!["Cosmos Hub".to_string(), "Juno".to_string(), "Osmosis".to_string()],
    };
    let res = execute(&mut store, info, msg).unwrap();
    assert_eq!(attrs(&res), vec![attr("action", "create_poll"), attr("question", question)])
}

#[test]
fn test_execute_create_poll_valid_with_create_poll_fee() {
    let mut store = Store::new();
    let info = mock_info(ADDR1, &[coin(1, ATOM)]);
    do_instantiate(&mut store, &info, instantiate_msg(None, Some(coin(1, ATOM)))).unwrap();

    let question = "What's your favourite Cosmos coin?";
    let msg = ExecuteMsg::CreatePoll {
        poll_id: "some_id".to_string(),
        question: question.to_string(),
        options: vec!["Cosmos Hub".to_string(), "Juno".to_string(), "Osmosis".to_string()],
    };
    let res = execute(&mut store, info, msg).unwrap();
    assert_eq!(attrs(&res), vec![attr("action", "create_poll"), attr("question", question)])
}

#[test]
fn test_execute_create_poll_invalid_too_many_options() {
    let mut store = Store::new();
    let info = mock_info(ADDR1, &[]);
    do_instantiate(&mut store, &info, instantiate_msg(None, None)).unwrap();

    let msg = ExecuteMsg::CreatePoll {
        poll_id: "some_id".to_string(),
        question: "What's your favourite number?".to_string(),
        options: vec![
            "1".to_string(),
            "2".to_string(),
            "3".to_string(),
            "4".to_string(),
            "5".to_string(),
            "6".to_string(),
            "7".to_string(),
            "8".to_string(),
            "9".to_string(),
            "10".to_string(),
            "11".to_string(),
        ],
    };
    let err = execute(&mut store, info, msg).unwrap_err();
    assert_eq!(err, ContractError::TooManyOptions {})
}

#[test]
fn test_execute_create_poll_invalid_insufficient_funds() {
    let mut store = Store::new();
    let info = mock_info(ADDR1, &[]);
    do_instantiate(&mut store, &info, instantiate_msg(None, Some(coin(1, ATOM)))).unwrap();

    let question = "What's your favourite Cosmos coin?";
    let msg = ExecuteMsg::CreatePoll {
        poll_id: "some_id".to_string(),
        question: question.to_string(),
        options: vec!["Cosmos Hub".to_string(), "Juno".to_string(), "Osmosis".to_string()],
    };
    let err = execute(&mut store, info, msg).unwrap_err();
    assert_eq!(err, ContractError::InsufficientFunds {})
}

#[test]
fn test_execute_close_poll_valid() {
    let mut store = Store::new();
    let info = mock_info(ADDR1, &[]);
    do_instantiate(&mut store, &info, instantiate_msg(None, None)).unwrap();

    let question = "What's your favourite Cosmos coin?";
    execute(&mut store, info.clone(), cosmos_poll("some_id")).unwrap();

    let msg = ExecuteMsg::ClosePoll { poll_id: "some_id".to_string() };
    let res = execute(&mut store, info, msg).unwrap();
    assert_eq!(
        attrs(&res),
        vec![
            attr("action", "close_poll"),
            attr("question", question.to_string()),
            attr("is_closed", "true")
        ]
    )
}

#[test]
fn test_execute_close_poll_invalid_poll_closed() {
    let mut store = Store::new();
    let info = mock_info(ADDR1, &[]);
    do_instantiate(&mut store, &info, instantiate_msg(None, None)).unwrap();
    execute(&mut store, info.clone(), cosmos_poll("some_id")).unwrap();

    let msg = ExecuteMsg::ClosePoll { poll_id: "some_id".to_string() };
    execute(&mut store, info.clone(), msg.clone()).unwrap();
    let err = execute(&mut store, info, msg).unwrap_err();
    assert_eq!(err, ContractError::PollClosed {})
}

#[test]
fn test_execute_close_poll_invalid_poll_not_found() {
    let mut store = Store::new();
    let info = mock_info(ADDR1, &[]);
    do_instantiate(&mut store, &info, instantiate_msg(None, None)).unwrap();

    let msg = ExecuteMsg::ClosePoll { poll_id: "some_id".to_string() };
    let err = execute(&mut store, info, msg).unwrap_err();
    assert_eq!(err, ContractError::PollNotFound {})
}

#[test]
fn test_execute_vote_valid() {
    let mut store = Store::new();
    let info = mock_info(ADDR1, &[]);
    do_instantiate(&mut store, &info, instantiate_msg(None, None)).unwrap();

    let question = "What's your favourite Cosmos coin?";
    execute(&mut store, info.clone(), cosmos_poll("some_id")).unwrap();

    // First vote.
    let vote = "Juno";
    let msg = ExecuteMsg::Vote { poll_id: "some_id".to_string(), vote: "Juno".to_string() };
    let res = execute(&mut store, info.clone(), msg).unwrap();
    assert_eq!(
        attrs(&res),
        vec![attr("action", "vote"), attr("question", question), attr("voted_option", vote)]
    );

    // Change the vote.
    let vote = "Osmosis";
    let msg = ExecuteMsg::Vote { poll_id: "some_id".to_string(), vote: vote.to_string() };
    let res = execute(&mut store, info, msg).unwrap();
    assert_eq!(
        attrs(&res),
        vec![attr("action", "vote"), attr("question", question), attr("voted_option", vote)]
    )
}

#[test]
fn test_execute_vote_invalid_option_not_found() {
    let mut store = Store::new();
    let info = mock_info(ADDR1, &[]);
    do_instantiate(&mut store, &info, instantiate_msg(None, None)).unwrap();

    // The poll does not exist yet.
    let msg = ExecuteMsg::Vote { poll_id: "some_id".to_string(), vote: "Juno".to_string() };
    let _err = execute(&mut store, info.clone(), msg).unwrap_err();

    execute(&mut store, info.clone(), cosmos_poll("some_id")).unwrap();

    // The option "DVPN" does not exist.
    let msg = ExecuteMsg::Vote { poll_id: "some_id".to_string(), vote: "DVPN".to_string() };
    let err = execute(&mut store, info, msg).unwrap_err();
    assert_eq!(err, ContractError::VoteOptionNotFound {})
}

#[test]
fn test_execute_vote_invalid_poll_closed() {
    let mut store = Store::new();
    let info = mock_info(ADDR1, &[]);
    do_instantiate(&mut store, &info, instantiate_msg(None, None)).unwrap();

    let question = "What's your favourite Cosmos coin?";
    execute(&mut store, info.clone(), cosmos_poll("some_id")).unwrap();

    let vote = "Juno";
    let msg = ExecuteMsg::Vote { poll_id: "some_id".to_string(), vote: "Juno".to_string() };
    let res = execute(&mut store, info.clone(), msg).unwrap();
    assert_eq!(
        attrs(&res),
        vec![attr("action", "vote"), attr("question", question), attr("voted_option", vote)]
    );

    let msg = ExecuteMsg::ClosePoll { poll_id: "some_id".to_string() };
    execute(&mut store, info.clone(), msg).unwrap();

    let vote = "Osmosis";
    let msg = ExecuteMsg::Vote { poll_id: "some_id".to_string(), vote: vote.to_string() };
    let err = execute(&mut store, info, msg).unwrap_err();
    assert_eq!(err, ContractError::PollClosed {})
}

#[test]
fn test_execute_vote_invalid_poll_not_found() {
    let mut store = Store::new();
    let info = mock_info(ADDR1, &[]);
    do_instantiate(&mut store, &info, instantiate_msg(None, None)).unwrap();

    let msg = ExecuteMsg::Vote { poll_id: "some_id".to_string(), vote: "Juno".to_string() };
    let err = execute(&mut store, info, msg).unwrap_err();
    assert_eq!(err, ContractError::PollNotFound {})
}

#[test]
fn test_query_all_polls() {
    let mut store = Store::new();
    let info = mock_info(ADDR1, &[]);
    do_instantiate(&mut store, &info, instantiate_msg(None, None)).unwrap();

    execute(&mut store, info.clone(), cosmos_poll("some_id_1")).unwrap();
    let msg = ExecuteMsg::CreatePoll {
        poll_id: "some_id_2".to_string(),
        question: "What's your colour?".to_string(),
        options: vec!["Red".to_string(), "Green".to_string(), "Blue".to_string()],
    };
    execute(&mut store, info, msg).unwrap();

    let res = all_polls(&store);
    assert_eq!(res.polls.len(), 2);
}

#[test]
fn test_query_all_polls_without_any_poll() {
    let mut store = Store::new();
    let info = mock_info(ADDR1, &[]);
    do_instantiate(&mut store, &info, instantiate_msg(None, None)).unwrap();

    let res = all_polls(&store);
    assert_eq!(res.polls.len(), 0);
}

#[test]
fn test_query_poll() {
    let mut store = Store::new();
    let info = mock_info(ADDR1, &[]);
    do_instantiate(&mut store, &info, instantiate_msg(None, None)).unwrap();
    execute(&mut store, info, cosmos_poll("some_id_1")).unwrap();

    // A poll that exists.
    let res = poll_of(&store, "some_id_1");
    assert!(res.poll.is_some());

    // A poll that does not exist.
    let res = poll_of(&store, "some_id_not_exist");
    assert!(res.poll.is_none());
}

#[test]
fn test_query_vote() {
    let mut store = Store::new();
    let info = mock_info(ADDR1, &[]);
    do_instantiate(&mut store, &info, instantiate_msg(None, None)).unwrap();
    execute(&mut store, info.clone(), cosmos_poll("some_id_1")).unwrap();

    let msg = ExecuteMsg::Vote { poll_id: "some_id_1".to_string(), vote: "Juno".to_string() };
    execute(&mut store, info, msg).unwrap();

    // A vote that exists.
    let res = vote_of(&store, ADDR1, "some_id_1");
    assert!(res.vote.is_some());

    // A vote that does not exist.
    let res = vote_of(&store, ADDR2, "some_id_2");
    assert!(res.vote.is_none());
}

#[test]
fn test_query_config() {
    let mut store = Store::new();
    let info = mock_info(ADDR1, &[]);
    do_instantiate(&mut store, &info, instantiate_msg(None, None)).unwrap();

    let res = config_of(&store);
    assert_eq!(res.config.admin, ADDR1);
}

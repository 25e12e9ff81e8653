use vstd::prelude::*;
use crate::entries::{entries_map, lemma_entries_insert, lemma_entries_map, lemma_entries_update, unique_keys};
use crate::order::{key_less, key_lt, lemma_bytes_lt_irreflexive, lemma_bytes_lt_transitive, lemma_key_lt_total};

verus! {

/// An amount of one native token, as it stands in messages, funds and the
/// configuration.
#[derive(Debug, PartialEq, Eq, Clone)]
pub struct Coin {
    pub denom: String,
    pub amount: u128,
}

/// What a `Coin` holds, as plain values.
pub struct CoinView {
    pub denom: Seq<char>,
    pub amount: u128,
}

impl View for Coin {
    type V = CoinView;

    open spec fn view(&self) -> CoinView {
        CoinView { denom: self.denom@, amount: self.amount }
    }
}

/// The view of an optional coin.
pub open spec fn opt_coin_view(c: Option<Coin>) -> Option<CoinView> {
    match c {
        Some(c) => Some(c@),
        None => None,
    }
}

/// The contract's configuration, written once by `instantiate`.
#[derive(Debug, PartialEq, Eq, Clone)]
pub struct Config {
    pub admin: String,
    pub create_poll_fee: Option<Coin>,
}

pub struct ConfigView {
    pub admin: Seq<char>,
    pub create_poll_fee: Option<CoinView>,
}

impl View for Config {
    type V = ConfigView;

    open spec fn view(&self) -> ConfigView {
        ConfigView { admin: self.admin@, create_poll_fee: opt_coin_view(self.create_poll_fee) }
    }
}

/// A poll: its question and, for each option, its name and its tally.
#[derive(Debug, PartialEq, Eq, Clone)]
pub struct Poll {
    pub creator: String,
    pub question: String,
    pub options: Vec<(String, u64)>,
    pub is_closed: bool,
}

pub struct PollView {
    pub creator: Seq<char>,
    pub question: Seq<char>,
    pub options: Seq<(Seq<char>, u64)>,
    pub is_closed: bool,
}

/// The view of a poll's options: names as character sequences, with tallies.
pub open spec fn options_view(options: Seq<(String, u64)>) -> Seq<(Seq<char>, u64)> {
    options.map_values(|o: (String, u64)| (o.0@, o.1))
}

impl View for Poll {
    type V = PollView;

    open spec fn view(&self) -> PollView {
        PollView {
            creator: self.creator@,
            question: self.question@,
            options: options_view(self.options@),
            is_closed: self.is_closed,
        }
    }
}

/// The view of an optional poll.
pub open spec fn opt_poll_view(p: Option<Poll>) -> Option<PollView> {
    match p {
        Some(p) => Some(p@),
        None => None,
    }
}

/// A voter's choice in one poll: the name of the option voted for.
#[derive(Debug, PartialEq, Eq, Clone)]
pub struct Ballot {
    pub option: String,
}

impl View for Ballot {
    type V = Seq<char>;

    open spec fn view(&self) -> Seq<char> {
        self.option@
    }
}

/// The view of an optional ballot.
pub open spec fn opt_ballot_view(b: Option<Ballot>) -> Option<Seq<char>> {
    match b {
        Some(b) => Some(b@),
        None => None,
    }
}

/// A copy of a poll, option by option.
pub fn copy_poll(p: &Poll) -> (r: Poll)
    ensures
        r@ == p@,
{
    let mut options: Vec<(String, u64)> = Vec::new();
    let n = p.options.len();
    let mut i: usize = 0;
    while i < n
        invariant
            n == p.options@.len(),
            i <= n,
            options@.len() == i,
            forall|j: int| 0 <= j < i ==> #[trigger] options@[j].0@ == p.options@[j].0@
                && options@[j].1 == p.options@[j].1,
        decreases n - i,
    {
        let name = p.options[i].0.clone();
        options.push((name, p.options[i].1));
        i = i + 1;
    }
    assert(options_view(options@) =~= options_view(p.options@));
    Poll {
        creator: p.creator.clone(),
        question: p.question.clone(),
        options,
        is_closed: p.is_closed,
    }
}

/// The view of an optional configuration.
pub open spec fn opt_config_view(c: Option<Config>) -> Option<ConfigView> {
    match c {
        Some(c) => Some(c@),
        None => None,
    }
}

/// The contract's storage, as plain values: the configuration, the polls by
/// id, and the ballots by voter and poll id.
pub struct StoreView {
    pub config: Option<ConfigView>,
    pub polls: Map<Seq<char>, PollView>,
    pub ballots: Map<(Seq<char>, Seq<char>), Seq<char>>,
}

/// Keys in strictly ascending storage order.
pub open spec fn keys_ascending<V>(s: Seq<(Seq<char>, V)>) -> bool {
    forall|i: int, j: int| 0 <= i < j < s.len() ==> key_lt(s[i].0, s[j].0)
}

/// A model of the contract's storage, held in memory as plain values: the
/// configuration item, the polls in ascending byte order of id (the order in
/// which the chain's storage walks them), and the ballots. The handlers run on
/// it as they run on the chain's storage.
pub struct Store {
    config: Option<Config>,
    polls: Vec<(String, Poll)>,
    ballots: Vec<(String, String, Ballot)>,
}

impl Store {
    /// The stored polls with their ids, in storage order.
    pub closed spec fn poll_entries(&self) -> Seq<(Seq<char>, PollView)> {
        self.polls@.map_values(|e: (String, Poll)| (e.0@, e.1@))
    }

    /// The stored ballots under their (voter, poll id) keys.
    pub closed spec fn ballot_entries(&self) -> Seq<((Seq<char>, Seq<char>), Seq<char>)> {
        self.ballots@.map_values(|e: (String, String, Ballot)| ((e.0@, e.1@), e.2@))
    }

    /// The polls are kept in ascending order of id, and no ballot key repeats.
    pub closed spec fn wf(&self) -> bool {
        &&& keys_ascending(self.poll_entries())
        &&& unique_keys(self.ballot_entries())
    }
}

impl View for Store {
    type V = StoreView;

    closed spec fn view(&self) -> StoreView {
        StoreView {
            config: opt_config_view(self.config),
            polls: entries_map(self.poll_entries()),
            ballots: entries_map(self.ballot_entries()),
        }
    }
}

/// Keys in ascending order do not repeat.
pub proof fn lemma_ascending_unique<V>(s: Seq<(Seq<char>, V)>)
    requires
        keys_ascending(s),
    ensures
        unique_keys(s),
{
    assert forall|i: int, j: int| 0 <= i < s.len() && 0 <= j < s.len() && i != j implies s[i].0
        != s[j].0 by {
        if i < j {
            assert(key_lt(s[i].0, s[j].0));
        } else {
            assert(key_lt(s[j].0, s[i].0));
        }
        if s[i].0 == s[j].0 {
            lemma_bytes_lt_irreflexive(vstd::utf8::encode_utf8(s[i].0));
        }
    }
}

/// The polls listed in `list` are all the stored polls, in ascending order of id.
pub open spec fn listed_in_key_order(polls: Map<Seq<char>, PollView>, list: Seq<PollView>) -> bool {
    exists|ks: Seq<Seq<char>>|
        {
            &&& ks.len() == list.len()
            &&& forall|i: int, j: int| 0 <= i < j < ks.len() ==> key_lt(ks[i], ks[j])
            &&& forall|i: int| 0 <= i < ks.len() ==> polls.dom().contains(#[trigger] ks[i]) && list[i] == polls[ks[i]]
            &&& forall|k: Seq<char>| polls.dom().contains(k) ==> ks.contains(k)
        }
}

impl Store {
    /// An empty storage: no configuration, no polls, no ballots.
    pub fn new() -> (s: Store)
        ensures
            s.wf(),
            s@ == (StoreView { config: None, polls: Map::empty(), ballots: Map::empty() }),
    {
        let s = Store { config: None, polls: Vec::new(), ballots: Vec::new() };
        assert(s.poll_entries() =~= Seq::empty());
        assert(s.ballot_entries() =~= Seq::empty());
        s
    }

    /// The stored configuration, if any.
    pub fn config(&self) -> (c: Option<Config>)
        ensures
            opt_config_view(c) == self@.config,
    {
        match &self.config {
            Some(c) => Some(Config {
                admin: c.admin.clone(),
                create_poll_fee: match &c.create_poll_fee {
                    Some(f) => Some(Coin { denom: f.denom.clone(), amount: f.amount }),
                    None => None,
                },
            }),
            None => None,
        }
    }

    /// Replaces the configuration.
    pub fn save_config(&mut self, config: Config)
        requires
            old(self).wf(),
        ensures
            final(self).wf(),
            final(self)@ == (StoreView { config: Some(config@), ..old(self)@ }),
    {
        self.config = Some(config);
    }

    /// Where poll `id` stands: `Ok` with its position, or `Err` with the
    /// position at which it would be inserted.
    fn find_poll(&self, id: &String) -> (r: Result<usize, usize>)
        requires
            self.wf(),
        ensures
            match r {
                Ok(i) => i < self.polls@.len() && self.poll_entries()[i as int].0 == id@,
                Err(p) => p <= self.polls@.len()
                    && (forall|k: int| 0 <= k < p ==> key_lt(#[trigger] self.poll_entries()[k].0, id@))
                    && (forall|k: int| p <= k < self.polls@.len() ==> key_lt(id@, #[trigger] self.poll_entries()[k].0)),
            },
    {
        let ghost es = self.poll_entries();
        let mut i: usize = 0;
        while i < self.polls.len()
            invariant
                self.wf(),
                es == self.poll_entries(),
                i <= self.polls@.len(),
                forall|k: int| 0 <= k < i ==> key_lt(#[trigger] es[k].0, id@),
            decreases self.polls@.len() - i,
        {
            if self.polls[i].0 == *id {
                return Ok(i);
            }
            if !key_less(self.polls[i].0.as_str(), id.as_str()) {
                proof {
                    lemma_key_lt_total(es[i as int].0, id@);
                    assert forall|k: int| i <= k < self.polls@.len() implies key_lt(id@, #[trigger] es[k].0) by {
                        if k > i {
                            assert(key_lt(es[i as int].0, es[k].0));
                            lemma_bytes_lt_transitive(
                                vstd::utf8::encode_utf8(id@),
                                vstd::utf8::encode_utf8(es[i as int].0),
                                vstd::utf8::encode_utf8(es[k].0),
                            );
                        }
                    }
                }
                return Err(i);
            }
            i = i + 1;
        }
        Err(i)
    }

    /// The poll stored under `id`, if any.
    pub fn poll(&self, id: &String) -> (r: Option<Poll>)
        requires
            self.wf(),
        ensures
            opt_poll_view(r) == self@.polls.get(id@),
    {
        proof {
            lemma_ascending_unique(self.poll_entries());
            lemma_entries_map(self.poll_entries());
        }
        let ghost es = self.poll_entries();
        match self.find_poll(id) {
            Ok(i) => {
                assert(es[i as int].1 == self.polls@[i as int].1@);
                Some(copy_poll(&self.polls[i].1))
            },
            Err(p) => {
                assert forall|k: int| 0 <= k < es.len() implies es[k].0 != id@ by {
                    if k < p {
                        assert(key_lt(es[k].0, id@));
                    } else {
                        assert(key_lt(id@, es[k].0));
                    }
                    lemma_bytes_lt_irreflexive(vstd::utf8::encode_utf8(id@));
                }
                None
            },
        }
    }

    /// Stores `poll` under `id`, replacing any poll stored there.
    pub fn save_poll(&mut self, id: String, poll: Poll)
        requires
            old(self).wf(),
        ensures
            final(self).wf(),
            final(self)@ == (StoreView { polls: old(self)@.polls.insert(id@, poll@), ..old(self)@ }),
    {
        let ghost es = self.poll_entries();
        proof {
            lemma_ascending_unique(es);
            lemma_entries_map(es);
        }
        match self.find_poll(&id) {
            Ok(i) => {
                let ghost idv = id@;
                let ghost pv = poll@;
                self.polls.set(i, (id, poll));
                proof {
                    assert(self.poll_entries() =~= es.update(i as int, (es[i as int].0, pv)));
                    lemma_entries_update(es, i as int, pv);
                }
            },
            Err(p) => {
                let ghost idv = id@;
                let ghost pv = poll@;
                self.polls.insert(p, (id, poll));
                proof {
                    assert(self.poll_entries() =~= es.insert(p as int, (idv, pv)));
                    assert forall|k: int| 0 <= k < es.len() implies es[k].0 != idv by {
                        if k < p {
                            assert(key_lt(es[k].0, idv));
                        } else {
                            assert(key_lt(idv, es[k].0));
                        }
                        lemma_bytes_lt_irreflexive(vstd::utf8::encode_utf8(idv));
                    }
                    lemma_entries_insert(es, p as int, idv, pv);
                }
            },
        }
    }
}

impl Store {
    /// Where the ballot of `voter` in poll `id` stands, if anywhere.
    fn find_ballot(&self, voter: &String, id: &String) -> (r: Option<usize>)
        ensures
            match r {
                Some(i) => i < self.ballots@.len() && self.ballot_entries()[i as int].0 == (voter@, id@),
                None => forall|k: int| 0 <= k < self.ballots@.len() ==> #[trigger] self.ballot_entries()[k].0 != (voter@, id@),
            },
    {
        let ghost es = self.ballot_entries();
        let mut i: usize = 0;
        while i < self.ballots.len()
            invariant
                es == self.ballot_entries(),
                i <= self.ballots@.len(),
                forall|k: int| 0 <= k < i ==> #[trigger] es[k].0 != (voter@, id@),
            decreases self.ballots@.len() - i,
        {
            if self.ballots[i].0 == *voter && self.ballots[i].1 == *id {
                return Some(i);
            }
            i = i + 1;
        }
        None
    }

    /// The ballot of `voter` in poll `id`, if any.
    pub fn ballot(&self, voter: &String, id: &String) -> (r: Option<Ballot>)
        requires
            self.wf(),
        ensures
            opt_ballot_view(r) == self@.ballots.get((voter@, id@)),
    {
        proof {
            lemma_entries_map(self.ballot_entries());
        }
        let ghost es = self.ballot_entries();
        match self.find_ballot(voter, id) {
            Some(i) => {
                assert(es[i as int].1 == self.ballots@[i as int].2@);
                Some(Ballot { option: self.ballots[i].2.option.clone() })
            },
            None => None,
        }
    }

    /// Stores the ballot of `voter` in poll `id`, replacing any earlier one.
    pub fn save_ballot(&mut self, voter: String, id: String, ballot: Ballot)
        requires
            old(self).wf(),
        ensures
            final(self).wf(),
            final(self)@ == (StoreView {
                ballots: old(self)@.ballots.insert((voter@, id@), ballot@),
                ..old(self)@
            }),
    {
        let ghost es = self.ballot_entries();
        let ghost key = (voter@, id@);
        let ghost bv = ballot@;
        proof {
            lemma_entries_map(es);
        }
        match self.find_ballot(&voter, &id) {
            Some(i) => {
                self.ballots.set(i, (voter, id, ballot));
                proof {
                    assert(self.ballot_entries() =~= es.update(i as int, (es[i as int].0, bv)));
                    lemma_entries_update(es, i as int, bv);
                }
            },
            None => {
                let n = self.ballots.len();
                self.ballots.push((voter, id, ballot));
                proof {
                    assert(self.ballot_entries() =~= es.insert(n as int, (key, bv)));
                    lemma_entries_insert(es, n as int, key, bv);
                }
            },
        }
        proof {
            assert(self.poll_entries() == old(self).poll_entries());
        }
    }

    /// Every stored poll, in ascending order of id.
    pub fn all_polls(&self) -> (r: Vec<Poll>)
        requires
            self.wf(),
        ensures
            listed_in_key_order(self@.polls, r@.map_values(|p: Poll| p@)),
    {
        let ghost es = self.poll_entries();
        proof {
            lemma_ascending_unique(es);
            lemma_entries_map(es);
        }
        let mut r: Vec<Poll> = Vec::new();
        let n = self.polls.len();
        let mut i: usize = 0;
        while i < n
            invariant
                self.wf(),
                es == self.poll_entries(),
                n == self.polls@.len(),
                i <= n,
                r@.len() == i,
                forall|j: int| 0 <= j < i ==> #[trigger] r@[j]@ == es[j].1,
            decreases n - i,
        {
            r.push(copy_poll(&self.polls[i].1));
            i = i + 1;
        }
        let ghost ks = es.map_values(|e: (Seq<char>, PollView)| e.0);
        let ghost list = r@.map_values(|p: Poll| p@);
        assert forall|k: Seq<char>| self@.polls.dom().contains(k) implies ks.contains(k) by {
            let j = choose|j: int| 0 <= j < es.len() && es[j].0 == k;
            assert(ks[j] == k);
        }
        assert forall|j: int| 0 <= j < ks.len() implies self@.polls.dom().contains(#[trigger] ks[j])
            && list[j] == self@.polls[ks[j]] by {
            assert(es[j].0 == ks[j]);
        }
        assert forall|a: int, b: int| 0 <= a < b < ks.len() implies key_lt(ks[a], ks[b]) by {
            assert(key_lt(es[a].0, es[b].0));
        }
        assert(ks.len() == list.len());
        r
    }
}

} // verus!

use vstd::prelude::*;
use vstd::set_lib::lemma_len_subset;
use crate::contract::{
    ballot_of, close_poll_model, create_poll_model, execute_model, execute_safe, fresh_poll,
    is_handled, names_view, vote_model, Outcome, MAX_OPTIONS,
};
use crate::msg::{funds_view, ExecuteMsg, MessageInfo};
use crate::poll::{
    cast, is_first_option, lemma_option_index_found, lemma_option_index_is,
    lemma_option_index_tally_update, option_index, vote_safe, withdraw,
};
use crate::error::ErrorKind;
use crate::state::{PollView, StoreView};

verus! {

/// The voters whose ballot in poll `id` names `name`.
pub open spec fn voters_for(s: StoreView, id: Seq<char>, name: Seq<char>) -> Set<(Seq<char>, Seq<char>)> {
    Set::new(|k: (Seq<char>, Seq<char>)| s.ballots.dom().contains(k) && k.1 == id && s.ballots[k] == name)
}

/// The number of ballots in poll `id` for option `name`.
pub open spec fn tally_of(s: StoreView, id: Seq<char>, name: Seq<char>) -> nat {
    voters_for(s, id, name).len()
}

/// The tallies of poll `id` count its ballots: each option's tally is the
/// number of ballots for its name at the first position with that name, and
/// zero at later positions with the same name; every ballot in the poll names
/// one of its options.
pub open spec fn poll_tallies_exact(s: StoreView, id: Seq<char>) -> bool {
    let opts = s.polls[id].options;
    &&& forall|i: int|
        0 <= i < opts.len() ==> #[trigger] opts[i].1 == (if option_index(opts, opts[i].0) == i {
            tally_of(s, id, opts[i].0)
        } else {
            0
        })
    &&& forall|k: (Seq<char>, Seq<char>)|
        s.ballots.dom().contains(k) && k.1 == id ==> option_index(opts, #[trigger] s.ballots[k]) >= 0
}

/// Every ballot belongs to a stored poll, and every poll's tallies count its
/// ballots exactly.
pub open spec fn tallies_exact(s: StoreView) -> bool {
    &&& s.ballots.dom().finite()
    &&& forall|k: (Seq<char>, Seq<char>)| #[trigger] s.ballots.dom().contains(k) ==> s.polls.contains_key(k.1)
    &&& forall|id: Seq<char>| #[trigger] s.polls.contains_key(id) ==> poll_tallies_exact(s, id)
}

/// A tally is at most the number of ballots.
proof fn lemma_tally_bound(s: StoreView, id: Seq<char>, name: Seq<char>)
    requires
        s.ballots.dom().finite(),
    ensures
        voters_for(s, id, name).finite(),
        tally_of(s, id, name) <= s.ballots.dom().len(),
{
    lemma_len_subset(voters_for(s, id, name), s.ballots.dom());
}

/// How recording the ballot `vote` of `voter` in poll `id` changes the voters
/// of an option: the voter leaves the voters of the earlier choice and joins
/// those of `vote`; the voters of other polls stay.
proof fn lemma_voters_after_ballot(
    s: StoreView,
    voter: Seq<char>,
    id: Seq<char>,
    vote: Seq<char>,
    id2: Seq<char>,
    name: Seq<char>,
)
    requires
        s.ballots.dom().finite(),
    ensures
        ({
            let t = StoreView { ballots: s.ballots.insert((voter, id), vote), ..s };
            let before: int = if ballot_of(s, voter, id) == Some(name) { 1 } else { 0 };
            let after: int = if vote == name { 1 } else { 0 };
            &&& id2 != id ==> voters_for(t, id2, name) == voters_for(s, id2, name)
            &&& id2 == id ==> tally_of(t, id2, name) == tally_of(s, id2, name) - before + after
        }),
{
    let t = StoreView { ballots: s.ballots.insert((voter, id), vote), ..s };
    let key = (voter, id);
    lemma_tally_bound(s, id2, name);
    if id2 != id {
        assert(voters_for(t, id2, name) =~= voters_for(s, id2, name));
    } else {
        let old_set = voters_for(s, id, name);
        let base = old_set.remove(key);
        if vote == name {
            assert(voters_for(t, id, name) =~= base.insert(key));
        } else {
            assert(voters_for(t, id, name) =~= base);
        }
        if ballot_of(s, voter, id) == Some(name) {
            assert(old_set.contains(key));
        } else {
            assert(!old_set.contains(key));
            assert(base =~= old_set);
        }
    }
}

/// In storage whose tallies are exact, with fewer ballots than the largest
/// `u64`, every message runs without a fault.
pub proof fn law_exact_tallies_make_execute_safe(s: StoreView, info: MessageInfo, msg: ExecuteMsg)
    requires
        tallies_exact(s),
        s.ballots.dom().len() < u64::MAX,
    ensures
        execute_safe(s, info, msg),
{
    if let ExecuteMsg::Vote { poll_id, vote } = msg {
        let id = poll_id@;
        let voter = info.sender@;
        if s.polls.contains_key(id) && !s.polls[id].is_closed {
            let opts = s.polls[id].options;
            assert(poll_tallies_exact(s, id));
            let old = ballot_of(s, voter, id);
            if let Some(b) = old {
                assert(s.ballots.dom().contains((voter, id)));
                assert(s.ballots[(voter, id)] == b);
                let p = option_index(opts, b);
                assert(p >= 0);
                assert(is_first_option(opts, b, p));
                assert(opts[p].1 == tally_of(s, id, b));
                lemma_tally_bound(s, id, b);
                assert(voters_for(s, id, b).contains((voter, id)));
            }
            let w = withdraw(opts, old);
            if let Some(b) = old {
                let p = option_index(opts, b);
                lemma_option_index_tally_update(opts, p, (opts[p].1 - 1) as u64, vote@);
            }
            assert(option_index(w, vote@) == option_index(opts, vote@));
            let q = option_index(opts, vote@);
            if q >= 0 {
                assert(is_first_option(opts, vote@, q));
                assert(opts[q].1 == tally_of(s, id, vote@));
                lemma_tally_bound(s, id, vote@);
                assert(w[q].1 <= opts[q].1);
            }
        }
    }
}

/// The options after a vote: same names and positions, one count fewer at the
/// earlier choice and one more at the new one.
proof fn lemma_vote_options(opts: Seq<(Seq<char>, u64)>, old: Option<Seq<char>>, vote: Seq<char>)
    requires
        vote_safe(PollView { creator: Seq::empty(), question: Seq::empty(), options: opts, is_closed: false }, old, vote),
        option_index(withdraw(opts, old), vote) >= 0,
    ensures
        ({
            let r = cast(withdraw(opts, old), vote);
            &&& option_index(opts, vote) == option_index(withdraw(opts, old), vote)
            &&& r.len() == opts.len()
            &&& forall|i: int| 0 <= i < opts.len() ==> #[trigger] r[i].0 == opts[i].0
            &&& forall|n: Seq<char>| #[trigger] option_index(r, n) == option_index(opts, n)
            &&& forall|i: int|
                0 <= i < opts.len() ==> #[trigger] r[i].1 == opts[i].1 - (if old matches Some(b) && i
                    == option_index(opts, b) {
                    1int
                } else {
                    0int
                }) + (if i == option_index(opts, vote) {
                    1int
                } else {
                    0int
                })
        }),
{
    let w = withdraw(opts, old);
    let r = cast(w, vote);
    assert forall|n: Seq<char>| option_index(w, n) == option_index(opts, n) by {
        if let Some(b) = old {
            let p = option_index(opts, b);
            lemma_option_index_tally_update(opts, p, (opts[p].1 - 1) as u64, n);
        }
    }
    let q = option_index(w, vote);
    assert forall|n: Seq<char>| #[trigger] option_index(r, n) == option_index(opts, n) by {
        lemma_option_index_tally_update(w, q, (w[q].1 + 1) as u64, n);
        assert(option_index(w, n) == option_index(opts, n));
    }
}

/// Recording a vote keeps the tallies exact.
proof fn lemma_vote_keeps_tallies_exact(s: StoreView, voter: Seq<char>, id: Seq<char>, vote: Seq<char>)
    requires
        tallies_exact(s),
        s.polls.contains_key(id) ==> vote_safe(s.polls[id], ballot_of(s, voter, id), vote),
    ensures
        vote_model(s, voter, id, vote) matches Outcome::Applied(ns, _) ==> tallies_exact(ns),
{
    if let Outcome::Applied(ns, _) = vote_model(s, voter, id, vote) {
        let poll = s.polls[id];
        let opts = poll.options;
        let old = ballot_of(s, voter, id);
        let w = withdraw(opts, old);
        let nopts = cast(w, vote);
        assert(poll_tallies_exact(s, id));
        lemma_vote_options(opts, old, vote);
        assert(ns.polls[id].options == nopts);
        assert(option_index(opts, vote) >= 0);
        assert forall|k: (Seq<char>, Seq<char>)| #[trigger] ns.ballots.dom().contains(k) implies ns.polls.contains_key(k.1) by {
            if k != (voter, id) {
                assert(s.ballots.dom().contains(k));
            }
        }
        assert forall|pid: Seq<char>| #[trigger] ns.polls.contains_key(pid) implies poll_tallies_exact(ns, pid) by {
            assert(poll_tallies_exact(s, pid));
            if pid != id {
                assert(ns.polls[pid] == s.polls[pid]);
                let po = s.polls[pid].options;
                assert forall|i: int| 0 <= i < po.len() implies #[trigger] po[i].1 == (if option_index(po, po[i].0) == i {
                    tally_of(ns, pid, po[i].0)
                } else {
                    0
                }) by {
                    lemma_voters_after_ballot(s, voter, id, vote, pid, po[i].0);
                }
                assert forall|k: (Seq<char>, Seq<char>)|
                    ns.ballots.dom().contains(k) && k.1 == pid implies option_index(po, #[trigger] ns.ballots[k]) >= 0 by {
                    assert(s.ballots.dom().contains(k));
                }
            } else {
                law_vote_keeps_poll_tallies_exact(s, voter, id, vote);
            }
        }
    }
}

/// A vote on a poll whose tallies count its ballots keeps them counting its
/// ballots, so their sum stays the number of voters in the poll: the earlier
/// choice loses one vote and the new one gains one.
pub proof fn law_vote_keeps_poll_tallies_exact(s: StoreView, voter: Seq<char>, id: Seq<char>, vote: Seq<char>)
    requires
        s.ballots.dom().finite(),
        s.polls.contains_key(id),
        poll_tallies_exact(s, id),
        vote_safe(s.polls[id], ballot_of(s, voter, id), vote),
    ensures
        vote_model(s, voter, id, vote) matches Outcome::Applied(ns, _) ==> {
            &&& poll_tallies_exact(ns, id)
            &&& ballots_in(ns, id).finite()
            &&& total_votes(ns.polls[id].options) == ballots_in(ns, id).len()
        },
{
    if let Outcome::Applied(ns, _) = vote_model(s, voter, id, vote) {
        let poll = s.polls[id];
        let opts = poll.options;
        let old = ballot_of(s, voter, id);
        let w = withdraw(opts, old);
        let nopts = cast(w, vote);
        lemma_vote_options(opts, old, vote);
        assert(ns.polls[id].options == nopts);
        assert(option_index(opts, vote) >= 0);
        assert forall|i: int| 0 <= i < nopts.len() implies #[trigger] nopts[i].1 == (if option_index(nopts, nopts[i].0) == i {
            tally_of(ns, id, nopts[i].0)
        } else {
            0
        }) by {
            let n = opts[i].0;
            assert(nopts[i].0 == n);
            assert(option_index(nopts, n) == option_index(opts, n));
            lemma_voters_after_ballot(s, voter, id, vote, id, n);
            assert(opts[i].1 == (if option_index(opts, n) == i { tally_of(s, id, n) } else { 0 }));
            if let Some(b) = old {
                let p = option_index(opts, b);
                assert(is_first_option(opts, b, p));
                if i == p {
                    assert(n == b);
                    lemma_option_index_is(opts, n, i);
                }
                if b == n && option_index(opts, n) == i {
                    assert(i == p);
                }
            }
            let q = option_index(opts, vote);
            assert(is_first_option(opts, vote, q));
            if i == q {
                assert(n == vote);
                lemma_option_index_is(opts, n, i);
            }
        }
        assert forall|k: (Seq<char>, Seq<char>)|
            ns.ballots.dom().contains(k) && k.1 == id implies option_index(nopts, #[trigger] ns.ballots[k]) >= 0 by {
            if k != (voter, id) {
                assert(s.ballots.dom().contains(k));
                assert(option_index(opts, s.ballots[k]) >= 0);
            } else {
                assert(ns.ballots[k] == vote);
                assert(option_index(nopts, vote) == option_index(opts, vote));
            }
        }
        law_tallies_add_up(ns, id);
    }
}

/// Creating a poll under an id that no ballot names keeps the tallies exact.
proof fn lemma_create_keeps_tallies_exact(
    s: StoreView,
    sender: Seq<char>,
    funds: Seq<crate::state::CoinView>,
    id: Seq<char>,
    question: Seq<char>,
    options: Seq<Seq<char>>,
)
    requires
        tallies_exact(s),
        forall|k: (Seq<char>, Seq<char>)| s.ballots.dom().contains(k) ==> k.1 != id,
    ensures
        create_poll_model(s, sender, funds, id, question, options) matches Outcome::Applied(ns, _)
            ==> tallies_exact(ns),
{
    if let Outcome::Applied(ns, _) = create_poll_model(s, sender, funds, id, question, options) {
        let fresh = fresh_poll(sender, question, options);
        assert forall|pid: Seq<char>| #[trigger] ns.polls.contains_key(pid) implies poll_tallies_exact(ns, pid) by {
            if pid == id {
                assert forall|name: Seq<char>| tally_of(ns, id, name) == 0 by {
                    assert(voters_for(ns, id, name) =~= Set::empty());
                }
                let fo = fresh.options;
                assert forall|i: int| 0 <= i < fo.len() implies #[trigger] fo[i].1 == (if option_index(fo, fo[i].0) == i {
                    tally_of(ns, id, fo[i].0)
                } else {
                    0
                }) by {
                    assert(tally_of(ns, id, fo[i].0) == 0);
                }
            } else {
                assert(poll_tallies_exact(s, pid));
            }
        }
        assert forall|k: (Seq<char>, Seq<char>)| #[trigger] ns.ballots.dom().contains(k) implies ns.polls.contains_key(k.1) by {
            assert(s.polls.contains_key(k.1));
        }
    }
}

/// Closing a poll keeps the tallies exact.
proof fn lemma_close_keeps_tallies_exact(s: StoreView, id: Seq<char>)
    requires
        tallies_exact(s),
    ensures
        close_poll_model(s, id) matches Outcome::Applied(ns, _) ==> tallies_exact(ns),
{
    if let Outcome::Applied(ns, _) = close_poll_model(s, id) {
        assert forall|pid: Seq<char>| #[trigger] ns.polls.contains_key(pid) implies poll_tallies_exact(ns, pid) by {
            assert(poll_tallies_exact(s, pid));
            assert(ns.polls[pid].options == s.polls[pid].options);
        }
        assert forall|k: (Seq<char>, Seq<char>)| #[trigger] ns.ballots.dom().contains(k) implies ns.polls.contains_key(k.1) by {
            assert(s.polls.contains_key(k.1));
        }
    }
}

/// Empty storage has exact tallies.
pub proof fn law_empty_store_tallies_exact()
    ensures
        tallies_exact(StoreView { config: None, polls: Map::empty(), ballots: Map::empty() }),
{
}

/// Every message that `execute` applies keeps the tallies exact, where they
/// were exact before: each option's tally stays the number of ballots cast
/// for it. The one exception is creating a poll under an id that ballots
/// already name, which starts the tallies at zero while the ballots stay.
/// (Rejected messages change nothing but after a vote for a missing option;
/// see `law_rejection_changes_only_a_missed_ballot`.)
pub proof fn law_execute_keeps_tallies_exact(s: StoreView, info: MessageInfo, msg: ExecuteMsg)
    requires
        tallies_exact(s),
        is_handled(msg),
        execute_safe(s, info, msg),
        msg matches ExecuteMsg::CreatePoll { poll_id, .. } ==> forall|k: (Seq<char>, Seq<char>)|
            s.ballots.dom().contains(k) ==> k.1 != poll_id@,
    ensures
        execute_model(s, info, msg) matches Outcome::Applied(ns, _) ==> tallies_exact(ns),
{
    match msg {
        ExecuteMsg::CreatePoll { poll_id, question, options } => {
            lemma_create_keeps_tallies_exact(
                s,
                info.sender@,
                funds_view(info.funds@),
                poll_id@,
                question@,
                names_view(options@),
            );
        },
        ExecuteMsg::ClosePoll { poll_id } => {
            lemma_close_keeps_tallies_exact(s, poll_id@);
        },
        ExecuteMsg::Vote { poll_id, vote } => {
            lemma_vote_keeps_tallies_exact(s, info.sender@, poll_id@, vote@);
        },
        _ => {},
    }
}

/// Voting a second time for the same option changes nothing: the storage and
/// the reported attributes are those of the first vote.
pub proof fn law_repeated_vote_changes_nothing(s: StoreView, voter: Seq<char>, id: Seq<char>, vote: Seq<char>)
    requires
        s.polls.contains_key(id) ==> vote_safe(s.polls[id], ballot_of(s, voter, id), vote),
    ensures
        vote_model(s, voter, id, vote) matches Outcome::Applied(s1, a) ==> vote_model(s1, voter, id, vote)
            == Outcome::Applied(s1, a),
{
    if let Outcome::Applied(s1, a) = vote_model(s, voter, id, vote) {
        let p = s.polls[id];
        let w = withdraw(p.options, ballot_of(s, voter, id));
        let q = option_index(w, vote);
        let o1 = cast(w, vote);
        let p1 = s1.polls[id];
        assert(p1.options == o1);
        assert(ballot_of(s1, voter, id) == Some(vote));
        lemma_option_index_tally_update(w, q, (w[q].1 + 1) as u64, vote);
        assert(option_index(o1, vote) == q);
        let w1 = withdraw(o1, Some(vote));
        assert(w1 =~= w);
        assert(cast(w1, vote) == o1);
        assert(s1.polls.insert(id, PollView { options: o1, ..p1 }) =~= s1.polls);
        assert(s1.ballots.insert((voter, id), vote) =~= s1.ballots);
    }
}

/// A closed poll stays as it is under every message but one that creates a
/// poll under its id: voting on it and closing it again are refused.
pub proof fn law_closed_poll_unchanged(s: StoreView, info: MessageInfo, msg: ExecuteMsg, id: Seq<char>)
    requires
        is_handled(msg),
        s.polls.contains_key(id),
        s.polls[id].is_closed,
        !(msg matches ExecuteMsg::CreatePoll { poll_id, .. } && poll_id@ == id),
    ensures
        match execute_model(s, info, msg) {
            Outcome::Applied(ns, _) => ns.polls.contains_key(id) && ns.polls[id] == s.polls[id],
            Outcome::Rejected(ns, _) => ns.polls.contains_key(id) && ns.polls[id] == s.polls[id],
        },
        msg matches ExecuteMsg::Vote { poll_id, .. } && poll_id@ == id ==> execute_model(s, info, msg)
            == Outcome::Rejected(s, crate::error::ErrorKind::PollClosed),
        msg matches ExecuteMsg::ClosePoll { poll_id } && poll_id@ == id ==> execute_model(s, info, msg)
            == Outcome::Rejected(s, crate::error::ErrorKind::PollClosed),
{
}

/// What a message wrote is what the queries read back: a created poll with
/// all tallies at zero, a closed poll, the voter's new ballot and the tally
/// one up at the option voted for (by its first position).
pub proof fn law_reads_return_writes(s: StoreView, info: MessageInfo, msg: ExecuteMsg)
    requires
        is_handled(msg),
    ensures
        execute_model(s, info, msg) matches Outcome::Applied(ns, _) ==> match msg {
            ExecuteMsg::CreatePoll { poll_id, question, options } => ns.polls.get(poll_id@) == Some(
                fresh_poll(info.sender@, question@, names_view(options@)),
            ),
            ExecuteMsg::ClosePoll { poll_id } => ns.polls.get(poll_id@) matches Some(p) && p.is_closed
                && p.options == s.polls[poll_id@].options,
            ExecuteMsg::Vote { poll_id, vote } => {
                let w = withdraw(s.polls[poll_id@].options, ballot_of(s, info.sender@, poll_id@));
                let q = option_index(w, vote@);
                &&& ballot_of(ns, info.sender@, poll_id@) == Some(vote@)
                &&& ns.polls.get(poll_id@) matches Some(p) && p.options[q] == (vote@, (w[q].1 + 1) as u64)
            },
            _ => true,
        },
{
    if let ExecuteMsg::Vote { poll_id, vote } = msg {
        if let Outcome::Applied(ns, _) = execute_model(s, info, msg) {
            let w = withdraw(s.polls[poll_id@].options, ballot_of(s, info.sender@, poll_id@));
            let q = option_index(w, vote@);
            assert(is_first_option(w, vote@, q));
        }
    }
}

/// The sum of the tallies of a sequence of options.
pub open spec fn total_votes(opts: Seq<(Seq<char>, u64)>) -> nat
    decreases opts.len(),
{
    if opts.len() == 0 {
        0
    } else {
        total_votes(opts.drop_last()) + opts.last().1 as nat
    }
}

/// The voters who hold a ballot in poll `id`.
pub open spec fn ballots_in(s: StoreView, id: Seq<char>) -> Set<(Seq<char>, Seq<char>)> {
    Set::new(|k: (Seq<char>, Seq<char>)| s.ballots.dom().contains(k) && k.1 == id)
}

/// The voters in poll `id` whose ballot names one of the first `m` options.
spec fn ballots_among(s: StoreView, id: Seq<char>, opts: Seq<(Seq<char>, u64)>, m: int) -> Set<(Seq<char>, Seq<char>)> {
    Set::new(|k: (Seq<char>, Seq<char>)| s.ballots.dom().contains(k) && k.1 == id
        && exists|j: int| 0 <= j < m && #[trigger] opts[j].0 == s.ballots[k])
}

/// The tallies of the first `m` options add up to the ballots for their names.
proof fn lemma_prefix_total(s: StoreView, id: Seq<char>, m: int)
    requires
        s.ballots.dom().finite(),
        s.polls.contains_key(id),
        poll_tallies_exact(s, id),
        0 <= m <= s.polls[id].options.len(),
    ensures
        ballots_among(s, id, s.polls[id].options, m).finite(),
        total_votes(s.polls[id].options.take(m)) == ballots_among(s, id, s.polls[id].options, m).len(),
    decreases m,
{
    let opts = s.polls[id].options;
    let cur = ballots_among(s, id, opts, m);
    lemma_len_subset(cur, s.ballots.dom());
    if m == 0 {
        assert(cur =~= Set::empty());
        assert(opts.take(0) =~= Seq::empty());
    } else {
        lemma_prefix_total(s, id, m - 1);
        let prev = ballots_among(s, id, opts, m - 1);
        let n = opts[m - 1].0;
        assert(opts.take(m).drop_last() =~= opts.take(m - 1));
        assert(opts.take(m).last() == opts[m - 1]);
        lemma_option_index_found(opts, n, m - 1);
        let f = option_index(opts, n);
        assert(opts[m - 1].1 == (if f == m - 1 { tally_of(s, id, n) } else { 0 }));
        if f == m - 1 {
            let v = voters_for(s, id, n);
            lemma_tally_bound(s, id, n);
            assert(is_first_option(opts, n, f));
            assert(cur =~= prev.union(v)) by {
                assert forall|k: (Seq<char>, Seq<char>)| cur.contains(k) implies prev.union(v).contains(k) by {
                    let j = choose|j: int| 0 <= j < m && #[trigger] opts[j].0 == s.ballots[k];
                    if j < m - 1 {
                        assert(prev.contains(k));
                    }
                }
                assert forall|k: (Seq<char>, Seq<char>)| prev.union(v).contains(k) implies cur.contains(k) by {
                    if v.contains(k) {
                        assert(opts[m - 1].0 == s.ballots[k]);
                    } else {
                        let j = choose|j: int| 0 <= j < m - 1 && #[trigger] opts[j].0 == s.ballots[k];
                        assert(opts[j].0 == s.ballots[k]);
                    }
                }
            }
            assert(prev.disjoint(v)) by {
                assert forall|k: (Seq<char>, Seq<char>)| prev.contains(k) implies !v.contains(k) by {
                    let j = choose|j: int| 0 <= j < m - 1 && #[trigger] opts[j].0 == s.ballots[k];
                    assert(opts[j].0 != n);
                }
            }
            vstd::set_lib::lemma_set_disjoint_lens(prev, v);
        } else {
            assert(is_first_option(opts, n, f));
            assert(cur =~= prev) by {
                assert forall|k: (Seq<char>, Seq<char>)| cur.contains(k) implies prev.contains(k) by {
                    let j = choose|j: int| 0 <= j < m && #[trigger] opts[j].0 == s.ballots[k];
                    if j == m - 1 {
                        assert(opts[f].0 == s.ballots[k]);
                    }
                }
                assert forall|k: (Seq<char>, Seq<char>)| prev.contains(k) implies cur.contains(k) by {
                    let j = choose|j: int| 0 <= j < m - 1 && #[trigger] opts[j].0 == s.ballots[k];
                    assert(opts[j].0 == s.ballots[k]);
                }
            }
        }
    }
}

/// Where a poll's tallies count its ballots, they add up to the number of
/// ballots cast in it.
pub proof fn law_tallies_add_up(s: StoreView, id: Seq<char>)
    requires
        s.ballots.dom().finite(),
        s.polls.contains_key(id),
        poll_tallies_exact(s, id),
    ensures
        ballots_in(s, id).finite(),
        total_votes(s.polls[id].options) == ballots_in(s, id).len(),
{
    let opts = s.polls[id].options;
    lemma_prefix_total(s, id, opts.len() as int);
    assert(opts.take(opts.len() as int) =~= opts);
    assert(ballots_among(s, id, opts, opts.len() as int) =~= ballots_in(s, id)) by {
        assert forall|k: (Seq<char>, Seq<char>)| ballots_in(s, id).contains(k) implies ballots_among(
            s,
            id,
            opts,
            opts.len() as int,
        ).contains(k) by {
            let f = option_index(opts, s.ballots[k]);
            assert(f >= 0);
            assert(is_first_option(opts, s.ballots[k], f));
            assert(opts[f].0 == s.ballots[k]);
        }
    }
}

/// A rejected message leaves the storage as it was, with one exception: a vote
/// for an option that the poll lacks still records the voter's new ballot,
/// which names no option of the poll.
pub proof fn law_rejection_changes_only_a_missed_ballot(s: StoreView, info: MessageInfo, msg: ExecuteMsg)
    requires
        is_handled(msg),
        execute_safe(s, info, msg),
    ensures
        execute_model(s, info, msg) matches Outcome::Rejected(ns, kind) ==> if kind
            == ErrorKind::VoteOptionNotFound {
            msg matches ExecuteMsg::Vote { poll_id, vote } && ns == (StoreView {
                ballots: s.ballots.insert((info.sender@, poll_id@), vote@),
                ..s
            }) && option_index(ns.polls[poll_id@].options, vote@) < 0
        } else {
            ns == s
        },
{
    if let ExecuteMsg::Vote { poll_id, vote } = msg {
        if let Outcome::Rejected(ns, kind) = execute_model(s, info, msg) {
            if kind == ErrorKind::VoteOptionNotFound {
                let opts = s.polls[poll_id@].options;
                let old = ballot_of(s, info.sender@, poll_id@);
                if let Some(b) = old {
                    let p = option_index(opts, b);
                    if p >= 0 {
                        lemma_option_index_tally_update(opts, p, (opts[p].1 - 1) as u64, vote@);
                    }
                }
            }
        }
    }
}

/// Voting again, with the poll and ballot that a vote left, for the same
/// option gives back the same poll: `execute_vote` on its own result changes
/// no tally, and runs without a fault.
pub proof fn law_revote_gives_same_poll(p: PollView, old: Option<Seq<char>>, vote: Seq<char>)
    requires
        !p.is_closed,
        vote_safe(p, old, vote),
        option_index(withdraw(p.options, old), vote) >= 0,
    ensures
        ({
            let o1 = cast(withdraw(p.options, old), vote);
            &&& vote_safe(PollView { options: o1, ..p }, Some(vote), vote)
            &&& option_index(withdraw(o1, Some(vote)), vote) >= 0
            &&& cast(withdraw(o1, Some(vote)), vote) == o1
        }),
{
    let w = withdraw(p.options, old);
    let q = option_index(w, vote);
    let o1 = cast(w, vote);
    lemma_option_index_tally_update(w, q, (w[q].1 + 1) as u64, vote);
    assert(option_index(o1, vote) == q);
    let w1 = withdraw(o1, Some(vote));
    assert(w1 =~= w);
    lemma_option_index_tally_update(o1, q, (o1[q].1 - 1) as u64, vote);
}

/// Position `i` holds the first option of `opts` named `name`.
pub open spec fn first_named(opts: Seq<(Seq<char>, u64)>, name: Seq<char>, i: int) -> bool {
    0 <= i < opts.len() && opts[i].0 == name && forall|k: int| 0 <= k < i ==> opts[k].0 != name
}

/// Options before a position have other names.
proof fn lemma_first_named_is_option_index(opts: Seq<(Seq<char>, u64)>, name: Seq<char>, i: int)
    ensures
        first_named(opts, name, i) <==> (option_index(opts, name) == i && i >= 0),
{
    if first_named(opts, name, i) {
        assert(is_first_option(opts, name, i));
        lemma_option_index_is(opts, name, i);
    }
    if option_index(opts, name) == i && i >= 0 {
        assert(is_first_option(opts, name, i));
    }
}

/// A vote on an open poll for an option that the poll has, by a voter whose
/// earlier ballot (if any) names an option of the poll, is always applied,
/// whatever the tallies: the voter's ballot becomes `vote`, the poll keeps its
/// question, its option names and stays open, and the response reports the
/// vote.
pub proof fn law_vote_for_an_option_is_applied(s: StoreView, voter: Seq<char>, id: Seq<char>, vote: Seq<char>)
    requires
        s.polls.contains_key(id),
        !s.polls[id].is_closed,
        exists|i: int| 0 <= i < s.polls[id].options.len() && s.polls[id].options[i].0 == vote,
        s.ballots.get((voter, id)) matches Some(b) ==> exists|j: int|
            0 <= j < s.polls[id].options.len() && s.polls[id].options[j].0 == b,
    ensures
        vote_model(s, voter, id, vote) matches Outcome::Applied(ns, a) && {
            &&& a == seq![("action"@, "vote"@), ("question"@, s.polls[id].question), ("voted_option"@, vote)]
            &&& ns.config == s.config
            &&& ns.ballots == s.ballots.insert((voter, id), vote)
            &&& ns.polls.dom() == s.polls.dom()
            &&& forall|k: Seq<char>| k != id && s.polls.contains_key(k) ==> ns.polls[k] == s.polls[k]
            &&& ns.polls[id].question == s.polls[id].question
            &&& ns.polls[id].creator == s.polls[id].creator
            &&& !ns.polls[id].is_closed
            &&& ns.polls[id].options.len() == s.polls[id].options.len()
            &&& forall|i: int| 0 <= i < s.polls[id].options.len() ==> #[trigger] ns.polls[id].options[i].0
                == s.polls[id].options[i].0
        },
{
    let opts = s.polls[id].options;
    let old = ballot_of(s, voter, id);
    let w = withdraw(opts, old);
    if let Some(b) = old {
        let j = choose|j: int| 0 <= j < opts.len() && opts[j].0 == b;
        lemma_option_index_found(opts, b, j);
        let p = option_index(opts, b);
        lemma_option_index_tally_update(opts, p, (opts[p].1 - 1) as u64, vote);
    }
    let i = choose|i: int| 0 <= i < opts.len() && opts[i].0 == vote;
    lemma_option_index_found(opts, vote, i);
    assert(option_index(w, vote) >= 0);
    let q = option_index(w, vote);
    assert(w.len() == opts.len());
    assert forall|k: int| 0 <= k < opts.len() implies #[trigger] cast(w, vote)[k].0 == opts[k].0 by {
        assert(w[k].0 == opts[k].0);
    }
    if let Outcome::Applied(ns, a) = vote_model(s, voter, id, vote) {
        assert(ns.polls.dom() =~= s.polls.dom());
    }
}

/// How a vote moves the tallies: the first option named by the voter's
/// earlier ballot loses one vote, the first option named `vote` gains one,
/// and every other tally stays (where neither count leaves the range of u64).
pub proof fn law_vote_moves_one_count(s: StoreView, voter: Seq<char>, id: Seq<char>, vote: Seq<char>)
    requires
        s.polls.contains_key(id),
        !s.polls[id].is_closed,
        exists|i: int| 0 <= i < s.polls[id].options.len() && s.polls[id].options[i].0 == vote,
        s.ballots.get((voter, id)) matches Some(b) ==> exists|j: int|
            first_named(s.polls[id].options, b, j) && s.polls[id].options[j].1 > 0,
        forall|q: int|
            first_named(s.polls[id].options, vote, q) ==> s.polls[id].options[q].1 < u64::MAX
                || s.ballots.get((voter, id)) == Some(vote),
    ensures
        vote_model(s, voter, id, vote) matches Outcome::Applied(ns, _) && forall|i: int|
            0 <= i < s.polls[id].options.len() ==> #[trigger] ns.polls[id].options[i].1 == s.polls[id].options[i].1
                - (if s.ballots.get((voter, id)) matches Some(b) && first_named(s.polls[id].options, b, i) {
                1int
            } else {
                0int
            }) + (if first_named(s.polls[id].options, vote, i) {
                1int
            } else {
                0int
            }),
{
    let opts = s.polls[id].options;
    let old = ballot_of(s, voter, id);
    if let Some(b) = old {
        let j = choose|j: int| first_named(opts, b, j) && opts[j].1 > 0;
        lemma_first_named_is_option_index(opts, b, j);
    }
    let i0 = choose|i: int| 0 <= i < opts.len() && opts[i].0 == vote;
    lemma_option_index_found(opts, vote, i0);
    let q = option_index(opts, vote);
    lemma_first_named_is_option_index(opts, vote, q);
    assert(vote_safe(PollView { creator: Seq::empty(), question: Seq::empty(), options: opts, is_closed: false }, old, vote)) by {
        if let Some(b) = old {
            let p = option_index(opts, b);
            lemma_option_index_tally_update(opts, p, (opts[p].1 - 1) as u64, vote);
        }
    }
    law_vote_for_an_option_is_applied(s, voter, id, vote);
    lemma_vote_options(opts, old, vote);
    assert forall|i: int| 0 <= i < opts.len() implies (first_named(opts, vote, i) <==> i == option_index(opts, vote)) by {
        lemma_first_named_is_option_index(opts, vote, i);
    }
    if let Some(b) = old {
        assert forall|i: int| 0 <= i < opts.len() implies (first_named(opts, b, i) <==> i == option_index(opts, b)) by {
            lemma_first_named_is_option_index(opts, b, i);
        }
    }
}

/// Creating a poll with at most `MAX_OPTIONS` options once the contract is
/// configured is refused for its fee exactly when the fee is above zero and no
/// single coin of the fee's denomination in the funds is at least as large;
/// otherwise it is applied and stores an open poll by the sender with the
/// question and the options, each with a tally of zero.
pub proof fn law_create_poll_fee(
    s: StoreView,
    sender: Seq<char>,
    funds: Seq<crate::state::CoinView>,
    id: Seq<char>,
    question: Seq<char>,
    options: Seq<Seq<char>>,
)
    requires
        options.len() <= MAX_OPTIONS,
        s.config is Some,
    ensures
        ({
            let paid = match s.config.unwrap().create_poll_fee {
                None => true,
                Some(f) => f.amount == 0 || exists|i: int|
                    0 <= i < funds.len() && funds[i].denom == f.denom && funds[i].amount >= f.amount,
            };
            &&& !paid ==> create_poll_model(s, sender, funds, id, question, options) == Outcome::Rejected(
                s,
                ErrorKind::InsufficientFunds,
            )
            &&& paid ==> (create_poll_model(s, sender, funds, id, question, options) matches Outcome::Applied(ns, a) && {
                &&& a == seq![("action"@, "create_poll"@), ("question"@, question)]
                &&& ns.config == s.config
                &&& ns.ballots == s.ballots
                &&& ns.polls == s.polls.insert(id, ns.polls[id])
                &&& ns.polls[id].creator == sender
                &&& ns.polls[id].question == question
                &&& !ns.polls[id].is_closed
                &&& ns.polls[id].options.len() == options.len()
                &&& forall|i: int| 0 <= i < options.len() ==> #[trigger] ns.polls[id].options[i] == (options[i], 0u64)
            })
        }),
{
    if let Outcome::Applied(ns, a) = create_poll_model(s, sender, funds, id, question, options) {
        assert(ns.polls =~= s.polls.insert(id, ns.polls[id]));
    }
}

/// Closing an open poll is always applied, whatever its tallies: the poll
/// becomes closed and keeps everything else, nothing else changes, and the
/// response reports the closing.
pub proof fn law_close_open_poll_is_applied(s: StoreView, id: Seq<char>)
    requires
        s.polls.contains_key(id),
        !s.polls[id].is_closed,
    ensures
        close_poll_model(s, id) matches Outcome::Applied(ns, a) && {
            &&& a == seq![("action"@, "close_poll"@), ("question"@, s.polls[id].question), ("is_closed"@, "true"@)]
            &&& ns.config == s.config
            &&& ns.ballots == s.ballots
            &&& ns.polls.dom() == s.polls.dom()
            &&& forall|k: Seq<char>| k != id && s.polls.contains_key(k) ==> ns.polls[k] == s.polls[k]
            &&& ns.polls[id].is_closed
            &&& ns.polls[id].question == s.polls[id].question
            &&& ns.polls[id].creator == s.polls[id].creator
            &&& ns.polls[id].options == s.polls[id].options
        },
{
    if let Outcome::Applied(ns, a) = close_poll_model(s, id) {
        assert(ns.polls.dom() =~= s.polls.dom());
    }
}

} // verus!

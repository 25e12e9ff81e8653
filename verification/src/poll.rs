use vstd::prelude::*;
use crate::state::{opt_ballot_view, options_view, Ballot, Poll, PollView};

verus! {

/// `i` is the first position whose option is named `name`.
pub open spec fn is_first_option(opts: Seq<(Seq<char>, u64)>, name: Seq<char>, i: int) -> bool {
    &&& 0 <= i < opts.len()
    &&& opts[i].0 == name
    &&& forall|k: int| 0 <= k < i ==> opts[k].0 != name
}

/// The position of the first option named `name`, or -1 where there is none:
/// the position that a vote for `name` counts at.
pub open spec fn option_index(opts: Seq<(Seq<char>, u64)>, name: Seq<char>) -> int {
    if exists|i: int| is_first_option(opts, name, i) {
        choose|i: int| is_first_option(opts, name, i)
    } else {
        -1
    }
}

/// The first position of a name is unique, so it is `option_index`.
pub proof fn lemma_option_index_is(opts: Seq<(Seq<char>, u64)>, name: Seq<char>, i: int)
    requires
        is_first_option(opts, name, i),
    ensures
        option_index(opts, name) == i,
{
    let j = option_index(opts, name);
    assert(is_first_option(opts, name, j));
    if j < i {
        assert(opts[j].0 != name);
    } else if j > i {
        assert(opts[i].0 != name);
    }
}

/// A name that some option has has a first position.
pub proof fn lemma_option_index_found(opts: Seq<(Seq<char>, u64)>, name: Seq<char>, i: int)
    requires
        0 <= i < opts.len(),
        opts[i].0 == name,
    ensures
        0 <= option_index(opts, name) <= i,
        opts[option_index(opts, name)].0 == name,
    decreases i,
{
    if forall|k: int| 0 <= k < i ==> opts[k].0 != name {
        lemma_option_index_is(opts, name, i);
    } else {
        let k = choose|k: int| 0 <= k < i && opts[k].0 == name;
        lemma_option_index_found(opts, name, k);
    }
}

/// Changing tallies keeps every option's position.
pub proof fn lemma_option_index_tally_update(
    opts: Seq<(Seq<char>, u64)>,
    p: int,
    c: u64,
    name: Seq<char>,
)
    requires
        0 <= p < opts.len(),
    ensures
        option_index(opts.update(p, (opts[p].0, c)), name) == option_index(opts, name),
{
    let t = opts.update(p, (opts[p].0, c));
    if exists|i: int| is_first_option(opts, name, i) {
        let i = choose|i: int| is_first_option(opts, name, i);
        assert forall|k: int| 0 <= k < i implies t[k].0 != name by {
            assert(t[k].0 == opts[k].0);
        }
        assert(is_first_option(t, name, i));
        lemma_option_index_is(opts, name, i);
        lemma_option_index_is(t, name, i);
    } else if exists|i: int| is_first_option(t, name, i) {
        let i = choose|i: int| is_first_option(t, name, i);
        assert forall|k: int| 0 <= k < i implies opts[k].0 != name by {
            assert(t[k].0 == opts[k].0);
        }
        assert(t[i].0 == opts[i].0);
        assert(is_first_option(opts, name, i));
    }
}

/// The options after a voter's earlier ballot is taken back: one vote fewer at
/// the position of the earlier choice.
pub open spec fn withdraw(opts: Seq<(Seq<char>, u64)>, old: Option<Seq<char>>) -> Seq<(Seq<char>, u64)> {
    match old {
        Some(b) => {
            let p = option_index(opts, b);
            opts.update(p, (opts[p].0, (opts[p].1 - 1) as u64))
        },
        None => opts,
    }
}

/// The options after one more vote for `vote`.
pub open spec fn cast(opts: Seq<(Seq<char>, u64)>, vote: Seq<char>) -> Seq<(Seq<char>, u64)> {
    let q = option_index(opts, vote);
    opts.update(q, (opts[q].0, (opts[q].1 + 1) as u64))
}

/// A vote on an open poll runs without a fault: an earlier ballot names an
/// option of the poll with a tally above zero, and the tally that the vote
/// raises is below the largest `u64`.
pub open spec fn vote_safe(poll: PollView, old: Option<Seq<char>>, vote: Seq<char>) -> bool {
    poll.is_closed || {
        &&& old matches Some(b) ==> {
            &&& option_index(poll.options, b) >= 0
            &&& poll.options[option_index(poll.options, b)].1 > 0
        }
        &&& {
            let w = withdraw(poll.options, old);
            option_index(w, vote) >= 0 ==> w[option_index(w, vote)].1 < u64::MAX
        }
    }
}

/// The position of the first option named `name`, if any.
pub fn find_option(options: &Vec<(String, u64)>, name: &String) -> (r: Option<usize>)
    ensures
        match r {
            Some(i) => i as int == option_index(options_view(options@), name@) && i < options@.len(),
            None => option_index(options_view(options@), name@) == -1,
        },
{
    let ghost opts = options_view(options@);
    let mut i: usize = 0;
    while i < options.len()
        invariant
            opts == options_view(options@),
            i <= options@.len(),
            forall|k: int| 0 <= k < i ==> opts[k].0 != name@,
        decreases options@.len() - i,
    {
        if options[i].0 == *name {
            proof {
                lemma_option_index_is(opts, name@, i as int);
            }
            return Some(i);
        }
        i = i + 1;
    }
    None
}

/// Raises (`up`) or lowers by one the tally at position `p`.
pub fn add_to_tally(poll: &mut Poll, p: usize, up: bool)
    requires
        p < old(poll).options@.len(),
        up ==> old(poll).options@[p as int].1 < u64::MAX,
        !up ==> old(poll).options@[p as int].1 > 0,
    ensures
        final(poll)@ == (PollView {
            options: old(poll)@.options.update(
                p as int,
                (
                    old(poll)@.options[p as int].0,
                    (if up {
                        old(poll)@.options[p as int].1 + 1
                    } else {
                        old(poll)@.options[p as int].1 - 1
                    }) as u64,
                ),
            ),
            ..old(poll)@
        }),
{
    let name = poll.options[p].0.clone();
    let count = poll.options[p].1;
    let c: u64 = if up { count + 1 } else { count - 1 };
    poll.options.set(p, (name, c));
    assert(options_view(poll.options@) =~= old(poll)@.options.update(p as int, (old(poll)@.options[p as int].0, c)));
}

/// Whether a vote runs without a fault (see `vote_safe`); callers that do not
/// carry a proof test this before voting.
pub fn vote_is_safe(poll: &Poll, old: &Option<Ballot>, vote: &String) -> (r: bool)
    ensures
        r == vote_safe(poll@, opt_ballot_view(*old), vote@),
{
    if poll.is_closed {
        return true;
    }
    let ghost opts = poll@.options;
    let q = find_option(&poll.options, vote);
    match old {
        Some(b) => {
            let p = find_option(&poll.options, &b.option);
            match p {
                None => false,
                Some(p) => {
                    let c = poll.options[p].1;
                    if c == 0 {
                        return false;
                    }
                    proof {
                        lemma_option_index_tally_update(opts, p as int, (c - 1) as u64, vote@);
                    }
                    match q {
                        None => true,
                        Some(q) => {
                            let cq = if q == p { c - 1 } else { poll.options[q].1 };
                            cq < u64::MAX
                        },
                    }
                },
            }
        },
        None => match q {
            None => true,
            Some(q) => poll.options[q].1 < u64::MAX,
        },
    }
}

} // verus!

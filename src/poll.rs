//! Poll splitting: turns a roster and the right answer into the options of one quiz poll.

use rand::seq::SliceRandom;
use rand::Rng;
use vstd::prelude::*;

use crate::committee::names_view;
use crate::text::same_text;

verus! {

/// Most options that one poll can show.
pub const POLL_MAX_OPTIONS_COUNT: usize = 10;

/// The options of a quiz poll and the position of the right answer among them.
#[derive(Debug)]
pub struct PollOptions {
    pub options: Vec<String>,
    pub correct: usize,
}

/// Why no poll could be built.
#[derive(PartialEq, Eq, Structural, Debug, Clone, Copy)]
pub enum PollError {
    /// The chosen answer is not a name of the roster.
    TargetNotInRoster,
}

pub open spec fn other_than(t: Seq<char>) -> spec_fn(Seq<char>) -> bool {
    |n: Seq<char>| n != t
}

/// The roster without any entry equal to `t`, order kept.
pub open spec fn without(names: Seq<Seq<char>>, t: Seq<char>) -> Seq<Seq<char>> {
    names.filter(other_than(t))
}

/// Number of positions at which the answer may be put back: below `max - 1`, and at most
/// one past the end of the other names.
pub open spec fn insertion_bound(rest_len: int) -> int {
    if rest_len + 1 < POLL_MAX_OPTIONS_COUNT - 1 {
        rest_len + 1
    } else {
        POLL_MAX_OPTIONS_COUNT - 1
    }
}

/// The answer put back at `i` among the other names, cut to the first `max` entries.
pub open spec fn arranged(rest: Seq<Seq<char>>, t: Seq<char>, i: int) -> Seq<Seq<char>> {
    let full = rest.insert(i, t);
    if full.len() > POLL_MAX_OPTIONS_COUNT {
        full.take(POLL_MAX_OPTIONS_COUNT as int)
    } else {
        full
    }
}

/// `options` and `correct` are an outcome of splitting `names` for answer `t`: the other names
/// in some order, the answer put back at an allowed position, the whole cut to `max` entries.
pub open spec fn valid_split(
    names: Seq<Seq<char>>,
    t: Seq<char>,
    options: Seq<Seq<char>>,
    correct: int,
) -> bool {
    exists|rest: Seq<Seq<char>>|
        #![trigger arranged(rest, t, correct)]
        rest.to_multiset() == without(names, t).to_multiset() && 0 <= correct < insertion_bound(
            rest.len() as int,
        ) && options == arranged(rest, t, correct)
}

/// Relies on rand's `SliceRandom::shuffle` with the thread-local generator: it only swaps
/// elements, so the names stay the same, in some order.
#[verifier::external_body]
fn shuffle_names(v: &mut Vec<String>)
    ensures
        names_view(final(v)@).to_multiset() == names_view(old(v)@).to_multiset(),
        final(v)@.len() == old(v)@.len(),
{
    v.shuffle(&mut rand::thread_rng());
}

/// Relies on rand's `Rng::gen_range` with the thread-local generator: on a non-empty range
/// `0..bound` it returns a value inside it.
#[verifier::external_body]
fn random_below(bound: usize) -> (r: usize)
    requires
        0 < bound,
    ensures
        r < bound,
{
    rand::thread_rng().gen_range(0..bound)
}

/// Puts `target` back at `index` among the other names `rest`, and keeps the first `max` entries.
pub fn arrange_options(rest: Vec<String>, target: String, index: usize) -> (r: PollOptions)
    requires
        index < insertion_bound(rest@.len() as int),
    ensures
        names_view(r.options@) == arranged(names_view(rest@), target@, index as int),
        r.correct == index,
{
    let ghost rest_names = names_view(rest@);
    let ghost t = target@;
    let mut options = rest;
    options.insert(index, target);
    assert(names_view(options@) =~= rest_names.insert(index as int, t));
    if options.len() > POLL_MAX_OPTIONS_COUNT {
        options.truncate(POLL_MAX_OPTIONS_COUNT);
        assert(names_view(options@) =~= rest_names.insert(index as int, t).take(
            POLL_MAX_OPTIONS_COUNT as int,
        ));
    }
    PollOptions { options, correct: index }
}

/// Removing `t` leaves no `t`, and as many names fewer as `t` occurred.
pub proof fn lemma_without(s: Seq<Seq<char>>, t: Seq<char>)
    ensures
        without(s, t).len() + s.to_multiset().count(t) == s.len(),
        !without(s, t).contains(t),
    decreases s.len(),
{
    broadcast use vstd::seq_lib::to_multiset_contains;

    if s.len() == 0 {
        reveal(Seq::filter);
        assert(!s.contains(t));
    } else {
        let d = s.drop_last();
        let e = s.last();
        lemma_without(d, t);
        assert(s =~= d.push(e));
        d.lemma_filter_push(e, other_than(t));
        vstd::seq_lib::to_multiset_build(d, e);
        if e != t {
            assert forall|k: int| 0 <= k < without(s, t).len() implies without(s, t)[k] != t by {
                if k < without(d, t).len() {
                    assert(without(d, t).contains(without(d, t)[k]));
                }
            }
        }
    }
}

/// Builds the options of the quiz poll for `target` from the roster's names: the other names
/// shuffled, `target` put back at a random allowed position, the whole cut to `max` entries.
pub fn split_poll(roster: &Vec<String>, target: &String) -> (r: Result<PollOptions, PollError>)
    ensures
        r is Err <==> !names_view(roster@).contains(target@),
        r matches Ok(p) ==> valid_split(
            names_view(roster@),
            target@,
            names_view(p.options@),
            p.correct as int,
        ),
{
    let ghost names = names_view(roster@);
    let ghost t = target@;
    let mut rest: Vec<String> = Vec::new();
    let mut found = false;
    let mut i: usize = 0;
    while i < roster.len()
        invariant
            i <= roster@.len(),
            names == names_view(roster@),
            t == target@,
            names_view(rest@) == without(names.take(i as int), t),
            found == names.take(i as int).contains(t),
        decreases roster@.len() - i,
    {
        let ghost before = names.take(i as int);
        proof {
            assert(names.take(i as int + 1) =~= before.push(names[i as int]));
            before.lemma_filter_push(names[i as int], other_than(t));
        }
        assert(names[i as int] == roster@[i as int]@);
        if same_text(roster[i].as_str(), target.as_str()) {
            found = true;
            assert(names.take(i as int + 1)[i as int] == t);
        } else {
            assert(names.take(i as int + 1).contains(t) ==> before.contains(t)) by {
                let after = names.take(i as int + 1);
                if after.contains(t) {
                    let k = choose|k: int| 0 <= k < after.len() && #[trigger] after[k] == t;
                    if k < i {
                        assert(before[k] == t);
                    }
                }
            }
            rest.push(roster[i].clone());
            assert(names_view(rest@) =~= without(before, t).push(names[i as int]));
        }
        assert(before.contains(t) ==> names.take(i as int + 1).contains(t)) by {
            if before.contains(t) {
                let k = choose|k: int| 0 <= k < before.len() && #[trigger] before[k] == t;
                assert(names.take(i as int + 1)[k] == t);
            }
        }
        i = i + 1;
    }
    assert(names.take(i as int) =~= names);
    if !found {
        return Err(PollError::TargetNotInRoster);
    }
    let ghost unshuffled = names_view(rest@);
    shuffle_names(&mut rest);
    let bound: usize = if rest.len() < POLL_MAX_OPTIONS_COUNT - 2 {
        rest.len() + 1
    } else {
        POLL_MAX_OPTIONS_COUNT - 1
    };
    let index = random_below(bound);
    let ghost shuffled = names_view(rest@);
    let p = arrange_options(rest, target.clone(), index);
    assert(shuffled.to_multiset() == without(names, t).to_multiset());
    assert(names_view(p.options@) == arranged(shuffled, t, p.correct as int));
    Ok(p)
}

/// With `t` once in the roster, the poll lists `min(N, max)` names, `correct` points at `t`,
/// and `t` appears at no other position.
pub proof fn lemma_split_shape(names: Seq<Seq<char>>, t: Seq<char>, options: Seq<Seq<char>>, correct: int)
    requires
        valid_split(names, t, options, correct),
        names.to_multiset().count(t) == 1,
    ensures
        options.len() == if names.len() < POLL_MAX_OPTIONS_COUNT {
            names.len() as int
        } else {
            POLL_MAX_OPTIONS_COUNT as int
        },
        0 <= correct < options.len(),
        options[correct] == t,
        forall|j: int| 0 <= j < options.len() && options[j] == t ==> j == correct,
{
    broadcast use vstd::seq_lib::to_multiset_contains;
    broadcast use vstd::seq_lib::to_multiset_len;

    let rest = choose|rest: Seq<Seq<char>>|
        #![trigger arranged(rest, t, correct)]
        rest.to_multiset() == without(names, t).to_multiset() && 0 <= correct < insertion_bound(
            rest.len() as int,
        ) && options == arranged(rest, t, correct);
    lemma_without(names, t);
    assert(rest.len() == without(names, t).len()) by {
        assert(rest.to_multiset().len() == without(names, t).to_multiset().len());
    }
    assert(!rest.contains(t)) by {
        assert(rest.to_multiset().count(t) == without(names, t).to_multiset().count(t));
    }
    let full = rest.insert(correct, t);
    assert forall|j: int| 0 <= j < full.len() && full[j] == t implies j == correct by {
        if j < correct {
            assert(full[j] == rest[j]);
        } else if j > correct {
            assert(full[j] == rest[j - 1]);
        }
    }
}

} // verus!

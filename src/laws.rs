use vstd::prelude::*;

use crate::counter::{bump, count_of};

verus! {

/// The counts after the invocations `names`, in order, starting from `counts`.
pub open spec fn replay(counts: Map<Seq<char>, nat>, names: Seq<Seq<char>>) -> Map<
    Seq<char>,
    nat,
>
    decreases names.len(),
{
    if names.len() == 0 {
        counts
    } else {
        bump(replay(counts, names.drop_last()), names.last())
    }
}

/// How many of `names` are `name`.
pub open spec fn occurrences(names: Seq<Seq<char>>, name: Seq<char>) -> nat
    decreases names.len(),
{
    if names.len() == 0 {
        0
    } else {
        occurrences(names.drop_last(), name) + if names.last() == name {
            1nat
        } else {
            0nat
        }
    }
}

proof fn lemma_replay_adds_occurrences(
    counts: Map<Seq<char>, nat>,
    names: Seq<Seq<char>>,
    name: Seq<char>,
)
    ensures
        count_of(replay(counts, names), name) == count_of(counts, name) + occurrences(
            names,
            name,
        ),
    decreases names.len(),
{
    if names.len() > 0 {
        lemma_replay_adds_occurrences(counts, names.drop_last(), name);
    }
}

/// Counting is exact: after any sequence of invocations, starting from the empty
/// store, the count of each name is the number of times it was invoked, whatever
/// other names were invoked in between.
pub proof fn lemma_count_is_invocations(names: Seq<Seq<char>>, name: Seq<char>)
    ensures
        count_of(replay(Map::empty(), names), name) == occurrences(names, name),
{
    lemma_replay_adds_occurrences(Map::empty(), names, name);
}

proof fn lemma_replay_keeps_absent(
    counts: Map<Seq<char>, nat>,
    names: Seq<Seq<char>>,
    other: Seq<char>,
)
    requires
        forall|i: int| 0 <= i < names.len() ==> names[i] != other,
    ensures
        replay(counts, names).contains_key(other) == counts.contains_key(other),
        count_of(replay(counts, names), other) == count_of(counts, other),
    decreases names.len(),
{
    if names.len() > 0 {
        assert(names.last() == names[names.len() - 1]);
        lemma_replay_keeps_absent(counts, names.drop_last(), other);
    }
}

/// Names are counted apart: invoking the command `a` any number of times neither
/// creates nor changes the entry of another command `b`.
pub proof fn lemma_names_isolated(
    counts: Map<Seq<char>, nat>,
    a: Seq<char>,
    b: Seq<char>,
    n: nat,
)
    requires
        a != b,
    ensures
        replay(counts, Seq::new(n, |_i: int| a)).contains_key(b) == counts.contains_key(b),
        count_of(replay(counts, Seq::new(n, |_i: int| a)), b) == count_of(counts, b),
{
    lemma_replay_keeps_absent(counts, Seq::new(n, |_i: int| a), b);
}

/// The count that a command's body sees, once the before hook has run, is already
/// one more than before the invocation, and no other entry has moved.
pub proof fn lemma_body_sees_raised_count(counts: Map<Seq<char>, nat>, name: Seq<char>)
    ensures
        count_of(bump(counts, name), name) == count_of(counts, name) + 1,
        forall|other: Seq<char>|
            other != name ==> #[trigger] count_of(bump(counts, name), other) == count_of(
                counts,
                other,
            ),
{
}

} // verus!

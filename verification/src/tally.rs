use vstd::prelude::*;

verus! {

/// A count of occurrences per distinct text, in order of first occurrence.
pub type Tally = Seq<(Seq<char>, nat)>;

/// `key` has an entry in the tally.
pub open spec fn has_key(entries: Tally, key: Seq<char>) -> bool {
    exists|i: int| 0 <= i < entries.len() && (#[trigger] entries[i]).0 == key
}

/// No text has two entries.
pub open spec fn distinct_keys(entries: Tally) -> bool {
    forall|i: int, j: int|
        0 <= i < j < entries.len() ==> (#[trigger] entries[i]).0 != (#[trigger] entries[j]).0
}

/// Every entry counts at least one occurrence.
pub open spec fn positive_counts(entries: Tally) -> bool {
    forall|i: int| 0 <= i < entries.len() ==> (#[trigger] entries[i]).1 >= 1
}

/// The tally after one more occurrence of `key`: its entry counts one more,
/// or a new entry with count one is appended.
pub open spec fn tally(entries: Tally, key: Seq<char>) -> Tally {
    if has_key(entries, key) {
        let i = choose|i: int| 0 <= i < entries.len() && (#[trigger] entries[i]).0 == key;
        entries.update(i, (key, entries[i].1 + 1))
    } else {
        entries.push((key, 1nat))
    }
}

/// Sum of all counts of a tally.
pub open spec fn count_sum(entries: Tally) -> nat
    decreases entries.len(),
{
    if entries.len() == 0 {
        0
    } else {
        count_sum(entries.drop_last()) + entries.last().1
    }
}

/// Adding one to entry `i` adds one to the sum.
pub proof fn lemma_count_sum_bump(entries: Tally, i: int)
    requires
        0 <= i < entries.len(),
    ensures
        count_sum(entries.update(i, (entries[i].0, entries[i].1 + 1))) == count_sum(entries) + 1,
    decreases entries.len(),
{
    let bumped = entries.update(i, (entries[i].0, entries[i].1 + 1));
    if i == entries.len() - 1 {
        assert(bumped.drop_last() =~= entries.drop_last());
    } else {
        lemma_count_sum_bump(entries.drop_last(), i);
        assert(bumped.drop_last() =~= entries.drop_last().update(
            i,
            (entries[i].0, entries[i].1 + 1),
        ));
    }
}

/// Every single count is at most the sum.
pub proof fn lemma_count_le_sum(entries: Tally, i: int)
    requires
        0 <= i < entries.len(),
    ensures
        entries[i].1 <= count_sum(entries),
    decreases entries.len(),
{
    if i < entries.len() - 1 {
        lemma_count_le_sum(entries.drop_last(), i);
    }
}

/// One more occurrence keeps the keys distinct and the counts positive,
/// and adds one to the sum of counts.
pub proof fn lemma_tally_step(entries: Tally, key: Seq<char>)
    requires
        distinct_keys(entries),
        positive_counts(entries),
    ensures
        distinct_keys(tally(entries, key)),
        positive_counts(tally(entries, key)),
        count_sum(tally(entries, key)) == count_sum(entries) + 1,
        has_key(tally(entries, key), key),
{
    let t = tally(entries, key);
    if has_key(entries, key) {
        let i = choose|i: int| 0 <= i < entries.len() && (#[trigger] entries[i]).0 == key;
        lemma_count_sum_bump(entries, i);
        assert(t[i].0 == key);
    } else {
        let pushed = entries.push((key, 1nat));
        assert(pushed.drop_last() =~= entries);
        assert(t[entries.len() as int].0 == key);
    }
}

} // verus!

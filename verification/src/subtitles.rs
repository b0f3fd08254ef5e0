//! The subtitle buffer: an incoming subtitle either revises one already shown or is
//! appended, and only the newest entries are kept.
use vstd::prelude::*;
use crate::model::SubtitleEntry;

verus! {

/// Index of the last entry of `s` whose time stamp is `ts`, or -1 when there is none.
pub open spec fn last_with_timestamp(s: Seq<SubtitleEntry>, ts: Seq<char>) -> int
    decreases s.len(),
{
    if s.len() == 0 {
        -1
    } else if s.last().timestamp@ == ts {
        s.len() - 1
    } else {
        last_with_timestamp(s.drop_last(), ts)
    }
}

/// The entry that `entry` revises, if any: the last one with the same non-empty
/// time stamp; failing that, the last entry, when `entry` has a non-empty original
/// text equal to that entry's.
pub open spec fn revision_target(s: Seq<SubtitleEntry>, entry: SubtitleEntry) -> Option<int> {
    if entry.timestamp@.len() > 0 && last_with_timestamp(s, entry.timestamp@) >= 0 {
        Some(last_with_timestamp(s, entry.timestamp@))
    } else if entry.original@.len() > 0 && s.len() > 0 && s.last().original@ == entry.original@ {
        Some(s.len() - 1)
    } else {
        None
    }
}

/// The newest `n` elements of `s` (all of them when there are no more than `n`).
pub open spec fn newest<T>(s: Seq<T>, n: nat) -> Seq<T> {
    if s.len() > n {
        s.skip(s.len() - n)
    } else {
        s
    }
}

/// The buffer after `entry` arrives: the revised buffer when `entry` revises an
/// entry, else the newest `max_count` entries of the buffer with `entry` appended.
pub open spec fn with_subtitle(
    s: Seq<SubtitleEntry>,
    entry: SubtitleEntry,
    max_count: nat,
) -> Seq<SubtitleEntry> {
    match revision_target(s, entry) {
        Some(i) => s.update(i, entry),
        None => newest(s.push(entry), max_count),
    }
}

/// What `last_with_timestamp` means: a matching index with no later match.
pub proof fn lemma_last_with_timestamp(s: Seq<SubtitleEntry>, ts: Seq<char>)
    ensures
        -1 <= last_with_timestamp(s, ts) < s.len(),
        last_with_timestamp(s, ts) >= 0 ==> s[last_with_timestamp(s, ts)].timestamp@ == ts,
        forall|j: int|
            last_with_timestamp(s, ts) < j < s.len() ==> #[trigger] s[j].timestamp@ != ts,
    decreases s.len(),
{
    if s.len() > 0 && s.last().timestamp@ != ts {
        lemma_last_with_timestamp(s.drop_last(), ts);
        assert forall|j: int| last_with_timestamp(s, ts) < j < s.len() implies #[trigger] s[
            j
        ].timestamp@ != ts by {
            if j < s.len() - 1 {
                assert(s.drop_last()[j] == s[j]);
            }
        }
    }
}

/// Revises, in place, the entry of `entries` that `entry` revises (see
/// [`revision_target`]) and tells whether there was one.
pub fn try_update_existing(entries: &mut Vec<SubtitleEntry>, entry: &SubtitleEntry) -> (updated: bool)
    ensures
        updated == revision_target(old(entries)@, *entry) is Some,
        match revision_target(old(entries)@, *entry) {
            Some(i) => final(entries)@ == old(entries)@.update(i, *entry),
            None => final(entries)@ == old(entries)@,
        },
{
    let ghost s = entries@;
    if !entry.timestamp.as_str().is_empty() {
        let mut i = entries.len();
        assert(s.take(i as int) =~= s);
        while i > 0
            invariant
                entries@ == s,
                s == old(entries)@,
                i <= s.len(),
                entry.timestamp@.len() > 0,
                last_with_timestamp(s, entry.timestamp@) == last_with_timestamp(
                    s.take(i as int),
                    entry.timestamp@,
                ),
            decreases i,
        {
            assert(s.take(i as int).last() == s[i - 1]);
            if entries[i - 1].timestamp == entry.timestamp {
                assert(last_with_timestamp(s, entry.timestamp@) == i - 1);
                let copy = entry.clone();
                entries.set(i - 1, copy);
                return true;
            }
            assert(s.take(i as int).drop_last() =~= s.take(i - 1));
            i = i - 1;
        }
        assert(s.take(0) =~= Seq::<SubtitleEntry>::empty());
    }
    if !entry.original.as_str().is_empty() && entries.len() > 0 {
        let last = entries.len() - 1;
        if entries[last].original == entry.original {
            let copy = entry.clone();
            entries.set(last, copy);
            return true;
        }
    }
    false
}

/// Drops the oldest elements until at most `max_count` are left.
pub fn retain_newest<T>(entries: &mut Vec<T>, max_count: usize)
    ensures
        final(entries)@ == newest(old(entries)@, max_count as nat),
{
    let ghost s = entries@;
    while entries.len() > max_count
        invariant
            s.len() >= entries@.len(),
            entries@ == s.skip(s.len() - entries@.len()),
            entries@.len() >= max_count || entries@ == s,
        decreases entries.len(),
    {
        entries.remove(0);
        assert(s.skip(s.len() - (entries@.len() + 1)).drop_first() =~= s.skip(
            s.len() - entries@.len(),
        ));
    }
    proof {
        if s.len() <= max_count {
            assert(entries@ == s);
        } else {
            assert(entries@.len() == max_count);
        }
    }
}

/// Takes in `entry`: revises the entry it revises, or appends it and keeps only the
/// newest `max_count`; tells whether it was a revision.
pub fn add_subtitle(
    entries: &mut Vec<SubtitleEntry>,
    entry: SubtitleEntry,
    max_count: usize,
) -> (updated: bool)
    ensures
        updated == revision_target(old(entries)@, entry) is Some,
        final(entries)@ == with_subtitle(old(entries)@, entry, max_count as nat),
{
    let updated = try_update_existing(entries, &entry);
    if !updated {
        entries.push(entry);
        retain_newest(entries, max_count);
    }
    updated
}

/// Receiving the same subtitle twice in a row leaves the buffer as the first one did,
/// for a subtitle that has a time stamp or an original text (or when nothing is kept).
pub proof fn law_same_subtitle_twice(s: Seq<SubtitleEntry>, entry: SubtitleEntry, max_count: nat)
    requires
        entry.timestamp@.len() > 0 || entry.original@.len() > 0 || max_count == 0,
    ensures
        with_subtitle(with_subtitle(s, entry, max_count), entry, max_count) == with_subtitle(
            s,
            entry,
            max_count,
        ),
{
    let t = with_subtitle(s, entry, max_count);
    lemma_last_with_timestamp(s, entry.timestamp@);
    lemma_last_with_timestamp(t, entry.timestamp@);
    match revision_target(s, entry) {
        Some(i) => {
            assert(t[i] == entry);
            if entry.timestamp@.len() > 0 && last_with_timestamp(s, entry.timestamp@) >= 0 {
                let k = last_with_timestamp(t, entry.timestamp@);
                if k > i {
                    assert(t[k] == s[k]);
                }
                assert(revision_target(t, entry) == Some(i));
            } else {
                assert(i == t.len() - 1);
                if entry.timestamp@.len() > 0 {
                    assert(last_with_timestamp(t, entry.timestamp@) == t.len() - 1);
                }
                assert(revision_target(t, entry) == Some(i));
            }
            assert(t.update(i, entry) =~= t);
        },
        None => {
            let u = s.push(entry);
            if max_count == 0 {
                assert(t =~= Seq::<SubtitleEntry>::empty());
                assert(revision_target(t, entry) is None);
                assert(with_subtitle(t, entry, max_count) =~= t);
            } else {
                assert(t.len() > 0);
                assert(t.last() == u.last());
                assert(t.last() == entry);
                if entry.timestamp@.len() > 0 {
                    assert(last_with_timestamp(t, entry.timestamp@) == t.len() - 1);
                }
                assert(revision_target(t, entry) == Some(t.len() - 1));
                assert(t.update(t.len() - 1, entry) =~= t);
            }
        },
    }
}

/// A buffer within its limit stays within it: a revision keeps its length, and a
/// new subtitle is appended at the end with the oldest dropped as needed.
pub proof fn law_buffer_stays_within_limit(s: Seq<SubtitleEntry>, entry: SubtitleEntry, max_count: nat)
    ensures
        with_subtitle(s, entry, max_count).len() <= if s.len() > max_count {
            s.len()
        } else {
            max_count
        },
        revision_target(s, entry) is Some ==> with_subtitle(s, entry, max_count).len() == s.len(),
        revision_target(s, entry) is None && max_count > 0 ==> with_subtitle(
            s,
            entry,
            max_count,
        ).last() == entry,
{
    lemma_last_with_timestamp(s, entry.timestamp@);
    if revision_target(s, entry) is None && max_count > 0 {
        let u = s.push(entry);
        assert(newest(u, max_count).last() == u.last());
    }
}

/// Keeping the newest `n` elements of a list with `x` appended leaves at most `n`
/// elements, and `x` last when anything is kept.
pub proof fn law_newest_is_capped<T>(s: Seq<T>, x: T, n: nat)
    ensures
        newest(s.push(x), n).len() <= if s.len() + 1 > n {
            n
        } else {
            s.len() + 1
        },
        n > 0 ==> newest(s.push(x), n).last() == x,
{
    let u = s.push(x);
    if n > 0 {
        assert(newest(u, n).last() == u.last());
    }
}

/// Which entry an incoming subtitle revises, stated over the entries themselves:
/// - with a non-empty time stamp that some entry has, the last such entry;
/// - otherwise, with a non-empty original text equal to the last entry's, the last
///   entry (also when the time stamp is non-empty but no entry has it);
/// - otherwise none, and the subtitle is appended.
/// Taking the subtitle in replaces the revised entry and keeps the length.
pub proof fn law_revision_target(s: Seq<SubtitleEntry>, entry: SubtitleEntry, max_count: nat)
    ensures
        forall|i: int|
            0 <= i < s.len() && entry.timestamp@.len() > 0 && s[i].timestamp@ == entry.timestamp@
                ==> (revision_target(s, entry) matches Some(k) && i <= k < s.len()
                && s[k].timestamp@ == entry.timestamp@ && forall|j: int|
                k < j < s.len() ==> #[trigger] s[j].timestamp@ != entry.timestamp@),
        (entry.timestamp@.len() == 0 || forall|i: int|
            0 <= i < s.len() ==> #[trigger] s[i].timestamp@ != entry.timestamp@) ==> (
        if entry.original@.len() > 0 && s.len() > 0 && s[s.len() - 1].original@ == entry.original@ {
            revision_target(s, entry) == Some(s.len() - 1)
        } else {
            revision_target(s, entry) is None
        }),
        revision_target(s, entry) matches Some(k) ==> 0 <= k < s.len() && with_subtitle(
            s,
            entry,
            max_count,
        ) == s.update(k, entry) && with_subtitle(s, entry, max_count).len() == s.len(),
        revision_target(s, entry) is None ==> with_subtitle(s, entry, max_count) == newest(
            s.push(entry),
            max_count,
        ),
{
    lemma_last_with_timestamp(s, entry.timestamp@);
    let k = last_with_timestamp(s, entry.timestamp@);
    assert forall|i: int|
        0 <= i < s.len() && entry.timestamp@.len() > 0 && s[i].timestamp@ == entry.timestamp@
            implies (revision_target(s, entry) matches Some(k) && i <= k < s.len()
        && s[k].timestamp@ == entry.timestamp@ && forall|j: int|
        k < j < s.len() ==> #[trigger] s[j].timestamp@ != entry.timestamp@) by {
        if k < i {
            assert(s[i].timestamp@ != entry.timestamp@);
        }
    }
    if entry.timestamp@.len() == 0 || forall|i: int|
        0 <= i < s.len() ==> #[trigger] s[i].timestamp@ != entry.timestamp@ {
        if entry.timestamp@.len() > 0 && k >= 0 {
            assert(s[k].timestamp@ == entry.timestamp@);
        }
    }
}

/// Keeping the newest `n` elements keeps a suffix: `min(n, len)` elements, the
/// last ones, in order.
pub proof fn law_newest_is_suffix<T>(s: Seq<T>, n: nat)
    ensures
        newest(s, n).len() == if s.len() < n {
            s.len()
        } else {
            n
        },
        forall|i: int|
            0 <= i < newest(s, n).len() ==> #[trigger] newest(s, n)[i] == s[s.len() - newest(
                s,
                n,
            ).len() + i],
{
}

} // verus!

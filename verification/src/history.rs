//! The step that advances the action log by one request.

use vstd::prelude::*;
use crate::model::{EntryView, HistoryEntry, HistoryMap, HistoryView, Request, RequestView, entries_view};

verus! {

/// Whether an entry records the route and verb of `request`.
pub open spec fn records(entry: EntryView, request: RequestView) -> bool {
    entry.method == request.method && entry.api == request.path
}

/// The position of the first entry that records `request`, or the length of
/// `entries` where none does.
pub open spec fn first_record(entries: Seq<EntryView>, request: RequestView) -> int
    decreases entries.len(),
{
    if entries.len() == 0 {
        0
    } else if records(entries[0], request) {
        0
    } else {
        1 + first_record(entries.skip(1), request)
    }
}

/// An entry after one more request of its kind: counted once more and stamped
/// with the request's time.
pub open spec fn bumped(entry: EntryView, request: RequestView) -> EntryView {
    EntryView { counter: entry.counter + 1, timestamp: request.time, ..entry }
}

/// The entry that a first request of its kind leaves: counted zero times.
pub open spec fn fresh(request: RequestView) -> EntryView {
    EntryView { api: request.path, method: request.method, counter: 0, timestamp: request.time }
}

/// One bucket after `request`: its first recording entry is bumped in place,
/// or, where there is none, a fresh entry stands at the end.
pub open spec fn advance_bucket(entries: Seq<EntryView>, request: RequestView) -> Seq<EntryView> {
    let pos = first_record(entries, request);
    if pos < entries.len() {
        entries.update(pos, bumped(entries[pos], request))
    } else {
        entries.push(fresh(request))
    }
}

/// The whole history after `request`: every bucket advanced, keys unchanged.
pub open spec fn advance_map(history: HistoryView, request: RequestView) -> HistoryView {
    Map::new(
        |key: Seq<char>| history.dom().contains(key),
        |key: Seq<char>| advance_bucket(history[key], request),
    )
}

/// Whether the counter that `request` would raise in a bucket can still
/// grow: a counter at the top of its range cannot.
pub open spec fn bucket_can_advance(entries: Seq<EntryView>, request: RequestView) -> bool {
    let pos = first_record(entries, request);
    pos < entries.len() ==> entries[pos].counter < u64::MAX
}

/// Whether every counter that `request` would raise can still grow.
pub open spec fn can_advance(history: HistoryView, request: RequestView) -> bool {
    forall|key: Seq<char>| #[trigger]
        history.dom().contains(key) ==> bucket_can_advance(history[key], request)
}

/// `first_record` is the least position of a recording entry.
pub proof fn lemma_first_record(entries: Seq<EntryView>, request: RequestView)
    ensures
        0 <= first_record(entries, request) <= entries.len(),
        forall|j: int| 0 <= j < first_record(entries, request) ==> !records(#[trigger] entries[j], request),
        first_record(entries, request) < entries.len() ==> records(
            entries[first_record(entries, request)],
            request,
        ),
    decreases entries.len(),
{
    if entries.len() > 0 && !records(entries[0], request) {
        let rest = entries.skip(1);
        lemma_first_record(rest, request);
        assert forall|j: int| 0 <= j < first_record(entries, request) implies !records(
            #[trigger] entries[j],
            request,
        ) by {
            if j > 0 {
                assert(entries[j] == rest[j - 1]);
            }
        }
        assert(first_record(rest, request) < rest.len() ==> entries[first_record(entries, request)]
            == rest[first_record(rest, request)]);
    }
}

/// A position that records `request` with none before it is the first record.
pub proof fn lemma_first_record_is(entries: Seq<EntryView>, request: RequestView, pos: int)
    requires
        0 <= pos <= entries.len(),
        forall|j: int| 0 <= j < pos ==> !records(#[trigger] entries[j], request),
        pos < entries.len() ==> records(entries[pos], request),
    ensures
        first_record(entries, request) == pos,
{
    lemma_first_record(entries, request);
    let first = first_record(entries, request);
    if first < pos {
        assert(!records(entries[first], request));
    } else if pos < first {
        assert(!records(entries[pos], request));
    }
}

/// Advances one bucket's entries by `request`.
pub fn advance_entries(entries: &Vec<HistoryEntry>, request: &Request) -> (r: Vec<HistoryEntry>)
    requires
        bucket_can_advance(entries_view(entries@), request@),
    ensures
        entries_view(r@) == advance_bucket(entries_view(entries@), request@),
{
    let ghost before = entries_view(entries@);
    let ghost first = first_record(before, request@);
    let mut out: Vec<HistoryEntry> = Vec::new();
    let mut found: bool = false;
    let mut i: usize = 0;
    proof {
        lemma_first_record(before, request@);
    }
    while i < entries.len()
        invariant
            0 <= i <= entries@.len(),
            before == entries_view(entries@),
            first == first_record(before, request@),
            0 <= first <= before.len(),
            forall|j: int| 0 <= j < first ==> !records(#[trigger] before[j], request@),
            first < before.len() ==> records(before[first], request@),
            out@.len() == i,
            bucket_can_advance(before, request@),
            found <==> first < i,
            forall|j: int| 0 <= j < i && j != first ==> (#[trigger] out@[j])@ == before[j],
            first < i ==> out@[first]@ == bumped(before[first], request@),
        decreases entries@.len() - i,
    {
        let entry = &entries[i];
        assert(before[i as int] == entry@);
        if !found && entry.method == request.method && entry.api == request.path {
            assert(i as int == first);
            out.push(
                HistoryEntry {
                    api: entry.api.clone(),
                    method: entry.method.clone(),
                    counter: entry.counter + 1,
                    timestamp: request.time,
                },
            );
            found = true;
        } else {
            assert(i as int != first);
            out.push(entry.duplicate());
        }
        i = i + 1;
    }
    if !found {
        out.push(
            HistoryEntry {
                api: request.path.clone(),
                method: request.method.clone(),
                counter: 0,
                timestamp: request.time,
            },
        );
    }
    assert(entries_view(out@) =~= advance_bucket(before, request@));
    out
}

/// Whether the counter that `request` would raise in a bucket can still grow.
pub fn entries_have_room(entries: &Vec<HistoryEntry>, request: &Request) -> (r: bool)
    ensures
        r == bucket_can_advance(entries_view(entries@), request@),
{
    let ghost before = entries_view(entries@);
    let mut i: usize = 0;
    while i < entries.len()
        invariant
            0 <= i <= entries@.len(),
            before == entries_view(entries@),
            forall|j: int| 0 <= j < i ==> !records(#[trigger] before[j], request@),
        decreases entries@.len() - i,
    {
        let entry = &entries[i];
        assert(before[i as int] == entry@);
        if entry.method == request.method && entry.api == request.path {
            proof {
                lemma_first_record_is(before, request@, i as int);
            }
            return entry.counter < u64::MAX;
        }
        i = i + 1;
    }
    proof {
        lemma_first_record_is(before, request@, before.len() as int);
    }
    true
}

/// Whether `advance_history` can take this step: no counter that the request
/// would raise stands at the top of its range.
pub fn has_room(request: &Request, history: &HistoryMap) -> (r: bool)
    ensures
        r == can_advance(history@, request@),
{
    proof {
        use_type_invariant(history);
    }
    let mut b: usize = 0;
    let n: usize = history.len();
    while b < n
        invariant
            0 <= b <= n,
            n == history.buckets().len(),
            history.wf(),
            forall|j: int|
                0 <= j < b ==> bucket_can_advance(
                    entries_view((#[trigger] history.buckets()[j]).entries@),
                    request@,
                ),
        decreases n - b,
    {
        if !entries_have_room(&history.bucket(b).entries, request) {
            proof {
                history.lemma_view_at(b as int);
            }
            return false;
        }
        b = b + 1;
    }
    proof {
        assert forall|key: Seq<char>| #[trigger] history@.dom().contains(key) implies bucket_can_advance(
            history@[key],
            request@,
        ) by {
            history.lemma_view_at(history.position(key));
        }
    }
    true
}

/// The next history after `request`: in every bucket the first entry that
/// records the request's route and verb is counted once more and stamped with
/// the request's time; a bucket without such an entry gets a fresh one at its
/// end. Buckets keep their keys and their order.
///
/// Two callers that advance the same stored history at once must take turns:
/// each call only sees the history it was handed.
pub fn advance_history(request: &Request, history: &HistoryMap) -> (next: HistoryMap)
    requires
        can_advance(history@, request@),
    ensures
        next.wf(),
        next@ == advance_map(history@, request@),
        next.buckets().len() == history.buckets().len(),
        forall|b: int|
            0 <= b < history.buckets().len() ==> (#[trigger] next.buckets()[b]).key@
                == history.buckets()[b].key@,
{
    let mut next = HistoryMap::new();
    proof {
        use_type_invariant(history);
    }
    let mut b: usize = 0;
    let n: usize = history.len();
    while b < n
        invariant
            0 <= b <= n,
            n == history.buckets().len(),
            history.wf(),
            can_advance(history@, request@),
            next.wf(),
            next.buckets().len() == b,
            forall|j: int|
                0 <= j < b ==> (#[trigger] next.buckets()[j]).key@ == history.buckets()[j].key@,
            forall|j: int|
                0 <= j < b ==> entries_view((#[trigger] next.buckets()[j]).entries@)
                    == advance_bucket(entries_view(history.buckets()[j].entries@), request@),
        decreases n - b,
    {
        let bucket = history.bucket(b);
        proof {
            history.lemma_view_at(b as int);
        }
        let entries = advance_entries(&bucket.entries, request);
        let key = bucket.key.clone();
        proof {
            if next.has_key(key@) {
                let j = next.position(key@);
                assert(history.buckets()[j].key@ != history.buckets()[b as int].key@);
            }
        }
        next.append(key, entries);
        b = b + 1;
    }
    proof {
        let target = advance_map(history@, request@);
        assert forall|k: Seq<char>| next@.dom().contains(k) <==> target.dom().contains(k) by {
            if next.has_key(k) {
                let p = next.position(k);
                assert(history.buckets()[p].key@ == k);
            }
            if history.has_key(k) {
                let p = history.position(k);
                assert(next.buckets()[p].key@ == k);
            }
        }
        assert forall|k: Seq<char>| next@.dom().contains(k) implies next@[k] == target[k] by {
            let p = next.position(k);
            next.lemma_view_at(p);
            history.lemma_view_at(p);
        }
        assert(next@ =~= target);
    }
    next
}

/// The next history after `request`, or nothing where a counter that the
/// request would raise is full.
pub fn try_advance_history(request: &Request, history: &HistoryMap) -> (r: Option<HistoryMap>)
    ensures
        r.is_some() == can_advance(history@, request@),
        r matches Some(next) ==> next@ == advance_map(history@, request@),
{
    if has_room(request, history) {
        Some(advance_history(request, history))
    } else {
        None
    }
}

} // verus!

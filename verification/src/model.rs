//! The request and history data model and its mathematical views.

use vstd::prelude::*;

verus! {

/// A point in time as the bit pattern of an IEEE-754 double holding seconds.
///
/// The library only carries a timestamp from a request into the log; it never
/// computes with it, so the sixty-four bits are kept exactly as received.
#[derive(Clone, Copy, Debug, PartialEq, Eq, Structural)]
pub struct Timestamp {
    pub bits: u64,
}

/// The final answer for one request.
#[derive(Clone, Copy, Debug, PartialEq, Eq, Structural)]
pub enum Decision {
    Accept,
    Deny,
}

/// What a single rule says about one request.
#[derive(Clone, Copy, Debug, PartialEq, Eq, Structural)]
pub enum RuleOutcome {
    Accept,
    Deny,
    NotApplicable,
}

/// One header of a request, name and value as received.
#[derive(Debug)]
pub struct Header {
    pub name: String,
    pub value: String,
}

/// One intercepted call.
#[derive(Debug)]
pub struct Request {
    pub method: String,
    pub uri: String,
    pub path: String,
    pub body: String,
    pub headers: Vec<Header>,
    pub time: Timestamp,
}

/// What the rules and the log step read of a request.
pub struct RequestView {
    pub method: Seq<char>,
    pub uri: Seq<char>,
    pub path: Seq<char>,
    pub body: Seq<char>,
    pub time: Timestamp,
}

impl View for Request {
    type V = RequestView;

    open spec fn view(&self) -> RequestView {
        RequestView {
            method: self.method@,
            uri: self.uri@,
            path: self.path@,
            body: self.body@,
            time: self.time,
        }
    }
}

/// One aggregated record of past activity for an (api, method) pair.
#[derive(Debug)]
pub struct HistoryEntry {
    pub api: String,
    pub method: String,
    pub counter: u64,
    pub timestamp: Timestamp,
}

/// The mathematical value of a history entry.
pub struct EntryView {
    pub api: Seq<char>,
    pub method: Seq<char>,
    pub counter: nat,
    pub timestamp: Timestamp,
}

impl View for HistoryEntry {
    type V = EntryView;

    open spec fn view(&self) -> EntryView {
        EntryView {
            api: self.api@,
            method: self.method@,
            counter: self.counter as nat,
            timestamp: self.timestamp,
        }
    }
}

impl HistoryEntry {
    /// A copy of this entry with the same value.
    pub fn duplicate(&self) -> (r: HistoryEntry)
        ensures
            r@ == self@,
    {
        HistoryEntry {
            api: self.api.clone(),
            method: self.method.clone(),
            counter: self.counter,
            timestamp: self.timestamp,
        }
    }
}

/// A copy of a list of entries, entry by entry.
pub fn duplicate_entries(entries: &Vec<HistoryEntry>) -> (r: Vec<HistoryEntry>)
    ensures
        entries_view(r@) == entries_view(entries@),
{
    let mut out: Vec<HistoryEntry> = Vec::new();
    let mut i: usize = 0;
    while i < entries.len()
        invariant
            0 <= i <= entries@.len(),
            out@.len() == i,
            forall|j: int| 0 <= j < i ==> (#[trigger] out@[j])@ == entries@[j]@,
        decreases entries@.len() - i,
    {
        out.push(entries[i].duplicate());
        i = i + 1;
    }
    assert(entries_view(out@) =~= entries_view(entries@));
    out
}

/// The values of a sequence of entries, in order.
pub open spec fn entries_view(entries: Seq<HistoryEntry>) -> Seq<EntryView> {
    Seq::new(entries.len(), |i: int| entries[i]@)
}

/// The action log of one capability: its key and its entries in order.
#[derive(Debug)]
pub struct Bucket {
    pub key: String,
    pub entries: Vec<HistoryEntry>,
}

/// The action logs of all capabilities, each under its own key.
#[derive(Debug)]
pub struct HistoryMap {
    buckets: Vec<Bucket>,
}

/// The mathematical value of a history map: key to entries.
pub type HistoryView = Map<Seq<char>, Seq<EntryView>>;

impl HistoryMap {
    /// The buckets in the order in which they were inserted.
    pub closed spec fn buckets(&self) -> Seq<Bucket> {
        self.buckets@
    }

    /// No key occurs in two buckets. This holds of every history.
    #[verifier::type_invariant]
    pub open spec fn wf(&self) -> bool {
        forall|i: int, j: int|
            0 <= i < j < self.buckets().len() ==> self.buckets()[i].key@ != self.buckets()[j].key@
    }

    /// Whether some bucket carries `key`.
    pub open spec fn has_key(&self, key: Seq<char>) -> bool {
        exists|i: int| 0 <= i < self.buckets().len() && #[trigger] self.buckets()[i].key@ == key
    }

    /// The position of the bucket that carries `key`.
    pub open spec fn position(&self, key: Seq<char>) -> int {
        choose|i: int| 0 <= i < self.buckets().len() && #[trigger] self.buckets()[i].key@ == key
    }

    /// The bucket at `pos` is the one the view shows under its key.
    pub proof fn lemma_view_at(&self, pos: int)
        requires
            self.wf(),
            0 <= pos < self.buckets().len(),
        ensures
            self@.dom().contains(self.buckets()[pos].key@),
            self@[self.buckets()[pos].key@] == entries_view(self.buckets()[pos].entries@),
            self.position(self.buckets()[pos].key@) == pos,
    {
        let key = self.buckets()[pos].key@;
        assert(self.has_key(key));
        let found = self.position(key);
        assert(found == pos) by {
            if found < pos {
                assert(self.buckets()[found].key@ != self.buckets()[pos].key@);
            } else if pos < found {
                assert(self.buckets()[pos].key@ != self.buckets()[found].key@);
            }
        }
    }

    /// A history without any bucket.
    pub fn new() -> (r: HistoryMap)
        ensures
            r.wf(),
            r@ == Map::<Seq<char>, Seq<EntryView>>::empty(),
            r.buckets().len() == 0,
    {
        let r = HistoryMap { buckets: Vec::new() };
        assert(r@ =~= Map::<Seq<char>, Seq<EntryView>>::empty());
        r
    }

    /// The number of buckets.
    pub fn len(&self) -> (n: usize)
        ensures
            n == self.buckets().len(),
    {
        self.buckets.len()
    }

    /// The bucket at `pos`, in insertion order.
    pub fn bucket(&self, pos: usize) -> (b: &Bucket)
        requires
            pos < self.buckets().len(),
        ensures
            *b == self.buckets()[pos as int],
    {
        &self.buckets[pos]
    }

    /// The position of the bucket under `key`, or the number of buckets where
    /// no bucket carries it.
    pub fn find(&self, key: &String) -> (pos: usize)
        ensures
            pos <= self.buckets().len(),
            pos < self.buckets().len() ==> self.buckets()[pos as int].key@ == key@,
            pos == self.buckets().len() ==> !self.has_key(key@),
            forall|j: int| 0 <= j < pos ==> (#[trigger] self.buckets()[j]).key@ != key@,
    {
        let mut pos: usize = 0;
        while pos < self.buckets.len()
            invariant
                pos <= self.buckets@.len(),
                forall|j: int| 0 <= j < pos ==> (#[trigger] self.buckets@[j]).key@ != key@,
            decreases self.buckets@.len() - pos,
        {
            if self.buckets[pos].key == *key {
                return pos;
            }
            pos = pos + 1;
        }
        pos
    }

    /// The entries under `key`, where a bucket carries it.
    pub fn entries_of(&self, key: &String) -> (r: Option<&Vec<HistoryEntry>>)
        ensures
            r.is_some() == self@.dom().contains(key@),
            r matches Some(entries) ==> entries_view(entries@) == self@[key@],
    {
        proof {
            use_type_invariant(self);
        }
        let pos = self.find(key);
        if pos < self.buckets.len() {
            proof {
                self.lemma_view_at(pos as int);
            }
            Some(&self.buckets[pos].entries)
        } else {
            None
        }
    }

    /// The history of one capability alone: the bucket under `key`, or no
    /// bucket where the key is unknown. A caller that wants the rules to see
    /// one capability's log only hands them this.
    pub fn restricted_to(&self, key: &String) -> (r: HistoryMap)
        ensures
            r.wf(),
            r@ == (if self@.dom().contains(key@) {
                Map::<Seq<char>, Seq<EntryView>>::empty().insert(key@, self@[key@])
            } else {
                Map::<Seq<char>, Seq<EntryView>>::empty()
            }),
    {
        proof {
            use_type_invariant(self);
        }
        let mut out = HistoryMap::new();
        let pos = self.find(key);
        if pos < self.buckets.len() {
            proof {
                self.lemma_view_at(pos as int);
            }
            let entries = duplicate_entries(&self.buckets[pos].entries);
            out.append(self.buckets[pos].key.clone(), entries);
        }
        out
    }

    /// Adds a bucket under a key that no bucket carries yet, after all others.
    pub fn append(&mut self, key: String, entries: Vec<HistoryEntry>)
        requires
            !old(self).has_key(key@),
        ensures
            final(self).wf(),
            final(self).buckets() == old(self).buckets().push((Bucket { key, entries })),
            final(self)@ == old(self)@.insert(key@, entries_view(entries@)),
    {
        let ghost before = *self;
        let ghost pos = self.buckets@.len() as int;
        proof {
            use_type_invariant(&*self);
            assert forall|j: int| 0 <= j < pos implies (#[trigger] self.buckets()[j]).key@
                != key@ by {
                assert(before.buckets()[j].key@ != key@);
            }
        }
        let ghost name = key@;
        let mut buckets: Vec<Bucket> = Vec::new();
        std::mem::swap(&mut self.buckets, &mut buckets);
        assert(buckets@ == before.buckets());
        buckets.push(Bucket { key, entries });
        assert forall|i: int, j: int| 0 <= i < j < buckets@.len() implies buckets@[i].key@
            != buckets@[j].key@ by {
            if j < pos {
                assert(before.buckets()[i].key@ != before.buckets()[j].key@);
            } else {
                assert(!(before.buckets()[i].key@ == name));
            }
        }
        std::mem::swap(&mut self.buckets, &mut buckets);
        proof {
            lemma_replaced(before, *self, pos);
        }
    }

    /// Puts `entries` under `key`: in place of what stood there, or, where the
    /// key is new, as a bucket after all others.
    pub fn insert(&mut self, key: String, entries: Vec<HistoryEntry>)
        ensures
            final(self).wf(),
            final(self)@ == old(self)@.insert(key@, entries_view(entries@)),
            final(self).buckets().len() == old(self).buckets().len() + (if old(self).has_key(key@) {
                0int
            } else {
                1int
            }),
            forall|j: int|
                0 <= j < old(self).buckets().len() ==> (#[trigger] final(self).buckets()[j]).key@
                    == old(self).buckets()[j].key@,
    {
        let ghost before = *self;
        proof {
            use_type_invariant(&*self);
        }
        let pos = self.find(&key);
        if pos < self.buckets.len() {
            let mut buckets: Vec<Bucket> = Vec::new();
            std::mem::swap(&mut self.buckets, &mut buckets);
            assert(buckets@ == before.buckets());
            buckets.set(pos, Bucket { key, entries });
            assert forall|i: int, j: int| 0 <= i < j < buckets@.len() implies buckets@[i].key@
                != buckets@[j].key@ by {
                assert(before.buckets()[i].key@ != before.buckets()[j].key@);
            }
            std::mem::swap(&mut self.buckets, &mut buckets);
            proof {
                lemma_replaced(before, *self, pos as int);
            }
        } else {
            self.append(key, entries);
        }
    }
}

/// Where `after` differs from `before` only in the bucket at `pos`, which may
/// be new and whose key no other bucket carries, the view of `after` is that
/// of `before` with the bucket at `pos` put under its key.
pub proof fn lemma_replaced(before: HistoryMap, after: HistoryMap, pos: int)
    requires
        before.wf(),
        0 <= pos <= before.buckets().len(),
        after.buckets().len() == (if pos < before.buckets().len() {
            before.buckets().len()
        } else {
            before.buckets().len() + 1
        }),
        forall|j: int|
            0 <= j < before.buckets().len() && j != pos ==> #[trigger] after.buckets()[j]
                == before.buckets()[j],
        forall|j: int|
            0 <= j < before.buckets().len() && j != pos ==> (#[trigger] before.buckets()[j]).key@
                != after.buckets()[pos].key@,
        pos < before.buckets().len() ==> before.buckets()[pos].key@ == after.buckets()[pos].key@,
    ensures
        after.wf(),
        after@ == before@.insert(
            after.buckets()[pos].key@,
            entries_view(after.buckets()[pos].entries@),
        ),
{
    let key = after.buckets()[pos].key@;
    assert(after.wf()) by {
        assert forall|i: int, j: int| 0 <= i < j < after.buckets().len() implies after.buckets()[i].key@
            != after.buckets()[j].key@ by {
            if i != pos && j != pos {
                assert(before.buckets()[i].key@ != before.buckets()[j].key@);
            } else if i == pos {
                assert(before.buckets()[j].key@ != key);
            } else {
                assert(before.buckets()[i].key@ != key);
            }
        }
    }
    let target = before@.insert(key, entries_view(after.buckets()[pos].entries@));
    assert forall|k: Seq<char>| after@.dom().contains(k) <==> target.dom().contains(k) by {
        if after.has_key(k) {
            let p = after.position(k);
            if p != pos {
                assert(before.buckets()[p].key@ == k);
            }
        }
        if before.has_key(k) {
            let p = before.position(k);
            assert(after.buckets()[p].key@ == k);
        }
        if k == key {
            assert(after.buckets()[pos].key@ == k);
        }
    }
    assert forall|k: Seq<char>| after@.dom().contains(k) implies after@[k] == target[k] by {
        let p = after.position(k);
        after.lemma_view_at(p);
        if p != pos {
            before.lemma_view_at(p);
        }
    }
    assert(after@ =~= target);
}

impl View for HistoryMap {
    type V = HistoryView;

    open spec fn view(&self) -> HistoryView {
        Map::new(
            |key: Seq<char>| self.has_key(key),
            |key: Seq<char>| entries_view(self.buckets()[self.position(key)].entries@),
        )
    }
}

} // verus!

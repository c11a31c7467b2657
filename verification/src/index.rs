//! Indexes from string keys to the front matters filed under them.
use vstd::prelude::*;
use crate::yaml::{text_eq, YamlValue, YamlModel};

verus! {

broadcast use vstd::std_specs::vec::group_vec_axioms;

/// The model of one key of an index and what is filed under it, in filing order.
pub struct IndexBucket {
    pub key: Seq<char>,
    pub values: Seq<YamlModel>,
}

/// One key of an index and the values filed under it.
#[derive(Debug)]
pub struct IndexEntry {
    pub key: String,
    pub values: Vec<YamlValue>,
}

impl View for IndexEntry {
    type V = IndexBucket;

    open spec fn view(&self) -> IndexBucket {
        IndexBucket { key: self.key@, values: Seq::new(self.values.len() as nat, |i: int| self.values[i]@) }
    }
}

/// An index: keys in the order they were first used, each with its values.
#[derive(Debug)]
pub struct ForwardIndex {
    pub entries: Vec<IndexEntry>,
}

impl View for ForwardIndex {
    type V = Seq<IndexBucket>;

    open spec fn view(&self) -> Seq<IndexBucket> {
        Seq::new(self.entries.len() as nat, |i: int| self.entries[i]@)
    }
}

/// The position of the bucket of `key`, the first one where there are several.
pub open spec fn bucket_index(bs: Seq<IndexBucket>, key: Seq<char>) -> Option<nat>
    decreases bs.len(),
{
    if bs.len() == 0 {
        None
    } else {
        match bucket_index(bs.drop_last(), key) {
            Some(i) => Some(i),
            None => if bs.last().key == key {
                Some((bs.len() - 1) as nat)
            } else {
                None
            },
        }
    }
}

/// What is filed under `key`; nothing for a key that has no bucket.
pub open spec fn bucket_lookup(bs: Seq<IndexBucket>, key: Seq<char>) -> Seq<YamlModel> {
    match bucket_index(bs, key) {
        Some(i) => bs[i as int].values,
        None => Seq::empty(),
    }
}

/// The index after filing `v` under `key`: appended to the key's bucket, or in
/// a new bucket at the end.
pub open spec fn file_under(bs: Seq<IndexBucket>, key: Seq<char>, v: YamlModel) -> Seq<IndexBucket> {
    match bucket_index(bs, key) {
        Some(i) => bs.update(i as int, IndexBucket { key: bs[i as int].key, values: bs[i as int].values.push(v) }),
        None => bs.push(IndexBucket { key, values: seq![v] }),
    }
}

/// No two buckets of the index have the same key.
pub open spec fn keys_distinct(bs: Seq<IndexBucket>) -> bool {
    forall|i: int, j: int| 0 <= i < j < bs.len() ==> (#[trigger] bs[i]).key != (#[trigger] bs[j]).key
}

/// `bucket_index` finds the first bucket with the key, and only where there is one.
pub proof fn lemma_bucket_index(bs: Seq<IndexBucket>, key: Seq<char>)
    ensures
        bucket_index(bs, key) matches Some(i) ==> i < bs.len() && bs[i as int].key == key
            && forall|j: int| 0 <= j < i ==> bs[j].key != key,
        bucket_index(bs, key) is None ==> forall|j: int| 0 <= j < bs.len() ==> bs[j].key != key,
    decreases bs.len(),
{
    if bs.len() > 0 {
        let p = bs.drop_last();
        lemma_bucket_index(p, key);
        assert forall|j: int| 0 <= j < p.len() implies p[j] == bs[j] by {}
    }
}

/// The first bucket with a key is unique.
pub proof fn lemma_bucket_index_at(bs: Seq<IndexBucket>, key: Seq<char>, i: int)
    requires
        0 <= i < bs.len(),
        bs[i].key == key,
        forall|j: int| 0 <= j < i ==> bs[j].key != key,
    ensures
        bucket_index(bs, key) == Some(i as nat),
{
    lemma_bucket_index(bs, key);
    if let Some(k) = bucket_index(bs, key) {
        if (k as int) < i {
            assert(bs[k as int].key == key);
        } else if (k as int) > i {
            assert(bs[i].key != key);
        }
    }
}

/// Filing a value under a key appends it to what that key holds and leaves
/// every other key as it was.
pub proof fn law_file_under_lookup(bs: Seq<IndexBucket>, key: Seq<char>, v: YamlModel, other: Seq<char>)
    ensures
        bucket_lookup(file_under(bs, key, v), other) == if other == key {
            bucket_lookup(bs, key).push(v)
        } else {
            bucket_lookup(bs, other)
        },
{
    let nb = file_under(bs, key, v);
    lemma_bucket_index(bs, key);
    lemma_bucket_index(bs, other);
    lemma_bucket_index(nb, other);
    match bucket_index(bs, key) {
        Some(i) => {
            assert(nb.len() == bs.len());
            assert forall|j: int| 0 <= j < nb.len() implies nb[j].key == bs[j].key by {}
            if other == key {
                lemma_bucket_index_at(nb, other, i as int);
            } else {
                if let Some(k) = bucket_index(bs, other) {
                    lemma_bucket_index_at(nb, other, k as int);
                }
            }
        },
        None => {
            assert forall|j: int| 0 <= j < bs.len() implies nb[j] == bs[j] by {}
            if other == key {
                lemma_bucket_index_at(nb, other, bs.len() as int);
            } else {
                if let Some(k) = bucket_index(bs, other) {
                    lemma_bucket_index_at(nb, other, k as int);
                } else {
                    assert(nb[bs.len() as int].key != other);
                }
            }
        },
    }
}

impl IndexEntry {
    /// A copy of the entry.
    pub fn duplicate(&self) -> (r: IndexEntry)
        ensures
            r@ == self@,
    {
        let mut values: Vec<YamlValue> = Vec::new();
        let mut i: usize = 0;
        while i < self.values.len()
            invariant
                i <= self.values.len(),
                values.len() == i,
                forall|j: int| 0 <= j < i ==> values[j]@ == self.values[j]@,
            decreases self.values.len() - i,
        {
            values.push(self.values[i].duplicate());
            i = i + 1;
        }
        let r = IndexEntry { key: self.key.clone(), values };
        assert(r@.values =~= self@.values);
        r
    }
}

impl ForwardIndex {
    /// The index is well formed: no key has two buckets.
    pub open spec fn wf(&self) -> bool {
        keys_distinct(self@)
    }

    /// An index with no keys.
    pub fn new() -> (r: ForwardIndex)
        ensures
            r@ == Seq::<IndexBucket>::empty(),
            r.wf(),
    {
        let r = ForwardIndex { entries: Vec::new() };
        assert(r@ =~= Seq::<IndexBucket>::empty());
        r
    }

    /// A copy of the index.
    pub fn duplicate(&self) -> (r: ForwardIndex)
        ensures
            r@ == self@,
    {
        let mut entries: Vec<IndexEntry> = Vec::new();
        let mut i: usize = 0;
        while i < self.entries.len()
            invariant
                i <= self.entries.len(),
                entries.len() == i,
                forall|j: int| 0 <= j < i ==> entries[j]@ == self.entries[j]@,
            decreases self.entries.len() - i,
        {
            entries.push(self.entries[i].duplicate());
            i = i + 1;
        }
        let r = ForwardIndex { entries };
        assert(r@ =~= self@);
        r
    }

    /// The position of the entry of `key`.
    fn position(&self, key: &str) -> (r: Option<usize>)
        ensures
            match r {
                Some(i) => i < self.entries.len() && bucket_index(self@, key@) == Some(i as nat),
                None => bucket_index(self@, key@) is None,
            },
    {
        proof { lemma_bucket_index(self@, key@); }
        let mut i: usize = 0;
        while i < self.entries.len()
            invariant
                i <= self.entries.len(),
                forall|j: int| 0 <= j < i ==> self@[j].key != key@,
            decreases self.entries.len() - i,
        {
            if text_eq(self.entries[i].key.as_str(), key) {
                proof { lemma_bucket_index_at(self@, key@, i as int); }
                return Some(i);
            }
            i = i + 1;
        }
        proof { lemma_bucket_index(self@, key@); }
        None
    }

    /// What is filed under `key`, if the key has a bucket.
    pub fn get(&self, key: &str) -> (r: Option<&Vec<YamlValue>>)
        ensures
            match r {
                Some(v) => bucket_index(self@, key@) is Some && bucket_lookup(self@, key@)
                    == Seq::new(v.len() as nat, |i: int| v[i]@),
                None => bucket_index(self@, key@) is None,
            },
    {
        match self.position(key) {
            Some(i) => {
                assert(bucket_lookup(self@, key@) =~= Seq::new(
                    self.entries[i as int].values.len() as nat,
                    |k: int| self.entries[i as int].values[k]@,
                ));
                Some(&self.entries[i].values)
            },
            None => None,
        }
    }

    /// Files `v` under `key`.
    pub fn file(&mut self, key: &str, v: YamlValue)
        ensures
            final(self)@ == file_under(old(self)@, key@, v@),
            old(self).wf() ==> final(self).wf(),
    {
        proof {
            if old(self).wf() {
                law_file_under_keeps_keys_distinct(old(self)@, key@, v@);
            }
        }
        match self.position(key) {
            Some(i) => {
                let ghost before = self@;
                let mut entry = IndexEntry { key: String::new(), values: Vec::new() };
                std::mem::swap(&mut entry, &mut self.entries[i]);
                let ghost vals = entry@.values;
                entry.values.push(v);
                assert(entry@.values =~= vals.push(v@));
                self.entries.set(i, entry);
                assert(self@ =~= file_under(before, key@, v@));
            },
            None => {
                let ghost before = self@;
                let mut values: Vec<YamlValue> = Vec::new();
                values.push(v);
                let entry = IndexEntry { key: key.to_owned(), values };
                assert(entry@.values =~= seq![v@]);
                self.entries.push(entry);
                assert(self@ =~= file_under(before, key@, v@));
            },
        }
    }
}

/// The index after filing `v` under each key of `keys` in turn.
pub open spec fn file_all(bs: Seq<IndexBucket>, keys: Seq<Seq<char>>, v: YamlModel) -> Seq<IndexBucket>
    decreases keys.len(),
{
    if keys.len() == 0 {
        bs
    } else {
        file_all(file_under(bs, keys[0], v), keys.drop_first(), v)
    }
}

/// `v` once for each time `key` occurs in `keys`.
pub open spec fn occurrences(keys: Seq<Seq<char>>, key: Seq<char>, v: YamlModel) -> Seq<YamlModel>
    decreases keys.len(),
{
    if keys.len() == 0 {
        Seq::empty()
    } else {
        (if keys[0] == key {
            seq![v]
        } else {
            Seq::empty()
        }) + occurrences(keys.drop_first(), key, v)
    }
}

/// Filing `v` under several keys adds it to each key once per occurrence of
/// the key, after what the key held, and changes nothing else.
pub proof fn law_file_all_lookup(bs: Seq<IndexBucket>, keys: Seq<Seq<char>>, v: YamlModel, key: Seq<char>)
    ensures
        bucket_lookup(file_all(bs, keys, v), key) == bucket_lookup(bs, key) + occurrences(keys, key, v),
    decreases keys.len(),
{
    if keys.len() == 0 {
        assert(bucket_lookup(bs, key) + Seq::<YamlModel>::empty() =~= bucket_lookup(bs, key));
    } else {
        law_file_under_lookup(bs, keys[0], v, key);
        law_file_all_lookup(file_under(bs, keys[0], v), keys.drop_first(), v, key);
        let head = if keys[0] == key {
            seq![v]
        } else {
            Seq::<YamlModel>::empty()
        };
        assert(bucket_lookup(file_under(bs, keys[0], v), key) == bucket_lookup(bs, key) + head);
        assert(bucket_lookup(bs, key) + head + occurrences(keys.drop_first(), key, v) =~= bucket_lookup(bs, key) + (head + occurrences(keys.drop_first(), key, v)));
    }
}

/// Filing keeps the keys of an index distinct.
pub proof fn law_file_under_keeps_keys_distinct(bs: Seq<IndexBucket>, key: Seq<char>, v: YamlModel)
    requires
        keys_distinct(bs),
    ensures
        keys_distinct(file_under(bs, key, v)),
{
    lemma_bucket_index(bs, key);
    let nb = file_under(bs, key, v);
    assert forall|i: int, j: int| 0 <= i < j < nb.len() implies (#[trigger] nb[i]).key != (#[trigger] nb[j]).key by {
        if j < bs.len() {
            assert(nb[i].key == bs[i].key && nb[j].key == bs[j].key);
        }
    }
}

/// Filing under several keys keeps the keys of an index distinct.
pub proof fn law_file_all_keeps_keys_distinct(bs: Seq<IndexBucket>, keys: Seq<Seq<char>>, v: YamlModel)
    requires
        keys_distinct(bs),
    ensures
        keys_distinct(file_all(bs, keys, v)),
    decreases keys.len(),
{
    if keys.len() > 0 {
        law_file_under_keeps_keys_distinct(bs, keys[0], v);
        law_file_all_keeps_keys_distinct(file_under(bs, keys[0], v), keys.drop_first(), v);
    }
}

/// The model of one attribute of a reverse index: its values, each with what
/// is filed under it.
pub struct ReverseBucket {
    pub attr: Seq<char>,
    pub buckets: Seq<IndexBucket>,
}

/// One attribute of a reverse index.
#[derive(Debug)]
pub struct ReverseEntry {
    pub attr: String,
    pub index: ForwardIndex,
}

impl View for ReverseEntry {
    type V = ReverseBucket;

    open spec fn view(&self) -> ReverseBucket {
        ReverseBucket { attr: self.attr@, buckets: self.index@ }
    }
}

/// A reverse index: for each front-matter attribute, for each of its values,
/// the front matters that have that value.
#[derive(Debug)]
pub struct ReverseIndex {
    pub entries: Vec<ReverseEntry>,
}

impl View for ReverseIndex {
    type V = Seq<ReverseBucket>;

    open spec fn view(&self) -> Seq<ReverseBucket> {
        Seq::new(self.entries.len() as nat, |i: int| self.entries[i]@)
    }
}

/// The position of the attribute `attr`.
pub open spec fn attr_index(rs: Seq<ReverseBucket>, attr: Seq<char>) -> Option<nat>
    decreases rs.len(),
{
    if rs.len() == 0 {
        None
    } else {
        match attr_index(rs.drop_last(), attr) {
            Some(i) => Some(i),
            None => if rs.last().attr == attr {
                Some((rs.len() - 1) as nat)
            } else {
                None
            },
        }
    }
}

/// What is filed under the value `key` of the attribute `attr`.
pub open spec fn reverse_lookup(rs: Seq<ReverseBucket>, attr: Seq<char>, key: Seq<char>) -> Seq<YamlModel> {
    match attr_index(rs, attr) {
        Some(i) => bucket_lookup(rs[i as int].buckets, key),
        None => Seq::empty(),
    }
}

/// The reverse index after filing `v` under the value `key` of `attr`.
pub open spec fn file_under_attr(rs: Seq<ReverseBucket>, attr: Seq<char>, key: Seq<char>, v: YamlModel) -> Seq<ReverseBucket> {
    match attr_index(rs, attr) {
        Some(i) => rs.update(i as int, ReverseBucket { attr: rs[i as int].attr, buckets: file_under(rs[i as int].buckets, key, v) }),
        None => rs.push(ReverseBucket { attr, buckets: seq![IndexBucket { key, values: seq![v] }] }),
    }
}

/// No two entries of the reverse index have the same attribute, and no
/// attribute has two buckets with the same value.
pub open spec fn reverse_distinct(rs: Seq<ReverseBucket>) -> bool {
    &&& forall|i: int, j: int| 0 <= i < j < rs.len() ==> (#[trigger] rs[i]).attr != (#[trigger] rs[j]).attr
    &&& forall|i: int| 0 <= i < rs.len() ==> keys_distinct(#[trigger] rs[i].buckets)
}

/// `attr_index` finds the first entry with the attribute, and only where there is one.
pub proof fn lemma_attr_index(rs: Seq<ReverseBucket>, attr: Seq<char>)
    ensures
        attr_index(rs, attr) matches Some(i) ==> i < rs.len() && rs[i as int].attr == attr
            && forall|j: int| 0 <= j < i ==> rs[j].attr != attr,
        attr_index(rs, attr) is None ==> forall|j: int| 0 <= j < rs.len() ==> rs[j].attr != attr,
    decreases rs.len(),
{
    if rs.len() > 0 {
        let p = rs.drop_last();
        lemma_attr_index(p, attr);
        assert forall|j: int| 0 <= j < p.len() implies p[j] == rs[j] by {}
    }
}

/// The first entry with an attribute is unique.
pub proof fn lemma_attr_index_at(rs: Seq<ReverseBucket>, attr: Seq<char>, i: int)
    requires
        0 <= i < rs.len(),
        rs[i].attr == attr,
        forall|j: int| 0 <= j < i ==> rs[j].attr != attr,
    ensures
        attr_index(rs, attr) == Some(i as nat),
{
    lemma_attr_index(rs, attr);
    if let Some(k) = attr_index(rs, attr) {
        if (k as int) < i {
            assert(rs[k as int].attr == attr);
        } else if (k as int) > i {
            assert(rs[i].attr != attr);
        }
    }
}

/// Filing under an attribute's value appends to that pair alone.
pub proof fn law_file_under_attr_lookup(
    rs: Seq<ReverseBucket>,
    attr: Seq<char>,
    key: Seq<char>,
    v: YamlModel,
    attr2: Seq<char>,
    key2: Seq<char>,
)
    ensures
        reverse_lookup(file_under_attr(rs, attr, key, v), attr2, key2) == if attr2 == attr && key2 == key {
            reverse_lookup(rs, attr2, key2).push(v)
        } else {
            reverse_lookup(rs, attr2, key2)
        },
{
    let nr = file_under_attr(rs, attr, key, v);
    lemma_attr_index(rs, attr);
    lemma_attr_index(rs, attr2);
    match attr_index(rs, attr) {
        Some(i) => {
            assert forall|j: int| 0 <= j < nr.len() implies nr[j].attr == rs[j].attr by {}
            if attr2 == attr {
                lemma_attr_index_at(nr, attr2, i as int);
                law_file_under_lookup(rs[i as int].buckets, key, v, key2);
            } else if let Some(k) = attr_index(rs, attr2) {
                lemma_attr_index_at(nr, attr2, k as int);
            } else {
                lemma_attr_index(nr, attr2);
            }
        },
        None => {
            assert forall|j: int| 0 <= j < rs.len() implies nr[j] == rs[j] by {}
            if attr2 == attr {
                lemma_attr_index_at(nr, attr2, rs.len() as int);
                let nb = seq![IndexBucket { key, values: seq![v] }];
                lemma_bucket_index(nb, key2);
                if key2 == key {
                    lemma_bucket_index_at(nb, key2, 0);
                    assert(Seq::<YamlModel>::empty().push(v) =~= seq![v]);
                }
            } else if let Some(k) = attr_index(rs, attr2) {
                lemma_attr_index_at(nr, attr2, k as int);
            } else {
                lemma_attr_index(nr, attr2);
                assert(nr[rs.len() as int].attr != attr2);
            }
        },
    }
}

/// Filing under an attribute's value keeps the reverse index free of
/// duplicate attributes and values.
pub proof fn law_file_under_attr_keeps_distinct(rs: Seq<ReverseBucket>, attr: Seq<char>, key: Seq<char>, v: YamlModel)
    requires
        reverse_distinct(rs),
    ensures
        reverse_distinct(file_under_attr(rs, attr, key, v)),
{
    lemma_attr_index(rs, attr);
    let nr = file_under_attr(rs, attr, key, v);
    match attr_index(rs, attr) {
        Some(k) => {
            law_file_under_keeps_keys_distinct(rs[k as int].buckets, key, v);
            assert forall|i: int| 0 <= i < nr.len() implies keys_distinct(#[trigger] nr[i].buckets) by {
                if i != k {
                    assert(nr[i] == rs[i]);
                }
            }
            assert forall|i: int, j: int| 0 <= i < j < nr.len() implies (#[trigger] nr[i]).attr != (#[trigger] nr[j]).attr by {
                assert(nr[i].attr == rs[i].attr && nr[j].attr == rs[j].attr);
            }
        },
        None => {
            assert forall|i: int| 0 <= i < nr.len() implies keys_distinct(#[trigger] nr[i].buckets) by {
                if i < rs.len() {
                    assert(nr[i] == rs[i]);
                }
            }
            assert forall|i: int, j: int| 0 <= i < j < nr.len() implies (#[trigger] nr[i]).attr != (#[trigger] nr[j]).attr by {
                if j < rs.len() {
                    assert(nr[i] == rs[i] && nr[j] == rs[j]);
                }
            }
        },
    }
}

impl ReverseIndex {
    /// The index is well formed: no attribute has two entries, and no value of
    /// an attribute has two buckets.
    pub open spec fn wf(&self) -> bool {
        reverse_distinct(self@)
    }

    /// A reverse index with no attributes.
    pub fn new() -> (r: ReverseIndex)
        ensures
            r@ == Seq::<ReverseBucket>::empty(),
            r.wf(),
    {
        let r = ReverseIndex { entries: Vec::new() };
        assert(r@ =~= Seq::<ReverseBucket>::empty());
        r
    }

    /// What the attribute `attr` holds, if it has an entry.
    pub fn get(&self, attr: &str) -> (r: Option<&ForwardIndex>)
        ensures
            match r {
                Some(f) => attr_index(self@, attr@) matches Some(i) && self@[i as int].buckets == f@,
                None => attr_index(self@, attr@) is None,
            },
    {
        proof { lemma_attr_index(self@, attr@); }
        let mut i: usize = 0;
        while i < self.entries.len()
            invariant
                i <= self.entries.len(),
                forall|j: int| 0 <= j < i ==> self@[j].attr != attr@,
            decreases self.entries.len() - i,
        {
            if text_eq(self.entries[i].attr.as_str(), attr) {
                proof { lemma_attr_index_at(self@, attr@, i as int); }
                return Some(&self.entries[i].index);
            }
            i = i + 1;
        }
        proof { lemma_attr_index(self@, attr@); }
        None
    }

    /// Files `v` under the value `key` of the attribute `attr`.
    pub fn file(&mut self, attr: &str, key: &str, v: YamlValue)
        ensures
            final(self)@ == file_under_attr(old(self)@, attr@, key@, v@),
            old(self).wf() ==> final(self).wf(),
    {
        proof {
            if old(self).wf() {
                law_file_under_attr_keeps_distinct(old(self)@, attr@, key@, v@);
            }
        }
        let ghost before = self@;
        proof { lemma_attr_index(before, attr@); }
        let mut i: usize = 0;
        while i < self.entries.len()
            invariant
                i <= self.entries.len(),
                self@ == before,
                before == old(self)@,
                forall|j: int| 0 <= j < i ==> before[j].attr != attr@,
            decreases self.entries.len() - i,
        {
            if text_eq(self.entries[i].attr.as_str(), attr) {
                proof { lemma_attr_index_at(before, attr@, i as int); }
                let mut entry = ReverseEntry { attr: String::new(), index: ForwardIndex::new() };
                std::mem::swap(&mut entry, &mut self.entries[i]);
                entry.index.file(key, v);
                self.entries.set(i, entry);
                assert(self@ =~= file_under_attr(before, attr@, key@, v@));
                return;
            }
            i = i + 1;
        }
        proof { lemma_attr_index(before, attr@); }
        let mut index = ForwardIndex::new();
        index.file(key, v);
        proof { lemma_bucket_index(Seq::<IndexBucket>::empty(), key@); }
        self.entries.push(ReverseEntry { attr: attr.to_owned(), index });
        assert(self@ =~= file_under_attr(before, attr@, key@, v@));
    }
}

} // verus!

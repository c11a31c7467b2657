//! Gathering the site's documents into memory and building its indexes.
use vstd::prelude::*;
use crate::index::{
    bucket_lookup, file_all, file_under_attr, keys_distinct, law_file_all_keeps_keys_distinct,
    law_file_all_lookup, law_file_under_attr_keeps_distinct, law_file_under_attr_lookup, occurrences,
    reverse_distinct, reverse_lookup, ForwardIndex, IndexBucket, ReverseBucket, ReverseIndex,
};
use crate::parse_markdown::{ContentDocument, DocModel};
use crate::yaml::{text_eq, values_view, YamlModel, YamlValue};

verus! {

broadcast use vstd::std_specs::vec::group_vec_axioms;

/// A document and the path of the file it was read from.
#[derive(Debug)]
pub struct DiscoveredEntry {
    pub path: String,
    pub doc: ContentDocument,
}

/// The model of a document and its path.
pub struct DiscoveredItem {
    pub path: Seq<char>,
    pub doc: DocModel,
}

impl View for DiscoveredEntry {
    type V = DiscoveredItem;

    open spec fn view(&self) -> DiscoveredItem {
        DiscoveredItem { path: self.path@, doc: self.doc@ }
    }
}

/// All documents of the site, one per file path.
#[derive(Debug)]
pub struct Discovered {
    pub data: Vec<DiscoveredEntry>,
}

impl View for Discovered {
    type V = Seq<DiscoveredItem>;

    open spec fn view(&self) -> Seq<DiscoveredItem> {
        Seq::new(self.data.len() as nat, |i: int| self.data[i]@)
    }
}

/// The position of the document read from `path`.
pub open spec fn path_index(ds: Seq<DiscoveredItem>, path: Seq<char>) -> Option<nat>
    decreases ds.len(),
{
    if ds.len() == 0 {
        None
    } else {
        match path_index(ds.drop_last(), path) {
            Some(i) => Some(i),
            None => if ds.last().path == path {
                Some((ds.len() - 1) as nat)
            } else {
                None
            },
        }
    }
}

/// The documents after storing `doc` under `path`: it replaces the document
/// stored there, or is added at the end.
pub open spec fn insert_doc(ds: Seq<DiscoveredItem>, path: Seq<char>, doc: DocModel) -> Seq<DiscoveredItem> {
    match path_index(ds, path) {
        Some(i) => ds.update(i as int, DiscoveredItem { path: ds[i as int].path, doc }),
        None => ds.push(DiscoveredItem { path, doc }),
    }
}

proof fn lemma_path_index(ds: Seq<DiscoveredItem>, path: Seq<char>)
    ensures
        path_index(ds, path) matches Some(i) ==> i < ds.len() && ds[i as int].path == path
            && forall|j: int| 0 <= j < i ==> ds[j].path != path,
        path_index(ds, path) is None ==> forall|j: int| 0 <= j < ds.len() ==> ds[j].path != path,
    decreases ds.len(),
{
    if ds.len() > 0 {
        let p = ds.drop_last();
        lemma_path_index(p, path);
        assert forall|j: int| 0 <= j < p.len() implies p[j] == ds[j] by {}
    }
}

proof fn lemma_path_index_at(ds: Seq<DiscoveredItem>, path: Seq<char>, i: int)
    requires
        0 <= i < ds.len(),
        ds[i].path == path,
        forall|j: int| 0 <= j < i ==> ds[j].path != path,
    ensures
        path_index(ds, path) == Some(i as nat),
{
    lemma_path_index(ds, path);
    if let Some(k) = path_index(ds, path) {
        if (k as int) < i {
            assert(ds[k as int].path == path);
        } else if (k as int) > i {
            assert(ds[i].path != path);
        }
    }
}

/// No two documents are stored under the same path.
pub open spec fn paths_distinct(ds: Seq<DiscoveredItem>) -> bool {
    forall|i: int, j: int| 0 <= i < j < ds.len() ==> (#[trigger] ds[i]).path != (#[trigger] ds[j]).path
}

/// Storing a document keeps the paths distinct.
pub proof fn law_insert_keeps_paths_distinct(ds: Seq<DiscoveredItem>, path: Seq<char>, doc: DocModel)
    requires
        paths_distinct(ds),
    ensures
        paths_distinct(insert_doc(ds, path, doc)),
{
    lemma_path_index(ds, path);
    let nd = insert_doc(ds, path, doc);
    assert forall|i: int, j: int| 0 <= i < j < nd.len() implies (#[trigger] nd[i]).path != (#[trigger] nd[j]).path by {
        if j < ds.len() {
            assert(nd[i].path == ds[i].path && nd[j].path == ds[j].path);
        }
    }
}

impl Discovered {
    /// The documents are well formed: no path is stored twice.
    pub open spec fn wf(&self) -> bool {
        paths_distinct(self@)
    }

    /// No documents.
    pub fn default() -> (r: Discovered)
        ensures
            r@ == Seq::<DiscoveredItem>::empty(),
            r.wf(),
    {
        let r = Discovered { data: Vec::new() };
        assert(r@ =~= Seq::<DiscoveredItem>::empty());
        r
    }

    /// Stores `doc` under `path`, replacing the document stored there.
    pub fn insert(&mut self, path: String, doc: ContentDocument)
        ensures
            final(self)@ == insert_doc(old(self)@, path@, doc@),
            old(self).wf() ==> final(self).wf(),
    {
        proof {
            if old(self).wf() {
                law_insert_keeps_paths_distinct(old(self)@, path@, doc@);
            }
        }
        let ghost before = self@;
        let mut i: usize = 0;
        while i < self.data.len()
            invariant
                i <= self.data.len(),
                self@ == before,
                before == old(self)@,
                forall|j: int| 0 <= j < i ==> before[j].path != path@,
            decreases self.data.len() - i,
        {
            if text_eq(self.data[i].path.as_str(), path.as_str()) {
                proof { lemma_path_index_at(before, path@, i as int); }
                self.data.set(i, DiscoveredEntry { path, doc });
                assert(self@ =~= insert_doc(before, path@, doc@));
                return;
            }
            i = i + 1;
        }
        proof { lemma_path_index(before, path@); }
        self.data.push(DiscoveredEntry { path, doc });
        assert(self@ =~= insert_doc(before, path@, doc@));
    }
}

/// The values of the front matter's `forwardindex`: the elements of a list, or the one value.
pub open spec fn forward_key_values(fm: YamlModel) -> Seq<YamlModel> {
    match fm.lookup("forwardindex"@) {
        Some(YamlModel::List(items)) => items,
        Some(v) => seq![v],
        None => Seq::empty(),
    }
}

/// Every forward-index key of the front matter is a string.
pub open spec fn forward_keys_ok(fm: YamlModel) -> bool {
    forall|i: int| 0 <= i < forward_key_values(fm).len() ==> #[trigger] forward_key_values(fm)[i] is Text
}

/// The forward-index keys of the front matter.
pub open spec fn forward_keys(fm: YamlModel) -> Seq<Seq<char>> {
    Seq::new(forward_key_values(fm).len(), |i: int| forward_key_values(fm)[i]->Text_0)
}

/// The forward index after filing a document: its front matter under each of its keys.
pub open spec fn forward_filed(bs: Seq<IndexBucket>, d: DocModel) -> Seq<IndexBucket> {
    match d.frontmatter {
        Some(fm) => file_all(bs, forward_keys(fm), fm),
        None => bs,
    }
}

/// Files the document's front matter in the forward index under each key of
/// its `forwardindex` (a string, or a list of strings).
pub fn build_forward_index(building_forwardindex: &mut ForwardIndex, content_store: &ContentDocument)
    requires
        content_store@.frontmatter matches Some(fm) ==> forward_keys_ok(fm),
    ensures
        final(building_forwardindex)@ == forward_filed(old(building_forwardindex)@, content_store@),
{
    let fmatter = match &content_store.frontmatter {
        Some(f) => f,
        None => return,
    };
    let value = match fmatter.get("forwardindex") {
        Some(v) => v,
        None => {
            assert(forward_keys(fmatter@) =~= Seq::<Seq<char>>::empty());
            return;
        },
    };
    let ghost keys = forward_keys(fmatter@);
    match value.as_sequence() {
        Some(items) => {
            assert(forward_key_values(fmatter@) == crate::yaml::values_view(items@));
            let mut i: usize = 0;
            assert(keys.skip(0) =~= keys);
            while i < items.len()
                invariant
                    i <= items.len(),
                    keys == forward_keys(fmatter@),
                    keys.len() == items.len(),
                    forall|j: int| 0 <= j < items.len() ==> #[trigger] keys[j] == items[j]@->Text_0 && items[j]@ is Text,
                    forward_filed(old(building_forwardindex)@, content_store@)
                        == file_all(building_forwardindex@, keys.skip(i as int), fmatter@),
                decreases items.len() - i,
            {
                assert(keys.skip(i as int).drop_first() =~= keys.skip(i + 1));
                let key = match items[i].as_str() {
                    Some(k) => k,
                    None => {
                        assert(keys[i as int] == items[i as int]@->Text_0);
                        return;
                    },
                };
                building_forwardindex.file(key.as_str(), fmatter.duplicate());
                i = i + 1;
            }
            assert(keys.skip(i as int).len() == 0);
        },
        None => {
            assert(forward_key_values(fmatter@) == seq![value@]);
            assert(forward_key_values(fmatter@)[0] is Text);
            let key = match value.as_str() {
                Some(k) => k,
                None => return,
            };
            assert(keys.len() == 1 && keys[0] == key@);
            building_forwardindex.file(key.as_str(), fmatter.duplicate());
            assert(keys.drop_first().len() == 0);
            assert(file_all(old(building_forwardindex)@, keys, fmatter@) == file_all(building_forwardindex@, keys.drop_first(), fmatter@));
        },
    }
}

/// The attributes named by the front matter's `reverseindex`: the elements of
/// a list, or the one string; nothing for any other value.
pub open spec fn reverse_attr_values(fm: YamlModel) -> Seq<YamlModel> {
    match fm.lookup("reverseindex"@) {
        Some(YamlModel::List(items)) => items,
        Some(YamlModel::Text(s)) => seq![YamlModel::Text(s)],
        _ => Seq::empty(),
    }
}

/// The values of an attribute: the elements of a list, or the one value.
pub open spec fn values_of_attr(av: YamlModel) -> Seq<YamlModel> {
    match av {
        YamlModel::List(items) => items,
        _ => seq![av],
    }
}

/// A reverse-index attribute that the front matter can be filed under: a
/// string naming a field of the front matter whose values are strings.
pub open spec fn attr_ok(fm: YamlModel, a: YamlModel) -> bool {
    &&& a is Text
    &&& fm.lookup(a->Text_0) is Some
    &&& forall|j: int|
        0 <= j < values_of_attr(fm.lookup(a->Text_0).unwrap()).len()
            ==> #[trigger] values_of_attr(fm.lookup(a->Text_0).unwrap())[j] is Text
}

/// Every attribute of the front matter's `reverseindex` can be filed under.
pub open spec fn reverse_keys_ok(fm: YamlModel) -> bool {
    forall|i: int| 0 <= i < reverse_attr_values(fm).len() ==> attr_ok(fm, #[trigger] reverse_attr_values(fm)[i])
}

/// The values (as strings) of the attribute `a` of the front matter.
pub open spec fn attr_value_keys(fm: YamlModel, a: Seq<char>) -> Seq<Seq<char>> {
    let vs = values_of_attr(fm.lookup(a).unwrap());
    Seq::new(vs.len(), |j: int| vs[j]->Text_0)
}

/// The reverse index after filing `v` under each of `keys` of `attr`.
pub open spec fn file_values(rs: Seq<ReverseBucket>, attr: Seq<char>, keys: Seq<Seq<char>>, v: YamlModel) -> Seq<ReverseBucket>
    decreases keys.len(),
{
    if keys.len() == 0 {
        rs
    } else {
        file_values(file_under_attr(rs, attr, keys[0], v), attr, keys.drop_first(), v)
    }
}

/// The reverse index after filing the front matter under each attribute of `attrs`.
pub open spec fn file_attrs(rs: Seq<ReverseBucket>, attrs: Seq<YamlModel>, fm: YamlModel) -> Seq<ReverseBucket>
    decreases attrs.len(),
{
    if attrs.len() == 0 {
        rs
    } else {
        let a = attrs[0]->Text_0;
        file_attrs(file_values(rs, a, attr_value_keys(fm, a), fm), attrs.drop_first(), fm)
    }
}

/// The reverse index after filing a document.
pub open spec fn reverse_filed(rs: Seq<ReverseBucket>, d: DocModel) -> Seq<ReverseBucket> {
    match d.frontmatter {
        Some(fm) => file_attrs(rs, reverse_attr_values(fm), fm),
        None => rs,
    }
}

/// Files the front matter under each value of the attribute `attr`.
fn file_attribute(building_reverseindex: &mut ReverseIndex, fmatter: &YamlValue, attr: &str)
    requires
        attr_ok(fmatter@, YamlModel::Text(attr@)),
    ensures
        final(building_reverseindex)@ == file_values(
            old(building_reverseindex)@,
            attr@,
            attr_value_keys(fmatter@, attr@),
            fmatter@,
        ),
{
    let attr_value = match fmatter.get(attr) {
        Some(v) => v,
        None => return,
    };
    let ghost keys = attr_value_keys(fmatter@, attr@);
    match attr_value.as_sequence() {
        Some(items) => {
            assert(values_of_attr(attr_value@) == crate::yaml::values_view(items@));
            assert forall|j: int| 0 <= j < items.len() implies #[trigger] keys[j] == items[j]@->Text_0
                && items[j]@ is Text by {
                assert(values_of_attr(fmatter@.lookup(attr@).unwrap())[j] is Text);
            }
            let mut i: usize = 0;
            assert(keys.skip(0) =~= keys);
            while i < items.len()
                invariant
                    i <= items.len(),
                    keys == attr_value_keys(fmatter@, attr@),
                    keys.len() == items.len(),
                    forall|j: int| 0 <= j < items.len() ==> #[trigger] keys[j] == items[j]@->Text_0 && items[j]@ is Text,
                    file_values(old(building_reverseindex)@, attr@, keys, fmatter@)
                        == file_values(building_reverseindex@, attr@, keys.skip(i as int), fmatter@),
                decreases items.len() - i,
            {
                assert(keys.skip(i as int).drop_first() =~= keys.skip(i + 1));
                let key = match items[i].as_str() {
                    Some(k) => k,
                    None => {
                        assert(keys[i as int] == items[i as int]@->Text_0);
                        return;
                    },
                };
                building_reverseindex.file(attr, key.as_str(), fmatter.duplicate());
                i = i + 1;
            }
            assert(keys.skip(i as int).len() == 0);
        },
        None => {
            assert(values_of_attr(attr_value@) == seq![attr_value@]);
            assert(values_of_attr(attr_value@)[0] is Text);
            let key = match attr_value.as_str() {
                Some(k) => k,
                None => return,
            };
            assert(keys.len() == 1 && keys[0] == key@);
            building_reverseindex.file(attr, key.as_str(), fmatter.duplicate());
            assert(keys.drop_first().len() == 0);
            assert(file_values(old(building_reverseindex)@, attr@, keys, fmatter@) == file_values(
                building_reverseindex@,
                attr@,
                keys.drop_first(),
                fmatter@,
            ));
        },
    }
}

/// Files the document's front matter in the reverse index: for each attribute
/// named by its `reverseindex` (a string or a list of strings), under each
/// value of that attribute (a string or a list of strings).
pub fn build_reverse_index(building_reverseindex: &mut ReverseIndex, content_store: &ContentDocument)
    requires
        content_store@.frontmatter matches Some(fm) ==> reverse_keys_ok(fm),
    ensures
        final(building_reverseindex)@ == reverse_filed(old(building_reverseindex)@, content_store@),
{
    let fmatter = match &content_store.frontmatter {
        Some(f) => f,
        None => return,
    };
    let value = match fmatter.get("reverseindex") {
        Some(v) => v,
        None => return,
    };
    let ghost attrs = reverse_attr_values(fmatter@);
    match value.as_sequence() {
        Some(items) => {
            assert(attrs == crate::yaml::values_view(items@));
            let mut i: usize = 0;
            assert(attrs.skip(0) =~= attrs);
            while i < items.len()
                invariant
                    i <= items.len(),
                    attrs == reverse_attr_values(fmatter@),
                    attrs == crate::yaml::values_view(items@),
                    reverse_keys_ok(fmatter@),
                    reverse_filed(old(building_reverseindex)@, content_store@)
                        == file_attrs(building_reverseindex@, attrs.skip(i as int), fmatter@),
                decreases items.len() - i,
            {
                assert(attrs.skip(i as int).drop_first() =~= attrs.skip(i + 1));
                assert(attrs.skip(i as int)[0] == attrs[i as int]);
                assert(attr_ok(fmatter@, attrs[i as int]));
                let attr = match items[i].as_str() {
                    Some(a) => a,
                    None => return,
                };
                file_attribute(building_reverseindex, fmatter, attr.as_str());
                i = i + 1;
            }
            assert(attrs.skip(i as int).len() == 0);
        },
        None => {
            match value.as_str() {
                Some(a) => {
                    assert(attrs == seq![YamlModel::Text(a@)]);
                    assert(attr_ok(fmatter@, attrs[0]));
                    let ghost before = building_reverseindex@;
                    file_attribute(building_reverseindex, fmatter, a.as_str());
                    assert(attrs.drop_first().len() == 0);
                    assert(file_attrs(before, attrs, fmatter@) == file_attrs(
                        building_reverseindex@,
                        attrs.drop_first(),
                        fmatter@,
                    ));
                },
                None => {
                    assert(attrs.len() == 0);
                },
            }
        },
    }
}

/// The documents with each document's forward index set to `fi`.
pub open spec fn merged(ds: Seq<DiscoveredItem>, fi: Seq<IndexBucket>) -> Seq<DiscoveredItem> {
    Seq::new(
        ds.len(),
        |i: int|
            DiscoveredItem {
                path: ds[i].path,
                doc: DocModel {
                    frontmatter_raw: ds[i].doc.frontmatter_raw,
                    frontmatter: ds[i].doc.frontmatter,
                    content: ds[i].doc.content,
                    name: ds[i].doc.name,
                    forwardindex: Some(fi),
                },
            },
    )
}

/// Gives every document a copy of the site's forward index.
pub fn merge_forward_index(content_full_data: &mut Discovered, building_forwardindex: &ForwardIndex)
    ensures
        final(content_full_data)@ == merged(old(content_full_data)@, building_forwardindex@),
        old(content_full_data).wf() ==> final(content_full_data).wf(),
{
    proof {
        if old(content_full_data).wf() {
            law_merge_keeps_paths_distinct(old(content_full_data)@, building_forwardindex@);
        }
    }
    let ghost before = content_full_data@;
    let mut i: usize = 0;
    while i < content_full_data.data.len()
        invariant
            i <= content_full_data.data.len(),
            before == old(content_full_data)@,
            content_full_data@.len() == before.len(),
            forall|j: int| 0 <= j < i ==> #[trigger] content_full_data@[j] == merged(before, building_forwardindex@)[j],
            forall|j: int| i <= j < before.len() ==> #[trigger] content_full_data@[j] == before[j],
        decreases content_full_data.data.len() - i,
    {
        let ghost prev = content_full_data.data@;
        let ghost prev_view = content_full_data@;
        assert(content_full_data@[i as int] == before[i as int]);
        assert(prev[i as int]@ == before[i as int]);
        let mut entry = DiscoveredEntry { path: String::new(), doc: ContentDocument::new("") };
        std::mem::swap(&mut entry, &mut content_full_data.data[i]);
        assert(entry == prev[i as int]);
        entry.doc.forwardindex = Some(building_forwardindex.duplicate());
        content_full_data.data.set(i, entry);
        assert(content_full_data.data@ =~= prev.update(i as int, entry));
        assert(content_full_data@[i as int] == merged(before, building_forwardindex@)[i as int]);
        assert forall|j: int| 0 <= j < before.len() && j != i implies #[trigger] content_full_data@[j] == prev_view[j] by {
            assert(content_full_data.data@[j] == prev[j]);
        }
        i = i + 1;
    }
    assert(content_full_data@ =~= merged(before, building_forwardindex@));
}

/// The forward index after filing each document of `items` in turn.
pub open spec fn forward_index_of(bs: Seq<IndexBucket>, items: Seq<DiscoveredItem>) -> Seq<IndexBucket>
    decreases items.len(),
{
    if items.len() == 0 {
        bs
    } else {
        forward_index_of(forward_filed(bs, items[0].doc), items.drop_first())
    }
}

/// The reverse index after filing each document of `items` in turn.
pub open spec fn reverse_index_of(rs: Seq<ReverseBucket>, items: Seq<DiscoveredItem>) -> Seq<ReverseBucket>
    decreases items.len(),
{
    if items.len() == 0 {
        rs
    } else {
        reverse_index_of(reverse_filed(rs, items[0].doc), items.drop_first())
    }
}

/// The documents after storing each document of `items` in turn.
pub open spec fn insert_all(ds: Seq<DiscoveredItem>, items: Seq<DiscoveredItem>) -> Seq<DiscoveredItem>
    decreases items.len(),
{
    if items.len() == 0 {
        ds
    } else {
        insert_all(insert_doc(ds, items[0].path, items[0].doc), items.drop_first())
    }
}

/// The document's front matter, if any, can be filed in both indexes.
pub open spec fn doc_indexable(d: DocModel) -> bool {
    match d.frontmatter {
        Some(fm) => forward_keys_ok(fm) && reverse_keys_ok(fm),
        None => true,
    }
}

/// Every document's front matter can be filed in both indexes.
pub open spec fn indexable(items: Seq<DiscoveredItem>) -> bool {
    forall|i: int| 0 <= i < items.len() ==> doc_indexable(#[trigger] items[i].doc)
}

/// Whether every value is a string.
fn all_strings(vs: &Vec<YamlValue>) -> (r: bool)
    ensures
        r == (forall|j: int| 0 <= j < vs@.len() ==> #[trigger] vs@[j]@ is Text),
{
    let mut i: usize = 0;
    while i < vs.len()
        invariant
            i <= vs.len(),
            forall|j: int| 0 <= j < i ==> #[trigger] vs@[j]@ is Text,
        decreases vs.len() - i,
    {
        if vs[i].as_str().is_none() {
            return false;
        }
        i = i + 1;
    }
    true
}

/// Whether the values of an attribute (the elements of a list, or the one
/// value) are all strings.
fn values_are_strings(av: &YamlValue) -> (r: bool)
    ensures
        r == (forall|j: int| 0 <= j < values_of_attr(av@).len() ==> #[trigger] values_of_attr(av@)[j] is Text),
{
    let ghost vs = values_of_attr(av@);
    match av.as_sequence() {
        Some(items) => {
            let r = all_strings(items);
            assert(vs =~= values_view(items@));
            assert(r ==> forall|j: int| 0 <= j < vs.len() ==> #[trigger] vs[j] is Text) by {
                if r {
                    assert forall|j: int| 0 <= j < vs.len() implies #[trigger] vs[j] is Text by {
                        assert(items@[j]@ is Text);
                    }
                }
            }
            assert(!r ==> !(forall|j: int| 0 <= j < vs.len() ==> #[trigger] vs[j] is Text)) by {
                if !r {
                    let j = choose|j: int| 0 <= j < items@.len() && !(#[trigger] items@[j]@ is Text);
                    assert(!(vs[j] is Text));
                }
            }
            r
        },
        None => {
            assert(vs =~= seq![av@]);
            let r = av.as_str().is_some();
            assert(r == (vs[0] is Text));
            r
        },
    }
}

/// Whether the front matter can be filed under the reverse-index attribute `a`.
fn attr_accepted(fm: &YamlValue, a: &YamlValue) -> (r: bool)
    ensures
        r == attr_ok(fm@, a@),
{
    match a.as_str() {
        None => false,
        Some(name) => match fm.get(name.as_str()) {
            None => false,
            Some(av) => values_are_strings(av),
        },
    }
}

/// Whether the front matter can be filed in both indexes.
fn front_matter_indexable(fm: &YamlValue) -> (r: bool)
    ensures
        r == (forward_keys_ok(fm@) && reverse_keys_ok(fm@)),
{
    let forward = match fm.get("forwardindex") {
        None => {
            assert(forward_key_values(fm@) =~= Seq::<YamlModel>::empty());
            true
        },
        Some(v) => {
            assert(forward_key_values(fm@) =~= values_of_attr(v@));
            values_are_strings(v)
        },
    };
    if !forward {
        return false;
    }
    match fm.get("reverseindex") {
        None => {
            assert(reverse_attr_values(fm@) =~= Seq::<YamlModel>::empty());
            true
        },
        Some(rv) => match rv.as_sequence() {
            Some(attrs) => {
                let ghost ras = reverse_attr_values(fm@);
                assert(ras =~= values_view(attrs@));
                let mut i: usize = 0;
                while i < attrs.len()
                    invariant
                        i <= attrs.len(),
                        ras == reverse_attr_values(fm@),
                        ras.len() == attrs@.len(),
                        forall|j: int| 0 <= j < attrs@.len() ==> ras[j] == attrs@[j]@,
                        forall|j: int| 0 <= j < i ==> attr_ok(fm@, #[trigger] ras[j]),
                    decreases attrs.len() - i,
                {
                    if !attr_accepted(fm, &attrs[i]) {
                        assert(!attr_ok(fm@, ras[i as int]));
                        return false;
                    }
                    i = i + 1;
                }
                assert(reverse_keys_ok(fm@));
                true
            },
            None => match rv.as_str() {
                Some(_) => {
                    let ghost ras = reverse_attr_values(fm@);
                    assert(ras =~= seq![rv@]);
                    let r = attr_accepted(fm, rv);
                    assert(r == attr_ok(fm@, ras[0]));
                    assert(r == reverse_keys_ok(fm@));
                    r
                },
                None => {
                    assert(reverse_attr_values(fm@) =~= Seq::<YamlModel>::empty());
                    true
                },
            },
        },
    }
}

/// Whether the document can be filed in both indexes: its front matter, if
/// any, names only string keys in `forwardindex` and, in `reverseindex`, only
/// attributes it has with string values.
pub fn document_indexable(doc: &ContentDocument) -> (r: bool)
    ensures
        r == doc_indexable(doc@),
{
    match &doc.frontmatter {
        Some(fm) => front_matter_indexable(fm),
        None => true,
    }
}

/// Whether every document read can be filed in both indexes, which
/// `discover_content` asks of its input.
pub fn documents_indexable(found: &Vec<DiscoveredEntry>) -> (r: bool)
    ensures
        r == indexable(found@.map_values(|e: DiscoveredEntry| e@)),
{
    let ghost items = found@.map_values(|e: DiscoveredEntry| e@);
    let mut i: usize = 0;
    while i < found.len()
        invariant
            i <= found.len(),
            items == found@.map_values(|e: DiscoveredEntry| e@),
            forall|j: int| 0 <= j < i ==> doc_indexable(#[trigger] items[j].doc),
        decreases found.len() - i,
    {
        assert(items[i as int].doc == found@[i as int].doc@);
        let ok = match &found[i].doc.frontmatter {
            Some(fm) => front_matter_indexable(fm),
            None => true,
        };
        if !ok {
            return false;
        }
        i = i + 1;
    }
    true
}

/// Takes in the documents read from the content directory (in the order they
/// were read): stores each under its path, files each in the forward and the
/// reverse index, then gives every stored document the forward index. Returns
/// the reverse index.
pub fn discover_content(found: &Vec<DiscoveredEntry>, content_full_data: &mut Discovered) -> (r: ReverseIndex)
    requires
        indexable(found@.map_values(|e: DiscoveredEntry| e@)),
    ensures
        r@ == reverse_index_of(Seq::empty(), found@.map_values(|e: DiscoveredEntry| e@)),
        final(content_full_data)@ == merged(
            insert_all(old(content_full_data)@, found@.map_values(|e: DiscoveredEntry| e@)),
            forward_index_of(Seq::empty(), found@.map_values(|e: DiscoveredEntry| e@)),
        ),
        r.wf(),
        keys_distinct(forward_index_of(Seq::empty(), found@.map_values(|e: DiscoveredEntry| e@))),
        old(content_full_data).wf() ==> final(content_full_data).wf(),
{
    let ghost items = found@.map_values(|e: DiscoveredEntry| e@);
    proof {
        law_reverse_index_distinct(Seq::empty(), items);
        law_forward_index_keys_distinct(Seq::empty(), items);
        if old(content_full_data).wf() {
            law_insert_all_keeps_paths_distinct(old(content_full_data)@, items);
            law_merge_keeps_paths_distinct(
                insert_all(old(content_full_data)@, items),
                forward_index_of(Seq::empty(), items),
            );
        }
    }
    let mut forward = ForwardIndex::new();
    let mut reverse = ReverseIndex::new();
    let mut i: usize = 0;
    assert(items.skip(0) =~= items);
    while i < found.len()
        invariant
            i <= found.len(),
            items == found@.map_values(|e: DiscoveredEntry| e@),
            indexable(items),
            forward_index_of(Seq::empty(), items) == forward_index_of(forward@, items.skip(i as int)),
            reverse_index_of(Seq::empty(), items) == reverse_index_of(reverse@, items.skip(i as int)),
            insert_all(old(content_full_data)@, items) == insert_all(content_full_data@, items.skip(i as int)),
        decreases found.len() - i,
    {
        assert(items.skip(i as int).drop_first() =~= items.skip(i + 1));
        assert(items.skip(i as int)[0] == found[i as int]@);
        assert(items[i as int] == found[i as int]@);
        build_forward_index(&mut forward, &found[i].doc);
        build_reverse_index(&mut reverse, &found[i].doc);
        content_full_data.insert(found[i].path.clone(), found[i].doc.duplicate());
        i = i + 1;
    }
    assert(items.skip(i as int).len() == 0);
    merge_forward_index(content_full_data, &forward);
    reverse
}

/// The front matters filed under `key` by the documents of `items`, in order:
/// each document's front matter once per occurrence of `key` among its keys.
pub open spec fn forward_tagged(items: Seq<DiscoveredItem>, key: Seq<char>) -> Seq<YamlModel>
    decreases items.len(),
{
    if items.len() == 0 {
        Seq::empty()
    } else {
        (match items[0].doc.frontmatter {
            Some(fm) => occurrences(forward_keys(fm), key, fm),
            None => Seq::empty(),
        }) + forward_tagged(items.drop_first(), key)
    }
}

/// The forward index holds under each key exactly the front matters of the
/// documents that name the key in their `forwardindex`, in document order.
pub proof fn law_forward_index_contents(bs: Seq<IndexBucket>, items: Seq<DiscoveredItem>, key: Seq<char>)
    ensures
        bucket_lookup(forward_index_of(bs, items), key) == bucket_lookup(bs, key) + forward_tagged(items, key),
    decreases items.len(),
{
    if items.len() == 0 {
        assert(bucket_lookup(bs, key) + Seq::<YamlModel>::empty() =~= bucket_lookup(bs, key));
    } else {
        let nb = forward_filed(bs, items[0].doc);
        let head = match items[0].doc.frontmatter {
            Some(fm) => occurrences(forward_keys(fm), key, fm),
            None => Seq::<YamlModel>::empty(),
        };
        match items[0].doc.frontmatter {
            Some(fm) => law_file_all_lookup(bs, forward_keys(fm), fm, key),
            None => assert(bucket_lookup(bs, key) + head =~= bucket_lookup(bs, key)),
        }
        law_forward_index_contents(nb, items.drop_first(), key);
        assert(bucket_lookup(bs, key) + head + forward_tagged(items.drop_first(), key) =~= bucket_lookup(bs, key)
            + (head + forward_tagged(items.drop_first(), key)));
    }
}

/// The front matter once per occurrence of the pair (`attr`, `key`) among the
/// attributes `attrs` of the front matter and their values.
pub open spec fn attr_tagged(attrs: Seq<YamlModel>, fm: YamlModel, attr: Seq<char>, key: Seq<char>) -> Seq<YamlModel>
    decreases attrs.len(),
{
    if attrs.len() == 0 {
        Seq::empty()
    } else {
        (if attrs[0]->Text_0 == attr {
            occurrences(attr_value_keys(fm, attr), key, fm)
        } else {
            Seq::empty()
        }) + attr_tagged(attrs.drop_first(), fm, attr, key)
    }
}

/// The front matters filed under the value `key` of `attr` by the documents of
/// `items`, in document order.
pub open spec fn reverse_tagged(items: Seq<DiscoveredItem>, attr: Seq<char>, key: Seq<char>) -> Seq<YamlModel>
    decreases items.len(),
{
    if items.len() == 0 {
        Seq::empty()
    } else {
        (match items[0].doc.frontmatter {
            Some(fm) => attr_tagged(reverse_attr_values(fm), fm, attr, key),
            None => Seq::empty(),
        }) + reverse_tagged(items.drop_first(), attr, key)
    }
}

proof fn lemma_file_values_lookup(
    rs: Seq<ReverseBucket>,
    a: Seq<char>,
    keys: Seq<Seq<char>>,
    v: YamlModel,
    attr: Seq<char>,
    key: Seq<char>,
)
    ensures
        reverse_lookup(file_values(rs, a, keys, v), attr, key) == reverse_lookup(rs, attr, key) + (if a == attr {
            occurrences(keys, key, v)
        } else {
            Seq::empty()
        }),
    decreases keys.len(),
{
    if keys.len() == 0 {
        assert(reverse_lookup(rs, attr, key) + Seq::<YamlModel>::empty() =~= reverse_lookup(rs, attr, key));
    } else {
        law_file_under_attr_lookup(rs, a, keys[0], v, attr, key);
        lemma_file_values_lookup(file_under_attr(rs, a, keys[0], v), a, keys.drop_first(), v, attr, key);
        if a == attr {
            let head = if keys[0] == key {
                seq![v]
            } else {
                Seq::<YamlModel>::empty()
            };
            assert(reverse_lookup(file_under_attr(rs, a, keys[0], v), attr, key) =~= reverse_lookup(rs, attr, key) + head);
            assert(reverse_lookup(rs, attr, key) + head + occurrences(keys.drop_first(), key, v) =~= reverse_lookup(rs, attr, key)
                + (head + occurrences(keys.drop_first(), key, v)));
        }
    }
}

proof fn lemma_file_attrs_lookup(rs: Seq<ReverseBucket>, attrs: Seq<YamlModel>, fm: YamlModel, attr: Seq<char>, key: Seq<char>)
    ensures
        reverse_lookup(file_attrs(rs, attrs, fm), attr, key) == reverse_lookup(rs, attr, key) + attr_tagged(attrs, fm, attr, key),
    decreases attrs.len(),
{
    if attrs.len() == 0 {
        assert(reverse_lookup(rs, attr, key) + Seq::<YamlModel>::empty() =~= reverse_lookup(rs, attr, key));
    } else {
        let a = attrs[0]->Text_0;
        let keys = attr_value_keys(fm, a);
        lemma_file_values_lookup(rs, a, keys, fm, attr, key);
        lemma_file_attrs_lookup(file_values(rs, a, keys, fm), attrs.drop_first(), fm, attr, key);
        let head = if a == attr {
            occurrences(attr_value_keys(fm, attr), key, fm)
        } else {
            Seq::<YamlModel>::empty()
        };
        assert(reverse_lookup(rs, attr, key) + head + attr_tagged(attrs.drop_first(), fm, attr, key) =~= reverse_lookup(rs, attr, key)
            + (head + attr_tagged(attrs.drop_first(), fm, attr, key)));
    }
}

/// The reverse index holds under each value of each attribute exactly the
/// front matters of the documents that list the attribute in their
/// `reverseindex` and have that value for it, in document order.
pub proof fn law_reverse_index_contents(rs: Seq<ReverseBucket>, items: Seq<DiscoveredItem>, attr: Seq<char>, key: Seq<char>)
    ensures
        reverse_lookup(reverse_index_of(rs, items), attr, key) == reverse_lookup(rs, attr, key) + reverse_tagged(items, attr, key),
    decreases items.len(),
{
    if items.len() == 0 {
        assert(reverse_lookup(rs, attr, key) + Seq::<YamlModel>::empty() =~= reverse_lookup(rs, attr, key));
    } else {
        let nr = reverse_filed(rs, items[0].doc);
        let head = match items[0].doc.frontmatter {
            Some(fm) => attr_tagged(reverse_attr_values(fm), fm, attr, key),
            None => Seq::<YamlModel>::empty(),
        };
        match items[0].doc.frontmatter {
            Some(fm) => lemma_file_attrs_lookup(rs, reverse_attr_values(fm), fm, attr, key),
            None => assert(reverse_lookup(rs, attr, key) + head =~= reverse_lookup(rs, attr, key)),
        }
        law_reverse_index_contents(nr, items.drop_first(), attr, key);
        assert(reverse_lookup(rs, attr, key) + head + reverse_tagged(items.drop_first(), attr, key) =~= reverse_lookup(rs, attr, key)
            + (head + reverse_tagged(items.drop_first(), attr, key)));
    }
}

/// The front matters that one document files under the value `key` of
/// `attr`: its front matter, once per time it has that value for `attr`, for
/// each time its `reverseindex` lists `attr`.
pub open spec fn doc_tagged(d: DocModel, attr: Seq<char>, key: Seq<char>) -> Seq<YamlModel> {
    match d.frontmatter {
        Some(fm) => attr_tagged(reverse_attr_values(fm), fm, attr, key),
        None => Seq::empty(),
    }
}

/// Filing one document in the reverse index only appends: what each value of
/// each attribute held stays, in its order, and the document's front matter
/// follows it where the document is tagged with that value; a document
/// without front matter (or without `reverseindex`) leaves the index as it was.
pub proof fn law_reverse_filed_appends(rs: Seq<ReverseBucket>, d: DocModel, attr: Seq<char>, key: Seq<char>)
    ensures
        reverse_lookup(reverse_filed(rs, d), attr, key) == reverse_lookup(rs, attr, key) + doc_tagged(d, attr, key),
{
    match d.frontmatter {
        Some(fm) => lemma_file_attrs_lookup(rs, reverse_attr_values(fm), fm, attr, key),
        None => assert(reverse_lookup(rs, attr, key) + Seq::<YamlModel>::empty() =~= reverse_lookup(rs, attr, key)),
    }
}

/// The document stored under `path`.
pub open spec fn doc_at(ds: Seq<DiscoveredItem>, path: Seq<char>) -> Option<DocModel> {
    match path_index(ds, path) {
        Some(i) => Some(ds[i as int].doc),
        None => None,
    }
}

/// Storing documents in turn keeps the paths distinct.
pub proof fn law_insert_all_keeps_paths_distinct(ds: Seq<DiscoveredItem>, items: Seq<DiscoveredItem>)
    requires
        paths_distinct(ds),
    ensures
        paths_distinct(insert_all(ds, items)),
    decreases items.len(),
{
    if items.len() > 0 {
        law_insert_keeps_paths_distinct(ds, items[0].path, items[0].doc);
        law_insert_all_keeps_paths_distinct(insert_doc(ds, items[0].path, items[0].doc), items.drop_first());
    }
}

/// Handing every document the forward index keeps the paths distinct.
pub proof fn law_merge_keeps_paths_distinct(ds: Seq<DiscoveredItem>, fi: Seq<IndexBucket>)
    requires
        paths_distinct(ds),
    ensures
        paths_distinct(merged(ds, fi)),
{
    let m = merged(ds, fi);
    assert forall|i: int, j: int| 0 <= i < j < m.len() implies (#[trigger] m[i]).path != (#[trigger] m[j]).path by {
        assert(m[i].path == ds[i].path && m[j].path == ds[j].path);
    }
}

/// Filing documents in turn keeps the keys of the forward index distinct.
pub proof fn law_forward_index_keys_distinct(bs: Seq<IndexBucket>, items: Seq<DiscoveredItem>)
    requires
        keys_distinct(bs),
    ensures
        keys_distinct(forward_index_of(bs, items)),
    decreases items.len(),
{
    if items.len() > 0 {
        let nb = forward_filed(bs, items[0].doc);
        if let Some(fm) = items[0].doc.frontmatter {
            law_file_all_keeps_keys_distinct(bs, forward_keys(fm), fm);
        }
        law_forward_index_keys_distinct(nb, items.drop_first());
    }
}

proof fn lemma_file_values_distinct(rs: Seq<ReverseBucket>, attr: Seq<char>, keys: Seq<Seq<char>>, v: YamlModel)
    requires
        reverse_distinct(rs),
    ensures
        reverse_distinct(file_values(rs, attr, keys, v)),
    decreases keys.len(),
{
    if keys.len() > 0 {
        law_file_under_attr_keeps_distinct(rs, attr, keys[0], v);
        lemma_file_values_distinct(file_under_attr(rs, attr, keys[0], v), attr, keys.drop_first(), v);
    }
}

proof fn lemma_file_attrs_distinct(rs: Seq<ReverseBucket>, attrs: Seq<YamlModel>, fm: YamlModel)
    requires
        reverse_distinct(rs),
    ensures
        reverse_distinct(file_attrs(rs, attrs, fm)),
    decreases attrs.len(),
{
    if attrs.len() > 0 {
        let a = attrs[0]->Text_0;
        lemma_file_values_distinct(rs, a, attr_value_keys(fm, a), fm);
        lemma_file_attrs_distinct(file_values(rs, a, attr_value_keys(fm, a), fm), attrs.drop_first(), fm);
    }
}

/// Filing documents in turn keeps the reverse index free of duplicate
/// attributes and values.
pub proof fn law_reverse_index_distinct(rs: Seq<ReverseBucket>, items: Seq<DiscoveredItem>)
    requires
        reverse_distinct(rs),
    ensures
        reverse_distinct(reverse_index_of(rs, items)),
    decreases items.len(),
{
    if items.len() > 0 {
        if let Some(fm) = items[0].doc.frontmatter {
            lemma_file_attrs_distinct(rs, reverse_attr_values(fm), fm);
        }
        law_reverse_index_distinct(reverse_filed(rs, items[0].doc), items.drop_first());
    }
}

/// Storing a document under a path: reading that path gives the document,
/// every other path gives what it gave before.
pub proof fn law_insert_doc_read_back(ds: Seq<DiscoveredItem>, path: Seq<char>, doc: DocModel, other: Seq<char>)
    ensures
        doc_at(insert_doc(ds, path, doc), other) == if other == path {
            Some(doc)
        } else {
            doc_at(ds, other)
        },
{
    let nd = insert_doc(ds, path, doc);
    lemma_path_index(ds, path);
    lemma_path_index(ds, other);
    match path_index(ds, path) {
        Some(i) => {
            assert forall|j: int| 0 <= j < nd.len() implies nd[j].path == ds[j].path by {}
            if other == path {
                lemma_path_index_at(nd, other, i as int);
            } else if let Some(k) = path_index(ds, other) {
                lemma_path_index_at(nd, other, k as int);
            } else {
                lemma_path_index(nd, other);
            }
        },
        None => {
            assert forall|j: int| 0 <= j < ds.len() implies nd[j] == ds[j] by {}
            if other == path {
                lemma_path_index_at(nd, other, ds.len() as int);
            } else if let Some(k) = path_index(ds, other) {
                lemma_path_index_at(nd, other, k as int);
            } else {
                lemma_path_index(nd, other);
                assert(nd[ds.len() as int].path != other);
            }
        },
    }
}

/// Merging the forward index changes no document but its forward index, and
/// gives every document the same one.
pub proof fn law_merge_shares_forward_index(ds: Seq<DiscoveredItem>, fi: Seq<IndexBucket>, i: int)
    requires
        0 <= i < ds.len(),
    ensures
        merged(ds, fi).len() == ds.len(),
        merged(ds, fi)[i].path == ds[i].path,
        merged(ds, fi)[i].doc.forwardindex == Some(fi),
        merged(ds, fi)[i].doc.frontmatter == ds[i].doc.frontmatter,
        merged(ds, fi)[i].doc.frontmatter_raw == ds[i].doc.frontmatter_raw,
        merged(ds, fi)[i].doc.content == ds[i].doc.content,
        merged(ds, fi)[i].doc.name == ds[i].doc.name,
{
}

} // verus!

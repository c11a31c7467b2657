//! A YAML value as the site pipeline reads it, and its mathematical model.
use vstd::prelude::*;
use serde_yaml::Value;

verus! {

broadcast use vstd::std_specs::vec::group_vec_axioms;

/// serde_yaml's value type, carried through the conversion below.
#[verifier::external_type_specification]
#[verifier::external_body]
pub struct ExSerdeYamlValue(Value);

/// Converts a value that serde_yaml read into the library's value, variant by
/// variant: tags are dropped (the tagged value is kept), numbers are kept as
/// the text serde_yaml prints for them. Nothing is stated of it here; the
/// readers that use it state what they return.
#[verifier::external_body]
pub(crate) fn from_serde_value(v: &Value) -> YamlValue {
    match v {
        Value::Null => YamlValue::Null,
        Value::Bool(b) => YamlValue::Bool(*b),
        Value::Number(n) => YamlValue::Number(n.to_string()),
        Value::String(t) => YamlValue::String(t.clone()),
        Value::Sequence(xs) => YamlValue::Sequence(xs.iter().map(from_serde_value).collect()),
        Value::Mapping(m) => YamlValue::Mapping(
            m.iter().map(|(k, x)| YamlEntry { key: from_serde_value(k), value: from_serde_value(x) }).collect(),
        ),
        Value::Tagged(t) => from_serde_value(&t.value),
    }
}

/// The model of a YAML value: what the pipeline can observe of it.
pub enum YamlModel {
    Null,
    Bool(bool),
    Number(Seq<char>),
    Text(Seq<char>),
    List(Seq<YamlModel>),
    Table(Seq<YamlPair>),
}

/// The model of one entry of a mapping.
pub struct YamlPair {
    pub key: YamlModel,
    pub value: YamlModel,
}

/// A YAML value: scalars, sequences and mappings (tags are not kept).
/// A mapping keeps its entries in insertion order.
#[derive(Debug, PartialEq)]
pub enum YamlValue {
    Null,
    Bool(bool),
    /// A number, kept as the text it was written with.
    Number(String),
    String(String),
    Sequence(Vec<YamlValue>),
    Mapping(Vec<YamlEntry>),
}

/// One entry of a mapping.
#[derive(Debug, PartialEq)]
pub struct YamlEntry {
    pub key: YamlValue,
    pub value: YamlValue,
}

impl View for YamlValue {
    type V = YamlModel;

    open spec fn view(&self) -> YamlModel
        decreases self,
    {
        match self {
            YamlValue::Null => YamlModel::Null,
            YamlValue::Bool(b) => YamlModel::Bool(*b),
            YamlValue::Number(n) => YamlModel::Number(n@),
            YamlValue::String(s) => YamlModel::Text(s@),
            YamlValue::Sequence(v) => YamlModel::List(
                Seq::new(
                    v.len() as nat,
                    |i: int|
                        if 0 <= i < v.len() {
                            v[i].view()
                        } else {
                            YamlModel::Null
                        },
                ),
            ),
            YamlValue::Mapping(v) => YamlModel::Table(
                Seq::new(
                    v.len() as nat,
                    |i: int|
                        if 0 <= i < v.len() {
                            YamlPair { key: v[i].key.view(), value: v[i].value.view() }
                        } else {
                            YamlPair { key: YamlModel::Null, value: YamlModel::Null }
                        },
                ),
            ),
        }
    }
}

/// The models of a sequence of values, element by element.
pub open spec fn values_view(v: Seq<YamlValue>) -> Seq<YamlModel> {
    Seq::new(v.len(), |i: int| v[i]@)
}

/// The models of a sequence of entries, element by element.
pub open spec fn entries_view(v: Seq<YamlEntry>) -> Seq<YamlPair> {
    Seq::new(v.len(), |i: int| YamlPair { key: v[i].key@, value: v[i].value@ })
}

/// `i` is the first entry of `es` whose key is the string `key`.
pub open spec fn first_key_at(es: Seq<YamlPair>, key: Seq<char>, i: int) -> bool {
    &&& 0 <= i < es.len()
    &&& es[i].key == YamlModel::Text(key)
    &&& forall|j: int| 0 <= j < i ==> es[j].key != YamlModel::Text(key)
}

impl YamlModel {
    /// The string held by a string value.
    pub open spec fn as_text(self) -> Option<Seq<char>> {
        match self {
            YamlModel::Text(s) => Some(s),
            _ => None,
        }
    }

    /// The elements of a sequence value.
    pub open spec fn as_list(self) -> Option<Seq<YamlModel>> {
        match self {
            YamlModel::List(s) => Some(s),
            _ => None,
        }
    }

    /// The value that a mapping holds under the string key `key` (its first
    /// entry with that key); `None` for a missing key and for a value that is
    /// not a mapping.
    pub open spec fn lookup(self, key: Seq<char>) -> Option<YamlModel> {
        match self {
            YamlModel::Table(es) => match key_index(es, key) {
                Some(i) => Some(es[i as int].value),
                None => None,
            },
            _ => None,
        }
    }

    /// `v[key]` in a read: the value under `key`, or null where there is none.
    pub open spec fn index(self, key: Seq<char>) -> YamlModel {
        match self.lookup(key) {
            Some(v) => v,
            None => YamlModel::Null,
        }
    }

    /// `v[key]` may be assigned: the value is a mapping or null.
    pub open spec fn accepts_key(self) -> bool {
        self is Null || self is Table
    }

    /// The value after `v[key] = value`: null becomes a mapping, an existing
    /// key keeps its place, a new key is appended.
    pub open spec fn with_key(self, key: Seq<char>, value: YamlModel) -> YamlModel {
        match self {
            YamlModel::Table(es) => match key_index(es, key) {
                Some(i) => YamlModel::Table(es.update(i as int, YamlPair { key: es[i as int].key, value })),
                None => YamlModel::Table(es.push(YamlPair { key: YamlModel::Text(key), value })),
            },
            _ => YamlModel::Table(seq![YamlPair { key: YamlModel::Text(key), value }]),
        }
    }
}

/// The position of the first entry of `es` whose key is the string `key`.
pub open spec fn key_index(es: Seq<YamlPair>, key: Seq<char>) -> Option<nat>
    decreases es.len(),
{
    if es.len() == 0 {
        None
    } else {
        match key_index(es.drop_last(), key) {
            Some(i) => Some(i),
            None => if es.last().key == YamlModel::Text(key) {
                Some((es.len() - 1) as nat)
            } else {
                None
            },
        }
    }
}

/// `key_index` finds exactly the first entry with the key.
pub proof fn lemma_key_index(es: Seq<YamlPair>, key: Seq<char>)
    ensures
        key_index(es, key) matches Some(i) ==> first_key_at(es, key, i as int),
        key_index(es, key) is None ==> forall|j: int|
            0 <= j < es.len() ==> es[j].key != YamlModel::Text(key),
    decreases es.len(),
{
    if es.len() > 0 {
        let p = es.drop_last();
        lemma_key_index(p, key);
        assert forall|j: int| 0 <= j < p.len() implies p[j] == es[j] by {}
    }
}

/// Two positions that both are the first entry with a key are the same.
pub proof fn lemma_first_key_unique(es: Seq<YamlPair>, key: Seq<char>, i: int, j: int)
    requires
        first_key_at(es, key, i),
        first_key_at(es, key, j),
    ensures
        i == j,
{
    if i < j {
        assert(es[i].key != YamlModel::Text(key));
    } else if j < i {
        assert(es[j].key != YamlModel::Text(key));
    }
}

/// Reading a key back after assigning it gives the assigned value.
pub proof fn law_get_after_set(v: YamlModel, key: Seq<char>, value: YamlModel)
    requires
        v.accepts_key(),
    ensures
        v.with_key(key, value).lookup(key) == Some(value),
{
    match v {
        YamlModel::Table(es) => {
            lemma_key_index(es, key);
            let es2 = v.with_key(key, value)->Table_0;
            lemma_key_index(es2, key);
            match key_index(es, key) {
                Some(i) => {
                    assert(first_key_at(es2, key, i as int));
                    let k = key_index(es2, key).unwrap();
                    lemma_first_key_unique(es2, key, i as int, k as int);
                },
                None => {
                    assert(first_key_at(es2, key, es.len() as int));
                    let k = key_index(es2, key).unwrap();
                    lemma_first_key_unique(es2, key, es.len() as int, k as int);
                },
            }
        },
        _ => {
            let es2 = seq![YamlPair { key: YamlModel::Text(key), value }];
            lemma_key_index(es2, key);
        },
    }
}

/// Assigning one key leaves the value under every other key as it was.
pub proof fn law_set_keeps_other_keys(v: YamlModel, key: Seq<char>, other: Seq<char>, value: YamlModel)
    requires
        v.accepts_key(),
        key != other,
    ensures
        v.with_key(key, value).lookup(other) == v.lookup(other),
{
    match v {
        YamlModel::Table(es) => {
            lemma_key_index(es, key);
            lemma_key_index(es, other);
            let es2 = v.with_key(key, value)->Table_0;
            lemma_key_index(es2, other);
            assert(YamlModel::Text(key) != YamlModel::Text(other));
            match key_index(es, other) {
                Some(i) => {
                    assert(first_key_at(es2, other, i as int));
                    let k = key_index(es2, other).unwrap();
                    lemma_first_key_unique(es2, other, i as int, k as int);
                },
                None => {},
            }
        },
        _ => {
            let es2 = seq![YamlPair { key: YamlModel::Text(key), value }];
            lemma_key_index(es2, other);
            assert(YamlModel::Text(key) != YamlModel::Text(other));
        },
    }
}

/// Equality of two strings, by their characters.
pub fn text_eq(a: &str, b: &str) -> (r: bool)
    ensures
        r == (a@ == b@),
{
    a.to_owned() == b.to_owned()
}

impl YamlValue {
    /// A copy of the value, entry by entry.
    #[verifier::loop_isolation(false)]
    pub fn duplicate(&self) -> (r: YamlValue)
        ensures
            r@ == self@,
        decreases self,
    {
        match self {
            YamlValue::Null => YamlValue::Null,
            YamlValue::Bool(b) => YamlValue::Bool(*b),
            YamlValue::Number(n) => YamlValue::Number(n.clone()),
            YamlValue::String(s) => YamlValue::String(s.clone()),
            YamlValue::Sequence(v) => {
                let mut out: Vec<YamlValue> = Vec::new();
                let mut i: usize = 0;
                while i < v.len()
                    invariant
                        i <= v.len(),
                        out.len() == i,
                        forall|j: int| 0 <= j < i ==> out[j]@ == v[j]@,
                    decreases v.len() - i,
                {
                    proof { assert(decreases_to!(*self => *v)); assert(decreases_to!(*v => v[i as int])); }
                    out.push(v[i].duplicate());
                    i = i + 1;
                }
                let r = YamlValue::Sequence(out);
                assert(r@->List_0 =~= self@->List_0);
                r
            },
            YamlValue::Mapping(v) => {
                let mut out: Vec<YamlEntry> = Vec::new();
                let mut i: usize = 0;
                while i < v.len()
                    invariant
                        i <= v.len(),
                        out.len() == i,
                        forall|j: int| 0 <= j < i ==> out[j].key@ == v[j].key@ && out[j].value@ == v[j].value@,
                    decreases v.len() - i,
                {
                    proof {
                        assert(decreases_to!(*self => *v));
                        assert(decreases_to!(*v => v[i as int]));
                        assert(decreases_to!(v[i as int] => v[i as int].key));
                    }
                    let key = v[i].key.duplicate();
                    let value = v[i].value.duplicate();
                    out.push(YamlEntry { key, value });
                    i = i + 1;
                }
                let r = YamlValue::Mapping(out);
                assert(r@->Table_0 =~= self@->Table_0);
                r
            },
        }
    }

    /// The string held by a string value.
    pub fn as_str(&self) -> (r: Option<&String>)
        ensures
            match r {
                Some(s) => self@.as_text() == Some(s@),
                None => self@.as_text() is None,
            },
    {
        match self {
            YamlValue::String(s) => Some(s),
            _ => None,
        }
    }

    /// The elements of a sequence value.
    pub fn as_sequence(&self) -> (r: Option<&Vec<YamlValue>>)
        ensures
            match r {
                Some(v) => self@.as_list() == Some(values_view(v@)),
                None => self@.as_list() is None,
            },
    {
        match self {
            YamlValue::Sequence(v) => {
                assert(self@->List_0 =~= values_view(v@));
                Some(v)
            },
            _ => None,
        }
    }

    /// The value under the string key `key` of a mapping.
    #[verifier::loop_isolation(false)]
    pub fn get(&self, key: &str) -> (r: Option<&YamlValue>)
        ensures
            match r {
                Some(v) => self@.lookup(key@) == Some(v@),
                None => self@.lookup(key@) is None,
            },
    {
        match self {
            YamlValue::Mapping(v) => {
                let ghost es = self@->Table_0;
                assert(es =~= entries_view(v@));
                proof { lemma_key_index(es, key@); }
                let mut i: usize = 0;
                while i < v.len()
                    invariant
                        i <= v.len(),
                        es == entries_view(v@),
                        forall|j: int| 0 <= j < i ==> es[j].key != YamlModel::Text(key@),
                    decreases v.len() - i,
                {
                    if let YamlValue::String(s) = &v[i].key {
                        if text_eq(s.as_str(), key) {
                            proof {
                                lemma_key_index(es, key@);
                                assert(first_key_at(es, key@, i as int));
                                lemma_first_key_unique(es, key@, i as int, key_index(es, key@).unwrap() as int);
                            }
                            return Some(&v[i].value);
                        }
                    }
                    i = i + 1;
                }
                None
            },
            _ => None,
        }
    }

    /// `self[key] = value`, on a mapping or on null (which becomes a mapping).
    #[verifier::loop_isolation(false)]
    pub fn set_key(&mut self, key: &str, value: YamlValue)
        requires
            old(self)@.accepts_key(),
        ensures
            final(self)@ == old(self)@.with_key(key@, value@),
    {
        let mut taken = YamlValue::Null;
        std::mem::swap(&mut taken, self);
        let ghost before = taken@;
        let mut entries: Vec<YamlEntry> = match taken {
            YamlValue::Mapping(v) => {
                assert(before->Table_0 =~= entries_view(v@));
                v
            },
            _ => Vec::new(),
        };
        let ghost es = entries_view(entries@);
        proof { lemma_key_index(es, key@); }
        let mut i: usize = 0;
        let mut found = false;
        while i < entries.len() && !found
            invariant
                i <= entries.len(),
                es == entries_view(entries@),
                found ==> i < entries.len() && first_key_at(es, key@, i as int),
                !found ==> forall|j: int| 0 <= j < i ==> es[j].key != YamlModel::Text(key@),
            decreases entries.len() - i + (if found { 0int } else { 1int }),
        {
            let hit = match &entries[i].key {
                YamlValue::String(s) => text_eq(s.as_str(), key),
                _ => false,
            };
            if hit {
                found = true;
            } else {
                i = i + 1;
            }
        }
        if found {
            proof {
                lemma_first_key_unique(es, key@, i as int, key_index(es, key@).unwrap() as int);
            }
            let k = entries[i].key.duplicate();
            entries.set(i, YamlEntry { key: k, value });
            assert(entries_view(entries@) =~= es.update(
                i as int,
                YamlPair { key: es[i as int].key, value: value@ },
            ));
        } else {
            proof {
                if let Some(k) = key_index(es, key@) {
                    assert(es[k as int].key == YamlModel::Text(key@));
                }
            }
            entries.push(YamlEntry { key: YamlValue::String(key.to_owned()), value });
            assert(entries_view(entries@) =~= es.push(YamlPair { key: YamlModel::Text(key@), value: value@ }));
        }
        let r = YamlValue::Mapping(entries);
        assert(r@->Table_0 =~= entries_view(entries@));
        proof {
            if before is Null {
                assert(es.len() == 0);
                assert(es.push(YamlPair { key: YamlModel::Text(key@), value: value@ }) =~= seq![YamlPair { key: YamlModel::Text(key@), value: value@ }]);
            } else {
                assert(before->Table_0 == es);
            }
        }
        assert(r@ == before.with_key(key@, value@));
        *self = r;
    }
}

} // verus!

//! Looking values up in the settings file.
use vstd::prelude::*;
use crate::yaml::{from_serde_value, text_eq, YamlModel, YamlValue};
use serde_yaml::Value;
use std::collections::HashMap;

verus! {

broadcast use vstd::std_specs::vec::group_vec_axioms;

/// The top level of the settings file: string keys and their values.
#[derive(Debug)]
pub struct Settings {
    pub entries: Vec<(String, YamlValue)>,
}

impl Settings {
    /// The settings are well formed: no key occurs twice, as in the settings
    /// file's top-level mapping.
    pub open spec fn wf(&self) -> bool {
        forall|i: int, j: int|
            0 <= i < j < self.entries@.len() ==> (#[trigger] self.entries@[i]).0@ != (#[trigger] self.entries@[j]).0@
    }
}

/// The position of the first entry with key `key`.
pub open spec fn settings_key_index(es: Seq<(String, YamlValue)>, key: Seq<char>) -> Option<nat>
    decreases es.len(),
{
    if es.len() == 0 {
        None
    } else {
        match settings_key_index(es.drop_last(), key) {
            Some(i) => Some(i),
            None => if es.last().0@ == key {
                Some((es.len() - 1) as nat)
            } else {
                None
            },
        }
    }
}

/// The value of the top-level setting `key`.
pub open spec fn settings_lookup(es: Seq<(String, YamlValue)>, key: Seq<char>) -> Option<YamlModel> {
    match settings_key_index(es, key) {
        Some(i) => Some(es[i as int].1@),
        None => None,
    }
}

proof fn lemma_settings_key_index(es: Seq<(String, YamlValue)>, key: Seq<char>)
    ensures
        settings_key_index(es, key) matches Some(i) ==> i < es.len() && es[i as int].0@ == key
            && forall|j: int| 0 <= j < i ==> es[j].0@ != key,
        settings_key_index(es, key) is None ==> forall|j: int| 0 <= j < es.len() ==> es[j].0@ != key,
    decreases es.len(),
{
    if es.len() > 0 {
        let p = es.drop_last();
        lemma_settings_key_index(p, key);
        assert forall|j: int| 0 <= j < p.len() implies p[j] == es[j] by {}
    }
}

/// The characters of each string.
pub open spec fn strings_view(v: Seq<String>) -> Seq<Seq<char>> {
    Seq::new(v.len(), |i: int| v[i]@)
}

/// The value reached from `v` by following the mapping keys `keys` in turn.
pub open spec fn descend(v: YamlModel, keys: Seq<Seq<char>>) -> Option<YamlModel>
    decreases keys.len(),
{
    if keys.len() == 0 {
        Some(v)
    } else {
        match v.lookup(keys[0]) {
            Some(n) => descend(n, keys.drop_first()),
            None => None,
        }
    }
}

/// The value at the key path `path` of the settings: the first key at the top
/// level, each further key in the mapping reached so far. `None` where a key
/// is missing or the path is empty (the caller then uses its default).
pub open spec fn inner_value(es: Seq<(String, YamlValue)>, path: Seq<Seq<char>>) -> Option<YamlModel> {
    if path.len() == 0 {
        None
    } else {
        match settings_lookup(es, path[0]) {
            Some(top) => descend(top, path.drop_first()),
            None => None,
        }
    }
}

/// The value under a top-level key of the settings.
pub fn settings_get<'a>(settings: &'a Settings, key: &str) -> (r: Option<&'a YamlValue>)
    ensures
        match r {
            Some(v) => settings_lookup(settings.entries@, key@) == Some(v@),
            None => settings_lookup(settings.entries@, key@) is None,
        },
{
    let es = &settings.entries;
    proof { lemma_settings_key_index(es@, key@); }
    let mut i: usize = 0;
    while i < es.len()
        invariant
            i <= es.len(),
            es@ == settings.entries@,
            forall|j: int| 0 <= j < i ==> es@[j].0@ != key@,
        decreases es.len() - i,
    {
        if text_eq(es[i].0.as_str(), key) {
            proof {
                lemma_settings_key_index(es@, key@);
                if let Some(k) = settings_key_index(es@, key@) {
                    if k < i {
                        assert(es@[k as int].0@ != key@);
                    } else if k > i {
                        assert(es@[i as int].0@ != key@);
                    }
                }
            }
            return Some(&es[i].1);
        }
        i = i + 1;
    }
    None
}

/// The value at the key path `deref_vec` of the settings, or `None` when the
/// path is empty or some key on it is missing (the caller then falls back to
/// its default).
pub fn get_inner_value(serde_map: &Settings, deref_vec: &Vec<String>) -> (r: Option<YamlValue>)
    ensures
        match r {
            Some(v) => inner_value(serde_map.entries@, strings_view(deref_vec@)) == Some(v@),
            None => inner_value(serde_map.entries@, strings_view(deref_vec@)) is None,
        },
{
    let ghost path = strings_view(deref_vec@);
    if deref_vec.len() == 0 {
        return None;
    }
    let top = match settings_get(serde_map, deref_vec[0].as_str()) {
        Some(v) => v,
        None => return None,
    };
    let mut cur: &YamlValue = top;
    let mut i: usize = 1;
    assert(path.drop_first() =~= path.skip(1));
    while i < deref_vec.len()
        invariant
            1 <= i <= deref_vec.len(),
            path == strings_view(deref_vec@),
            inner_value(serde_map.entries@, path) == descend(cur@, path.skip(i as int)),
        decreases deref_vec.len() - i,
    {
        assert(path.skip(i as int)[0] == deref_vec@[i as int]@);
        assert(path.skip(i as int).drop_first() =~= path.skip(i + 1));
        match cur.get(deref_vec[i].as_str()) {
            Some(n) => {
                cur = n;
            },
            None => {
                return None;
            },
        }
        i = i + 1;
    }
    assert(path.skip(i as int).len() == 0);
    Some(cur.duplicate())
}

/// Whether `v` is a mapping whose `item` is the string `value`.
pub open spec fn item_has_value(v: YamlModel, item: Seq<char>, value: Seq<char>) -> bool {
    match v.lookup(item) {
        Some(x) => x.as_text() == Some(value),
        None => false,
    }
}

/// The first element of `vec` whose field `item` is the string `value`.
pub fn search_for_item_in_vec_and_return_value(vec: &Vec<YamlValue>, item: &str, value: &str) -> (r:
    Option<YamlValue>)
    ensures
        match r {
            Some(x) => exists|i: int|
                0 <= i < vec.len() && item_has_value(vec[i]@, item@, value@) && x@ == vec[i]@
                    && forall|j: int| 0 <= j < i ==> !item_has_value(#[trigger] vec[j]@, item@, value@),
            None => forall|i: int| 0 <= i < vec.len() ==> !item_has_value(#[trigger] vec[i]@, item@, value@),
        },
{
    let mut i: usize = 0;
    while i < vec.len()
        invariant
            i <= vec.len(),
            forall|j: int| 0 <= j < i ==> !item_has_value(#[trigger] vec[j]@, item@, value@),
        decreases vec.len() - i,
    {
        match vec[i].get(item) {
            Some(v) => {
                match v.as_str() {
                    Some(s) => {
                        if text_eq(s.as_str(), value) {
                            return Some(vec[i].duplicate());
                        }
                    },
                    None => {},
                }
            },
            None => {},
        }
        i = i + 1;
    }
    None
}

/// The value under `key` of a mapping value, copied.
pub fn get_value_from_value(value: &YamlValue, key: &str) -> (r: Option<YamlValue>)
    ensures
        match r {
            Some(v) => value@.lookup(key@) == Some(v@),
            None => value@.lookup(key@) is None,
        },
{
    match value.get(key) {
        Some(v) => Some(v.duplicate()),
        None => None,
    }
}

proof fn lemma_descend_push(v: YamlModel, keys: Seq<Seq<char>>, key: Seq<char>)
    ensures
        descend(v, keys.push(key)) == match descend(v, keys) {
            Some(n) => n.lookup(key),
            None => None,
        },
    decreases keys.len(),
{
    if keys.len() == 0 {
        assert(keys.push(key).drop_first() =~= Seq::<Seq<char>>::empty());
        assert(keys.push(key)[0] == key);
        match v.lookup(key) {
            Some(n) => assert(descend(n, keys.push(key).drop_first()) == Some(n)),
            None => {},
        }
    } else {
        assert(keys.push(key).drop_first() =~= keys.drop_first().push(key));
        assert(keys.push(key)[0] == keys[0]);
        match v.lookup(keys[0]) {
            Some(n) => lemma_descend_push(n, keys.drop_first(), key),
            None => {},
        }
    }
}

/// Looking up a longer key path goes one mapping deeper than the path without
/// its last key: a path is followed key by key.
pub proof fn law_inner_value_extend(es: Seq<(String, YamlValue)>, path: Seq<Seq<char>>, key: Seq<char>)
    requires
        path.len() > 0,
    ensures
        inner_value(es, path.push(key)) == match inner_value(es, path) {
            Some(v) => v.lookup(key),
            None => None,
        },
{
    assert(path.push(key)[0] == path[0]);
    assert(path.push(key).drop_first() =~= path.drop_first().push(key));
    match settings_lookup(es, path[0]) {
        Some(top) => lemma_descend_push(top, path.drop_first(), key),
        None => {},
    }
}

/// A path of one key gives the top-level value of that key.
pub proof fn law_inner_value_single(es: Seq<(String, YamlValue)>, key: Seq<char>)
    ensures
        inner_value(es, seq![key]) == settings_lookup(es, key),
{
    assert(seq![key].drop_first() =~= Seq::<Seq<char>>::empty());
}

/// What serde_yaml reads from a settings text as a map from string keys to
/// values (`serde_yaml::from_str::<HashMap<String, serde_yaml::Value>>`), as
/// the library's models of the values; `None` where it does not read.
pub uninterp spec fn serde_yaml_settings(text: Seq<char>) -> Option<Map<Seq<char>, YamlModel>>;

/// The value of `key` in a map of settings.
pub open spec fn map_value(m: Map<Seq<char>, YamlModel>, key: Seq<char>) -> Option<YamlModel> {
    if m.dom().contains(key) {
        Some(m[key])
    } else {
        None
    }
}

/// The entries hold exactly the map, each key once.
pub open spec fn entries_hold(es: Seq<(String, YamlValue)>, m: Map<Seq<char>, YamlModel>) -> bool {
    &&& forall|i: int, j: int| 0 <= i < j < es.len() ==> (#[trigger] es[i]).0@ != (#[trigger] es[j]).0@
    &&& forall|i: int| 0 <= i < es.len() ==> map_value(m, (#[trigger] es[i]).0@) == Some(es[i].1@)
    &&& forall|k: Seq<char>| #[trigger] m.dom().contains(k) ==> exists|i: int| 0 <= i < es.len() && (#[trigger] es[i]).0@ == k
}

/// Reads a settings text with `serde_yaml::from_str::<HashMap<String,
/// serde_yaml::Value>>` and lists its entries (in the map's order, which is
/// not stated). Claimed: `None` exactly where `serde_yaml_settings` is
/// `None`, else the entries hold exactly that map, each key once.
#[verifier::external_body]
fn read_settings(text: &str) -> (r: Option<Vec<(String, YamlValue)>>)
    ensures
        match r {
            None => serde_yaml_settings(text@) is None,
            Some(es) => serde_yaml_settings(text@) matches Some(m) && entries_hold(es@, m),
        },
{
    serde_yaml::from_str::<HashMap<String, Value>>(text).ok().map(
        |m| m.iter().map(|(k, v)| (k.clone(), from_serde_value(v))).collect(),
    )
}

/// The settings that a settings text gives: each top-level key with its
/// value; no settings at all where the text does not read (the defaults then
/// apply).
pub fn settings_from_text(text: &str) -> (r: Settings)
    ensures
        r.wf(),
        forall|k: Seq<char>| #[trigger] settings_lookup(r.entries@, k) == match serde_yaml_settings(text@) {
            Some(m) => map_value(m, k),
            None => None,
        },
{
    match read_settings(text) {
        None => {
            let r = Settings { entries: Vec::new() };
            assert forall|k: Seq<char>| #[trigger] settings_lookup(r.entries@, k) == None::<YamlModel> by {
                lemma_settings_key_index(r.entries@, k);
            }
            r
        },
        Some(es) => {
            let r = Settings { entries: es };
            let ghost m = serde_yaml_settings(text@).unwrap();
            assert forall|k: Seq<char>| #[trigger] settings_lookup(r.entries@, k) == map_value(m, k) by {
                lemma_settings_key_index(r.entries@, k);
                if m.dom().contains(k) {
                    let i = choose|i: int| 0 <= i < r.entries@.len() && (#[trigger] r.entries@[i]).0@ == k;
                    assert(map_value(m, r.entries@[i].0@) == Some(r.entries@[i].1@));
                } else if let Some(i) = settings_key_index(r.entries@, k) {
                    assert(map_value(m, r.entries@[i as int].0@) == Some(r.entries@[i as int].1@));
                }
            }
            r
        },
    }
}

} // verus!

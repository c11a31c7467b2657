//! Collecting the site's documents into RSS feeds.
use vstd::prelude::*;
use rss_gen::{generate_rss, RssData, RssItem, RssVersion};
use crate::load_memory::{Discovered, DiscoveredItem};
use crate::parse_markdown::DocModel;
use crate::rss_utils::{
    chrono_naive_date, chrono_utc_format, convert_to_rfc822, feed_time_format, midnight_time, rfc822_day, rfc822_outcome, utc_now_formatted, RssDateError,
};
use crate::text::concat;
use crate::yaml::{text_eq, YamlModel, YamlValue};

verus! {

broadcast use vstd::std_specs::vec::group_vec_axioms;

/// One entry of a feed.
#[derive(Debug)]
pub struct InternalRssItem {
    pub title: String,
    pub link: String,
    pub description: String,
    pub pub_date: String,
    pub build_date: String,
    pub author: String,
}

impl InternalRssItem {
    /// An entry with the given fields.
    pub fn new(
        title: String,
        link: String,
        description: String,
        pub_date: String,
        build_date: String,
        author: String,
    ) -> (r: Self)
        ensures
            r.title@ == title@,
            r.link@ == link@,
            r.description@ == description@,
            r.pub_date@ == pub_date@,
            r.build_date@ == build_date@,
            r.author@ == author@,
    {
        InternalRssItem { title, link, description, pub_date, build_date, author }
    }
}

/// The RSS options of the settings file.
#[derive(Debug)]
pub struct RssOptions {
    pub enable: bool,
    pub title: Option<String>,
    pub description: Option<String>,
    pub website_link: Option<String>,
    pub website_author: Option<String>,
    pub date_format: Option<String>,
    pub rss_groups: Vec<RssGroup>,
}

/// One feed of the settings file. All fields are required.
#[derive(Debug)]
pub struct RssGroup {
    pub name: String,
    pub group_id: String,
    pub link: String,
    pub content_url: String,
    pub description: String,
}

/// The date format used where the settings give none.
pub open spec fn default_date_format() -> Seq<char> {
    "%d-%m-%Y"@
}

impl RssOptions {
    /// Feeds off, no groups, dates written as `%d-%m-%Y`.
    pub fn default() -> (r: RssOptions)
        ensures
            !r.enable,
            r.title is None,
            r.description is None,
            r.website_link is None,
            r.website_author is None,
            r.date_format matches Some(f) && f@ == default_date_format(),
            r.rss_groups@.len() == 0,
    {
        RssOptions {
            enable: false,
            title: None,
            description: None,
            website_link: None,
            website_author: None,
            date_format: Some("%d-%m-%Y".to_owned()),
            rss_groups: Vec::new(),
        }
    }
}

/// The model of a feed entry before its dates are converted: the feed it goes
/// to, its fields, and the dates (in the date format) that its publication
/// and build dates are converted from.
pub struct RssEntryModel {
    pub group: Seq<char>,
    pub title: Seq<char>,
    pub link: Seq<char>,
    pub description: Seq<char>,
    pub pub_date: Seq<char>,
    pub build_date: Seq<char>,
    pub author: Seq<char>,
}

/// The string held by `v`, or `default`.
pub open spec fn text_or(v: YamlModel, default: Seq<char>) -> Seq<char> {
    match v {
        YamlModel::Text(s) => s,
        _ => default,
    }
}

/// The entry of a document listed under one group of its `rss_group` (a list,
/// or a single group). `now` is the current date in the date format.
pub open spec fn list_entry(fm: YamlModel, group: YamlModel, now: Seq<char>) -> RssEntryModel {
    RssEntryModel {
        group: text_or(group, ""@),
        title: text_or(fm.index("title"@), "A generic default title for posts"@),
        link: text_or(fm.index("link"@), ""@),
        description: text_or(fm.index("description"@), "A generic default description for posts"@),
        pub_date: text_or(fm.index("date"@), now),
        build_date: now,
        author: text_or(fm.index("author"@), "Jhon Doe"@),
    }
}

/// The feed entries of a document: one per group of its `rss_group`, a list
/// of groups or a single group.
pub open spec fn doc_entries(d: DocModel, now: Seq<char>) -> Seq<RssEntryModel> {
    match d.frontmatter {
        None => Seq::empty(),
        Some(fm) => match fm.index("rss_group"@) {
            YamlModel::List(gs) => Seq::new(gs.len(), |i: int| list_entry(fm, gs[i], now)),
            YamlModel::Text(g) => seq![list_entry(fm, YamlModel::Text(g), now)],
            _ => Seq::empty(),
        },
    }
}

/// The feed entries of the documents, in document order.
pub open spec fn rss_entries(items: Seq<DiscoveredItem>, now: Seq<char>) -> Seq<RssEntryModel>
    decreases items.len(),
{
    if items.len() == 0 {
        Seq::empty()
    } else {
        rss_entries(items.drop_last(), now) + doc_entries(items.last().doc, now)
    }
}

/// The model of a feed's entries before conversion.
pub struct RssGroupModel {
    pub group: Seq<char>,
    pub entries: Seq<RssEntryModel>,
}

/// The position of the feed of `group`.
pub open spec fn group_index(gs: Seq<RssGroupModel>, group: Seq<char>) -> Option<nat>
    decreases gs.len(),
{
    if gs.len() == 0 {
        None
    } else {
        match group_index(gs.drop_last(), group) {
            Some(i) => Some(i),
            None => if gs.last().group == group {
                Some((gs.len() - 1) as nat)
            } else {
                None
            },
        }
    }
}

/// The feeds after adding an entry to its group's feed (a new feed at the end
/// for a group not seen before).
pub open spec fn add_entry(gs: Seq<RssGroupModel>, e: RssEntryModel) -> Seq<RssGroupModel> {
    match group_index(gs, e.group) {
        Some(i) => gs.update(i as int, RssGroupModel { group: gs[i as int].group, entries: gs[i as int].entries.push(e) }),
        None => gs.push(RssGroupModel { group: e.group, entries: seq![e] }),
    }
}

/// The entries grouped into feeds, in order of first appearance.
pub open spec fn group_entries(es: Seq<RssEntryModel>) -> Seq<RssGroupModel>
    decreases es.len(),
{
    if es.len() == 0 {
        Seq::empty()
    } else {
        add_entry(group_entries(es.drop_last()), es.last())
    }
}

/// A produced date matches the date `src` it is converted from: `src` reads
/// under the date format, and the produced text is local midnight of that day.
pub open spec fn date_matches(s: Seq<char>, src: Seq<char>, format: Seq<char>) -> bool {
    match chrono_naive_date(src, format) {
        Some(d) => (rfc822_day(d) + midnight_time()).is_prefix_of(s),
        None => false,
    }
}

/// A produced entry matches its model.
pub open spec fn item_matches(it: InternalRssItem, e: RssEntryModel, format: Seq<char>) -> bool {
    &&& it.title@ == e.title
    &&& it.link@ == e.link
    &&& it.description@ == e.description
    &&& it.author@ == e.author
    &&& date_matches(it.pub_date@, e.pub_date, format)
    &&& date_matches(it.build_date@, e.build_date, format)
}

/// The entries of one feed.
#[derive(Debug)]
pub struct RssFeedItems {
    pub group: String,
    pub items: Vec<InternalRssItem>,
}

/// The feeds: one per group, in order of first appearance.
#[derive(Debug)]
pub struct RssMap {
    pub groups: Vec<RssFeedItems>,
}

/// The produced feeds match their models.
pub open spec fn feeds_match(feeds: Seq<RssFeedItems>, gs: Seq<RssGroupModel>, format: Seq<char>) -> bool {
    &&& feeds.len() == gs.len()
    &&& forall|i: int| 0 <= i < feeds.len() ==> {
        &&& (#[trigger] feeds[i]).group@ == gs[i].group
        &&& feeds[i].items.len() == gs[i].entries.len()
        &&& forall|j: int| 0 <= j < feeds[i].items.len() ==> item_matches(#[trigger] feeds[i].items@[j], gs[i].entries[j], format)
    }
}

proof fn lemma_group_index(gs: Seq<RssGroupModel>, group: Seq<char>)
    ensures
        group_index(gs, group) matches Some(i) ==> i < gs.len() && gs[i as int].group == group
            && forall|j: int| 0 <= j < i ==> gs[j].group != group,
        group_index(gs, group) is None ==> forall|j: int| 0 <= j < gs.len() ==> gs[j].group != group,
    decreases gs.len(),
{
    if gs.len() > 0 {
        let p = gs.drop_last();
        lemma_group_index(p, group);
        assert forall|j: int| 0 <= j < p.len() implies p[j] == gs[j] by {}
    }
}

proof fn lemma_group_index_at(gs: Seq<RssGroupModel>, group: Seq<char>, i: int)
    requires
        0 <= i < gs.len(),
        gs[i].group == group,
        forall|j: int| 0 <= j < i ==> gs[j].group != group,
    ensures
        group_index(gs, group) == Some(i as nat),
{
    lemma_group_index(gs, group);
    if let Some(k) = group_index(gs, group) {
        if (k as int) < i {
            assert(gs[k as int].group == group);
        } else if (k as int) > i {
            assert(gs[i].group != group);
        }
    }
}

/// No two feeds are for the same group.
pub open spec fn groups_distinct(gs: Seq<RssGroupModel>) -> bool {
    forall|i: int, j: int| 0 <= i < j < gs.len() ==> (#[trigger] gs[i]).group != (#[trigger] gs[j]).group
}

/// Grouping entries into feeds gives at most one feed per group.
pub proof fn law_group_entries_distinct(es: Seq<RssEntryModel>)
    ensures
        groups_distinct(group_entries(es)),
    decreases es.len(),
{
    if es.len() > 0 {
        law_group_entries_distinct(es.drop_last());
        let gs = group_entries(es.drop_last());
        let e = es.last();
        lemma_group_index(gs, e.group);
        let ng = add_entry(gs, e);
        assert forall|i: int, j: int| 0 <= i < j < ng.len() implies (#[trigger] ng[i]).group != (#[trigger] ng[j]).group by {
            if j < gs.len() {
                assert(ng[i].group == gs[i].group && ng[j].group == gs[j].group);
            }
        }
    }
}

impl RssMap {
    /// The feeds are well formed: no two are for the same group.
    pub open spec fn wf(&self) -> bool {
        forall|i: int, j: int|
            0 <= i < j < self.groups@.len() ==> (#[trigger] self.groups@[i]).group@ != (#[trigger] self.groups@[j]).group@
    }

    /// Adds an entry to the feed of `group`.
    fn add(&mut self, group: String, item: InternalRssItem, Ghost(gs): Ghost<Seq<RssGroupModel>>, Ghost(e): Ghost<RssEntryModel>, Ghost(format): Ghost<Seq<char>>)
        requires
            feeds_match(old(self).groups@, gs, format),
            group@ == e.group,
            item_matches(item, e, format),
        ensures
            feeds_match(final(self).groups@, add_entry(gs, e), format),
    {
        proof { lemma_group_index(gs, e.group); }
        let mut i: usize = 0;
        while i < self.groups.len()
            invariant
                i <= self.groups.len(),
                self.groups@ == old(self).groups@,
                feeds_match(self.groups@, gs, format),
                group@ == e.group,
                item_matches(item, e, format),
                forall|j: int| 0 <= j < i ==> gs[j].group != group@,
            decreases self.groups.len() - i,
        {
            if text_eq(self.groups[i].group.as_str(), group.as_str()) {
                proof { lemma_group_index_at(gs, e.group, i as int); }
                let ghost prev = self.groups@;
                let mut feed = RssFeedItems { group: String::new(), items: Vec::new() };
                std::mem::swap(&mut feed, &mut self.groups[i]);
                assert(feed == prev[i as int]);
                let ghost old_items = feed.items@;
                feed.items.push(item);
                self.groups.set(i, feed);
                let ghost ng = add_entry(gs, e);
                assert(self.groups@ =~= prev.update(i as int, feed));
                assert forall|k: int| 0 <= k < self.groups@.len() implies {
                    &&& (#[trigger] self.groups@[k]).group@ == ng[k].group
                    &&& self.groups@[k].items.len() == ng[k].entries.len()
                    &&& forall|j: int| 0 <= j < self.groups@[k].items.len() ==> item_matches(#[trigger] self.groups@[k].items@[j], ng[k].entries[j], format)
                } by {
                    if k == i {
                        assert forall|j: int| 0 <= j < self.groups@[k].items.len() implies item_matches(#[trigger] self.groups@[k].items@[j], ng[k].entries[j], format) by {
                            if j < old_items.len() {
                                assert(self.groups@[k].items@[j] == old_items[j]);
                                assert(item_matches(prev[k].items@[j], gs[k].entries[j], format));
                            }
                        }
                    } else {
                        assert(self.groups@[k] == prev[k]);
                    }
                }
                return;
            }
            i = i + 1;
        }
        proof { lemma_group_index(gs, e.group); }
        let ghost prev = self.groups@;
        let mut items: Vec<InternalRssItem> = Vec::new();
        items.push(item);
        self.groups.push(RssFeedItems { group, items });
        let ghost ng = add_entry(gs, e);
        assert forall|k: int| 0 <= k < self.groups@.len() implies {
            &&& (#[trigger] self.groups@[k]).group@ == ng[k].group
            &&& self.groups@[k].items.len() == ng[k].entries.len()
            &&& forall|j: int| 0 <= j < self.groups@[k].items.len() ==> item_matches(#[trigger] self.groups@[k].items@[j], ng[k].entries[j], format)
        } by {
            if k < prev.len() {
                assert(self.groups@[k] == prev[k]);
            }
        }
    }
}

/// The date format of the options, or the default one.
pub open spec fn date_format_of(o: RssOptions) -> Seq<char> {
    match o.date_format {
        Some(f) => f@,
        None => default_date_format(),
    }
}

/// The current date as text, where it could be had.
pub open spec fn now_text(now: Option<String>) -> Seq<char> {
    match now {
        Some(s) => s@,
        None => ""@,
    }
}

/// A date reads under the format.
pub open spec fn converts(src: Seq<char>, format: Seq<char>) -> bool {
    chrono_naive_date(src, format) is Some
}

/// Every converted date of the entries reads under the format.
pub open spec fn all_dates_read(es: Seq<RssEntryModel>, format: Seq<char>) -> bool {
    forall|i: int| 0 <= i < es.len() ==> converts((#[trigger] es[i]).pub_date, format) && converts(es[i].build_date, format)
}

/// Some entry needs the current date (every entry does, for its build date).
pub open spec fn needs_clock(es: Seq<RssEntryModel>) -> bool {
    es.len() > 0
}

/// The string held by `fm[key]`, or `default`.
fn field_text(fm: &YamlValue, key: &str, default: &str) -> (r: String)
    ensures
        r@ == text_or(fm@.index(key@), default@),
{
    match fm.get(key) {
        Some(v) => match v.as_str() {
            Some(s) => s.clone(),
            None => default.to_owned(),
        },
        None => default.to_owned(),
    }
}

proof fn lemma_rss_entries_concat(a: Seq<DiscoveredItem>, b: Seq<DiscoveredItem>, now: Seq<char>)
    ensures
        rss_entries(a + b, now) == rss_entries(a, now) + rss_entries(b, now),
    decreases b.len(),
{
    if b.len() == 0 {
        assert(a + b =~= a);
        assert(rss_entries(a, now) + Seq::<RssEntryModel>::empty() =~= rss_entries(a, now));
    } else {
        lemma_rss_entries_concat(a, b.drop_last(), now);
        assert((a + b).drop_last() =~= a + b.drop_last());
        assert(rss_entries(a, now) + rss_entries(b.drop_last(), now) + doc_entries(b.last().doc, now) =~= rss_entries(a, now)
            + (rss_entries(b.drop_last(), now) + doc_entries(b.last().doc, now)));
    }
}

/// The entry `j` of document `i` is an entry of all the documents.
proof fn lemma_entry_in_all(items: Seq<DiscoveredItem>, i: int, j: int, now: Seq<char>)
    requires
        0 <= i < items.len(),
        0 <= j < doc_entries(items[i].doc, now).len(),
    ensures
        exists|k: int| 0 <= k < rss_entries(items, now).len() && rss_entries(items, now)[k] == doc_entries(items[i].doc, now)[j],
{
    let a = items.take(i + 1);
    let b = items.skip(i + 1);
    assert(a + b =~= items);
    lemma_rss_entries_concat(a, b, now);
    assert(a.drop_last() =~= items.take(i));
    let k = rss_entries(items.take(i), now).len() + j;
    assert(rss_entries(items, now)[k] == doc_entries(items[i].doc, now)[j]);
}

/// Some entry of `des` has a date that does not read under the format.
pub open spec fn some_date_unread(des: Seq<RssEntryModel>, format: Seq<char>) -> bool {
    exists|j: int| 0 <= j < des.len() && !(converts((#[trigger] des[j]).pub_date, format) && converts(des[j].build_date, format))
}

/// The feed entry of the document with front matter `f` under `group` (an
/// element of its `rss_group` list, or its single group): the group's name
/// and the item, with both dates converted. `now` is the current date in the
/// date format, where it could be had.
fn entry_item(f: &YamlValue, group: &YamlValue, now: &Option<String>, format: &str) -> (r: Result<
    (String, InternalRssItem),
    RssDateError,
>)
    ensures
        match r {
            Ok((g, item)) => g@ == list_entry(f@, group@, now_text(*now)).group && item_matches(
                item,
                list_entry(f@, group@, now_text(*now)),
                format@,
            ),
            Err(RssDateError::Unparsable) => !(converts(list_entry(f@, group@, now_text(*now)).pub_date, format@)
                && converts(list_entry(f@, group@, now_text(*now)).build_date, format@)),
            Err(RssDateError::NoClock) => now is None,
            Err(RssDateError::NoLocalTime) => now is Some && (converts(list_entry(f@, group@, now_text(*now)).pub_date, format@)
                || converts(list_entry(f@, group@, now_text(*now)).build_date, format@)),
        },
        now is None ==> r == Err::<(String, InternalRssItem), RssDateError>(RssDateError::NoClock),
{
    let ghost e = list_entry(f@, group@, now_text(*now));
    let name = match group.as_str() {
        Some(g) => g.clone(),
        None => "".to_owned(),
    };
    let now_s = match now {
        Some(s) => s,
        None => return Err(RssDateError::NoClock),
    };
    let title = field_text(f, "title", "A generic default title for posts");
    let link = field_text(f, "link", "");
    let description = field_text(f, "description", "A generic default description for posts");
    let date_src = field_text(f, "date", now_s.as_str());
    let pub_date = match convert_to_rfc822(date_src.as_str(), format) {
        Ok(d) => d,
        Err(err) => return Err(err),
    };
    let build_date = match convert_to_rfc822(now_s.as_str(), format) {
        Ok(d) => d,
        Err(err) => return Err(err),
    };
    let author = field_text(f, "author", "Jhon Doe");
    let item = InternalRssItem::new(title, link, description, pub_date, build_date, author);
    assert(item_matches(item, e, format@));
    Ok((name, item))
}

/// Some date of the entries reads under the format.
pub open spec fn some_date_reads(es: Seq<RssEntryModel>, format: Seq<char>) -> bool {
    exists|j: int| 0 <= j < es.len() && (converts((#[trigger] es[j]).pub_date, format) || converts(es[j].build_date, format))
}

/// Adds the feed entries of one document to the feeds.
fn add_doc_entries(
    map: &mut RssMap,
    doc: &crate::parse_markdown::ContentDocument,
    now: &Option<String>,
    format: &str,
    Ghost(before): Ghost<Seq<RssEntryModel>>,
) -> (r: Result<(), RssDateError>)
    requires
        feeds_match(old(map).groups@, group_entries(before), format@),
    ensures
        match r {
            Ok(()) => feeds_match(final(map).groups@, group_entries(before + doc_entries(doc@, now_text(*now))), format@),
            Err(RssDateError::Unparsable) => some_date_unread(doc_entries(doc@, now_text(*now)), format@),
            Err(RssDateError::NoClock) => now is None && needs_clock(doc_entries(doc@, now_text(*now))),
            Err(RssDateError::NoLocalTime) => now is Some && some_date_reads(doc_entries(doc@, now_text(*now)), format@),
        },
        now is None && doc_entries(doc@, now_text(*now)).len() > 0 ==> r == Err::<(), RssDateError>(RssDateError::NoClock),
{
    let ghost nt = now_text(*now);
    let ghost des = doc_entries(doc@, nt);
    let f = match &doc.frontmatter {
        None => {
            assert(before + des =~= before);
            return Ok(());
        },
        Some(f) => f,
    };
    let rss_group = match f.get("rss_group") {
        Some(g) => g,
        None => &YamlValue::Null,
    };
    assert(rss_group@ == f@.index("rss_group"@));
    match rss_group.as_sequence() {
        Some(groups) => {
            let mut k: usize = 0;
            let ghost mut cur = before;
            assert(des.take(0) =~= Seq::<RssEntryModel>::empty());
            assert(before + des.take(0) =~= before);
            while k < groups.len()
                invariant
                    k <= groups.len(),
                    nt == now_text(*now),
                    des == doc_entries(doc@, nt),
                    des.len() == groups.len(),
                    f@ == doc@.frontmatter.unwrap(),
                    forall|j: int| 0 <= j < groups.len() ==> #[trigger] des[j] == list_entry(f@, groups[j]@, nt),
                    cur == before + des.take(k as int),
                    feeds_match(map.groups@, group_entries(cur), format@),
                    k > 0 ==> now is Some,
                decreases groups.len() - k,
            {
                let ghost e = des[k as int];
                let (group, item) = match entry_item(f, &groups[k], now, format) {
                    Ok(gi) => gi,
                    Err(err) => {
                        assert(e == list_entry(f@, groups[k as int]@, nt));
                        return Err(err);
                    },
                };
                map.add(group, item, Ghost(group_entries(cur)), Ghost(e), Ghost(format@));
                proof {
                    assert(des.take(k + 1).drop_last() =~= des.take(k as int));
                    assert((before + des.take(k + 1)).drop_last() =~= before + des.take(k as int));
                    cur = before + des.take(k + 1);
                }
                k = k + 1;
            }
            assert(des.take(k as int) =~= des);
            Ok(())
        },
        None => match rss_group.as_str() {
            Some(_) => {
                let ghost e = list_entry(f@, rss_group@, nt);
                assert(des =~= seq![e]);
                let (group, item) = match entry_item(f, rss_group, now, format) {
                    Ok(gi) => gi,
                    Err(err) => {
                        assert(des[0] == e);
                        return Err(err);
                    },
                };
                map.add(group, item, Ghost(group_entries(before)), Ghost(e), Ghost(format@));
                assert((before + des).drop_last() =~= before);
                Ok(())
            },
            None => {
                assert(des =~= Seq::<RssEntryModel>::empty());
                assert(before + des =~= before);
                Ok(())
            },
        },
    }
}

/// Tagging a document with a single group gives the same entry as tagging it
/// with a list of that one group.
pub proof fn law_single_group_as_list(fm1: YamlModel, fm2: YamlModel, g: Seq<char>, d: DocModel, now: Seq<char>)
    requires
        fm1.lookup("rss_group"@) == Some(YamlModel::Text(g)),
        fm2.lookup("rss_group"@) == Some(YamlModel::List(seq![YamlModel::Text(g)])),
        forall|k: Seq<char>| k != "rss_group"@ ==> fm1.lookup(k) == fm2.lookup(k),
    ensures
        doc_entries(DocModel { frontmatter: Some(fm1), ..d }, now) == doc_entries(
            DocModel { frontmatter: Some(fm2), ..d },
            now,
        ),
{
    reveal_strlit("rss_group");
    reveal_strlit("title");
    reveal_strlit("link");
    reveal_strlit("description");
    reveal_strlit("date");
    reveal_strlit("author");
    assert("title"@[0] != "rss_group"@[0] && "link"@[0] != "rss_group"@[0] && "description"@[0] != "rss_group"@[0]);
    assert("date"@[0] != "rss_group"@[0] && "author"@[0] != "rss_group"@[0]);
    assert(fm1.lookup("title"@) == fm2.lookup("title"@));
    assert(fm1.lookup("link"@) == fm2.lookup("link"@));
    assert(fm1.lookup("description"@) == fm2.lookup("description"@));
    assert(fm1.lookup("date"@) == fm2.lookup("date"@));
    assert(fm1.lookup("author"@) == fm2.lookup("author"@));
    let d2 = doc_entries(DocModel { frontmatter: Some(fm2), ..d }, now);
    assert(d2 =~= seq![list_entry(fm2, YamlModel::Text(g), now)]);
}

/// Tagging one document with a single group instead of a list of that one
/// group leaves the feed entries of the whole site, and so its feeds, as they
/// were: the same groups, the same entries in the same order, with the same
/// fields and the same dates to convert.
pub proof fn law_single_group_feeds(
    items1: Seq<DiscoveredItem>,
    items2: Seq<DiscoveredItem>,
    i: int,
    fm1: YamlModel,
    fm2: YamlModel,
    g: Seq<char>,
    now: Seq<char>,
)
    requires
        items1.len() == items2.len(),
        0 <= i < items1.len(),
        forall|j: int| 0 <= j < items1.len() && j != i ==> items1[j] == items2[j],
        items1[i].doc == (DocModel { frontmatter: Some(fm1), ..items2[i].doc }),
        items2[i].doc.frontmatter == Some(fm2),
        fm1.lookup("rss_group"@) == Some(YamlModel::Text(g)),
        fm2.lookup("rss_group"@) == Some(YamlModel::List(seq![YamlModel::Text(g)])),
        forall|k: Seq<char>| k != "rss_group"@ ==> fm1.lookup(k) == fm2.lookup(k),
    ensures
        rss_entries(items1, now) == rss_entries(items2, now),
        group_entries(rss_entries(items1, now)) == group_entries(rss_entries(items2, now)),
    decreases items1.len(),
{
    let n = items1.len() - 1;
    if i < n {
        law_single_group_feeds(items1.drop_last(), items2.drop_last(), i, fm1, fm2, g, now);
        assert(items1.last() == items2.last());
    } else {
        assert(items1.drop_last() =~= items2.drop_last());
        law_single_group_as_list(fm1, fm2, g, items2[i].doc, now);
        assert(items2[i].doc == (DocModel { frontmatter: Some(fm2), ..items2[i].doc }));
    }
}

/// Collects the feed entries of the documents (see `doc_entries`) into feeds,
/// one per group in order of first appearance, converting dates written in
/// the options' date format (default `%d-%m-%Y`) to RFC 822 at local
/// midnight. `now` is the current date in that format, where it could be had.
/// The entries' fields are as their models say; each produced date is local
/// midnight of the date it is converted from. Where there is no entry at all
/// nothing needs converting and the result is `Ok`.
pub fn generate_rss_map_with_clock(content_discover: &Discovered, rss_options: &RssOptions, now: &Option<String>) -> (r:
    Result<RssMap, RssDateError>)
    ensures
        rss_map_outcome(r, content_discover@, *rss_options, *now),
        rss_entries(content_discover@, now_text(*now)).len() == 0 ==> r is Ok,
        now is None && rss_entries(content_discover@, now_text(*now)).len() > 0 ==> r == Err::<RssMap, RssDateError>(
            RssDateError::NoClock,
        ),
        r matches Ok(m) ==> m.wf(),
{
    proof { law_group_entries_distinct(rss_entries(content_discover@, now_text(*now))); }
    let ghost items = content_discover@;
    let ghost nt = now_text(*now);
    let format: &str = match &rss_options.date_format {
        Some(f) => f.as_str(),
        None => "%d-%m-%Y",
    };
    let ghost fmt = date_format_of(*rss_options);
    let mut map = RssMap { groups: Vec::new() };
    let ghost mut done: Seq<RssEntryModel> = Seq::empty();
    assert(map.groups@ =~= Seq::<RssFeedItems>::empty());
    assert(items.take(0) =~= Seq::<DiscoveredItem>::empty());
    let mut i: usize = 0;
    while i < content_discover.data.len()
        invariant
            i <= content_discover.data.len(),
            items == content_discover@,
            nt == now_text(*now),
            fmt == date_format_of(*rss_options),
            format@ == fmt,
            done == rss_entries(items.take(i as int), nt),
            feeds_match(map.groups@, group_entries(done), fmt),
            now is None ==> done.len() == 0,
        decreases content_discover.data.len() - i,
    {
        let doc = &content_discover.data[i].doc;
        assert(items[i as int].doc == doc@);
        let ghost des = doc_entries(doc@, nt);
        assert(items.take(i + 1).drop_last() =~= items.take(i as int));
        assert(rss_entries(items.take(i + 1), nt) == done + des);
        match add_doc_entries(&mut map, doc, now, format, Ghost(done)) {
            Ok(()) => {},
            Err(err) => {
                proof {
                    if err == RssDateError::Unparsable {
                        let j = choose|j: int| 0 <= j < des.len() && !(converts((#[trigger] des[j]).pub_date, fmt) && converts(des[j].build_date, fmt));
                        lemma_entry_in_all(items, i as int, j, nt);
                    } else if err == RssDateError::NoLocalTime {
                        let j = choose|j: int| 0 <= j < des.len() && (converts((#[trigger] des[j]).pub_date, fmt) || converts(des[j].build_date, fmt));
                        lemma_entry_in_all(items, i as int, j, nt);
                    } else {
                        lemma_entry_in_all(items, i as int, 0, nt);
                    }
                }
                return Err(err);
            },
        }
        proof { done = done + des; }
        i = i + 1;
    }
    assert(items.take(i as int) =~= items);
    Ok(map)
}

/// What `generate_rss_map_with_clock` promises of its result, given the
/// current date `now`.
pub open spec fn rss_map_outcome(r: Result<RssMap, RssDateError>, content: Seq<DiscoveredItem>, options: RssOptions, now: Option<String>) -> bool {
    match r {
        Ok(m) => feeds_match(m.groups@, group_entries(rss_entries(content, now_text(now))), date_format_of(options)),
        Err(RssDateError::Unparsable) => !all_dates_read(rss_entries(content, now_text(now)), date_format_of(options)),
        Err(RssDateError::NoClock) => now is None && needs_clock(rss_entries(content, now_text(now))),
        Err(RssDateError::NoLocalTime) => now is Some && some_date_reads(
            rss_entries(content, now_text(now)),
            date_format_of(options),
        ),
    }
}

/// The feeds of the site (see `generate_rss_map_with_clock`), with the current
/// date read from the clock.
pub fn generate_rss_map(content_discover: &Discovered, rss_options: &RssOptions) -> (r: Result<RssMap, RssDateError>)
    ensures
        exists|now: Option<String>| rss_map_outcome(r, content_discover@, *rss_options, now)
            && (date_format_of(*rss_options) == default_date_format() ==> now is Some)
            && (rss_entries(content_discover@, now_text(now)).len() == 0 ==> r is Ok)
            && (now matches Some(s) ==> exists|secs: i64, nanos: u32|
                s@ == #[trigger] chrono_utc_format(secs, nanos, date_format_of(*rss_options))),
        r matches Ok(m) ==> m.wf(),
{
    let now = match &rss_options.date_format {
        Some(f) => utc_now_formatted(f.as_str()),
        None => utc_now_formatted("%d-%m-%Y"),
    };
    let r = generate_rss_map_with_clock(content_discover, rss_options, &now);
    assert(rss_map_outcome(r, content_discover@, *rss_options, now)
        && (date_format_of(*rss_options) == default_date_format() ==> now is Some)
        && (rss_entries(content_discover@, now_text(now)).len() == 0 ==> r is Ok)
        && (now matches Some(s) ==> exists|secs: i64, nanos: u32|
            s@ == #[trigger] chrono_utc_format(secs, nanos, date_format_of(*rss_options))));
    r
}

/// The entries of the feed of `group`; nothing for a group without a feed.
pub open spec fn group_lookup(gs: Seq<RssGroupModel>, group: Seq<char>) -> Seq<RssEntryModel> {
    match group_index(gs, group) {
        Some(i) => gs[i as int].entries,
        None => Seq::empty(),
    }
}

/// The entries of `es` that go to `group`, in order.
pub open spec fn entries_of_group(es: Seq<RssEntryModel>, group: Seq<char>) -> Seq<RssEntryModel>
    decreases es.len(),
{
    if es.len() == 0 {
        Seq::empty()
    } else {
        entries_of_group(es.drop_last(), group) + (if es.last().group == group {
            seq![es.last()]
        } else {
            Seq::empty()
        })
    }
}

proof fn lemma_add_entry_lookup(gs: Seq<RssGroupModel>, e: RssEntryModel, group: Seq<char>)
    ensures
        group_lookup(add_entry(gs, e), group) == group_lookup(gs, group) + (if e.group == group {
            seq![e]
        } else {
            Seq::empty()
        }),
{
    let ng = add_entry(gs, e);
    lemma_group_index(gs, e.group);
    lemma_group_index(gs, group);
    lemma_group_index(ng, group);
    match group_index(gs, e.group) {
        Some(i) => {
            assert forall|j: int| 0 <= j < ng.len() implies ng[j].group == gs[j].group by {}
            if group == e.group {
                lemma_group_index_at(ng, group, i as int);
            } else {
                assert(group_lookup(gs, group) + Seq::<RssEntryModel>::empty() =~= group_lookup(gs, group));
                if let Some(k) = group_index(gs, group) {
                    lemma_group_index_at(ng, group, k as int);
                }
            }
        },
        None => {
            assert forall|j: int| 0 <= j < gs.len() implies ng[j] == gs[j] by {}
            if group == e.group {
                lemma_group_index_at(ng, group, gs.len() as int);
                assert(Seq::<RssEntryModel>::empty() + seq![e] =~= seq![e]);
            } else {
                assert(group_lookup(gs, group) + Seq::<RssEntryModel>::empty() =~= group_lookup(gs, group));
                if let Some(k) = group_index(gs, group) {
                    lemma_group_index_at(ng, group, k as int);
                } else {
                    assert(ng[gs.len() as int].group != group);
                }
            }
        },
    }
}

/// Each feed holds exactly the entries tagged with its group, in document
/// order; a group no entry is tagged with has no feed.
pub proof fn law_feed_contents(es: Seq<RssEntryModel>, group: Seq<char>)
    ensures
        group_lookup(group_entries(es), group) == entries_of_group(es, group),
    decreases es.len(),
{
    if es.len() > 0 {
        law_feed_contents(es.drop_last(), group);
        lemma_add_entry_lookup(group_entries(es.drop_last()), es.last(), group);
    }
}

/// An entry as handed to the feed generator.
#[derive(Debug)]
pub struct FeedItem {
    pub title: String,
    pub link: String,
    pub description: String,
    pub pub_date: String,
}

/// The model of an entry handed to the feed generator.
pub struct FeedItemModel {
    pub title: Seq<char>,
    pub link: Seq<char>,
    pub description: Seq<char>,
    pub pub_date: Seq<char>,
}

impl View for FeedItem {
    type V = FeedItemModel;

    open spec fn view(&self) -> FeedItemModel {
        FeedItemModel { title: self.title@, link: self.link@, description: self.description@, pub_date: self.pub_date@ }
    }
}

/// The RSS 2.0 document that `rss_gen::generate_rss` writes for a channel with
/// the given title, link, description, publication date, last build date and
/// author, and the given items; `None` where rss_gen rejects the channel.
pub uninterp spec fn rss_gen_feed(
    title: Seq<char>,
    link: Seq<char>,
    description: Seq<char>,
    pub_date: Seq<char>,
    last_build_date: Seq<char>,
    author: Seq<char>,
    items: Seq<FeedItemModel>,
) -> Option<Seq<char>>;

/// Builds an `rss_gen::RssData` (RSS 2.0) from the channel fields and items
/// and calls `rss_gen::generate_rss` on it. Claimed: the result is the
/// function `rss_gen_feed` of those fields and items.
#[verifier::external_body]
fn generate_feed(
    title: &str,
    link: &str,
    description: &str,
    pub_date: &str,
    last_build_date: &str,
    author: &str,
    items: &Vec<FeedItem>,
) -> (r: Option<String>)
    ensures
        match r {
            Some(x) => rss_gen_feed(title@, link@, description@, pub_date@, last_build_date@, author@, items@.map_values(|i: FeedItem| i@)) == Some(x@),
            None => rss_gen_feed(title@, link@, description@, pub_date@, last_build_date@, author@, items@.map_values(|i: FeedItem| i@)) is None,
        },
{
    let mut data = RssData::new(Some(RssVersion::RSS2_0)).title(title).link(link).description(description);
    data = data.pub_date(pub_date).last_build_date(last_build_date).author(author);
    for it in items.iter() {
        data.add_item(RssItem::new().title(it.title.as_str()).link(it.link.as_str()).description(it.description.as_str()).pub_date(it.pub_date.as_str()));
    }
    generate_rss(&data).ok()
}

/// A feed document to write, and the link it is served at.
#[derive(Debug)]
pub struct RssRenderJob {
    pub group: String,
    pub xml: String,
    pub link: String,
}

/// The model of a feed document to write.
pub struct RssJobModel {
    pub group: Seq<char>,
    pub xml: Seq<char>,
    pub link: Seq<char>,
}

impl View for RssRenderJob {
    type V = RssJobModel;

    open spec fn view(&self) -> RssJobModel {
        RssJobModel { group: self.group@, xml: self.xml@, link: self.link@ }
    }
}

/// The position of the first configured group with the id `id`.
pub open spec fn find_group(groups: Seq<RssGroup>, id: Seq<char>) -> Option<nat>
    decreases groups.len(),
{
    if groups.len() == 0 {
        None
    } else {
        match find_group(groups.drop_last(), id) {
            Some(i) => Some(i),
            None => if groups.last().group_id@ == id {
                Some((groups.len() - 1) as nat)
            } else {
                None
            },
        }
    }
}

/// The author of the feeds: the site's author, else a placeholder.
pub open spec fn feed_author(o: RssOptions) -> Seq<char> {
    match o.website_author {
        Some(a) => a@,
        None => "Jhon Doe"@,
    }
}

/// The items of a feed as handed to the generator: links prefixed with the group's content URL.
pub open spec fn feed_items(items: Seq<InternalRssItem>, content_url: Seq<char>) -> Seq<FeedItemModel> {
    Seq::new(items.len(), |j: int| FeedItemModel {
        title: items[j].title@,
        link: content_url + items[j].link@,
        description: items[j].description@,
        pub_date: items[j].pub_date@,
    })
}

/// The feed document of one feed, if its group is configured and the generator accepts it.
pub open spec fn feed_job(f: RssFeedItems, groups: Seq<RssGroup>, author: Seq<char>, now: Seq<char>) -> Seq<RssJobModel> {
    match find_group(groups, f.group@) {
        None => Seq::empty(),
        Some(gi) => {
            let g = groups[gi as int];
            match rss_gen_feed(f.group@, g.content_url@, g.description@, now, now, author, feed_items(f.items@, g.content_url@)) {
                None => Seq::empty(),
                Some(xml) => seq![RssJobModel { group: f.group@, xml, link: g.link@ }],
            }
        },
    }
}

/// The feed documents of all feeds, in order.
pub open spec fn rss_jobs(feeds: Seq<RssFeedItems>, groups: Seq<RssGroup>, author: Seq<char>, now: Seq<char>) -> Seq<RssJobModel>
    decreases feeds.len(),
{
    if feeds.len() == 0 {
        Seq::empty()
    } else {
        rss_jobs(feeds.drop_last(), groups, author, now) + feed_job(feeds.last(), groups, author, now)
    }
}

/// Every feed document is for a group configured in the settings, and is
/// written to that group's link.
pub proof fn law_jobs_for_configured_groups(
    feeds: Seq<RssFeedItems>,
    groups: Seq<RssGroup>,
    author: Seq<char>,
    now: Seq<char>,
    k: int,
)
    requires
        0 <= k < rss_jobs(feeds, groups, author, now).len(),
    ensures
        find_group(groups, rss_jobs(feeds, groups, author, now)[k].group) matches Some(gi)
            && rss_jobs(feeds, groups, author, now)[k].link == groups[gi as int].link@,
    decreases feeds.len(),
{
    let prev = rss_jobs(feeds.drop_last(), groups, author, now);
    if k < prev.len() {
        law_jobs_for_configured_groups(feeds.drop_last(), groups, author, now, k);
    }
}

/// `its` are the items handed to the feed generator for the feed entries
/// `items` of a group with content URL `url`: one per entry, in order, with
/// the entry's title, the URL followed by the entry's link, its description
/// and its own publication date.
pub open spec fn handed_items(its: Seq<FeedItemModel>, items: Seq<InternalRssItem>, url: Seq<char>) -> bool {
    &&& its.len() == items.len()
    &&& forall|j: int|
        0 <= j < items.len() ==> {
            &&& (#[trigger] its[j]).title == items[j].title@
            &&& its[j].link == url + items[j].link@
            &&& its[j].description == items[j].description@
            &&& its[j].pub_date == items[j].pub_date@
        }
}

/// Each feed document is, for some feed of the map whose group is configured,
/// the RSS 2.0 document rss_gen writes for a channel titled with the group,
/// with the group's content URL and description, `now` as its publication and
/// build date, the options' website author (`Jhon Doe` where none is set),
/// and the feed's posts as items, each with its own publication date; it is
/// written to the group's link.
pub proof fn law_feed_job_content(feeds: Seq<RssFeedItems>, o: RssOptions, now: Seq<char>, k: int)
    requires
        0 <= k < rss_jobs(feeds, o.rss_groups@, feed_author(o), now).len(),
    ensures
        exists|i: int, gi: int, its: Seq<FeedItemModel>|
            #![trigger feeds[i], o.rss_groups@[gi], handed_items(its, feeds[i].items@, o.rss_groups@[gi].content_url@)]
            {
                let job = rss_jobs(feeds, o.rss_groups@, feed_author(o), now)[k];
                let g = o.rss_groups@[gi];
                &&& 0 <= i < feeds.len()
                &&& find_group(o.rss_groups@, feeds[i].group@) == Some(gi as nat)
                &&& job.group == feeds[i].group@
                &&& job.link == g.link@
                &&& handed_items(its, feeds[i].items@, g.content_url@)
                &&& rss_gen_feed(
                    feeds[i].group@,
                    g.content_url@,
                    g.description@,
                    now,
                    now,
                    match o.website_author {
                        Some(a) => a@,
                        None => "Jhon Doe"@,
                    },
                    its,
                ) == Some(job.xml)
            },
    decreases feeds.len(),
{
    let groups = o.rss_groups@;
    let author = feed_author(o);
    let prev = rss_jobs(feeds.drop_last(), groups, author, now);
    let all = rss_jobs(feeds, groups, author, now);
    if k < prev.len() {
        law_feed_job_content(feeds.drop_last(), o, now, k);
        let (i, gi, its) = choose|i: int, gi: int, its: Seq<FeedItemModel>|
            #![trigger feeds.drop_last()[i], o.rss_groups@[gi], handed_items(its, feeds.drop_last()[i].items@, o.rss_groups@[gi].content_url@)]
            {
                let job = rss_jobs(feeds.drop_last(), o.rss_groups@, feed_author(o), now)[k];
                let g = o.rss_groups@[gi];
                &&& 0 <= i < feeds.drop_last().len()
                &&& find_group(o.rss_groups@, feeds.drop_last()[i].group@) == Some(gi as nat)
                &&& job.group == feeds.drop_last()[i].group@
                &&& job.link == g.link@
                &&& handed_items(its, feeds.drop_last()[i].items@, g.content_url@)
                &&& rss_gen_feed(
                    feeds.drop_last()[i].group@,
                    g.content_url@,
                    g.description@,
                    now,
                    now,
                    match o.website_author {
                        Some(a) => a@,
                        None => "Jhon Doe"@,
                    },
                    its,
                ) == Some(job.xml)
            };
        assert(feeds.drop_last()[i] == feeds[i]);
        assert(all[k] == prev[k]);
        assert(handed_items(its, feeds[i].items@, o.rss_groups@[gi].content_url@));
    } else {
        let i = feeds.len() - 1;
        let f = feeds[i];
        let gi = find_group(groups, f.group@).unwrap() as int;
        let g = groups[gi];
        let its = feed_items(f.items@, g.content_url@);
        assert(all[k] == feed_job(f, groups, author, now)[0]);
        assert(handed_items(its, feeds[i].items@, o.rss_groups@[gi].content_url@));
    }
}

/// The dates of the feeds are read in the options' date format, `%d-%m-%Y`
/// only where none is set: each produced publication and build date is local
/// midnight of its entry's date as read in that format, and `Unparsable` is
/// reported only where some entry's date does not read in that format.
pub proof fn law_rss_dates_in_configured_format(
    r: Result<RssMap, RssDateError>,
    content: Seq<DiscoveredItem>,
    o: RssOptions,
    now: Option<String>,
)
    requires
        rss_map_outcome(r, content, o, now),
    ensures
        ({
            let fmt = match o.date_format {
                Some(f) => f@,
                None => "%d-%m-%Y"@,
            };
            let es = rss_entries(content, now_text(now));
            let gs = group_entries(es);
            &&& r matches Ok(m) ==> forall|i: int, j: int|
                0 <= i < m.groups@.len() && 0 <= j < m.groups@[i].items@.len() ==> {
                    &&& chrono_naive_date(gs[i].entries[j].pub_date, fmt) is Some
                    &&& (rfc822_day(chrono_naive_date(gs[i].entries[j].pub_date, fmt).unwrap()) + midnight_time()).is_prefix_of(
                        (#[trigger] m.groups@[i].items@[j]).pub_date@,
                    )
                    &&& chrono_naive_date(gs[i].entries[j].build_date, fmt) is Some
                    &&& (rfc822_day(chrono_naive_date(gs[i].entries[j].build_date, fmt).unwrap()) + midnight_time()).is_prefix_of(
                        m.groups@[i].items@[j].build_date@,
                    )
                }
            &&& r == Err::<RssMap, RssDateError>(RssDateError::Unparsable) ==> exists|j: int|
                0 <= j < es.len() && (chrono_naive_date((#[trigger] es[j]).pub_date, fmt) is None
                    || chrono_naive_date(es[j].build_date, fmt) is None)
        }),
{
    let fmt = match o.date_format {
        Some(f) => f@,
        None => "%d-%m-%Y"@,
    };
    assert(fmt == date_format_of(o));
    let es = rss_entries(content, now_text(now));
    let gs = group_entries(es);
    if let Ok(m) = r {
        assert forall|i: int, j: int|
            #![trigger m.groups@[i].items@[j]]
            #![trigger gs[i].entries[j]]
            0 <= i < m.groups@.len() && 0 <= j < m.groups@[i].items@.len() implies {
            &&& chrono_naive_date(gs[i].entries[j].pub_date, fmt) is Some
            &&& (rfc822_day(chrono_naive_date(gs[i].entries[j].pub_date, fmt).unwrap()) + midnight_time()).is_prefix_of(
                m.groups@[i].items@[j].pub_date@,
            )
            &&& chrono_naive_date(gs[i].entries[j].build_date, fmt) is Some
            &&& (rfc822_day(chrono_naive_date(gs[i].entries[j].build_date, fmt).unwrap()) + midnight_time()).is_prefix_of(
                m.groups@[i].items@[j].build_date@,
            )
        } by {
            assert(m.groups@[i].items.len() == gs[i].entries.len());
            assert(item_matches(m.groups@[i].items@[j], gs[i].entries[j], fmt));
            assert(date_matches(m.groups@[i].items@[j].pub_date@, gs[i].entries[j].pub_date, fmt));
            assert(chrono_naive_date(gs[i].entries[j].pub_date, fmt) is Some);
        }
    }
    if r == Err::<RssMap, RssDateError>(RssDateError::Unparsable) {
        assert(!all_dates_read(es, fmt));
        let j = choose|j: int| 0 <= j < es.len() && !(converts((#[trigger] es[j]).pub_date, fmt) && converts(es[j].build_date, fmt));
        assert(chrono_naive_date(es[j].pub_date, fmt) is None || chrono_naive_date(es[j].build_date, fmt) is None);
    }
}

/// The configured group with the id `id`.
fn group_by_id<'a>(groups: &'a Vec<RssGroup>, id: &str) -> (r: Option<&'a RssGroup>)
    ensures
        match r {
            Some(g) => find_group(groups@, id@) matches Some(i) && groups@[i as int] == *g,
            None => find_group(groups@, id@) is None,
        },
{
    let mut i: usize = 0;
    while i < groups.len()
        invariant
            i <= groups.len(),
            find_group(groups@.take(i as int), id@) is None,
        decreases groups.len() - i,
    {
        assert(groups@.take(i + 1).drop_last() =~= groups@.take(i as int));
        if text_eq(groups[i].group_id.as_str(), id) {
            proof { lemma_find_group_prefix(groups@, id@, i + 1); }
            return Some(&groups[i]);
        }
        i = i + 1;
    }
    assert(groups@.take(i as int) =~= groups@);
    None
}

/// A group found in a prefix is the one found in the whole list.
proof fn lemma_find_group_prefix(groups: Seq<RssGroup>, id: Seq<char>, n: int)
    requires
        0 <= n <= groups.len(),
        find_group(groups.take(n), id) is Some,
    ensures
        find_group(groups, id) == find_group(groups.take(n), id),
    decreases groups.len() - n,
{
    if n < groups.len() {
        assert(groups.take(n + 1).drop_last() =~= groups.take(n));
        lemma_find_group_prefix(groups, id, n + 1);
    } else {
        assert(groups.take(n) =~= groups);
    }
}

/// The feed documents to write (see `rss_jobs`), with the current time `now_gmt`.
pub fn render_rss_with_clock(rss_map: &RssMap, rss_options: &RssOptions, now_gmt: &str) -> (r: Vec<RssRenderJob>)
    ensures
        r@.map_values(|j: RssRenderJob| j@) == rss_jobs(rss_map.groups@, rss_options.rss_groups@, feed_author(*rss_options), now_gmt@),
{
    let author: String = match &rss_options.website_author {
        Some(a) => a.clone(),
        None => "Jhon Doe".to_owned(),
    };
    let ghost feeds = rss_map.groups@;
    let ghost groups = rss_options.rss_groups@;
    let mut jobs: Vec<RssRenderJob> = Vec::new();
    let mut i: usize = 0;
    assert(feeds.take(0) =~= Seq::<RssFeedItems>::empty());
    assert(jobs@.map_values(|j: RssRenderJob| j@) =~= Seq::<RssJobModel>::empty());
    while i < rss_map.groups.len()
        invariant
            i <= rss_map.groups.len(),
            feeds == rss_map.groups@,
            groups == rss_options.rss_groups@,
            author@ == feed_author(*rss_options),
            jobs@.map_values(|j: RssRenderJob| j@) == rss_jobs(feeds.take(i as int), groups, author@, now_gmt@),
        decreases rss_map.groups.len() - i,
    {
        let feed = &rss_map.groups[i];
        assert(feeds.take(i + 1).drop_last() =~= feeds.take(i as int));
        assert(feeds.take(i + 1).last() == *feed);
        let ghost before = jobs@.map_values(|j: RssRenderJob| j@);
        match group_by_id(&rss_options.rss_groups, feed.group.as_str()) {
            None => {
                assert(before + Seq::<RssJobModel>::empty() =~= before);
            },
            Some(g) => {
                let mut items: Vec<FeedItem> = Vec::new();
                let mut k: usize = 0;
                while k < feed.items.len()
                    invariant
                        k <= feed.items.len(),
                        items@.len() == k,
                        forall|j: int| 0 <= j < k ==> #[trigger] items@[j]@ == feed_items(feed.items@, g.content_url@)[j],
                    decreases feed.items.len() - k,
                {
                    let it = &feed.items[k];
                    items.push(FeedItem {
                        title: it.title.clone(),
                        link: concat(g.content_url.as_str(), it.link.as_str()),
                        description: it.description.clone(),
                        pub_date: it.pub_date.clone(),
                    });
                    k = k + 1;
                }
                assert(items@.map_values(|i: FeedItem| i@) =~= feed_items(feed.items@, g.content_url@));
                match generate_feed(
                    feed.group.as_str(),
                    g.content_url.as_str(),
                    g.description.as_str(),
                    now_gmt,
                    now_gmt,
                    author.as_str(),
                    &items,
                ) {
                    None => {
                        assert(before + Seq::<RssJobModel>::empty() =~= before);
                    },
                    Some(xml) => {
                        jobs.push(RssRenderJob { group: feed.group.clone(), xml, link: g.link.clone() });
                        assert(jobs@.map_values(|j: RssRenderJob| j@) =~= before + feed_job(*feed, groups, author@, now_gmt@));
                    },
                }
            },
        }
        i = i + 1;
    }
    assert(feeds.take(i as int) =~= feeds);
    jobs
}

/// The feed documents to write (see `rss_jobs`), with the current time read
/// from the clock. Always succeeds.
pub fn render_rss(rss_map: &RssMap, rss_options: &RssOptions) -> (r: Result<Vec<RssRenderJob>, String>)
    ensures
        r matches Ok(jobs) && exists|secs: i64, nanos: u32|
            rss_jobs(
                rss_map.groups@,
                rss_options.rss_groups@,
                feed_author(*rss_options),
                #[trigger] chrono_utc_format(secs, nanos, feed_time_format()),
            ) == jobs@.map_values(|j: RssRenderJob| j@),
{
    proof { reveal_strlit("%a, %d %b %Y %H:%M:%S GMT"); }
    match utc_now_formatted("%a, %d %b %Y %H:%M:%S GMT") {
        Some(now) => {
            let jobs = render_rss_with_clock(rss_map, rss_options, now.as_str());
            proof {
                let (secs, nanos) = choose|secs: i64, nanos: u32| now@ == #[trigger] chrono_utc_format(secs, nanos, "%a, %d %b %Y %H:%M:%S GMT"@);
                assert(now@ == chrono_utc_format(secs, nanos, feed_time_format()));
            }
            Ok(jobs)
        },
        None => Err("Error reading the current time for the feeds".to_owned()),
    }
}

} // verus!

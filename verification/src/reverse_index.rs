//! Listing pages for the values of reverse-indexed attributes.
use vstd::prelude::*;
use crate::index::{attr_index, IndexBucket, ReverseIndex};
use crate::text::concat;
use crate::yaml::{YamlModel, YamlValue};

verus! {

broadcast use vstd::std_specs::vec::group_vec_axioms;

/// A listing page to render: the value it lists, the front matters that have
/// it, where it goes and with which template.
#[derive(Debug)]
pub struct ReverseRenderJob {
    pub serve_dir: String,
    pub static_path: String,
    pub template: String,
    /// The value of the attribute that the page lists.
    pub reverseindexon: String,
    /// The front matters that have that value.
    pub reverseindex: Vec<YamlValue>,
}

/// The model of a listing page.
pub struct ReverseRenderModel {
    pub serve_dir: Seq<char>,
    pub static_path: Seq<char>,
    pub template: Seq<char>,
    pub reverseindexon: Seq<char>,
    pub reverseindex: Seq<YamlModel>,
}

impl View for ReverseRenderJob {
    type V = ReverseRenderModel;

    open spec fn view(&self) -> ReverseRenderModel {
        ReverseRenderModel {
            serve_dir: self.serve_dir@,
            static_path: self.static_path@,
            template: self.template@,
            reverseindexon: self.reverseindexon@,
            reverseindex: Seq::new(self.reverseindex.len() as nat, |i: int| self.reverseindex[i]@),
        }
    }
}

/// The listing page of one value of the attribute `tag`: served at
/// `static/<tag>/<value>/index.html`, rendered with `reverseindex/<tag>.html`.
pub open spec fn listing_of(tag: Seq<char>, b: IndexBucket) -> ReverseRenderModel {
    ReverseRenderModel {
        serve_dir: "static/"@ + tag + "/"@ + b.key,
        static_path: "static/"@ + tag + "/"@ + b.key + "/index.html"@,
        template: "reverseindex/"@ + tag + ".html"@,
        reverseindexon: b.key,
        reverseindex: b.values,
    }
}

/// The listing pages of the attribute `tag` of the reverse index: one per
/// value, in the index's order. The attribute must be in the index.
pub fn reverse_index_render(tag: &str, reverseindex: &ReverseIndex) -> (r: Vec<ReverseRenderJob>)
    requires
        attr_index(reverseindex@, tag@) is Some,
    ensures
        r@.len() == reverseindex@[attr_index(reverseindex@, tag@).unwrap() as int].buckets.len(),
        forall|i: int| 0 <= i < r@.len() ==> #[trigger] r@[i]@ == listing_of(
            tag@,
            reverseindex@[attr_index(reverseindex@, tag@).unwrap() as int].buckets[i],
        ),
{
    let index = match reverseindex.get(tag) {
        Some(f) => f,
        None => vstd::pervasive::unreached(),
    };
    let t1 = concat("reverseindex/", tag);
    let template = concat(t1.as_str(), ".html");
    let d1 = concat("static/", tag);
    let d2 = concat(d1.as_str(), "/");
    let mut jobs: Vec<ReverseRenderJob> = Vec::new();
    let mut i: usize = 0;
    while i < index.entries.len()
        invariant
            i <= index.entries.len(),
            index@ == reverseindex@[attr_index(reverseindex@, tag@).unwrap() as int].buckets,
            template@ == "reverseindex/"@ + tag@ + ".html"@,
            d2@ == "static/"@ + tag@ + "/"@,
            jobs@.len() == i,
            forall|j: int| 0 <= j < i ==> #[trigger] jobs@[j]@ == listing_of(tag@, index@[j]),
        decreases index.entries.len() - i,
    {
        let entry = index.entries[i].duplicate();
        let serve_dir = concat(d2.as_str(), entry.key.as_str());
        let static_path = concat(serve_dir.as_str(), "/index.html");
        let job = ReverseRenderJob {
            serve_dir,
            static_path,
            template: template.clone(),
            reverseindexon: entry.key,
            reverseindex: entry.values,
        };
        assert(job@.reverseindex =~= index@[i as int].values);
        jobs.push(job);
        i = i + 1;
    }
    jobs
}

} // verus!

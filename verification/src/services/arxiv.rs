use vstd::prelude::*;

use crate::utils::papers_model::{PapersModel, PapersModelView};
use crate::utils::time_formatter::{
    custom_time_at_offset, representable_second, shown_at_offset, valid_offset, CUSTOM_TIME_FORMAT,
};

verus! {

/// A link of an Atom entry: its relation and its address.
pub struct AtomLink {
    pub rel: String,
    pub href: String,
}

/// An entry of an Atom feed, with the fields that the papers tab reads; the publication date is
/// given as its second since the Unix epoch and its offset from UTC in seconds.
pub struct AtomEntry {
    pub title: String,
    pub summary: Option<String>,
    /// The names of the entry's authors, in order.
    pub authors: Vec<String>,
    pub published: Option<(i64, i32)>,
    pub links: Vec<AtomLink>,
}

/// The plain contents of an [`AtomLink`].
pub struct AtomLinkView {
    pub rel: Seq<char>,
    pub href: Seq<char>,
}

/// The plain contents of an [`AtomEntry`].
pub struct AtomEntryView {
    pub title: Seq<char>,
    pub summary: Option<Seq<char>>,
    pub authors: Seq<Seq<char>>,
    pub published: Option<(i64, i32)>,
    pub links: Seq<AtomLinkView>,
}

impl View for AtomLink {
    type V = AtomLinkView;

    open spec fn view(&self) -> AtomLinkView {
        AtomLinkView { rel: self.rel@, href: self.href@ }
    }
}

impl View for AtomEntry {
    type V = AtomEntryView;

    open spec fn view(&self) -> AtomEntryView {
        AtomEntryView {
            title: self.title@,
            summary: crate::services::feed::text_view(self.summary),
            authors: self.authors.deep_view(),
            published: self.published,
            links: self.links@.map_values(|l: AtomLink| l@),
        }
    }
}

/// The entries of an Atom document as `atom_syndication::Feed` reads them (title, summary,
/// author names, publication date as `DateTime::timestamp` and `FixedOffset::local_minus_utc`,
/// links), or `None` when the document is not an Atom feed.
pub uninterp spec fn atom_feed_entries(xml: Seq<char>) -> Option<Seq<AtomEntryView>>;

/// Reads an Atom document with `atom_syndication::Feed::from_str` and hands out each entry's
/// title, summary, author names, publication date (its second, `DateTime::timestamp`, and its
/// offset, `FixedOffset::local_minus_utc`; neither can fail) and links. The result depends on
/// the text alone, so it is named.
#[verifier::external_body]
fn read_atom_entries(xml: &str) -> (r: Option<Vec<AtomEntry>>)
    ensures
        match r {
            Some(es) => atom_feed_entries(xml@) == Some(es@.map_values(|e: AtomEntry| e@)),
            None => atom_feed_entries(xml@) is None,
        },
{
    let feed = xml.parse::<atom_syndication::Feed>().ok()?;
    Some(feed.entries.into_iter().map(|e| AtomEntry {
        title: e.title.value,
        summary: e.summary.map(|s| s.value),
        authors: e.authors.into_iter().map(|a| a.name).collect(),
        published: e.published.map(|d| (d.timestamp(), d.offset().local_minus_utc())),
        links: e.links.into_iter().map(|l| AtomLink { rel: l.rel, href: l.href }).collect(),
    }).collect())
}

/// The address of the first link whose relation is "related".
pub open spec fn related_link(links: Seq<AtomLinkView>) -> Option<Seq<char>>
    decreases links.len(),
{
    if links.len() == 0 {
        None
    } else {
        match related_link(links.drop_last()) {
            Some(h) => Some(h),
            None => if links.last().rel == "related"@ {
                Some(links.last().href)
            } else {
                None
            },
        }
    }
}

/// The paper an entry describes, its date shown at its own offset in the custom format; `None`
/// when it lacks a summary, a publication date that `jiff` can show, or a related link.
pub open spec fn paper_of(e: AtomEntryView) -> Option<PapersModelView> {
    match (e.summary, e.published, related_link(e.links)) {
        (Some(summary), Some((second, offset)), Some(link)) => if representable_second(second) && valid_offset(offset) {
            Some(PapersModelView {
                title: e.title,
                summary,
                authors: e.authors,
                pub_date: shown_at_offset(second, offset, CUSTOM_TIME_FORMAT@),
                link,
            })
        } else {
            None
        },
        _ => None,
    }
}

/// The papers of a list of entries, in order; `None` when some entry does not make a paper.
pub open spec fn papers_of(es: Seq<AtomEntryView>) -> Option<Seq<PapersModelView>>
    decreases es.len(),
{
    if es.len() == 0 {
        Some(seq![])
    } else {
        match (papers_of(es.drop_last()), paper_of(es.last())) {
            (Some(ps), Some(p)) => Some(ps.push(p)),
            _ => None,
        }
    }
}

/// The papers of an arXiv response: none for an empty response; `None` when it is not an Atom
/// feed or some entry does not make a paper.
pub open spec fn arxiv_papers(xml: Seq<char>) -> Option<Seq<PapersModelView>> {
    if xml.len() == 0 {
        Some(seq![])
    } else {
        match atom_feed_entries(xml) {
            Some(es) => papers_of(es),
            None => None,
        }
    }
}

/// The arXiv service.
pub struct Arxiv;

/// The address of the first related link.
fn find_related(links: &Vec<AtomLink>) -> (r: Option<String>)
    ensures
        match r {
            Some(h) => related_link(links@.map_values(|l: AtomLink| l@)) == Some(h@),
            None => related_link(links@.map_values(|l: AtomLink| l@)) is None,
        },
{
    let ghost lv = links@.map_values(|l: AtomLink| l@);
    let related = String::from_str("related");
    proof {
        reveal_strlit("related");
    }
    for k in 0..links.len()
        invariant
            lv == links@.map_values(|l: AtomLink| l@),
            related@ == "related"@,
            related_link(lv.take(k as int)) is None,
    {
        assert(lv.take(k + 1).drop_last() == lv.take(k as int));
        assert(lv.take(k + 1).last() == links@[k as int]@);
        if links[k].rel == related {
            assert(related_link(lv.take(k + 1)) == Some(links@[k as int].href@));
            proof {
                lemma_related_prefix(lv, k + 1);
            }
            return Some(links[k].href.clone());
        }
    }
    assert(lv.take(links@.len() as int) == lv);
    None
}

proof fn lemma_related_prefix(links: Seq<AtomLinkView>, n: int)
    requires
        0 <= n <= links.len(),
        related_link(links.take(n)) is Some,
    ensures
        related_link(links) == related_link(links.take(n)),
    decreases links.len() - n,
{
    if n < links.len() {
        assert(links.take(n + 1).drop_last() == links.take(n));
        lemma_related_prefix(links, n + 1);
    } else {
        assert(links.take(n) == links);
    }
}

impl Arxiv {
    /// The address of the arXiv query for the ten latest software-engineering papers.
    pub fn feed_url() -> (r: &'static str)
        ensures
            r@ == "https://export.arxiv.org/api/query?search_query=cat:cs.SE&sortBy=submittedDate&sortOrder=descending&max_results=10"@,
    {
        "https://export.arxiv.org/api/query?search_query=cat:cs.SE&sortBy=submittedDate&sortOrder=descending&max_results=10"
    }

    /// The papers of an arXiv response: each entry's title, summary, authors, publication date
    /// in the custom format and related link; `None` where an entry lacks one of them or the response
    /// is not an Atom feed.
    pub fn parse(xml_response: String) -> (r: Option<Vec<PapersModel>>)
        ensures
            match r {
                Some(ps) => arxiv_papers(xml_response@) == Some(ps@.map_values(|p: PapersModel| p@)),
                None => arxiv_papers(xml_response@) is None,
            },
    {
        if xml_response.as_str().is_empty() {
            let r: Vec<PapersModel> = Vec::new();
            assert(r@.map_values(|p: PapersModel| p@) =~= Seq::<PapersModelView>::empty());
            return Some(r);
        }
        let entries = match read_atom_entries(xml_response.as_str()) {
            Some(es) => es,
            None => {
                return None;
            },
        };
        let ghost ev = entries@.map_values(|e: AtomEntry| e@);
        let mut papers: Vec<PapersModel> = Vec::new();
        for i in 0..entries.len()
            invariant
                ev == entries@.map_values(|e: AtomEntry| e@),
                atom_feed_entries(xml_response@) == Some(ev),
                xml_response@.len() != 0,
                papers_of(ev.take(i as int)) == Some(papers@.map_values(|p: PapersModel| p@)),
        {
            assert(ev.take(i + 1).drop_last() == ev.take(i as int));
            assert(ev.take(i + 1).last() == entries@[i as int]@);
            let e = &entries[i];
            let summary = match &e.summary {
                Some(s) => s.clone(),
                None => {
                    assert(ev[i as int].summary is None);
                    assert(paper_of(ev[i as int]) is None);
                    assert(papers_of(ev.take(i + 1)) is None);
                    proof { lemma_papers_none(ev, i + 1); }

                    return None;
                },
            };
            let published = match e.published {
                Some(p) => p,
                None => {
                    assert(ev[i as int].published is None);
                    assert(paper_of(ev[i as int]) is None);
                    assert(papers_of(ev.take(i + 1)) is None);
                    proof { lemma_papers_none(ev, i + 1); }

                    return None;
                },
            };
            let link = match find_related(&e.links) {
                Some(l) => l,
                None => {
                    proof { lemma_papers_none(ev, i + 1); }
                    return None;
                },
            };
            let pub_date = match custom_time_at_offset(published.0, published.1) {
                Some(d) => d,
                None => {
                    proof { lemma_papers_none(ev, i + 1); }
                    return None;
                },
            };
            let ghost before = papers@;
            let authors = crate::utils::text::clone_strings(&e.authors);
            let paper = PapersModel { title: e.title.clone(), summary, authors, pub_date, link };
            papers.push(paper);
            assert(papers@.map_values(|p: PapersModel| p@) =~= before.map_values(|p: PapersModel| p@).push(paper@));
        }
        assert(ev.take(entries@.len() as int) == ev);
        Some(papers)
    }
}

proof fn lemma_papers_none(es: Seq<AtomEntryView>, n: int)
    requires
        0 <= n <= es.len(),
        papers_of(es.take(n)) is None,
    ensures
        papers_of(es) is None,
    decreases es.len() - n,
{
    if n < es.len() {
        assert(es.take(n + 1).drop_last() == es.take(n));
        lemma_papers_none(es, n + 1);
    } else {
        assert(es.take(n) == es);
    }
}

} // verus!

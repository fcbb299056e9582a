//! Wiki article discovery: pick the article links out of the fetched wiki
//! index page and add the synthesized "Home" entry. The page itself is
//! fetched outside the library; the HTML is parsed through a trusted call
//! into `select`.

use vstd::prelude::*;
use vstd::string::StringExecFns;

use crate::entity::WikiArticle;
use crate::strutil::{contains_seq, starts_with_seq, str_contains, str_starts_with};

verus! {

/// What the anchors of an HTML page are: for each `a` element with an
/// `href` attribute, in document order, its text and that attribute.
pub uninterp spec fn html_anchors(html: Seq<char>) -> Seq<(Seq<char>, Seq<char>)>;

/// Relies on select::document::Document::from and Document::find with the
/// `Name("a")` predicate: parses the HTML and yields each `a` element in
/// document order; Node::attr and Node::text read the element. The result
/// depends on the HTML text alone.
#[verifier::external_body]
fn extract_anchors(html: &str) -> (r: Vec<(String, String)>)
    ensures
        r@.map_values(|p: (String, String)| (p.0@, p.1@)) == html_anchors(html@),
{
    let doc = select::document::Document::from(html);
    let mut out = Vec::new();
    for node in doc.find(select::predicate::Name("a")) {
        if let Some(href) = node.attr("href") {
            out.push((node.text(), href.to_string()));
        }
    }
    out
}

/// Whether an anchor's target is a wiki article link: a relative link into
/// the wiki, and not one of the service's control pages.
pub open spec fn wiki_link_kept(href: Seq<char>) -> bool {
    starts_with_seq(href, "/"@) && contains_seq(href, "wiki/"@) && !contains_seq(href, "/_"@)
}

/// The anchors whose targets are wiki article links, in document order.
pub open spec fn kept_anchors(anchors: Seq<(Seq<char>, Seq<char>)>) -> Seq<(Seq<char>, Seq<char>)>
    decreases anchors.len(),
{
    if anchors.len() == 0 {
        Seq::empty()
    } else {
        let rest = kept_anchors(anchors.drop_last());
        if wiki_link_kept(anchors.last().1) {
            rest.push(anchors.last())
        } else {
            rest
        }
    }
}

/// The synthesized "Home" entry's relative address.
pub open spec fn home_uri_spec(owner: Seq<char>, repo: Seq<char>) -> Seq<char> {
    "/"@ + owner + "/"@ + repo + "/wiki"@
}

/// The wiki articles of a fetched wiki index page: one article per anchor
/// that links into the wiki (title from the anchor text, address from its
/// target), in document order, and a final synthesized "Home" entry.
pub fn wiki_articles_from_html(html: &str, owner: &str, repo: &str) -> (r: Vec<WikiArticle>)
    ensures
        ({
            let kept = kept_anchors(html_anchors(html@));
            &&& r@.len() == kept.len() + 1
            &&& forall|j: int|
                0 <= j < kept.len() ==> (#[trigger] r@[j]).title@ == kept[j].0 && r@[j].uri@
                    == kept[j].1
            &&& r@.last().title@ == "Home"@
            &&& r@.last().uri@ == home_uri_spec(owner@, repo@)
        }),
{
    let anchors = extract_anchors(html);
    let ghost avs = anchors@.map_values(|p: (String, String)| (p.0@, p.1@));
    let mut out: Vec<WikiArticle> = Vec::new();
    let mut i: usize = 0;
    proof {
        assert(avs.take(0) =~= Seq::<(Seq<char>, Seq<char>)>::empty());
    }
    while i < anchors.len()
        invariant
            i <= anchors@.len(),
            avs == anchors@.map_values(|p: (String, String)| (p.0@, p.1@)),
            out@.len() == kept_anchors(avs.take(i as int)).len(),
            forall|j: int|
                0 <= j < out@.len() ==> (#[trigger] out@[j]).title@ == kept_anchors(
                    avs.take(i as int),
                )[j].0 && out@[j].uri@ == kept_anchors(avs.take(i as int))[j].1,
        decreases anchors@.len() - i,
    {
        let ghost pre = avs.take(i as int);
        proof {
            assert(avs.take(i + 1).drop_last() =~= pre);
            assert(avs.take(i + 1).last() == avs[i as int]);
            assert(avs[i as int] == (anchors@[i as int].0@, anchors@[i as int].1@));
        }
        let href = &anchors[i].1;
        if str_starts_with(href.as_str(), "/") && str_contains(href.as_str(), "wiki/")
            && !str_contains(href.as_str(), "/_") {
            out.push(
                WikiArticle { title: anchors[i].0.clone(), uri: anchors[i].1.clone() },
            );
            proof {
                assert(kept_anchors(avs.take(i + 1)) =~= kept_anchors(pre).push(avs[i as int]));
            }
        } else {
            proof {
                assert(kept_anchors(avs.take(i + 1)) =~= kept_anchors(pre));
            }
        }
        i += 1;
    }
    proof {
        assert(avs.take(avs.len() as int) =~= avs);
    }
    let mut home_uri = String::from_str("/");
    home_uri.append(owner);
    home_uri.append("/");
    home_uri.append(repo);
    home_uri.append("/wiki");
    out.push(WikiArticle { title: String::from_str("Home"), uri: home_uri });
    out
}

} // verus!

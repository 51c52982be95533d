//! The socks24 listing: which links of its front page lead to proxy lists.

use vstd::prelude::*;
use crate::html::{anchor_hrefs, find_anchor_hrefs, option_views};
use crate::pattern::{regex_compiles, regex_is_match, regex_matches};
use crate::text::views;

verus! {

/// The page that lists the daily proxy pages.
pub const SOCKS24_URL: &'static str = "http://www.socks24.org/";

/// The form of a link to a daily proxy page.
pub const SOCKS24_LINK_PATTERN: &'static str = r"^http://www\.socks24\.org/\d\d\d\d/\d\d/\d\d\-\d\d\-\d\d\-(?:vip\-socks\-5_\d\d|us\-socks(?:_\d\d)?)\.html$";

/// Whether `link` leads to a daily proxy page: the pattern compiles and
/// matches it.
pub open spec fn is_proxy_page_link(link: Seq<char>) -> bool {
    regex_compiles(SOCKS24_LINK_PATTERN@) && regex_matches(SOCKS24_LINK_PATTERN@, link)
}

/// The links among `hrefs` (an `a` element without `href` gives `None`)
/// that lead to daily proxy pages, in order.
pub open spec fn proxy_page_links(hrefs: Seq<Option<Seq<char>>>) -> Seq<Seq<char>>
    decreases hrefs.len(),
{
    if hrefs.len() == 0 {
        Seq::empty()
    } else {
        let kept = proxy_page_links(hrefs.drop_last());
        match hrefs.last() {
            Some(h) => if is_proxy_page_link(h) {
                kept.push(h)
            } else {
                kept
            },
            None => kept,
        }
    }
}

/// The links of the listing page `document` that lead to daily proxy pages,
/// in the order in which the page lists them.
pub fn scrapper(document: &str) -> (r: Vec<String>)
    ensures
        views(r@) == proxy_page_links(anchor_hrefs(document@)),
{
    let hrefs = find_anchor_hrefs(document);
    let ghost all = option_views(hrefs@);
    let mut links: Vec<String> = Vec::new();
    let mut i: usize = 0;
    while i < hrefs.len()
        invariant
            i <= hrefs.len(),
            all == option_views(hrefs@),
            all == anchor_hrefs(document@),
            views(links@) == proxy_page_links(all.take(i as int)),
        decreases hrefs.len() - i,
    {
        assert(all.take(i + 1).drop_last() =~= all.take(i as int));
        assert(all.take(i + 1).last() == all[i as int]);
        let ghost before = links@;
        match &hrefs[i] {
            Some(href) => {
                if let Some(true) = regex_is_match(SOCKS24_LINK_PATTERN, href.as_str()) {
                    links.push(href.clone());
                    assert(views(links@) =~= views(before).push(href@));
                }
            },
            None => {},
        }
        i = i + 1;
    }
    assert(all.take(hrefs.len() as int) =~= all);
    links
}

/// No link comes out of no anchors.
pub proof fn lemma_proxy_page_links_empty()
    ensures
        proxy_page_links(Seq::empty()) == Seq::<Seq<char>>::empty(),
{
}

/// An anchor whose link has the daily-page form adds that link at the end;
/// any other anchor, or one without `href`, adds nothing.
pub proof fn lemma_proxy_page_links_push(hrefs: Seq<Option<Seq<char>>>, h: Seq<char>)
    ensures
        is_proxy_page_link(h) ==> proxy_page_links(hrefs.push(Some(h))) == proxy_page_links(
            hrefs,
        ).push(h),
        !is_proxy_page_link(h) ==> proxy_page_links(hrefs.push(Some(h))) == proxy_page_links(
            hrefs,
        ),
        proxy_page_links(hrefs.push(None)) == proxy_page_links(hrefs),
{
    assert(hrefs.push(Some(h)).drop_last() =~= hrefs);
    assert(hrefs.push(Some(h)).last() == Some(h));
    assert(hrefs.push(None).drop_last() =~= hrefs);
    assert(hrefs.push(None).last() == None::<Seq<char>>);
}

/// When every anchor links to a daily page, every link is kept, in order.
pub proof fn lemma_proxy_page_links_all(links: Seq<Seq<char>>)
    requires
        forall|k: int| 0 <= k < links.len() ==> is_proxy_page_link(#[trigger] links[k]),
    ensures
        proxy_page_links(links.map_values(|h: Seq<char>| Some(h))) == links,
    decreases links.len(),
{
    if links.len() > 0 {
        let init = links.drop_last();
        assert forall|k: int| 0 <= k < init.len() implies is_proxy_page_link(#[trigger] init[k]) by {
            assert(init[k] == links[k]);
        }
        lemma_proxy_page_links_all(init);
        let hs = links.map_values(|h: Seq<char>| Some(h));
        assert(hs.drop_last() =~= init.map_values(|h: Seq<char>| Some(h)));
        assert(hs.last() == Some(links.last()));
        assert(is_proxy_page_link(links[links.len() - 1]));
        assert(init.push(links.last()) =~= links);
    }
}

} // verus!

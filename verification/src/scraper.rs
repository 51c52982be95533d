//! The command-line scraper's walk through a provider's chain of pages:
//! every source but the last names the link to follow, the last one the
//! elements whose text is kept. The pages are fetched by the caller.

use vstd::prelude::*;
use crate::fetch::{href_choice, pick_href, result_is, FetchState};
use crate::html::{
    css_selector_parses, css_selector_valid, option_views, select_hrefs, select_texts, selected_hrefs,
    selected_texts,
};
use crate::pattern::{regex_compiles, regex_is_match};
use crate::provider::ProviderSource;
use crate::text::{join, join_strings, option_view};

verus! {

/// Whether some selected element has an `href`.
pub open spec fn has_href(hrefs: Seq<Option<Seq<char>>>) -> bool {
    exists|i: int| 0 <= i < hrefs.len() && (#[trigger] hrefs[i]) is Some
}

/// Whether choosing a link cannot fail on the pattern: there is no pattern,
/// it compiles, or there is no `href` to try it on.
pub open spec fn pattern_usable(hrefs: Seq<Option<Seq<char>>>, regex: Option<Seq<char>>) -> bool {
    match regex {
        Some(p) => has_href(hrefs) ==> regex_compiles(p),
        None => true,
    }
}

/// A link choice never reports an unusable pattern when the pattern is
/// usable.
proof fn lemma_usable_pattern_choice(hrefs: Seq<Option<Seq<char>>>, regex: Option<Seq<char>>, scanned: bool)
    requires
        pattern_usable(hrefs, regex),
    ensures
        href_choice(hrefs, regex, scanned) != Err::<Seq<char>, Seq<char>>("Could not parse regex"@),
    decreases hrefs.len(),
{
    reveal_strlit("Could not parse regex");
    reveal_strlit("Could not find any element with href matching regex");
    reveal_strlit("Could not find any href");
    assert("Could not parse regex"@.len() != "Could not find any href"@.len());
    assert("Could not parse regex"@.len() != "Could not find any element with href matching regex"@.len());
    if hrefs.len() > 0 {
        let rest = hrefs.drop_first();
        if has_href(rest) {
            let i = choose|i: int| 0 <= i < rest.len() && (#[trigger] rest[i]) is Some;
            assert(hrefs[i + 1] is Some);
        }
        if hrefs[0] is Some {
            assert(has_href(hrefs));
        }
        lemma_usable_pattern_choice(rest, regex, scanned);
        lemma_usable_pattern_choice(rest, regex, true);
    }
}

/// The link to follow from a fetched page, as the library's fetch chooses
/// it; the selector must parse and the pattern, if any, must compile unless
/// no selected element has an `href`.
pub fn get_html_href(document: &str, selector: &str, regex: Option<String>) -> (r: Result<
    String,
    &'static str,
>)
    requires
        css_selector_parses(selector@),
        pattern_usable(selected_hrefs(document@, selector@), option_view(regex)),
    ensures
        result_is(r, href_choice(selected_hrefs(document@, selector@), option_view(regex), false)),
        r matches Err(e) ==> e@ != "Could not parse regex"@,
{
    proof {
        lemma_usable_pattern_choice(selected_hrefs(document@, selector@), option_view(regex), false);
    }
    match select_hrefs(document, selector) {
        Some(hrefs) => pick_href(&hrefs, &regex),
        None => Err("Could not parse selector"),
    }
}

/// As `get_html_href`, for any selector and pattern: `None` when the
/// selector does not parse or the pattern does not compile although some
/// selected element has an `href`.
pub fn try_get_html_href(document: &str, selector: &str, regex: Option<String>) -> (r: Option<
    Result<String, &'static str>,
>)
    ensures
        r is None <==> !(css_selector_parses(selector@) && pattern_usable(
            selected_hrefs(document@, selector@),
            option_view(regex),
        )),
        r matches Some(res) ==> result_is(
            res,
            href_choice(selected_hrefs(document@, selector@), option_view(regex), false),
        ),
{
    if !css_selector_valid(selector) {
        return None;
    }
    let compiles = match &regex {
        Some(p) => regex_is_match(p.as_str(), "").is_some(),
        None => true,
    };
    if compiles {
        return Some(get_html_href(document, selector, regex));
    }
    // The pattern does not compile: reading the page fails only if it has an
    // `href` to try the pattern on.
    let hrefs = match select_hrefs(document, selector) {
        Some(hrefs) => hrefs,
        None => {
            return None;
        },
    };
    let ghost all = option_views(hrefs@);
    let mut any_href = false;
    let mut i: usize = 0;
    while i < hrefs.len()
        invariant
            i <= hrefs.len(),
            all == option_views(hrefs@),
            !any_href ==> forall|j: int| 0 <= j < i ==> all[j] is None,
            any_href ==> has_href(all),
        decreases hrefs.len() - i,
    {
        if hrefs[i].is_some() {
            assert(all[i as int] is Some);
            any_href = true;
        }
        i = i + 1;
    }
    if any_href {
        return None;
    }
    proof {
        lemma_usable_pattern_choice(all, option_view(regex), false);
    }
    Some(pick_href(&hrefs, &regex))
}

/// The text of the last page: the texts of the selected elements, one after
/// the other. The selector must parse.
pub fn get_html_text(document: &str, selector: &str) -> (r: String)
    requires
        css_selector_parses(selector@),
    ensures
        r@ == join(selected_texts(document@, selector@), Seq::empty()),
{
    match select_texts(document, selector) {
        Some(texts) => {
            let r = join_strings(&texts, "");
            proof {
                reveal_strlit("");
                assert(""@ =~= Seq::<char>::empty());
            }
            r
        },
        None => String::new(),
    }
}

/// As `get_html_text`, for any selector: `None` when it does not parse.
pub fn try_get_html_text(document: &str, selector: &str) -> (r: Option<String>)
    ensures
        r is None <==> !css_selector_parses(selector@),
        r matches Some(t) ==> t@ == join(selected_texts(document@, selector@), Seq::empty()),
{
    if css_selector_valid(selector) {
        Some(get_html_text(document, selector))
    } else {
        None
    }
}

/// The walk after a page has been read.
pub enum ChainProgress {
    /// The next page to fetch.
    Continue(FetchState),
    /// The walk is over: the proxies text of the last page.
    Finished(Vec<String>),
}

/// The start of the walk: the first source's page, whose URL the first
/// source must name. Each page is then requested with
/// `fetch::get_proxies_request`.
pub fn get_proxies_start(sources: &Vec<ProviderSource>) -> (r: FetchState)
    requires
        sources.len() > 0,
        sources@[0].url is Some,
    ensures
        r.step == 0,
        Some(r.url) == sources@[0].url,
{
    let url = match &sources[0].url {
        Some(url) => url.clone(),
        None => String::new(),
    };
    FetchState { step: 0, url }
}

/// The walk after the current page has been read: `answer` is the link found
/// there, or, at the last source, its text.
pub fn get_proxies_advance(sources: &Vec<ProviderSource>, state: FetchState, answer: String) -> (r:
    ChainProgress)
    requires
        state.step < sources.len(),
    ensures
        state.step + 1 < sources.len() ==> r == ChainProgress::Continue(
            FetchState { step: (state.step + 1) as usize, url: answer },
        ),
        state.step + 1 == sources.len() ==> (r matches ChainProgress::Finished(v) && v@ == seq![
            answer,
        ]),
{
    if state.step + 1 < sources.len() {
        ChainProgress::Continue(FetchState { step: state.step + 1, url: answer })
    } else {
        let mut proxies: Vec<String> = Vec::new();
        proxies.push(answer);
        ChainProgress::Finished(proxies)
    }
}

} // verus!

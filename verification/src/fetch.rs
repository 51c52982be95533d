//! Fetching proxies from the providers' pages: which page to request next,
//! and what is read from a fetched page. The requests themselves are made by
//! the caller, which hands back what came of them.

use vstd::prelude::*;
use crate::filters::{accepted_lines, filter_all, lines_of};
use crate::html::{
    css_selector_parses, css_selector_valid, option_views, select_hrefs, select_texts, selected_hrefs,
    selected_texts,
};
use crate::pattern::{regex_compiles, regex_is_match, regex_matches};
use crate::provider::{clone_option_string, ProviderSource};
use crate::text::{join, option_view, views};

verus! {

/// The link chosen among the `href`s of the selected elements (`None` for
/// an element without one), scanning them in order: the first one when there
/// is no pattern, else the first one the pattern matches. `scanned` records
/// that an `href` was already rejected by the pattern.
pub open spec fn href_choice(
    hrefs: Seq<Option<Seq<char>>>,
    regex: Option<Seq<char>>,
    scanned: bool,
) -> Result<Seq<char>, Seq<char>>
    decreases hrefs.len(),
{
    if hrefs.len() == 0 {
        if scanned {
            Err("Could not find any element with href matching regex"@)
        } else {
            Err("Could not find any href"@)
        }
    } else {
        match hrefs[0] {
            None => href_choice(hrefs.drop_first(), regex, scanned),
            Some(h) => match regex {
                None => Ok(h),
                Some(p) => if !regex_compiles(p) {
                    Err("Could not parse regex"@)
                } else if regex_matches(p, h) {
                    Ok(h)
                } else {
                    href_choice(hrefs.drop_first(), regex, true)
                },
            },
        }
    }
}

/// Whether a result in the executable world stands for the spec result `s`.
pub open spec fn result_is(r: Result<String, &'static str>, s: Result<Seq<char>, Seq<char>>) -> bool {
    match r {
        Ok(v) => s == Ok::<Seq<char>, Seq<char>>(v@),
        Err(e) => s == Err::<Seq<char>, Seq<char>>(e@),
    }
}

/// Chooses the link to follow among the `href`s of the selected elements.
pub fn pick_href(hrefs: &Vec<Option<String>>, regex: &Option<String>) -> (r: Result<String, &'static str>)
    ensures
        result_is(r, href_choice(option_views(hrefs@), option_view(*regex), false)),
{
    let ghost all = option_views(hrefs@);
    let ghost rx = option_view(*regex);
    let mut scanned = false;
    let mut i: usize = 0;
    assert(all.skip(0) =~= all);
    while i < hrefs.len()
        invariant
            i <= hrefs.len(),
            all == option_views(hrefs@),
            rx == option_view(*regex),
            href_choice(all, rx, false) == href_choice(all.skip(i as int), rx, scanned),
        decreases hrefs.len() - i,
    {
        assert(all.skip(i as int)[0] == all[i as int]);
        assert(all.skip(i as int).drop_first() =~= all.skip(i + 1));
        match &hrefs[i] {
            Some(href) => {
                match regex {
                    Some(p) => {
                        match regex_is_match(p.as_str(), href.as_str()) {
                            None => {
                                return Err("Could not parse regex");
                            },
                            Some(true) => {
                                return Ok(href.clone());
                            },
                            Some(false) => {
                                scanned = true;
                            },
                        }
                    },
                    None => {
                        return Ok(href.clone());
                    },
                }
            },
            None => {},
        }
        i = i + 1;
    }
    assert(all.skip(i as int) =~= Seq::<Option<Seq<char>>>::empty());
    if scanned {
        Err("Could not find any element with href matching regex")
    } else {
        Err("Could not find any href")
    }
}

/// The link to follow from a fetched page: the `href`s of the elements that
/// `selector` selects, chosen from as `pick_href` does. The selector must
/// parse.
pub fn get_html_href(document: &str, selector: &str, regex: Option<String>) -> (r: Result<
    String,
    &'static str,
>)
    requires
        css_selector_parses(selector@),
    ensures
        result_is(r, href_choice(selected_hrefs(document@, selector@), option_view(regex), false)),
{
    let hrefs = select_hrefs(document, selector);
    match hrefs {
        Some(hrefs) => pick_href(&hrefs, &regex),
        None => Err("Could not parse selector"),
    }
}

/// As `get_html_href`, for any selector: `None` when the selector does not
/// parse.
pub fn try_get_html_href(document: &str, selector: &str, regex: Option<String>) -> (r: Option<
    Result<String, &'static str>,
>)
    ensures
        r is None <==> !css_selector_parses(selector@),
        r matches Some(res) ==> result_is(
            res,
            href_choice(selected_hrefs(document@, selector@), option_view(regex), false),
        ),
{
    if css_selector_valid(selector) {
        Some(get_html_href(document, selector, regex))
    } else {
        None
    }
}

/// What is read from the last page: its text when it has at most three
/// selected elements, else the list of their texts.
pub enum HtmlText {
    Text(String),
    IpList(Vec<String>),
}

/// Whether `h` is what is read from a page whose selected elements have
/// the texts `texts`: more than two elements give the list of their texts,
/// otherwise their texts are concatenated.
pub open spec fn html_text_is(h: HtmlText, texts: Seq<Seq<char>>) -> bool {
    match h {
        HtmlText::Text(t) => texts.len() <= 2 && t@ == join(texts, Seq::empty()),
        HtmlText::IpList(l) => texts.len() > 2 && views(l@) == texts,
    }
}

/// Builds what is read from the last page out of the texts of its selected
/// elements.
pub fn classify_texts(texts: Vec<String>) -> (r: HtmlText)
    ensures
        html_text_is(r, views(texts@)),
{
    let mut text = String::new();
    let mut ip_list: Vec<String> = Vec::new();
    let mut index: usize = 0;
    while index < texts.len()
        invariant
            index <= texts.len(),
            views(ip_list@) == views(texts@).take(index as int),
            index <= 3 ==> text@ == join(views(texts@).take(index as int), Seq::empty()),
        decreases texts.len() - index,
    {
        let element_text = texts[index].clone();
        let ghost before = ip_list@;
        assert(views(texts@).take(index + 1).drop_last() =~= views(texts@).take(index as int));
        if index <= 2 {
            text.append(element_text.as_str());
            ip_list.push(element_text);
        } else {
            ip_list.push(element_text);
        }
        assert(views(ip_list@) =~= views(texts@).take(index + 1));
        index = index + 1;
    }
    assert(views(texts@).take(texts.len() as int) =~= views(texts@));
    if index > 2 {
        HtmlText::IpList(ip_list)
    } else {
        HtmlText::Text(text)
    }
}

/// What is read from the last fetched page: the texts of the elements that
/// `selector` selects; an error when the selector does not parse.
pub fn get_html_text(document: &str, selector: &str) -> (r: Result<HtmlText, &'static str>)
    ensures
        css_selector_parses(selector@) <==> r is Ok,
        r matches Ok(h) ==> html_text_is(h, selected_texts(document@, selector@)),
        r matches Err(e) ==> e@ == "Could not parse selector"@,
{
    match select_texts(document, selector) {
        Some(texts) => Ok(classify_texts(texts)),
        None => Err("Could not parse selector"),
    }
}

/// A page to fetch: either to follow one of its links, or to read its text.
pub enum FetchRequest {
    Href { url: String, selector: String, regex: Option<String> },
    Text { url: String, selector: String },
}

/// Where the walk through a provider's sources stands: the index of the
/// source whose page is fetched next, and that page's URL.
pub struct FetchState {
    pub step: usize,
    pub url: String,
}

/// The start of the walk through a provider's sources: the first source's
/// page. A first source without a URL is an error.
pub fn get_proxies_start(sources: &Vec<ProviderSource>) -> (r: Result<FetchState, &'static str>)
    requires
        sources.len() > 0,
    ensures
        sources@[0].url is None ==> (r matches Err(e) && e@ == "Could not get url"@),
        sources@[0].url matches Some(u) ==> (r matches Ok(st) && st.step == 0 && st.url == u),
{
    match &sources[0].url {
        Some(url) => Ok(FetchState { step: 0, url: url.clone() }),
        None => Err("Could not get url"),
    }
}

/// The request for the current page: every source but the last names the
/// link to follow (its selector and pattern), the last one the elements whose
/// text is read.
pub fn get_proxies_request(sources: &Vec<ProviderSource>, state: &FetchState) -> (r: FetchRequest)
    requires
        state.step < sources.len(),
    ensures
        state.step + 1 < sources.len() ==> r == (FetchRequest::Href {
            url: state.url,
            selector: sources@[state.step as int].selector,
            regex: sources@[state.step as int].regex,
        }),
        state.step + 1 == sources.len() ==> r == (FetchRequest::Text {
            url: state.url,
            selector: sources@[state.step as int].selector,
        }),
{
    let source = &sources[state.step];
    if state.step + 1 < sources.len() {
        FetchRequest::Href {
            url: state.url.clone(),
            selector: source.selector.clone(),
            regex: clone_option_string(&source.regex),
        }
    } else {
        FetchRequest::Text { url: state.url.clone(), selector: source.selector.clone() }
    }
}

/// What came of the current request.
pub enum FetchEvent {
    /// The link found on the page, or why none was.
    Href(Result<String, &'static str>),
    /// What was read from the last page, or why nothing was.
    Text(Result<HtmlText, &'static str>),
}

/// The walk after a page has been fetched.
pub enum FetchProgress {
    /// The next page to fetch.
    Continue(FetchState),
    /// The walk is over: the proxies of the last page, or why there are none.
    Finished(Result<Vec<String>, &'static str>),
}

/// The walk after the current page has been answered: a link found goes on
/// to the next source's page; a link not found ends the walk in error; the
/// last page's text gives one entry, its list of texts gives its entries.
pub fn get_proxies_step(sources: &Vec<ProviderSource>, state: FetchState, event: FetchEvent) -> (r:
    FetchProgress)
    requires
        state.step < sources.len(),
        state.step + 1 < sources.len() ==> event is Href,
        state.step + 1 == sources.len() ==> event is Text,
    ensures
        match event {
            FetchEvent::Href(Ok(u)) => r == FetchProgress::Continue(
                FetchState { step: (state.step + 1) as usize, url: u },
            ),
            FetchEvent::Href(Err(_)) => r matches FetchProgress::Finished(Err(e)) && e@
                == "Could not get url"@,
            FetchEvent::Text(Ok(HtmlText::Text(t))) => r matches FetchProgress::Finished(Ok(v))
                && v@ == seq![t],
            FetchEvent::Text(Ok(HtmlText::IpList(l))) => r matches FetchProgress::Finished(Ok(v))
                && v@ == l@,
            FetchEvent::Text(Err(_)) => r matches FetchProgress::Finished(Err(e)) && e@
                == "Could not get proxy from html text"@,
        },
{
    match event {
        FetchEvent::Href(Ok(url)) => FetchProgress::Continue(
            FetchState { step: state.step + 1, url },
        ),
        FetchEvent::Href(Err(_)) => FetchProgress::Finished(Err("Could not get url")),
        FetchEvent::Text(Ok(HtmlText::Text(text))) => {
            let mut proxies: Vec<String> = Vec::new();
            proxies.push(text);
            FetchProgress::Finished(Ok(proxies))
        },
        FetchEvent::Text(Ok(HtmlText::IpList(ip_list))) => FetchProgress::Finished(Ok(ip_list)),
        FetchEvent::Text(Err(_)) => FetchProgress::Finished(
            Err("Could not get proxy from html text"),
        ),
    }
}

/// The proxies kept from each provider's scraped texts, provider after
/// provider.
pub open spec fn fetched_proxies(scraped: Seq<Seq<Seq<char>>>) -> Seq<Seq<char>>
    decreases scraped.len(),
{
    if scraped.len() == 0 {
        Seq::empty()
    } else {
        fetched_proxies(scraped.drop_last()) + accepted_lines(lines_of(scraped.last()))
    }
}

/// The views of each provider's scraped texts.
pub open spec fn nested_views(v: Seq<Vec<String>>) -> Seq<Seq<Seq<char>>> {
    v.map_values(|p: Vec<String>| views(p@))
}

/// The final proxy list: each provider's scraped texts (as obtained from its
/// sources, in provider order) filtered, one provider after the other.
pub fn fetch(scraped: Vec<Vec<String>>) -> (r: Vec<String>)
    ensures
        views(r@) == fetched_proxies(nested_views(scraped@)),
{
    let mut final_proxy_list: Vec<String> = Vec::new();
    let mut i: usize = 0;
    while i < scraped.len()
        invariant
            i <= scraped.len(),
            views(final_proxy_list@) == fetched_proxies(nested_views(scraped@).take(i as int)),
        decreases scraped.len() - i,
    {
        let scraped_proxies = scraped[i].clone();
        let mut filtered_proxies = filter_all(scraped_proxies);
        let ghost before = final_proxy_list@;
        let ghost added = filtered_proxies@;
        final_proxy_list.append(&mut filtered_proxies);
        assert(views(final_proxy_list@) =~= views(before) + views(added));
        assert(nested_views(scraped@).take(i + 1).drop_last() =~= nested_views(scraped@).take(
            i as int,
        ));
        assert(nested_views(scraped@).take(i + 1).last() == views(scraped@[i as int]@));
        i = i + 1;
    }
    assert(nested_views(scraped@).take(scraped.len() as int) =~= nested_views(scraped@));
    final_proxy_list
}

/// Fetching for several providers gives, one after the other, what fetching
/// for each group of them gives.
pub proof fn lemma_fetched_concat(a: Seq<Seq<Seq<char>>>, b: Seq<Seq<Seq<char>>>)
    ensures
        fetched_proxies(a + b) == fetched_proxies(a) + fetched_proxies(b),
    decreases b.len(),
{
    if b.len() == 0 {
        assert(a + b =~= a);
        assert(fetched_proxies(a) + fetched_proxies(b) =~= fetched_proxies(a));
    } else {
        lemma_fetched_concat(a, b.drop_last());
        assert((a + b).drop_last() =~= a + b.drop_last());
        assert((a + b).last() == b.last());
        assert(fetched_proxies(a + b) =~= fetched_proxies(a) + fetched_proxies(b));
    }
}

/// With no pattern, the link chosen is the first `href` present.
pub proof fn lemma_href_first_without_pattern(h: Seq<char>, rest: Seq<Option<Seq<char>>>, scanned: bool)
    ensures
        href_choice(seq![Some(h)] + rest, None, scanned) == Ok::<Seq<char>, Seq<char>>(h),
{
    assert((seq![Some(h)] + rest)[0] == Some(h));
}

/// An `href` that the pattern matches is chosen, whatever follows it.
pub proof fn lemma_href_first_match_wins(
    h: Seq<char>,
    rest: Seq<Option<Seq<char>>>,
    p: Seq<char>,
    scanned: bool,
)
    requires
        regex_compiles(p),
        regex_matches(p, h),
    ensures
        href_choice(seq![Some(h)] + rest, Some(p), scanned) == Ok::<Seq<char>, Seq<char>>(h),
{
    assert((seq![Some(h)] + rest)[0] == Some(h));
}

/// An `href` that the pattern does not match is passed over: the choice is
/// made among the later ones, and is no longer "no href at all".
pub proof fn lemma_href_mismatch_skipped(
    h: Seq<char>,
    rest: Seq<Option<Seq<char>>>,
    p: Seq<char>,
    scanned: bool,
)
    requires
        regex_compiles(p),
        !regex_matches(p, h),
    ensures
        href_choice(seq![Some(h)] + rest, Some(p), scanned) == href_choice(rest, Some(p), true),
{
    assert((seq![Some(h)] + rest)[0] == Some(h));
    assert((seq![Some(h)] + rest).drop_first() =~= rest);
}

/// An element without `href` is passed over.
pub proof fn lemma_href_missing_skipped(
    rest: Seq<Option<Seq<char>>>,
    regex: Option<Seq<char>>,
    scanned: bool,
)
    ensures
        href_choice(seq![None] + rest, regex, scanned) == href_choice(rest, regex, scanned),
{
    assert((seq![None] + rest)[0] == None::<Seq<char>>);
    assert((seq![None] + rest).drop_first() =~= rest);
}

/// A pattern that does not compile fails on the first `href` present.
pub proof fn lemma_href_bad_pattern(h: Seq<char>, rest: Seq<Option<Seq<char>>>, p: Seq<char>, scanned: bool)
    requires
        !regex_compiles(p),
    ensures
        href_choice(seq![Some(h)] + rest, Some(p), scanned) == Err::<Seq<char>, Seq<char>>(
            "Could not parse regex"@,
        ),
{
    assert((seq![Some(h)] + rest)[0] == Some(h));
}

/// Without any `href` left, the choice fails: with "no match" once an `href`
/// was passed over, with "no href" otherwise.
pub proof fn lemma_href_none_left(regex: Option<Seq<char>>)
    ensures
        href_choice(Seq::empty(), regex, true) == Err::<Seq<char>, Seq<char>>(
            "Could not find any element with href matching regex"@,
        ),
        href_choice(Seq::empty(), regex, false) == Err::<Seq<char>, Seq<char>>(
            "Could not find any href"@,
        ),
{
}

/// A chosen link is one of the `href`s present, and, when there is a
/// pattern, one that the pattern matches.
pub proof fn lemma_href_choice_is_present(hrefs: Seq<Option<Seq<char>>>, regex: Option<Seq<char>>, scanned: bool)
    ensures
        href_choice(hrefs, regex, scanned) matches Ok(h) ==> (exists|i: int|
            0 <= i < hrefs.len() && #[trigger] hrefs[i] == Some(h)),
        href_choice(hrefs, regex, scanned) matches Ok(h) ==> (regex matches Some(p) ==> (
        regex_compiles(p) && regex_matches(p, h))),
    decreases hrefs.len(),
{
    if hrefs.len() > 0 {
        lemma_href_choice_is_present(hrefs.drop_first(), regex, scanned);
        lemma_href_choice_is_present(hrefs.drop_first(), regex, true);
        if let Ok(h) = href_choice(hrefs, regex, scanned) {
            if hrefs[0] != Some(h) {
                let rest = hrefs.drop_first();
                if href_choice(rest, regex, scanned) == Ok::<Seq<char>, Seq<char>>(h)
                    || href_choice(rest, regex, true) == Ok::<Seq<char>, Seq<char>>(h) {
                    let i = choose|i: int| 0 <= i < rest.len() && #[trigger] rest[i] == Some(h);
                    assert(hrefs[i + 1] == Some(h));
                }
            }
        }
    }
}

/// What is read from a page with more than two selected elements is the
/// list of all their texts, in order, and never their concatenation.
pub proof fn lemma_ip_list_holds_every_text(l: Vec<String>, t: String, texts: Seq<Seq<char>>)
    requires
        texts.len() > 2,
    ensures
        html_text_is(HtmlText::IpList(l), texts) <==> views(l@) == texts,
        html_text_is(HtmlText::IpList(l), texts) ==> l.len() == texts.len(),
        !html_text_is(HtmlText::Text(t), texts),
{
}

/// What is read from a page with at most two selected elements is their
/// texts put together, and never a list.
pub proof fn lemma_text_joins_few_texts(l: Vec<String>, t: String, texts: Seq<Seq<char>>)
    requires
        texts.len() <= 2,
    ensures
        html_text_is(HtmlText::Text(t), texts) <==> t@ == join(texts, Seq::empty()),
        !html_text_is(HtmlText::IpList(l), texts),
{
}

/// The proxies fetched for one provider are those that filtering all of its
/// scraped texts keeps.
pub proof fn lemma_fetched_single(texts: Seq<Seq<char>>)
    ensures
        fetched_proxies(seq![texts]) == accepted_lines(lines_of(texts)),
{
    let one = seq![texts];
    assert(one.drop_last() =~= Seq::<Seq<Seq<char>>>::empty());
    assert(one.last() == texts);
    assert(fetched_proxies(one.drop_last()) == Seq::<Seq<char>>::empty());
    assert(fetched_proxies(one) =~= accepted_lines(lines_of(texts)));
}

/// Nothing is fetched from no provider.
pub proof fn lemma_fetched_none()
    ensures
        fetched_proxies(Seq::empty()) == Seq::<Seq<char>>::empty(),
{
}

} // verus!

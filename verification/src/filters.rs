//! Filtering of raw scraped text into proxy addresses.

use vstd::prelude::*;
use crate::pattern::{regex_compiles, regex_is_match, regex_matches};
use crate::text::{
    avoids, join, lemma_split_by_concat, lemma_split_by_pieces_avoid,
    lemma_split_by_single, split_by, split_by_chars, views,
};

verus! {

/// The accepted proxy format: `a.b.c.d:port`, each address part one to three
/// digits and the port one to four.
pub const PROXY_PATTERN: &'static str = r"^\d{1,3}\.\d{1,3}\.\d{1,3}\.\d{1,3}:\d{1,4}$";

/// The characters at which raw text is cut into candidate lines.
pub open spec fn line_breaks() -> Seq<char> {
    seq!['\r', '\n']
}

/// Whether `line` is accepted as a proxy: the pattern compiles and matches.
pub open spec fn is_proxy_line(line: Seq<char>) -> bool {
    regex_compiles(PROXY_PATTERN@) && regex_matches(PROXY_PATTERN@, line)
}

/// All candidate lines of the raw texts, text after text.
pub open spec fn lines_of(texts: Seq<Seq<char>>) -> Seq<Seq<char>>
    decreases texts.len(),
{
    if texts.len() == 0 {
        Seq::empty()
    } else {
        lines_of(texts.drop_last()) + split_by(texts.last(), line_breaks())
    }
}

/// The lines that are accepted as proxies, in the order they come.
pub open spec fn accepted_lines(lines: Seq<Seq<char>>) -> Seq<Seq<char>>
    decreases lines.len(),
{
    if lines.len() == 0 {
        Seq::empty()
    } else {
        let kept = accepted_lines(lines.drop_last());
        if is_proxy_line(lines.last()) {
            kept.push(lines.last())
        } else {
            kept
        }
    }
}

/// Whether a filtered proxy is accepted and, if not, whether it is replaced.
pub struct FilterAction {
    pub accepted: bool,
    pub new_value: Option<String>,
}

/// Filters a single proxy string: it is accepted exactly when it has the
/// proxy format, and it is never rewritten.
pub fn filter_proxy(proxy: String) -> (r: FilterAction)
    ensures
        r.accepted == is_proxy_line(proxy@),
        r.new_value is None,
{
    let matched = regex_is_match(PROXY_PATTERN, proxy.as_str());
    match matched {
        Some(true) => FilterAction { accepted: true, new_value: None },
        _ => FilterAction { accepted: false, new_value: None },
    }
}

/// Cuts the raw texts at line breaks and keeps the lines that have the proxy
/// format, in order.
pub fn filter_all(proxies: Vec<String>) -> (r: Vec<String>)
    ensures
        views(r@) == accepted_lines(lines_of(views(proxies@))),
{
    let seps: Vec<char> = vec!['\r', '\n'];
    assert(seps@ =~= line_breaks());
    let mut splitted_proxies: Vec<String> = Vec::new();
    let mut i: usize = 0;
    while i < proxies.len()
        invariant
            i <= proxies.len(),
            seps@ == line_breaks(),
            views(splitted_proxies@) == lines_of(views(proxies@).take(i as int)),
        decreases proxies.len() - i,
    {
        let mut pieces = split_by_chars(proxies[i].as_str(), &seps);
        let ghost before = splitted_proxies@;
        let ghost added = pieces@;
        splitted_proxies.append(&mut pieces);
        assert(views(proxies@).take(i + 1).drop_last() =~= views(proxies@).take(i as int));
        assert(views(proxies@).take(i + 1).last() == proxies@[i as int]@);
        assert(views(splitted_proxies@) =~= views(before) + views(added));
        i = i + 1;
    }
    assert(views(proxies@).take(proxies.len() as int) =~= views(proxies@));
    let mut filtered_proxies: Vec<String> = Vec::new();
    let mut k: usize = 0;
    while k < splitted_proxies.len()
        invariant
            k <= splitted_proxies.len(),
            views(filtered_proxies@) == accepted_lines(views(splitted_proxies@).take(k as int)),
        decreases splitted_proxies.len() - k,
    {
        let proxy = splitted_proxies[k].clone();
        let ghost before = filtered_proxies@;
        assert(views(splitted_proxies@).take(k + 1).drop_last() =~= views(
            splitted_proxies@,
        ).take(k as int));
        assert(views(splitted_proxies@).take(k + 1).last() == proxy@);
        let filtered = filter_proxy(proxy.clone());
        if filtered.accepted {
            filtered_proxies.push(proxy);
            assert(views(filtered_proxies@) =~= views(before).push(proxy@));
        } else {
            if let Some(new_value) = filtered.new_value {
                filtered_proxies.push(new_value);
            }
        }
        k = k + 1;
    }
    assert(views(splitted_proxies@).take(splitted_proxies.len() as int) =~= views(
        splitted_proxies@,
    ));
    filtered_proxies
}

/// Every line of raw texts is free of line breaks.
proof fn lemma_lines_avoid_breaks(texts: Seq<Seq<char>>)
    ensures
        forall|k: int|
            0 <= k < lines_of(texts).len() ==> avoids(#[trigger] lines_of(texts)[k], line_breaks()),
    decreases texts.len(),
{
    if texts.len() > 0 {
        lemma_lines_avoid_breaks(texts.drop_last());
        lemma_split_by_pieces_avoid(texts.last(), line_breaks());
        let a = lines_of(texts.drop_last());
        let b = split_by(texts.last(), line_breaks());
        assert forall|k: int|
            0 <= k < lines_of(texts).len() implies avoids(#[trigger] lines_of(texts)[k], line_breaks()) by {
            if k < a.len() {
                assert(lines_of(texts)[k] == a[k]);
            } else {
                assert(lines_of(texts)[k] == b[k - a.len()]);
            }
        }
    }
}

/// Lines that are free of line breaks are their own lines.
proof fn lemma_lines_of_broken_lines(lines: Seq<Seq<char>>)
    requires
        forall|k: int| 0 <= k < lines.len() ==> avoids(#[trigger] lines[k], line_breaks()),
    ensures
        lines_of(lines) == lines,
    decreases lines.len(),
{
    if lines.len() > 0 {
        let init = lines.drop_last();
        assert forall|k: int| 0 <= k < init.len() implies avoids(#[trigger] init[k], line_breaks()) by {
            assert(init[k] == lines[k]);
        }
        lemma_lines_of_broken_lines(init);
        assert(avoids(lines[lines.len() - 1], line_breaks()));
        lemma_split_by_single(lines.last(), line_breaks());
        assert(init + seq![lines.last()] =~= lines);
    }
}

/// The accepted lines are accepted proxies, and each keeps every property
/// that all the lines share.
proof fn lemma_accepted_lines_kept(lines: Seq<Seq<char>>)
    ensures
        forall|k: int|
            0 <= k < accepted_lines(lines).len() ==> is_proxy_line(#[trigger] accepted_lines(lines)[k]),
        (forall|k: int| 0 <= k < lines.len() ==> avoids(#[trigger] lines[k], line_breaks()))
            ==> (forall|k: int|
            0 <= k < accepted_lines(lines).len() ==> avoids(
                #[trigger] accepted_lines(lines)[k],
                line_breaks(),
            )),
    decreases lines.len(),
{
    if lines.len() > 0 {
        let init = lines.drop_last();
        lemma_accepted_lines_kept(init);
        let kept = accepted_lines(init);
        let all = accepted_lines(lines);
        assert forall|k: int| 0 <= k < all.len() implies is_proxy_line(#[trigger] all[k]) by {
            if k < kept.len() {
                assert(all[k] == kept[k]);
            }
        }
        if forall|k: int| 0 <= k < lines.len() ==> avoids(#[trigger] lines[k], line_breaks()) {
            assert forall|k: int| 0 <= k < init.len() implies avoids(#[trigger] init[k], line_breaks()) by {
                assert(init[k] == lines[k]);
            }
            assert(avoids(lines[lines.len() - 1], line_breaks()));
            assert forall|k: int| 0 <= k < all.len() implies avoids(#[trigger] all[k], line_breaks()) by {
                if k < kept.len() {
                    assert(all[k] == kept[k]);
                }
            }
        }
    }
}

/// Accepting lines that are all accepted keeps them all.
pub proof fn lemma_accepted_lines_all(lines: Seq<Seq<char>>)
    requires
        forall|k: int| 0 <= k < lines.len() ==> is_proxy_line(#[trigger] lines[k]),
    ensures
        accepted_lines(lines) == lines,
    decreases lines.len(),
{
    if lines.len() > 0 {
        let init = lines.drop_last();
        assert forall|k: int| 0 <= k < init.len() implies is_proxy_line(#[trigger] init[k]) by {
            assert(init[k] == lines[k]);
        }
        lemma_accepted_lines_all(init);
        assert(is_proxy_line(lines[lines.len() - 1]));
        assert(init.push(lines.last()) =~= lines);
    }
}

/// Filtering the output of a filtering changes nothing: every kept line is
/// a single line with the proxy format.
pub proof fn lemma_filter_idempotent(texts: Seq<Seq<char>>)
    ensures
        accepted_lines(lines_of(accepted_lines(lines_of(texts)))) == accepted_lines(
            lines_of(texts),
        ),
{
    let kept = accepted_lines(lines_of(texts));
    lemma_lines_avoid_breaks(texts);
    lemma_accepted_lines_kept(lines_of(texts));
    lemma_lines_of_broken_lines(kept);
    lemma_accepted_lines_all(kept);
}

/// Accepting the lines of two lists is accepting each list's lines.
pub proof fn lemma_accepted_lines_concat(a: Seq<Seq<char>>, b: Seq<Seq<char>>)
    ensures
        accepted_lines(a + b) == accepted_lines(a) + accepted_lines(b),
    decreases b.len(),
{
    if b.len() == 0 {
        assert(a + b =~= a);
        assert(accepted_lines(a) + accepted_lines(b) =~= accepted_lines(a));
    } else {
        lemma_accepted_lines_concat(a, b.drop_last());
        assert((a + b).drop_last() =~= a + b.drop_last());
        assert((a + b).last() == b.last());
        assert(accepted_lines(a + b) =~= accepted_lines(a) + accepted_lines(b));
    }
}

/// The line break `'\n'` is a line break, and so is `'\r'`.
proof fn lemma_line_break_chars()
    ensures
        line_breaks().contains('\n'),
        line_breaks().contains('\r'),
{
    assert(line_breaks()[0] == '\r');
    assert(line_breaks()[1] == '\n');
}

/// The lines of texts joined by `'\n'` are the lines of the texts.
proof fn lemma_lines_of_newline_join(texts: Seq<Seq<char>>)
    requires
        texts.len() >= 1,
    ensures
        split_by(join(texts, seq!['\n']), line_breaks()) == lines_of(texts),
    decreases texts.len(),
{
    lemma_line_break_chars();
    if texts.len() == 1 {
        lemma_lines_of_one(texts[0]);
        assert(seq![texts[0]] =~= texts);
    } else {
        let init = texts.drop_last();
        lemma_lines_of_newline_join(init);
        lemma_split_by_concat(join(init, seq!['\n']), '\n', texts.last(), line_breaks());
    }
}

/// The lines of texts joined by `"\r\n"` are the lines of the texts with
/// an empty line where two texts meet.
proof fn lemma_accepted_crlf_join(texts: Seq<Seq<char>>)
    requires
        texts.len() >= 1,
        !is_proxy_line(Seq::empty()),
    ensures
        accepted_lines(split_by(join(texts, seq!['\r', '\n']), line_breaks())) == accepted_lines(
            lines_of(texts),
        ),
    decreases texts.len(),
{
    lemma_line_break_chars();
    if texts.len() == 1 {
        lemma_lines_of_one(texts[0]);
        assert(seq![texts[0]] =~= texts);
    } else {
        let init = texts.drop_last();
        lemma_accepted_crlf_join(init);
        let j = join(init, seq!['\r', '\n']);
        let jr = j.push('\r');
        assert(join(texts, seq!['\r', '\n']) =~= jr + seq!['\n'] + texts.last());
        lemma_split_by_concat(jr, '\n', texts.last(), line_breaks());
        assert(jr.drop_last() =~= j);
        assert(split_by(jr, line_breaks()) == split_by(j, line_breaks()).push(Seq::empty()));
        let sj = split_by(j, line_breaks());
        let sl = split_by(texts.last(), line_breaks());
        assert(sj.push(Seq::<char>::empty()) + sl =~= sj + (seq![Seq::<char>::empty()] + sl));
        lemma_accepted_lines_concat(sj, seq![Seq::<char>::empty()] + sl);
        lemma_accepted_lines_concat(seq![Seq::<char>::empty()], sl);
        let e = seq![Seq::<char>::empty()];
        assert(e.drop_last() =~= Seq::<Seq<char>>::empty());
        assert(e.last() == Seq::<char>::empty());
        assert(accepted_lines(e.drop_last()) == Seq::<Seq<char>>::empty());
        assert(accepted_lines(e) == accepted_lines(e.drop_last()));
        assert(accepted_lines(e) =~= Seq::<Seq<char>>::empty());
        assert(Seq::<Seq<char>>::empty() + accepted_lines(sl) =~= accepted_lines(sl));
        lemma_accepted_lines_concat(lines_of(init), sl);
    }
}

/// The lines of a single text are the pieces of that text.
pub proof fn lemma_lines_of_one(t: Seq<char>)
    ensures
        lines_of(seq![t]) == split_by(t, line_breaks()),
{
    let one = seq![t];
    assert(one.drop_last() =~= Seq::<Seq<char>>::empty());
    assert(one.last() == t);
    assert(lines_of(one.drop_last()) == Seq::<Seq<char>>::empty());
    assert(lines_of(one) == lines_of(one.drop_last()) + split_by(t, line_breaks()));
    assert(lines_of(one) =~= split_by(t, line_breaks()));
}

/// Filtering the texts joined by `'\n'` into one text keeps what filtering
/// the texts does. With no texts at all, the joined text is one empty line,
/// so this also needs the empty line to be rejected.
pub proof fn lemma_filter_newline_join(texts: Seq<Seq<char>>)
    requires
        texts.len() >= 1 || !is_proxy_line(Seq::empty()),
    ensures
        accepted_lines(lines_of(seq![join(texts, seq!['\n'])])) == accepted_lines(
            lines_of(texts),
        ),
{
    lemma_lines_of_one(join(texts, seq!['\n']));
    if texts.len() >= 1 {
        lemma_lines_of_newline_join(texts);
    } else {
        assert(join(texts, seq!['\n']) == Seq::<char>::empty());
        assert(split_by(Seq::<char>::empty(), line_breaks()) =~= seq![Seq::<char>::empty()]);
        assert(seq![Seq::<char>::empty()].drop_last() =~= Seq::<Seq<char>>::empty());
    }
}

/// Filtering the texts joined by `"\r\n"` into one text keeps what
/// filtering the texts does, provided the empty line is rejected (the pair
/// cuts out an empty line where two texts meet).
pub proof fn lemma_filter_crlf_join(texts: Seq<Seq<char>>)
    requires
        !is_proxy_line(Seq::empty()),
    ensures
        accepted_lines(lines_of(seq![join(texts, seq!['\r', '\n'])])) == accepted_lines(
            lines_of(texts),
        ),
{
    lemma_lines_of_one(join(texts, seq!['\r', '\n']));
    if texts.len() >= 1 {
        lemma_accepted_crlf_join(texts);
    } else {
        assert(join(texts, seq!['\r', '\n']) == Seq::<char>::empty());
        assert(split_by(Seq::<char>::empty(), line_breaks()) =~= seq![Seq::<char>::empty()]);
        assert(seq![Seq::<char>::empty()].drop_last() =~= Seq::<Seq<char>>::empty());
    }
}

/// Adding a line at the end keeps it exactly when it has the proxy format,
/// and leaves the lines kept before unchanged.
pub proof fn lemma_accepted_lines_push(lines: Seq<Seq<char>>, line: Seq<char>)
    ensures
        is_proxy_line(line) ==> accepted_lines(lines.push(line)) == accepted_lines(lines).push(line),
        !is_proxy_line(line) ==> accepted_lines(lines.push(line)) == accepted_lines(lines),
{
    assert(lines.push(line).drop_last() =~= lines);
    assert(lines.push(line).last() == line);
}

/// No line comes out of no lines.
pub proof fn lemma_accepted_lines_empty()
    ensures
        accepted_lines(Seq::empty()) == Seq::<Seq<char>>::empty(),
        lines_of(Seq::empty()) == Seq::<Seq<char>>::empty(),
{
}

/// The lines of texts put one after the other are the lines of each.
pub proof fn lemma_lines_of_concat(a: Seq<Seq<char>>, b: Seq<Seq<char>>)
    ensures
        lines_of(a + b) == lines_of(a) + lines_of(b),
    decreases b.len(),
{
    if b.len() == 0 {
        assert(a + b =~= a);
        assert(lines_of(a) + lines_of(b) =~= lines_of(a));
    } else {
        lemma_lines_of_concat(a, b.drop_last());
        assert((a + b).drop_last() =~= a + b.drop_last());
        assert((a + b).last() == b.last());
        assert(lines_of(a + b) =~= lines_of(a) + lines_of(b));
    }
}

/// No more lines are kept than there are, and every kept line has the proxy
/// format.
pub proof fn lemma_accepted_lines_are_proxies(lines: Seq<Seq<char>>)
    ensures
        accepted_lines(lines).len() <= lines.len(),
        forall|k: int|
            0 <= k < accepted_lines(lines).len() ==> is_proxy_line(#[trigger] accepted_lines(lines)[k]),
    decreases lines.len(),
{
    lemma_accepted_lines_kept(lines);
    if lines.len() > 0 {
        lemma_accepted_lines_are_proxies(lines.drop_last());
    }
}

} // verus!

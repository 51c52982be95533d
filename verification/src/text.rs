//! Character-level text utilities shared by the protocol and the filters.

use vstd::prelude::*;

verus! {

/// `String::push` appends one character.
pub assume_specification[ String::push ](s: &mut String, ch: char)
    ensures
        final(s)@ == old(s)@.push(ch),
;

/// The characters of `s`, in order.
pub fn chars_of(s: &str) -> (r: Vec<char>)
    ensures
        r@ == s@,
{
    let mut r: Vec<char> = Vec::new();
    for c in it: s.chars()
        invariant
            it.seq() == s@,
            r@ == it.seq().take(it.index()),
    {
        r.push(c);
    }
    r
}


/// The view of an optional string.
pub open spec fn option_view(s: Option<String>) -> Option<Seq<char>> {
    match s {
        Some(v) => Some(v@),
        None => None,
    }
}

/// The views of a sequence of strings.
pub open spec fn views(v: Seq<String>) -> Seq<Seq<char>> {
    v.map_values(|x: String| x@)
}

/// The pieces of `s` between occurrences of any character of `seps`, in
/// order, empty pieces included: `""` has one (empty) piece, and a separator
/// at either end yields an empty piece there.
pub open spec fn split_by(s: Seq<char>, seps: Seq<char>) -> Seq<Seq<char>>
    decreases s.len(),
{
    if s.len() == 0 {
        seq![Seq::empty()]
    } else {
        let rest = split_by(s.drop_last(), seps);
        if seps.contains(s.last()) {
            rest.push(Seq::empty())
        } else {
            rest.update(rest.len() - 1, rest.last().push(s.last()))
        }
    }
}

/// Whether `s` holds none of the characters of `seps`.
pub open spec fn avoids(s: Seq<char>, seps: Seq<char>) -> bool {
    forall|i: int| 0 <= i < s.len() ==> !seps.contains(#[trigger] s[i])
}

/// No piece of a split holds a separator.
pub proof fn lemma_split_by_pieces_avoid(s: Seq<char>, seps: Seq<char>)
    ensures
        forall|k: int|
            0 <= k < split_by(s, seps).len() ==> avoids(#[trigger] split_by(s, seps)[k], seps),
    decreases s.len(),
{
    if s.len() > 0 {
        lemma_split_by_pieces_avoid(s.drop_last(), seps);
        lemma_split_by_nonempty(s.drop_last(), seps);
        let rest = split_by(s.drop_last(), seps);
        if !seps.contains(s.last()) {
            let last = rest.last().push(s.last());
            assert(avoids(rest[rest.len() - 1], seps));
            assert forall|i: int| 0 <= i < last.len() implies !seps.contains(#[trigger] last[i]) by {
                if i < last.len() - 1 {
                    assert(last[i] == rest[rest.len() - 1][i]);
                }
            }
        }
        assert forall|k: int|
            0 <= k < split_by(s, seps).len() implies avoids(#[trigger] split_by(s, seps)[k], seps) by {
            if k < rest.len() - 1 {
                assert(split_by(s, seps)[k] == rest[k]);
            } else if k == rest.len() - 1 && seps.contains(s.last()) {
                assert(split_by(s, seps)[k] == rest[k]);
            }
        }
    }
}

/// Splitting always yields at least one piece.
pub proof fn lemma_split_by_nonempty(s: Seq<char>, seps: Seq<char>)
    ensures
        split_by(s, seps).len() >= 1,
    decreases s.len(),
{
    if s.len() > 0 {
        lemma_split_by_nonempty(s.drop_last(), seps);
    }
}

/// A separator splits the text into the pieces before it and the pieces
/// after it.
pub proof fn lemma_split_by_concat(a: Seq<char>, c: char, b: Seq<char>, seps: Seq<char>)
    requires
        seps.contains(c),
    ensures
        split_by(a + seq![c] + b, seps) == split_by(a, seps) + split_by(b, seps),
    decreases b.len(),
{
    if b.len() == 0 {
        assert(a + seq![c] + b =~= a + seq![c]);
        assert((a + seq![c]).drop_last() =~= a);
        assert(split_by(b, seps) =~= seq![Seq::<char>::empty()]);
        assert(split_by(a + seq![c] + b, seps) =~= split_by(a, seps) + split_by(b, seps));
    } else {
        let b1 = b.drop_last();
        lemma_split_by_concat(a, c, b1, seps);
        lemma_split_by_nonempty(b1, seps);
        lemma_split_by_nonempty(a, seps);
        assert((a + seq![c] + b).drop_last() =~= a + seq![c] + b1);
        assert((a + seq![c] + b).last() == b.last());
        assert(split_by(a + seq![c] + b, seps) =~= split_by(a, seps) + split_by(b, seps));
    }
}

/// A text without separators is a single piece.
pub proof fn lemma_split_by_single(b: Seq<char>, seps: Seq<char>)
    requires
        avoids(b, seps),
    ensures
        split_by(b, seps) == seq![b],
    decreases b.len(),
{
    if b.len() == 0 {
        assert(b =~= Seq::<char>::empty());
    } else {
        let b1 = b.drop_last();
        assert forall|i: int| 0 <= i < b1.len() implies !seps.contains(#[trigger] b1[i]) by {
            assert(b1[i] == b[i]);
        }
        assert(avoids(b1, seps));
        lemma_split_by_single(b1, seps);
        assert(!seps.contains(b[b.len() - 1]));
        assert(b1.push(b.last()) =~= b);
        let rest = split_by(b1, seps);
        assert(split_by(b, seps) == rest.update(rest.len() - 1, rest.last().push(b.last())));
        assert(rest.update(rest.len() - 1, rest.last().push(b.last())) =~= seq![b]);
    }
}

/// Splitting a join at its separator gives back the parts, when the
/// separator is a single separator character that no part holds.
pub proof fn lemma_split_join(parts: Seq<Seq<char>>, c: char, seps: Seq<char>)
    requires
        parts.len() >= 1,
        seps.contains(c),
        forall|k: int| 0 <= k < parts.len() ==> avoids(#[trigger] parts[k], seps),
    ensures
        split_by(join(parts, seq![c]), seps) == parts,
    decreases parts.len(),
{
    if parts.len() == 1 {
        assert(avoids(parts[0], seps));
        lemma_split_by_single(parts[0], seps);
        assert(seq![parts[0]] =~= parts);
    } else {
        let init = parts.drop_last();
        assert forall|k: int| 0 <= k < init.len() implies avoids(#[trigger] init[k], seps) by {
            assert(init[k] == parts[k]);
        }
        lemma_split_join(init, c, seps);
        lemma_split_by_concat(join(init, seq![c]), c, parts.last(), seps);
        assert(avoids(parts[parts.len() - 1], seps));
        lemma_split_by_single(parts.last(), seps);
        assert(init + seq![parts.last()] =~= parts);
    }
}

/// A join avoids a character that neither the parts nor the separator hold.
pub proof fn lemma_join_avoids(parts: Seq<Seq<char>>, sep: Seq<char>, c: char)
    requires
        forall|k: int| 0 <= k < parts.len() ==> !(#[trigger] parts[k]).contains(c),
        !sep.contains(c),
    ensures
        !join(parts, sep).contains(c),
    decreases parts.len(),
{
    if parts.len() == 0 {
    } else if parts.len() == 1 {
        assert(!parts[0].contains(c));
    } else {
        let p1 = parts.drop_last();
        assert forall|k: int| 0 <= k < p1.len() implies !(#[trigger] p1[k]).contains(c) by {
            assert(p1[k] == parts[k]);
        }
        lemma_join_avoids(p1, sep, c);
        let j = join(parts, sep);
        assert(!parts[parts.len() - 1].contains(c));
        if j.contains(c) {
            let i = choose|i: int| 0 <= i < j.len() && j[i] == c;
            let l1 = join(p1, sep).len();
            if i < l1 {
                assert(join(p1, sep)[i] == c);
            } else if i < l1 + sep.len() {
                assert(sep[i - l1] == c);
            } else {
                assert(parts.last()[i - l1 - sep.len()] == c);
            }
        }
    }
}

/// The empty text is one empty piece; a separator at the end starts a new
/// empty piece; any other character at the end extends the last piece.
pub proof fn lemma_split_by_steps(s: Seq<char>, c: char, seps: Seq<char>)
    ensures
        split_by(Seq::empty(), seps) == seq![Seq::<char>::empty()],
        seps.contains(c) ==> split_by(s.push(c), seps) == split_by(s, seps).push(Seq::empty()),
        !seps.contains(c) ==> split_by(s.push(c), seps) == split_by(s, seps).update(
            split_by(s, seps).len() - 1,
            split_by(s, seps).last().push(c),
        ),
        split_by(s.push(c), seps).len() == split_by(s, seps).len() + (if seps.contains(c) {
            1int
        } else {
            0int
        }),
{
    lemma_split_by_nonempty(s, seps);
    assert(s.push(c).drop_last() =~= s);
    assert(s.push(c).last() == c);
}

/// A single part is its own join; one more part adds the separator and the
/// part at the end.
pub proof fn lemma_join_steps(parts: Seq<Seq<char>>, p: Seq<char>, sep: Seq<char>)
    ensures
        join(Seq::empty(), sep) == Seq::<char>::empty(),
        join(seq![p], sep) == p,
        parts.len() >= 1 ==> join(parts.push(p), sep) == join(parts, sep) + sep + p,
{
    assert(parts.push(p).drop_last() =~= parts);
    assert(parts.push(p).last() == p);
}

/// Whether `c` occurs in `v`.
pub fn contains_char(v: &Vec<char>, c: char) -> (r: bool)
    ensures
        r == v@.contains(c),
{
    let mut i: usize = 0;
    while i < v.len()
        invariant
            i <= v.len(),
            forall|j: int| 0 <= j < i ==> v@[j] != c,
        decreases v.len() - i,
    {
        if v[i] == c {
            return true;
        }
        i = i + 1;
    }
    false
}

/// Splits `s` at every character of `seps` (as `str::split` with a
/// character predicate does).
pub fn split_by_chars(s: &str, seps: &Vec<char>) -> (r: Vec<String>)
    ensures
        views(r@) == split_by(s@, seps@),
{
    let cs = chars_of(s);
    let mut pieces: Vec<String> = Vec::new();
    let mut cur = String::new();
    let mut i: usize = 0;
    assert(s@.take(0) =~= Seq::<char>::empty());
    assert(views(pieces@).push(cur@) =~= split_by(s@.take(0), seps@));
    while i < cs.len()
        invariant
            cs@ == s@,
            i <= cs.len(),
            views(pieces@).push(cur@) == split_by(s@.take(i as int), seps@),
        decreases cs.len() - i,
    {
        let c = cs[i];
        let ghost before = views(pieces@);
        let ghost old_cur = cur@;
        assert(s@.take(i + 1).drop_last() =~= s@.take(i as int));
        assert(s@.take(i + 1).last() == c);
        if contains_char(seps, c) {
            let done = cur;
            pieces.push(done);
            cur = String::new();
            assert(views(pieces@) =~= before.push(old_cur));
            assert(views(pieces@).push(cur@) =~= before.push(old_cur).push(Seq::empty()));
        } else {
            cur.push(c);
            assert(views(pieces@) =~= before);
            assert(views(pieces@).push(cur@) =~= before.push(old_cur).update(
                before.len() as int,
                old_cur.push(c),
            ));
        }
        i = i + 1;
    }
    assert(s@.take(cs.len() as int) =~= s@);
    pieces.push(cur);
    assert(views(pieces@) =~= split_by(s@, seps@));
    pieces
}


/// The pieces of `parts` with `sep` between consecutive ones.
pub open spec fn join(parts: Seq<Seq<char>>, sep: Seq<char>) -> Seq<char>
    decreases parts.len(),
{
    if parts.len() == 0 {
        Seq::empty()
    } else if parts.len() == 1 {
        parts[0]
    } else {
        join(parts.drop_last(), sep) + sep + parts.last()
    }
}

/// Joins `parts` with `sep` between consecutive ones.
pub fn join_strings(parts: &Vec<String>, sep: &str) -> (r: String)
    ensures
        r@ == join(views(parts@), sep@),
{
    let mut r = String::new();
    let mut i: usize = 0;
    while i < parts.len()
        invariant
            i <= parts.len(),
            r@ == join(views(parts@).take(i as int), sep@),
        decreases parts.len() - i,
    {
        assert(views(parts@).take(i + 1).drop_last() =~= views(parts@).take(i as int));
        if i == 0 {
            r.append(parts[i].as_str());
        } else {
            r.append(sep);
            r.append(parts[i].as_str());
        }
        i = i + 1;
    }
    assert(views(parts@).take(parts.len() as int) =~= views(parts@));
    r
}

/// Whether `a` and `b` hold the same characters.
pub fn str_equal(a: &str, b: &str) -> (r: bool)
    ensures
        r == (a@ == b@),
{
    let x = chars_of(a);
    let y = chars_of(b);
    if x.len() != y.len() {
        return false;
    }
    let mut i: usize = 0;
    while i < x.len()
        invariant
            x@ == a@,
            y@ == b@,
            x.len() == y.len(),
            i <= x.len(),
            forall|j: int| 0 <= j < i ==> x@[j] == y@[j],
        decreases x.len() - i,
    {
        if x[i] != y[i] {
            return false;
        }
        i = i + 1;
    }
    assert(a@ =~= b@);
    true
}

} // verus!

//! Text helpers over Unicode scalar sequences: character access, equality,
//! prefix and suffix tests, whitespace trimming and splitting on a separator.

use vstd::prelude::*;

verus! {

/// The characters of `s`, in order.
pub fn chars_of(s: &str) -> (v: Vec<char>)
    ensures
        v@ == s@,
{
    let mut v: Vec<char> = Vec::new();
    for c in it: s.chars()
        invariant
            v@ == it.seq().take(it.index() as int),
            it.seq() == s@,
    {
        v.push(c);
    }
    v
}

/// Whether two strings hold the same characters.
pub fn str_eq(a: &str, b: &str) -> (r: bool)
    ensures
        r == (a@ == b@),
{
    let va = chars_of(a);
    let vb = chars_of(b);
    if va.len() != vb.len() {
        return false;
    }
    let mut i: usize = 0;
    while i < va.len()
        invariant
            va@ == a@,
            vb@ == b@,
            va.len() == vb.len(),
            i <= va.len(),
            forall|j: int| 0 <= j < i ==> va@[j] == vb@[j],
        decreases va.len() - i,
    {
        if va[i] != vb[i] {
            return false;
        }
        i = i + 1;
    }
    assert(va@ =~= vb@);
    true
}

/// `c` is White_Space in the Unicode Character Database, the set that
/// `char::is_whitespace` tests for.
pub open spec fn is_unicode_whitespace(c: char) -> bool {
    let u = c as u32;
    (0x09 <= u <= 0x0D) || u == 0x20 || u == 0x85 || u == 0xA0 || u == 0x1680 || (0x2000 <= u
        <= 0x200A) || u == 0x2028 || u == 0x2029 || u == 0x202F || u == 0x205F || u == 0x3000
}

/// Whether `c` is Unicode whitespace.
pub fn is_whitespace(c: char) -> (r: bool)
    ensures
        r == is_unicode_whitespace(c),
{
    let u = c as u32;
    (0x09 <= u && u <= 0x0D) || u == 0x20 || u == 0x85 || u == 0xA0 || u == 0x1680 || (0x2000 <= u
        && u <= 0x200A) || u == 0x2028 || u == 0x2029 || u == 0x202F || u == 0x205F || u == 0x3000
}

/// The whitespace characters are exactly the Unicode `White_Space` set,
/// named one by one: tab, line feed, line tabulation, form feed, carriage
/// return, space, next line, no-break space, ogham space mark, the eleven
/// spaces from en quad to hair space, line separator, paragraph separator,
/// narrow no-break space, medium mathematical space and ideographic space.
pub proof fn law_whitespace_is_unicode_white_space(c: char)
    ensures
        is_unicode_whitespace(c) <==> (c == '\t' || c == '\n' || c == '\u{0B}' || c == '\u{0C}'
            || c == '\r' || c == ' ' || c == '\u{85}' || c == '\u{A0}' || c == '\u{1680}' || c
            == '\u{2000}' || c == '\u{2001}' || c == '\u{2002}' || c == '\u{2003}' || c == '\u{2004}'
            || c == '\u{2005}' || c == '\u{2006}' || c == '\u{2007}' || c == '\u{2008}' || c
            == '\u{2009}' || c == '\u{200A}' || c == '\u{2028}' || c == '\u{2029}' || c == '\u{202F}'
            || c == '\u{205F}' || c == '\u{3000}'),
{
}

/// The index of the first character of `s` that is not whitespace, or
/// `s.len()` when every character is.
pub open spec fn trim_start_index(s: Seq<char>) -> int
    decreases s.len(),
{
    if s.len() == 0 {
        0
    } else if is_unicode_whitespace(s[0]) {
        1 + trim_start_index(s.drop_first())
    } else {
        0
    }
}

/// The length of `s` without its trailing whitespace.
pub open spec fn trim_end_index(s: Seq<char>) -> int
    decreases s.len(),
{
    if s.len() == 0 {
        0
    } else if is_unicode_whitespace(s.last()) {
        trim_end_index(s.drop_last())
    } else {
        s.len() as int
    }
}

/// `s` without leading and trailing whitespace (what `str::trim` returns).
pub open spec fn trim_spec(s: Seq<char>) -> Seq<char> {
    let e = trim_end_index(s);
    s.subrange(trim_start_index(s.take(e)), e)
}

proof fn lemma_trim_start_index(s: Seq<char>, i: int)
    requires
        0 <= i <= s.len(),
        forall|j: int| 0 <= j < i ==> is_unicode_whitespace(#[trigger] s[j]),
    ensures
        trim_start_index(s) == i + trim_start_index(s.subrange(i, s.len() as int)),
    decreases i,
{
    if i > 0 {
        lemma_trim_start_index(s.drop_first(), i - 1);
        assert(s.drop_first().subrange(i - 1, s.drop_first().len() as int) =~= s.subrange(
            i,
            s.len() as int,
        ));
    } else {
        assert(s.subrange(0, s.len() as int) =~= s);
    }
}

proof fn lemma_trim_end_index(s: Seq<char>, e: int)
    requires
        0 <= e <= s.len(),
        forall|j: int| e <= j < s.len() ==> is_unicode_whitespace(#[trigger] s[j]),
    ensures
        trim_end_index(s) == trim_end_index(s.take(e)),
    decreases s.len() - e,
{
    if e < s.len() {
        assert(s.drop_last().take(e) =~= s.take(e));
        lemma_trim_end_index(s.drop_last(), e);
    } else {
        assert(s.take(e) =~= s);
    }
}

proof fn lemma_trim_bounds(s: Seq<char>)
    ensures
        0 <= trim_start_index(s) <= s.len(),
        0 <= trim_end_index(s) <= s.len(),
    decreases s.len(),
{
    if s.len() > 0 {
        lemma_trim_bounds(s.drop_first());
        lemma_trim_bounds(s.drop_last());
    }
}

proof fn lemma_trim_end_props(s: Seq<char>)
    ensures
        0 <= trim_end_index(s) <= s.len(),
        forall|k: int| trim_end_index(s) <= k < s.len() ==> is_unicode_whitespace(#[trigger] s[k]),
        trim_end_index(s) > 0 ==> !is_unicode_whitespace(s[trim_end_index(s) - 1]),
    decreases s.len(),
{
    if s.len() > 0 && is_unicode_whitespace(s.last()) {
        let t = s.drop_last();
        lemma_trim_end_props(t);
        assert forall|k: int| trim_end_index(s) <= k < s.len() implies is_unicode_whitespace(
            #[trigger] s[k],
        ) by {
            if k < t.len() {
                assert(s[k] == t[k]);
            }
        }
        if trim_end_index(s) > 0 {
            assert(s[trim_end_index(s) - 1] == t[trim_end_index(t) - 1]);
        }
    }
}

proof fn lemma_trim_start_props(s: Seq<char>)
    ensures
        0 <= trim_start_index(s) <= s.len(),
        forall|k: int| 0 <= k < trim_start_index(s) ==> is_unicode_whitespace(#[trigger] s[k]),
        trim_start_index(s) < s.len() ==> !is_unicode_whitespace(s[trim_start_index(s)]),
    decreases s.len(),
{
    if s.len() > 0 && is_unicode_whitespace(s[0]) {
        let t = s.drop_first();
        lemma_trim_start_props(t);
        assert forall|k: int| 0 <= k < trim_start_index(s) implies is_unicode_whitespace(
            #[trigger] s[k],
        ) by {
            if k > 0 {
                assert(s[k] == t[k - 1]);
            }
        }
        if trim_start_index(s) < s.len() {
            assert(s[trim_start_index(s)] == t[trim_start_index(t)]);
        }
    }
}

/// Trimming keeps the stretch of `s` between its leading and its trailing
/// whitespace: only whitespace comes before and after the result in `s`,
/// and the result neither starts nor ends with whitespace.
pub proof fn law_trim_strips_whitespace(s: Seq<char>)
    ensures
        exists|i: int, j: int|
            0 <= i <= j <= s.len() && trim_spec(s) == s.subrange(i, j) && (forall|k: int|
                0 <= k < i ==> is_unicode_whitespace(#[trigger] s[k])) && (forall|k: int|
                j <= k < s.len() ==> is_unicode_whitespace(#[trigger] s[k])),
        trim_spec(s).len() > 0 ==> !is_unicode_whitespace(trim_spec(s)[0])
            && !is_unicode_whitespace(trim_spec(s).last()),
{
    lemma_trim_end_props(s);
    let e = trim_end_index(s);
    let x = s.take(e);
    lemma_trim_start_props(x);
    let i = trim_start_index(x);
    assert forall|k: int| 0 <= k < i implies is_unicode_whitespace(#[trigger] s[k]) by {
        assert(s[k] == x[k]);
    }
    assert(trim_spec(s) == s.subrange(i, e));
    if i < e {
        assert(trim_spec(s)[0] == x[i]);
        assert(trim_spec(s).last() == s[e - 1]);
    }
}

/// Trimming ignores a trailing CR LF: text read with a Windows line ending
/// trims to the same text as without it.
pub proof fn law_trim_ignores_crlf(s: Seq<char>)
    ensures
        trim_spec(s.push('\r').push('\n')) == trim_spec(s),
{
    let t = s.push('\r').push('\n');
    assert(t[s.len() as int] == '\r' && t[s.len() as int + 1] == '\n');
    assert(is_unicode_whitespace('\r') && is_unicode_whitespace('\n'));
    lemma_trim_end_index(t, s.len() as int);
    assert(t.take(s.len() as int) =~= s);
    lemma_trim_bounds(s);
    let e = trim_end_index(s);
    assert(t.take(e) =~= s.take(e));
    lemma_trim_bounds(s.take(e));
    assert(t.subrange(trim_start_index(s.take(e)), e) =~= s.subrange(trim_start_index(s.take(e)), e));
}

/// `s` without leading and trailing Unicode whitespace.
pub fn trim(s: &str) -> (r: String)
    ensures
        r@ == trim_spec(s@),
{
    let v = chars_of(s);
    let mut e: usize = v.len();
    while e > 0 && is_whitespace(v[e - 1])
        invariant
            v@ == s@,
            e <= v.len(),
            forall|j: int| e <= j < v.len() ==> is_unicode_whitespace(#[trigger] v@[j]),
        decreases e,
    {
        e = e - 1;
    }
    proof {
        lemma_trim_end_index(v@, e as int);
        assert(trim_end_index(v@.take(e as int)) == e as int) by {
            if e > 0 {
                assert(v@.take(e as int).last() == v@[e - 1]);
            }
        }
    }
    let mut b: usize = 0;
    while b < e && is_whitespace(v[b])
        invariant
            v@ == s@,
            b <= e <= v.len(),
            forall|j: int| 0 <= j < b ==> is_unicode_whitespace(#[trigger] v@[j]),
        decreases e - b,
    {
        b = b + 1;
    }
    proof {
        let t = v@.take(e as int);
        assert forall|j: int| 0 <= j < b implies is_unicode_whitespace(#[trigger] t[j]) by {
            assert(t[j] == v@[j]);
        }
        lemma_trim_start_index(t, b as int);
        let rest = t.subrange(b as int, t.len() as int);
        if rest.len() > 0 {
            assert(rest[0] == v@[b as int]);
        }
        assert(trim_start_index(rest) == 0);
    }
    s.substring_char(b, e).to_string()
}

} // verus!

verus! {

/// The pieces of `s` between occurrences of `sep`, in order, empty pieces
/// included (what `str::split` with a character yields).
pub open spec fn split_spec(s: Seq<char>, sep: char) -> Seq<Seq<char>>
    decreases s.len(),
{
    if s.len() == 0 {
        seq![Seq::empty()]
    } else {
        let init = split_spec(s.drop_last(), sep);
        if s.last() == sep {
            init.push(Seq::empty())
        } else {
            init.update(init.len() - 1, init.last().push(s.last()))
        }
    }
}

proof fn lemma_split_nonempty(s: Seq<char>, sep: char)
    ensures
        split_spec(s, sep).len() >= 1,
    decreases s.len(),
{
    if s.len() > 0 {
        lemma_split_nonempty(s.drop_last(), sep);
    }
}

proof fn lemma_join_push(p: Seq<Seq<char>>, sep: Seq<char>, x: Seq<char>)
    requires
        p.len() >= 1,
    ensures
        join_spec(p.push(x), sep) == join_spec(p, sep) + sep + x,
{
    assert(p.push(x).drop_last() =~= p);
}

proof fn lemma_join_extend_last(p: Seq<Seq<char>>, sep: Seq<char>, c: char)
    requires
        p.len() >= 1,
    ensures
        join_spec(p.update(p.len() - 1, p.last().push(c)), sep) == join_spec(p, sep).push(c),
{
    let q = p.update(p.len() - 1, p.last().push(c));
    if p.len() == 1 {
        assert(q[0] == p[0].push(c));
    } else {
        assert(q.drop_last() =~= p.drop_last());
        assert(q.last() == p.last().push(c));
        assert(join_spec(p.drop_last(), sep) + sep + p.last().push(c) =~= (join_spec(
            p.drop_last(),
            sep,
        ) + sep + p.last()).push(c));
    }
}

/// Splitting on `sep` cuts the text at every `sep` and nowhere else: the
/// pieces, joined with `sep` between each two, give back the text, and no
/// piece holds `sep`.
pub proof fn law_split_joins_back(s: Seq<char>, sep: char)
    ensures
        join_spec(split_spec(s, sep), seq![sep]) == s,
        forall|k: int|
            0 <= k < split_spec(s, sep).len() ==> !(#[trigger] split_spec(s, sep)[k]).contains(sep),
    decreases s.len(),
{
    if s.len() == 0 {
        assert(split_spec(s, sep)[0] =~= Seq::<char>::empty());
        assert(join_spec(split_spec(s, sep), seq![sep]) =~= s);
    } else {
        let t = s.drop_last();
        let c = s.last();
        law_split_joins_back(t, sep);
        lemma_split_nonempty(t, sep);
        let init = split_spec(t, sep);
        assert(t.push(c) =~= s);
        if c == sep {
            lemma_join_push(init, seq![sep], Seq::empty());
            assert(join_spec(init, seq![sep]) + seq![sep] + Seq::<char>::empty() =~= s);
            assert forall|k: int|
                0 <= k < split_spec(s, sep).len() implies !(#[trigger] split_spec(s, sep)[k]).contains(
                sep,
            ) by {
                if k < init.len() {
                    assert(split_spec(s, sep)[k] == init[k]);
                } else {
                    assert(split_spec(s, sep)[k] =~= Seq::<char>::empty());
                }
            }
        } else {
            lemma_join_extend_last(init, seq![sep], c);
            assert forall|k: int|
                0 <= k < split_spec(s, sep).len() implies !(#[trigger] split_spec(s, sep)[k]).contains(
                sep,
            ) by {
                if k < init.len() - 1 {
                    assert(split_spec(s, sep)[k] == init[k]);
                } else {
                    let last = init.last().push(c);
                    assert(split_spec(s, sep)[k] == last);
                    assert(!init[init.len() - 1].contains(sep));
                    if last.contains(sep) {
                        let m = choose|m: int| 0 <= m < last.len() && last[m] == sep;
                        assert(init.last()[m] == sep);
                    }
                }
            }
        }
    }
}

/// The pieces of `s` between occurrences of `sep`.
pub fn split_on(s: &str, sep: char) -> (r: Vec<String>)
    ensures
        r@.map_values(|p: String| p@) == split_spec(s@, sep),
{
    let v = chars_of(s);
    let mut pieces: Vec<String> = Vec::new();
    let mut start: usize = 0;
    let mut i: usize = 0;
    assert(s@.take(0) =~= Seq::<char>::empty());
    assert(pieces@.map_values(|p: String| p@).push(s@.subrange(0, 0)) =~= seq![Seq::<char>::empty()]);
    while i < v.len()
        invariant
            v@ == s@,
            start <= i <= v.len(),
            split_spec(s@.take(i as int), sep) == pieces@.map_values(|p: String| p@).push(
                s@.subrange(start as int, i as int),
            ),
            forall|j: int| start <= j < i ==> s@[j] != sep,
        decreases v.len() - i,
    {
        let ghost before = pieces@.map_values(|p: String| p@);
        proof {
            assert(s@.take(i + 1).drop_last() =~= s@.take(i as int));
            assert(s@.take(i + 1).last() == s@[i as int]);
        }
        if v[i] == sep {
            let piece = s.substring_char(start, i).to_string();
            let ghost piece_view = s@.subrange(start as int, i as int);
            pieces.push(piece);
            start = i + 1;
            proof {
                assert(pieces@.map_values(|p: String| p@) =~= before.push(piece_view));
                assert(s@.subrange(start as int, i + 1) =~= Seq::<char>::empty());
            }
        } else {
            proof {
                assert(s@.subrange(start as int, i + 1) =~= s@.subrange(start as int, i as int).push(
                    s@[i as int],
                ));
            }
        }
        i = i + 1;
    }
    assert(s@.take(v.len() as int) =~= s@);
    pieces.push(s.substring_char(start, v.len()).to_string());
    assert(pieces@.map_values(|p: String| p@) =~= split_spec(s@, sep));
    pieces
}

} // verus!

verus! {

/// `p` without one trailing carriage return.
pub open spec fn strip_cr(p: Seq<char>) -> Seq<char> {
    if p.len() > 0 && p.last() == '\r' {
        p.drop_last()
    } else {
        p
    }
}

/// The lines of `s`, as `str::lines` yields them: the text is cut after
/// each line feed, a final line feed adds no empty line, and each line loses
/// its line feed and a carriage return just before it.
pub open spec fn lines_spec(s: Seq<char>) -> Seq<Seq<char>> {
    if s.len() == 0 {
        Seq::empty()
    } else if s.last() == '\n' {
        split_spec(s, '\n').drop_last().map_values(|p: Seq<char>| strip_cr(p))
    } else {
        let pieces = split_spec(s, '\n');
        pieces.drop_last().map_values(|p: Seq<char>| strip_cr(p)).push(pieces.last())
    }
}

proof fn lemma_split_without_sep(t: Seq<char>, sep: char)
    requires
        !t.contains(sep),
    ensures
        split_spec(t, sep) == seq![t],
    decreases t.len(),
{
    if t.len() > 0 {
        let u = t.drop_last();
        assert(!u.contains(sep)) by {
            if u.contains(sep) {
                let m = choose|m: int| 0 <= m < u.len() && u[m] == sep;
                assert(t[m] == sep);
            }
        }
        lemma_split_without_sep(u, sep);
        assert(t[t.len() - 1] == t.last());
        assert(u.push(t.last()) =~= t);
        assert(split_spec(t, sep) =~= seq![t]);
    } else {
        assert(t =~= Seq::<char>::empty());
    }
}

proof fn lemma_split_after_first(t: Seq<char>, u: Seq<char>, sep: char)
    requires
        !t.contains(sep),
    ensures
        split_spec(t.push(sep) + u, sep) == seq![t] + split_spec(u, sep),
    decreases u.len(),
{
    let w = t.push(sep) + u;
    if u.len() == 0 {
        assert(w =~= t.push(sep));
        assert(w.drop_last() =~= t);
        lemma_split_without_sep(t, sep);
        assert(split_spec(u, sep) =~= seq![Seq::<char>::empty()]);
        assert(split_spec(w, sep) =~= seq![t] + split_spec(u, sep));
    } else {
        let v = u.drop_last();
        lemma_split_after_first(t, v, sep);
        lemma_split_nonempty(v, sep);
        assert(w.drop_last() =~= t.push(sep) + v);
        assert(w.last() == u.last());
        let init = split_spec(v, sep);
        if u.last() == sep {
            assert(split_spec(w, sep) =~= seq![t] + split_spec(u, sep));
        } else {
            assert((seq![t] + init).update((seq![t] + init).len() - 1, (seq![t] + init).last().push(
                u.last(),
            )) =~= seq![t] + init.update(init.len() - 1, init.last().push(u.last())));
            assert(split_spec(w, sep) =~= seq![t] + split_spec(u, sep));
        }
    }
}

/// Lines are read from the front: a text with no line feed is one line,
/// and a text that starts with a line `t` ended by a line feed has `t`
/// (without a trailing carriage return) as its first line, then the lines
/// of the rest. The empty text has no lines.
pub proof fn law_lines_from_the_front(t: Seq<char>, u: Seq<char>)
    requires
        !t.contains('\n'),
    ensures
        lines_spec(Seq::<char>::empty()) == Seq::<Seq<char>>::empty(),
        t.len() > 0 ==> lines_spec(t) == seq![t],
        lines_spec(t.push('\n') + u) == seq![strip_cr(t)] + lines_spec(u),
{
    if t.len() > 0 {
        lemma_split_without_sep(t, '\n');
        assert(t[t.len() - 1] == t.last());
        assert(t.last() != '\n');
        assert(split_spec(t, '\n').drop_last() =~= Seq::<Seq<char>>::empty());
        assert(lines_spec(t) =~= seq![t]);
    }
    let w = t.push('\n') + u;
    lemma_split_after_first(t, u, '\n');
    lemma_split_nonempty(u, '\n');
    let su = split_spec(u, '\n');
    let f = |p: Seq<char>| strip_cr(p);
    if u.len() == 0 {
        assert(w.last() == '\n');
        assert(su =~= seq![Seq::<char>::empty()]);
        assert((seq![t] + su).drop_last() =~= seq![t]);
        assert(lines_spec(w) =~= seq![strip_cr(t)]);
        assert(lines_spec(u) =~= Seq::<Seq<char>>::empty());
    } else if u.last() == '\n' {
        assert(w.last() == '\n');
        assert((seq![t] + su).drop_last() =~= seq![t] + su.drop_last());
        assert((seq![t] + su.drop_last()).map_values(f) =~= seq![strip_cr(t)] + su.drop_last().map_values(f));
    } else {
        assert(w.last() == u.last());
        assert((seq![t] + su).drop_last() =~= seq![t] + su.drop_last());
        assert((seq![t] + su).last() == su.last());
        assert((seq![t] + su.drop_last()).map_values(f).push(su.last()) =~= seq![strip_cr(t)] + su.drop_last().map_values(f).push(su.last()));
    }
}

/// The elements of `parts` with `sep` between each two.
pub open spec fn join_spec(parts: Seq<Seq<char>>, sep: Seq<char>) -> Seq<char>
    decreases parts.len(),
{
    if parts.len() == 0 {
        Seq::empty()
    } else if parts.len() == 1 {
        parts[0]
    } else {
        join_spec(parts.drop_last(), sep) + sep + parts.last()
    }
}

/// Joining from the front: no parts give the empty text, one part gives
/// itself, and a first part `x` before other parts gives `x`, then `sep`,
/// then the other parts joined.
pub proof fn law_join_from_the_front(x: Seq<char>, rest: Seq<Seq<char>>, sep: Seq<char>)
    ensures
        join_spec(Seq::<Seq<char>>::empty(), sep) == Seq::<char>::empty(),
        join_spec(seq![x], sep) == x,
        rest.len() > 0 ==> join_spec(seq![x] + rest, sep) == x + sep + join_spec(rest, sep),
    decreases rest.len(),
{
    if rest.len() > 1 {
        let r = rest.drop_last();
        law_join_from_the_front(x, r, sep);
        assert((seq![x] + rest).drop_last() =~= seq![x] + r);
        assert((seq![x] + rest).last() == rest.last());
        assert(join_spec(rest, sep) == join_spec(r, sep) + sep + rest.last());
        assert(join_spec(seq![x] + rest, sep) == join_spec(seq![x] + r, sep) + sep + rest.last());
        assert(x + sep + join_spec(r, sep) + sep + rest.last() =~= x + sep + (join_spec(r, sep) + sep
            + rest.last()));
    } else if rest.len() == 1 {
        assert((seq![x] + rest).drop_last() =~= seq![x]);
        assert((seq![x] + rest).last() == rest[0]);
        assert(join_spec(seq![x], sep) == x);
        assert(join_spec(rest, sep) == rest[0]);
        assert(join_spec(seq![x] + rest, sep) == join_spec(seq![x], sep) + sep + rest[0]);
    }
}

/// The strings of `parts` joined by line feeds.
pub fn join_lines(parts: &Vec<String>) -> (r: String)
    ensures
        r@ == join_spec(parts@.map_values(|p: String| p@), seq!['\n']),
{
    let ghost vs = parts@.map_values(|p: String| p@);
    let mut r = String::new();
    let mut i: usize = 0;
    while i < parts.len()
        invariant
            i <= parts@.len(),
            vs == parts@.map_values(|p: String| p@),
            r@ == join_spec(vs.take(i as int), seq!['\n']),
        decreases parts@.len() - i,
    {
        proof {
            assert(vs.take(i + 1).drop_last() =~= vs.take(i as int));
            assert(vs.take(i + 1).last() == parts@[i as int]@);
        }
        if i == 0 {
            r.append(parts[i].as_str());
            assert(r@ =~= join_spec(vs.take(1), seq!['\n']));
        } else {
            r.append("\n");
            proof {
                reveal_strlit("\n");
            }
            r.append(parts[i].as_str());
        }
        i = i + 1;
    }
    assert(vs.take(parts@.len() as int) =~= vs);
    r
}

} // verus!

verus! {

/// The position of the first `c` in `s`, if any.
pub open spec fn index_of(s: Seq<char>, c: char) -> Option<int>
    decreases s.len(),
{
    if s.len() == 0 {
        None
    } else if s[0] == c {
        Some(0)
    } else {
        match index_of(s.drop_first(), c) {
            Some(i) => Some(i + 1),
            None => None,
        }
    }
}

/// The first `c` in `s` is at `i` when none comes before it.
pub proof fn lemma_index_of(s: Seq<char>, c: char, i: int)
    requires
        0 <= i <= s.len(),
        forall|j: int| 0 <= j < i ==> s[j] != c,
    ensures
        i < s.len() && s[i] == c ==> index_of(s, c) == Some(i),
        i == s.len() ==> index_of(s, c) is None,
    decreases i,
{
    if i > 0 {
        lemma_index_of(s.drop_first(), c, i - 1);
    }
}

/// The position of the first `c` in `s`, if any.
pub fn find_char(s: &str, c: char) -> (r: Option<usize>)
    ensures
        match r {
            Some(i) => index_of(s@, c) == Some(i as int) && i < s@.len() && s@[i as int] == c,
            None => index_of(s@, c) is None,
        },
{
    let v = chars_of(s);
    let mut i: usize = 0;
    while i < v.len()
        invariant
            v@ == s@,
            i <= v.len(),
            forall|j: int| 0 <= j < i ==> s@[j] != c,
        decreases v.len() - i,
    {
        if v[i] == c {
            proof {
                lemma_index_of(s@, c, i as int);
            }
            return Some(i);
        }
        i = i + 1;
    }
    proof {
        lemma_index_of(s@, c, i as int);
    }
    None
}

/// Whether `s` begins with `prefix`.
pub fn starts_with(s: &str, prefix: &str) -> (r: bool)
    ensures
        r == (prefix@.len() <= s@.len() && s@.take(prefix@.len() as int) == prefix@),
{
    let v = chars_of(s);
    let p = chars_of(prefix);
    if p.len() > v.len() {
        return false;
    }
    let mut i: usize = 0;
    while i < p.len()
        invariant
            v@ == s@,
            p@ == prefix@,
            p.len() <= v.len(),
            i <= p.len(),
            forall|j: int| 0 <= j < i ==> v@[j] == p@[j],
        decreases p.len() - i,
    {
        if v[i] != p[i] {
            assert(s@.take(prefix@.len() as int)[i as int] != prefix@[i as int]);
            return false;
        }
        i = i + 1;
    }
    assert(s@.take(prefix@.len() as int) =~= prefix@);
    true
}

/// Whether `s` ends with `suffix`.
pub fn ends_with(s: &str, suffix: &str) -> (r: bool)
    ensures
        r == (suffix@.len() <= s@.len() && s@.skip(s@.len() - suffix@.len()) == suffix@),
{
    let v = chars_of(s);
    let p = chars_of(suffix);
    if p.len() > v.len() {
        return false;
    }
    let d = v.len() - p.len();
    let mut i: usize = 0;
    while i < p.len()
        invariant
            v@ == s@,
            p@ == suffix@,
            d + p.len() == v.len(),
            i <= p.len(),
            forall|j: int| 0 <= j < i ==> v@[d + j] == p@[j],
        decreases p.len() - i,
    {
        if v[d + i] != p[i] {
            assert(s@.skip(d as int)[i as int] != suffix@[i as int]);
            return false;
        }
        i = i + 1;
    }
    assert(s@.skip(d as int) =~= suffix@);
    true
}

/// The pieces of `s` between occurrences of the two-character separator
/// `a b` (where `a` and `b` differ, so occurrences cannot overlap), in
/// order, empty pieces included.
pub open spec fn split_pair_spec(s: Seq<char>, a: char, b: char) -> Seq<Seq<char>>
    decreases s.len(),
{
    if s.len() == 0 {
        seq![Seq::empty()]
    } else if s.len() >= 2 && s[s.len() - 2] == a && s.last() == b {
        split_pair_spec(s.take(s.len() - 2), a, b).push(Seq::empty())
    } else {
        let init = split_pair_spec(s.drop_last(), a, b);
        init.update(init.len() - 1, init.last().push(s.last()))
    }
}

proof fn lemma_split_pair_nonempty(s: Seq<char>, a: char, b: char)
    ensures
        split_pair_spec(s, a, b).len() >= 1,
    decreases s.len(),
{
    if s.len() >= 2 && s[s.len() - 2] == a && s.last() == b {
        lemma_split_pair_nonempty(s.take(s.len() - 2), a, b);
    } else if s.len() > 0 {
        lemma_split_pair_nonempty(s.drop_last(), a, b);
    }
}

/// `p` holds `a` directly followed by `b`.
pub open spec fn has_pair(p: Seq<char>, a: char, b: char) -> bool {
    exists|m: int| 0 <= m && m + 1 < p.len() && p[m] == a && #[trigger] p[m + 1] == b
}

proof fn lemma_split_pair_last(t: Seq<char>, a: char, b: char)
    ensures
        split_pair_spec(t, a, b).len() >= 1,
        split_pair_spec(t, a, b).last().len() <= t.len(),
        t.skip(t.len() - split_pair_spec(t, a, b).last().len()) == split_pair_spec(t, a, b).last(),
    decreases t.len(),
{
    if t.len() == 0 {
        assert(t.skip(0) =~= Seq::<char>::empty());
    } else if t.len() >= 2 && t[t.len() - 2] == a && t.last() == b {
        lemma_split_pair_last(t.take(t.len() - 2), a, b);
        assert(t.skip(t.len() as int) =~= Seq::<char>::empty());
    } else {
        let u = t.drop_last();
        lemma_split_pair_last(u, a, b);
        let l = split_pair_spec(u, a, b).last();
        assert(split_pair_spec(t, a, b).last() == l.push(t.last()));
        assert(t.skip(t.len() - (l.len() + 1)) =~= u.skip(u.len() - l.len()).push(t.last()));
    }
}

/// Splitting on the pair `a` `b` cuts the text at every occurrence of the
/// pair and nowhere else: the pieces, joined with `a` `b` between each two,
/// give back the text, and no piece holds `a` directly followed by `b`.
pub proof fn law_split_pair_joins_back(s: Seq<char>, a: char, b: char)
    ensures
        join_spec(split_pair_spec(s, a, b), seq![a, b]) == s,
        forall|k: int|
            0 <= k < split_pair_spec(s, a, b).len() ==> !has_pair(
                #[trigger] split_pair_spec(s, a, b)[k],
                a,
                b,
            ),
    decreases s.len(),
{
    let ps = split_pair_spec(s, a, b);
    if s.len() == 0 {
        assert(ps[0] =~= Seq::<char>::empty());
        assert(join_spec(ps, seq![a, b]) =~= s);
    } else if s.len() >= 2 && s[s.len() - 2] == a && s.last() == b {
        let t = s.take(s.len() - 2);
        law_split_pair_joins_back(t, a, b);
        lemma_split_pair_last(t, a, b);
        let init = split_pair_spec(t, a, b);
        lemma_join_push(init, seq![a, b], Seq::empty());
        assert(t + seq![a, b] + Seq::<char>::empty() =~= s);
        assert forall|k: int| 0 <= k < ps.len() implies !has_pair(#[trigger] ps[k], a, b) by {
            if k < init.len() {
                assert(ps[k] == init[k]);
            } else {
                assert(ps[k] =~= Seq::<char>::empty());
            }
        }
    } else {
        let t = s.drop_last();
        let c = s.last();
        law_split_pair_joins_back(t, a, b);
        lemma_split_pair_last(t, a, b);
        let init = split_pair_spec(t, a, b);
        lemma_join_extend_last(init, seq![a, b], c);
        assert(t.push(c) =~= s);
        assert forall|k: int| 0 <= k < ps.len() implies !has_pair(#[trigger] ps[k], a, b) by {
            if k < init.len() - 1 {
                assert(ps[k] == init[k]);
            } else {
                let l = init.last();
                let last = l.push(c);
                assert(ps[k] == last);
                assert(!has_pair(init[init.len() - 1], a, b));
                if has_pair(last, a, b) {
                    let m = choose|m: int|
                        0 <= m && m + 1 < last.len() && last[m] == a && #[trigger] last[m + 1] == b;
                    if m + 1 < l.len() {
                        assert(l[m] == a && l[m + 1] == b);
                    } else {
                        assert(m == l.len() - 1);
                        assert(l.last() == t.skip(t.len() - l.len()).last());
                        assert(t.skip(t.len() - l.len()).last() == t.last());
                        assert(t.last() == s[s.len() - 2]);
                    }
                }
            }
        }
    }
}

/// The pieces of `s` between occurrences of `a` followed by `b`.
pub fn split_on_pair(s: &str, a: char, b: char) -> (r: Vec<String>)
    requires
        a != b,
    ensures
        r@.map_values(|p: String| p@) == split_pair_spec(s@, a, b),
{
    let v = chars_of(s);
    let mut pieces: Vec<String> = Vec::new();
    let mut start: usize = 0;
    let mut i: usize = 0;
    assert(s@.take(0) =~= Seq::<char>::empty());
    assert(pieces@.map_values(|p: String| p@).push(s@.subrange(0, 0)) =~= seq![Seq::<char>::empty()]);
    while i < v.len()
        invariant
            v@ == s@,
            a != b,
            start <= i <= v.len(),
            split_pair_spec(s@.take(i as int), a, b) == pieces@.map_values(|p: String| p@).push(
                s@.subrange(start as int, i as int),
            ),
            start > 0 ==> s@[start - 1] == b,
        decreases v.len() - i,
    {
        let ghost before = pieces@.map_values(|p: String| p@);
        proof {
            assert(s@.take(i + 1).drop_last() =~= s@.take(i as int));
            assert(s@.take(i + 1).last() == s@[i as int]);
        }
        if v[i] == b && i > start && v[i - 1] == a {
            let piece = s.substring_char(start, i - 1).to_string();
            let ghost piece_view = s@.subrange(start as int, i - 1);
            proof {
                let w = s@.take(i - 1);
                let ti = s@.take(i as int);
                assert(ti.drop_last() =~= w);
                assert(ti.last() == a);
                assert(s@.take(i + 1).take(i - 1) =~= w);
                let init = split_pair_spec(w, a, b);
                lemma_split_pair_nonempty(w, a, b);
                assert(split_pair_spec(ti, a, b) == init.update(init.len() - 1, init.last().push(a)));
                assert(s@.subrange(start as int, i as int) =~= piece_view.push(a));
                let st = split_pair_spec(ti, a, b);
                assert(st.len() == init.len());
                assert(st == before.push(s@.subrange(start as int, i as int)));
                assert(st.len() == before.len() + 1);
                assert(st[st.len() - 1] == init.last().push(a));
                assert(st[st.len() - 1] == piece_view.push(a));
                assert(init.last() =~= init.last().push(a).drop_last());
                assert(piece_view =~= piece_view.push(a).drop_last());
                assert(init.last() == piece_view);
                assert forall|k: int| 0 <= k < before.len() implies init[k] == before[k] by {
                    assert(st[k] == init[k]);
                }
                assert(init =~= before.push(piece_view));
            }
            pieces.push(piece);
            start = i + 1;
            proof {
                let t1 = s@.take(i + 1);
                assert(t1.len() >= 2 && t1[t1.len() - 2] == a && t1.last() == b);
                assert(pieces@.map_values(|p: String| p@) =~= before.push(piece_view));
                assert(s@.subrange(start as int, i + 1) =~= Seq::<char>::empty());
            }
        } else {
            proof {
                let t1 = s@.take(i + 1);
                assert(!(t1.len() >= 2 && t1[t1.len() - 2] == a && t1.last() == b));
                assert(s@.subrange(start as int, i + 1) =~= s@.subrange(start as int, i as int).push(
                    s@[i as int],
                ));
            }
        }
        i = i + 1;
    }
    assert(s@.take(v.len() as int) =~= s@);
    pieces.push(s.substring_char(start, v.len()).to_string());
    assert(pieces@.map_values(|p: String| p@) =~= split_pair_spec(s@, a, b));
    pieces
}

} // verus!

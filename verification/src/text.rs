//! Cutting text into pieces, and comparing it.

use vstd::prelude::*;
use vstd::utf8::encode_utf8;

verus! {

/// What separates one piece of a text from the next.
#[derive(Clone, Copy, Debug, PartialEq, Eq)]
pub enum Separator {
    /// One given character.
    Char(char),
    /// Any character with the Unicode property `White_Space`.
    Whitespace,
}

/// The characters with the Unicode property `White_Space`.
pub open spec fn whitespace(c: char) -> bool {
    let u = c as u32;
    ||| 0x09 <= u <= 0x0d
    ||| u == 0x20
    ||| u == 0x85
    ||| u == 0xa0
    ||| u == 0x1680
    ||| 0x2000 <= u <= 0x200a
    ||| u == 0x2028
    ||| u == 0x2029
    ||| u == 0x202f
    ||| u == 0x205f
    ||| u == 0x3000
}

impl Separator {
    /// Whether `c` ends a piece.
    pub open spec fn separates(self, c: char) -> bool {
        match self {
            Separator::Char(sep) => c == sep,
            Separator::Whitespace => whitespace(c),
        }
    }

    /// Whether `c` ends a piece.
    pub fn matches(&self, c: char) -> (r: bool)
        ensures
            r == self.separates(c),
    {
        match self {
            Separator::Char(sep) => c == *sep,
            Separator::Whitespace => is_whitespace(c),
        }
    }
}

/// Whether `c` has the Unicode property `White_Space`.
pub fn is_whitespace(c: char) -> (r: bool)
    ensures
        r == whitespace(c),
{
    let u: u32 = c as u32;
    (0x09 <= u && u <= 0x0d) || u == 0x20 || u == 0x85 || u == 0xa0 || u == 0x1680 || (0x2000 <= u
        && u <= 0x200a) || u == 0x2028 || u == 0x2029 || u == 0x202f || u == 0x205f || u == 0x3000
}

/// The pieces of `s` between separators. There is one more of them than there
/// are separators in `s`, so a text without any is its own single piece.
pub open spec fn pieces(s: Seq<char>, sep: Separator) -> Seq<Seq<char>>
    decreases s.len(),
{
    if s.len() == 0 {
        seq![Seq::empty()]
    } else {
        let before = pieces(s.drop_last(), sep);
        if sep.separates(s.last()) {
            before.push(Seq::empty())
        } else {
            before.drop_last().push(before.last().push(s.last()))
        }
    }
}

/// The maximal runs of characters in `s` that are not white space.
pub open spec fn words(s: Seq<char>) -> Seq<Seq<char>> {
    pieces(s, Separator::Whitespace).filter(|w: Seq<char>| w.len() > 0)
}

/// What each of the texts reads.
pub open spec fn views(v: Seq<&str>) -> Seq<Seq<char>> {
    v.map_values(|s: &str| s@)
}

/// What each of the texts reads.
pub open spec fn string_views(v: Seq<String>) -> Seq<Seq<char>> {
    v.map_values(|s: String| s@)
}

/// The place of the first `c` in `s`, or the length of `s` where there is none.
pub open spec fn first_index(s: Seq<char>, c: char) -> int
    decreases s.len(),
{
    if s.len() == 0 || s[0] == c {
        0
    } else {
        1 + first_index(s.drop_first(), c)
    }
}

/// What stands before the first `c` in `s`, or the whole of `s` where there is
/// none.
pub open spec fn before(s: Seq<char>, c: char) -> Seq<char> {
    s.take(first_index(s, c))
}

/// What stands before and after the first `c` in `s`, if there is one.
pub open spec fn halves(s: Seq<char>, c: char) -> Option<(Seq<char>, Seq<char>)> {
    if s.contains(c) {
        Some((before(s, c), s.skip(first_index(s, c) + 1)))
    } else {
        None
    }
}

/// `s` without the run of `c` that it begins with.
pub open spec fn trimmed_start(s: Seq<char>, c: char) -> Seq<char>
    decreases s.len(),
{
    if s.len() > 0 && s.first() == c {
        trimmed_start(s.drop_first(), c)
    } else {
        s
    }
}

/// `s` without the run of `c` that it ends with.
pub open spec fn trimmed_end(s: Seq<char>, c: char) -> Seq<char>
    decreases s.len(),
{
    if s.len() > 0 && s.last() == c {
        trimmed_end(s.drop_last(), c)
    } else {
        s
    }
}

/// `s` without the runs of `c` at its two ends.
pub open spec fn trimmed(s: Seq<char>, c: char) -> Seq<char> {
    trimmed_end(trimmed_start(s, c), c)
}

/// The code point of `c`, where `A` to `Z` count as `a` to `z`.
pub open spec fn folded(c: char) -> u32 {
    if 'A' <= c <= 'Z' {
        (c as u32 + 32) as u32
    } else {
        c as u32
    }
}

/// Whether `a` and `b` read the same but for the case of ASCII letters.
pub open spec fn same_but_case(a: Seq<char>, b: Seq<char>) -> bool {
    &&& a.len() == b.len()
    &&& forall|i: int| 0 <= i < a.len() ==> folded(#[trigger] a[i]) == folded(b[i])
}

/// The digit that stands for `d`, which is below ten.
pub open spec fn digit(d: nat) -> char {
    (0x30 + d) as u32 as char
}

/// `n` written in decimal.
pub open spec fn decimal(n: nat) -> Seq<char>
    decreases n,
{
    if n < 10 {
        seq![digit(n)]
    } else {
        decimal(n / 10).push(digit(n % 10))
    }
}

/// The first `c` stands at `i` when none stands before.
pub proof fn lemma_first_index(s: Seq<char>, c: char, i: int)
    requires
        0 <= i <= s.len(),
        forall|j: int| 0 <= j < i ==> s[j] != c,
        i < s.len() ==> s[i] == c,
    ensures
        first_index(s, c) == i,
        s.contains(c) == (i < s.len()),
    decreases s.len(),
{
    if i > 0 {
        lemma_first_index(s.drop_first(), c, i - 1);
    }
}

proof fn lemma_trimmed_start(s: Seq<char>, c: char, i: int)
    requires
        0 <= i <= s.len(),
        forall|j: int| 0 <= j < i ==> s[j] == c,
        i < s.len() ==> s[i] != c,
    ensures
        trimmed_start(s, c) == s.skip(i),
    decreases s.len(),
{
    if i > 0 {
        lemma_trimmed_start(s.drop_first(), c, i - 1);
        assert(s.drop_first().skip(i - 1) =~= s.skip(i));
    } else {
        assert(s.skip(0) =~= s);
    }
}

proof fn lemma_trimmed_end(s: Seq<char>, c: char, i: int)
    requires
        0 <= i <= s.len(),
        forall|j: int| i <= j < s.len() ==> s[j] == c,
        i > 0 ==> s[i - 1] != c,
    ensures
        trimmed_end(s, c) == s.take(i),
    decreases s.len(),
{
    if i < s.len() {
        lemma_trimmed_end(s.drop_last(), c, i);
        assert(s.drop_last().take(i) =~= s.take(i));
    } else {
        assert(s.take(i) =~= s);
    }
}

/// There is always at least one piece.
pub proof fn lemma_pieces_nonempty(s: Seq<char>, sep: Separator)
    ensures
        pieces(s, sep).len() > 0,
    decreases s.len(),
{
    if s.len() > 0 {
        lemma_pieces_nonempty(s.drop_last(), sep);
    }
}

/// The characters of `s`, in order.
pub fn chars_of(s: &str) -> (r: Vec<char>)
    ensures
        r@ == s@,
{
    let mut out: Vec<char> = Vec::new();
    for c in it: s.chars()
        invariant
            it.seq() == s@,
            out@ == s@.take(it.index()),
    {
        out.push(c);
        assert(s@.take(it.index() + 1) =~= s@.take(it.index()).push(c));
    }
    assert(s@.take(s@.len() as int) =~= s@);
    out
}

/// Whether `a` and `b` read the same.
pub fn same(a: &str, b: &str) -> (r: bool)
    ensures
        r == (a@ == b@),
{
    let x: &[u8] = a.as_bytes();
    let y: &[u8] = b.as_bytes();
    if x.len() != y.len() {
        return false;
    }
    let mut i: usize = 0;
    while i < x.len()
        invariant
            i <= x@.len(),
            x@.len() == y@.len(),
            x@ == encode_utf8(a@),
            y@ == encode_utf8(b@),
            forall|j: int| 0 <= j < i ==> x@[j] == y@[j],
        decreases x@.len() - i,
    {
        if x[i] != y[i] {
            return false;
        }
        i += 1;
    }
    proof {
        assert(x@ =~= y@);
        vstd::utf8::encode_utf8_decode_utf8(a@);
        vstd::utf8::encode_utf8_decode_utf8(b@);
    }
    true
}

/// The pieces of `s` between separators.
pub fn split<'a>(s: &'a str, sep: Separator) -> (r: Vec<&'a str>)
    ensures
        views(r@) == pieces(s@, sep),
{
    let cs: Vec<char> = chars_of(s);
    let mut out: Vec<&'a str> = Vec::new();
    let mut start: usize = 0;
    let mut i: usize = 0;
    assert(s@.take(0) =~= Seq::<char>::empty());
    assert(s@.subrange(0, 0) =~= Seq::<char>::empty());
    assert(views(out@).push(Seq::<char>::empty()) =~= pieces(s@.take(0), sep));
    while i < cs.len()
        invariant
            cs@ == s@,
            start <= i <= cs@.len(),
            views(out@).push(s@.subrange(start as int, i as int)) == pieces(s@.take(i as int), sep),
        decreases cs@.len() - i,
    {
        let ghost before = out@;
        assert(s@.take(i + 1).drop_last() =~= s@.take(i as int));
        assert(s@.take(i + 1).last() == cs@[i as int]);
        assert(pieces(s@.take(i as int), sep).drop_last() =~= views(out@));
        if sep.matches(cs[i]) {
            out.push(s.substring_char(start, i));
            start = i + 1;
            assert(views(out@) =~= views(before).push(out@.last()@));
            assert(s@.subrange(start as int, i + 1) =~= Seq::<char>::empty());
        } else {
            assert(s@.subrange(start as int, i + 1) =~= s@.subrange(start as int, i as int).push(
                cs@[i as int],
            ));
        }
        i += 1;
    }
    let ghost before = out@;
    assert(s@.take(i as int) =~= s@);
    out.push(s.substring_char(start, i));
    assert(views(out@) =~= views(before).push(out@.last()@));
    out
}

/// The maximal runs of characters in `s` that are not white space.
pub fn split_whitespace<'a>(s: &'a str) -> (r: Vec<&'a str>)
    ensures
        views(r@) == words(s@),
{
    let all: Vec<&'a str> = split(s, Separator::Whitespace);
    let ghost cut: Seq<Seq<char>> = pieces(s@, Separator::Whitespace);
    let ghost keep = |w: Seq<char>| w.len() > 0;
    let mut out: Vec<&'a str> = Vec::new();
    let mut i: usize = 0;
    proof {
        reveal(Seq::filter);
        assert(views(out@) =~= cut.take(0).filter(keep));
    }
    while i < all.len()
        invariant
            i <= all@.len(),
            views(all@) == cut,
            keep == (|w: Seq<char>| w.len() > 0),
            views(out@) == cut.take(i as int).filter(keep),
        decreases all@.len() - i,
    {
        let ghost before = out@;
        let piece: &'a str = all[i];
        proof {
            reveal(Seq::filter);
            assert(cut.len() == all@.len());
            assert(cut[i as int] == piece@);
            assert(cut.take(i + 1).drop_last() =~= cut.take(i as int));
        }
        if !piece.is_empty() {
            out.push(piece);
            assert(views(out@) =~= views(before).push(piece@));
        }
        i += 1;
    }
    assert(cut.take(i as int) =~= cut);
    out
}

/// The place of the first `c` among `cs`, or their number where there is none.
fn find(cs: &Vec<char>, c: char) -> (r: usize)
    ensures
        r == first_index(cs@, c),
        r <= cs@.len(),
        cs@.contains(c) == (r < cs@.len()),
{
    let mut i: usize = 0;
    while i < cs.len() && cs[i] != c
        invariant
            i <= cs@.len(),
            forall|j: int| 0 <= j < i ==> cs@[j] != c,
        decreases cs@.len() - i,
    {
        i += 1;
    }
    proof {
        lemma_first_index(cs@, c, i as int);
    }
    i
}

/// What stands before the first `c` in `s`, or the whole of `s` where there is
/// none.
pub fn up_to<'a>(s: &'a str, c: char) -> (r: &'a str)
    ensures
        r@ == before(s@, c),
{
    let cs: Vec<char> = chars_of(s);
    let end: usize = find(&cs, c);
    s.substring_char(0, end)
}

/// What stands before and after the first `c` in `s`, if there is one.
pub fn split_once<'a>(s: &'a str, c: char) -> (r: Option<(&'a str, &'a str)>)
    ensures
        r is Some == halves(s@, c) is Some,
        r matches Some(pair) ==> halves(s@, c) == Some((pair.0@, pair.1@)),
{
    let cs: Vec<char> = chars_of(s);
    let at: usize = find(&cs, c);
    if at == cs.len() {
        return None;
    }
    Some((s.substring_char(0, at), s.substring_char(at + 1, cs.len())))
}

/// `s` without the runs of `c` at its two ends.
pub fn trim_matches<'a>(s: &'a str, c: char) -> (r: &'a str)
    ensures
        r@ == trimmed(s@, c),
{
    let cs: Vec<char> = chars_of(s);
    let mut from: usize = 0;
    while from < cs.len() && cs[from] == c
        invariant
            from <= cs@.len(),
            forall|j: int| 0 <= j < from ==> cs@[j] == c,
        decreases cs@.len() - from,
    {
        from += 1;
    }
    let mut to: usize = cs.len();
    while to > from && cs[to - 1] == c
        invariant
            from <= to <= cs@.len(),
            forall|j: int| to <= j < cs@.len() ==> cs@[j] == c,
        decreases to,
    {
        to -= 1;
    }
    proof {
        lemma_trimmed_start(s@, c, from as int);
        lemma_trimmed_end(s@.skip(from as int), c, to - from);
        assert(s@.skip(from as int).take(to - from) =~= s@.subrange(from as int, to as int));
    }
    s.substring_char(from, to)
}

/// What follows `prefix` in `s`, if `s` begins with it.
pub fn strip_prefix<'a>(s: &'a str, prefix: &str) -> (r: Option<&'a str>)
    ensures
        r is Some == prefix@.is_prefix_of(s@),
        r matches Some(rest) ==> s@ == prefix@ + rest@,
{
    let cs: Vec<char> = chars_of(s);
    let ps: Vec<char> = chars_of(prefix);
    if cs.len() < ps.len() {
        return None;
    }
    let mut i: usize = 0;
    while i < ps.len()
        invariant
            i <= ps@.len() <= cs@.len(),
            cs@ == s@,
            ps@ == prefix@,
            forall|j: int| 0 <= j < i ==> ps@[j] == cs@[j],
        decreases ps@.len() - i,
    {
        if ps[i] != cs[i] {
            assert(s@.subrange(0, ps@.len() as int)[i as int] != prefix@[i as int]);
            return None;
        }
        i += 1;
    }
    let rest: &'a str = s.substring_char(ps.len(), cs.len());
    assert(s@ =~= prefix@ + rest@);
    Some(rest)
}

fn fold(c: char) -> (r: u32)
    ensures
        r == folded(c),
{
    if 'A' <= c && c <= 'Z' {
        c as u32 + 32
    } else {
        c as u32
    }
}

/// Whether `a` and `b` read the same but for the case of ASCII letters.
pub fn eq_ignore_ascii_case(a: &str, b: &str) -> (r: bool)
    ensures
        r == same_but_case(a@, b@),
{
    let x: Vec<char> = chars_of(a);
    let y: Vec<char> = chars_of(b);
    if x.len() != y.len() {
        return false;
    }
    let mut i: usize = 0;
    while i < x.len()
        invariant
            i <= x@.len(),
            x@.len() == y@.len(),
            x@ == a@,
            y@ == b@,
            forall|j: int| 0 <= j < i ==> folded(#[trigger] x@[j]) == folded(y@[j]),
        decreases x@.len() - i,
    {
        if fold(x[i]) != fold(y[i]) {
            return false;
        }
        i += 1;
    }
    true
}

fn digit_text(d: usize) -> (r: &'static str)
    requires
        d < 10,
    ensures
        r@ == seq![digit(d as nat)],
{
    proof {
        reveal_strlit("0");
        reveal_strlit("1");
        reveal_strlit("2");
        reveal_strlit("3");
        reveal_strlit("4");
        reveal_strlit("5");
        reveal_strlit("6");
        reveal_strlit("7");
        reveal_strlit("8");
        reveal_strlit("9");
    }
    match d {
        0 => "0",
        1 => "1",
        2 => "2",
        3 => "3",
        4 => "4",
        5 => "5",
        6 => "6",
        7 => "7",
        8 => "8",
        _ => "9",
    }
}

/// `n` written in decimal.
pub fn to_decimal(n: usize) -> (r: String)
    ensures
        r@ == decimal(n as nat),
    decreases n,
{
    if n < 10 {
        digit_text(n).to_owned()
    } else {
        let mut out: String = to_decimal(n / 10);
        out.append(digit_text(n % 10));
        assert(out@ =~= decimal(n as nat));
        out
    }
}

/// The texts in `ps`, one after the other, with `sep` between each two.
pub open spec fn joined(ps: Seq<Seq<char>>, sep: char) -> Seq<char>
    decreases ps.len(),
{
    if ps.len() == 0 {
        Seq::empty()
    } else if ps.len() == 1 {
        ps[0]
    } else {
        joined(ps.drop_last(), sep).push(sep) + ps.last()
    }
}

/// Joining the pieces of a text gives the text back.
pub proof fn law_join_undoes_split(s: Seq<char>, sep: char)
    ensures
        joined(pieces(s, Separator::Char(sep)), sep) == s,
    decreases s.len(),
{
    let by = Separator::Char(sep);
    if s.len() > 0 {
        let prior = pieces(s.drop_last(), by);
        lemma_pieces_nonempty(s.drop_last(), by);
        law_join_undoes_split(s.drop_last(), sep);
        let all = pieces(s, by);
        if s.last() == sep {
            assert(all.drop_last() =~= prior);
            assert(joined(all, sep) =~= joined(prior, sep).push(sep));
        } else {
            assert(all.drop_last() =~= prior.drop_last());
            assert(joined(all, sep) =~= joined(prior, sep).push(s.last()));
        }
        assert(s =~= s.drop_last().push(s.last()));
    }
}

/// No piece holds a separator.
pub proof fn law_pieces_hold_no_separator(s: Seq<char>, sep: Separator)
    ensures
        forall|i: int, j: int|
            0 <= i < pieces(s, sep).len() && 0 <= j < pieces(s, sep)[i].len()
                ==> !sep.separates(#[trigger] pieces(s, sep)[i][j]),
    decreases s.len(),
{
    if s.len() > 0 {
        let prior = pieces(s.drop_last(), sep);
        lemma_pieces_nonempty(s.drop_last(), sep);
        law_pieces_hold_no_separator(s.drop_last(), sep);
        let all = pieces(s, sep);
        assert forall|i: int, j: int| 0 <= i < all.len() && 0 <= j < all[i].len() implies
            !sep.separates(#[trigger] all[i][j]) by {
            if i < all.len() - 1 {
                assert(all[i] == prior[i]);
                assert(!sep.separates(prior[i][j]));
            } else if !sep.separates(s.last()) {
                if j < prior.last().len() {
                    assert(all[i][j] == prior[prior.len() - 1][j]);
                }
            }
        }
    }
}

/// A text that holds no separator is its own single piece.
pub proof fn law_text_without_separator_is_one_piece(s: Seq<char>, sep: Separator)
    requires
        forall|j: int| 0 <= j < s.len() ==> !sep.separates(#[trigger] s[j]),
    ensures
        pieces(s, sep) == seq![s],
    decreases s.len(),
{
    if s.len() == 0 {
        assert(s =~= Seq::<char>::empty());
    } else {
        let prior = s.drop_last();
        assert forall|j: int| 0 <= j < prior.len() implies !sep.separates(#[trigger] prior[j]) by {
            assert(prior[j] == s[j]);
        }
        law_text_without_separator_is_one_piece(prior, sep);
        assert(!sep.separates(s[s.len() - 1]));
        assert(prior.push(s.last()) =~= s);
        assert(pieces(s, sep) =~= seq![s]);
    }
}

/// Two texts with a separator between them have the pieces of the one, then
/// those of the other.
pub proof fn law_split_at_separator(a: Seq<char>, c: char, b: Seq<char>, sep: Separator)
    requires
        sep.separates(c),
    ensures
        pieces(a.push(c) + b, sep) == pieces(a, sep) + pieces(b, sep),
    decreases b.len(),
{
    let s = a.push(c) + b;
    lemma_pieces_nonempty(b, sep);
    if b.len() == 0 {
        assert(s =~= a.push(c));
        assert(s.drop_last() =~= a);
        assert(pieces(s, sep) =~= pieces(a, sep) + pieces(b, sep));
    } else {
        law_split_at_separator(a, c, b.drop_last(), sep);
        lemma_pieces_nonempty(b.drop_last(), sep);
        assert(s.drop_last() =~= a.push(c) + b.drop_last());
        assert(s.last() == b.last());
        assert(pieces(s, sep) =~= pieces(a, sep) + pieces(b, sep));
    }
}

/// Two texts with white space between them have the words of the one, then those
/// of the other.
pub proof fn law_words_at_whitespace(a: Seq<char>, c: char, b: Seq<char>)
    requires
        whitespace(c),
    ensures
        words(a.push(c) + b) == words(a) + words(b),
{
    let keep = |w: Seq<char>| w.len() > 0;
    law_split_at_separator(a, c, b, Separator::Whitespace);
    Seq::filter_distributes_over_add(
        pieces(a, Separator::Whitespace),
        pieces(b, Separator::Whitespace),
        keep,
    );
}

/// No word is empty, and none holds white space.
pub proof fn law_words_hold_no_whitespace(s: Seq<char>)
    ensures
        forall|i: int| 0 <= i < words(s).len() ==> (#[trigger] words(s)[i]).len() > 0,
        forall|i: int, j: int|
            0 <= i < words(s).len() && 0 <= j < words(s)[i].len() ==> !whitespace(
                #[trigger] words(s)[i][j],
            ),
{
    let all = pieces(s, Separator::Whitespace);
    let keep = |w: Seq<char>| w.len() > 0;
    law_pieces_hold_no_separator(s, Separator::Whitespace);
    assert forall|i: int| 0 <= i < words(s).len() implies keep(#[trigger] words(s)[i]) && all.contains(
        words(s)[i],
    ) by {
        broadcast use vstd::seq_lib::group_filter_ensures;

        assert(all.filter(keep).contains(words(s)[i]));
        all.lemma_filter_contains_rev(keep, words(s)[i]);
    }
    assert forall|i: int, j: int|
        0 <= i < words(s).len() && 0 <= j < words(s)[i].len() implies !whitespace(
        #[trigger] words(s)[i][j],
    ) by {
        assert(all.contains(words(s)[i]));
        let k = choose|k: int| 0 <= k < all.len() && all[k] == words(s)[i];
        assert(!Separator::Whitespace.separates(all[k][j]));
    }
}

/// A text is cut at the character that was asked for, and at no other, or at white
/// space, and at nothing else.
pub proof fn law_cut_only_where_asked(sep: char, c: char)
    ensures
        Separator::Char(sep).separates(c) <==> c == sep,
        Separator::Whitespace.separates(c) <==> whitespace(c),
{
}

/// Each text of a list is seen, at its place.
pub proof fn law_every_text_is_seen(texts: Seq<&str>, strings: Seq<String>, i: int)
    ensures
        views(texts).len() == texts.len(),
        0 <= i < texts.len() ==> views(texts)[i] == texts[i]@,
        string_views(strings).len() == strings.len(),
        0 <= i < strings.len() ==> string_views(strings)[i] == strings[i]@,
{
}

/// Splitting gives back the pieces that a text was joined of.
pub proof fn law_split_undoes_join(ps: Seq<Seq<char>>, sep: char)
    requires
        ps.len() > 0,
        forall|i: int| 0 <= i < ps.len() ==> !(#[trigger] ps[i]).contains(sep),
    ensures
        pieces(joined(ps, sep), Separator::Char(sep)) == ps,
    decreases ps.len(),
{
    let by = Separator::Char(sep);
    let last = ps.last();
    assert(!ps[ps.len() - 1].contains(sep));
    assert forall|j: int| 0 <= j < last.len() implies !by.separates(#[trigger] last[j]) by {
        assert(last.contains(last[j]));
    }
    law_text_without_separator_is_one_piece(last, by);
    if ps.len() == 1 {
        assert(seq![last] =~= ps);
    } else {
        let prior = ps.drop_last();
        assert forall|i: int| 0 <= i < prior.len() implies !(#[trigger] prior[i]).contains(sep) by {
            assert(prior[i] == ps[i]);
        }
        law_split_undoes_join(prior, sep);
        law_split_at_separator(joined(prior, sep), sep, last, by);
        assert(prior + seq![last] =~= ps);
    }
}

/// A text without white space is its own single word, and an empty one has none.
pub proof fn law_text_without_whitespace_is_one_word(s: Seq<char>)
    requires
        forall|j: int| 0 <= j < s.len() ==> !whitespace(#[trigger] s[j]),
    ensures
        words(s) == (if s.len() > 0 {
            seq![s]
        } else {
            Seq::empty()
        }),
{
    assert forall|j: int| 0 <= j < s.len() implies !Separator::Whitespace.separates(
        #[trigger] s[j],
    ) by {}
    law_text_without_separator_is_one_piece(s, Separator::Whitespace);
    reveal(Seq::filter);
    let keep = |w: Seq<char>| w.len() > 0;
    let none = Seq::<Seq<char>>::empty();
    assert(none.push(s) =~= seq![s]);
    assert(seq![s].drop_last() =~= none);
    assert(none.filter(keep) =~= none);
    assert(words(s) =~= if s.len() > 0 {
        seq![s]
    } else {
        none
    });
}

/// A text is halved at the first of the characters asked for, and not at all where
/// there is none.
pub proof fn law_halves_meet_at_the_first(a: Seq<char>, c: char, b: Seq<char>)
    requires
        !a.contains(c),
    ensures
        halves(a.push(c) + b, c) == Some((a, b)),
        before(a.push(c) + b, c) == a,
        halves(a, c) is None,
        before(a, c) == a,
{
    let s = a.push(c) + b;
    let n = a.len() as int;
    assert(forall|i: int| 0 <= i < n ==> a.contains(#[trigger] a[i]));
    assert forall|i: int| 0 <= i < n implies s[i] != c by {
        assert(s[i] == a[i]);
        assert(a.contains(a[i]));
    }
    assert forall|i: int| 0 <= i < n implies a[i] != c by {
        assert(a.contains(a[i]));
    }
    assert(s[n] == c);
    lemma_first_index(s, c, n);
    lemma_first_index(a, c, n);
    assert(s.take(n) =~= a);
    assert(s.skip(n + 1) =~= b);
    assert(a.take(n) =~= a);
}

/// Trimming takes away the runs at the two ends, the whole of them and nothing
/// else.
pub proof fn law_trimming_takes_the_runs_at_the_ends(m: nat, middle: Seq<char>, n: nat, c: char)
    requires
        middle.len() > 0 ==> middle.first() != c && middle.last() != c,
    ensures
        trimmed(Seq::new(m, |i: int| c) + middle + Seq::new(n, |i: int| c), c) == middle,
{
    let s = Seq::new(m, |i: int| c) + middle + Seq::new(n, |i: int| c);
    if middle.len() == 0 {
        lemma_trimmed_start(s, c, s.len() as int);
        assert(s.skip(s.len() as int) =~= middle);
        lemma_trimmed_end(middle, c, 0);
        assert(middle.take(0) =~= middle);
    } else {
        lemma_trimmed_start(s, c, m as int);
        let rest = s.skip(m as int);
        assert(rest =~= middle + Seq::new(n, |i: int| c));
        lemma_trimmed_end(rest, c, middle.len() as int);
        assert(rest.take(middle.len() as int) =~= middle);
    }
}

/// Two texts read the same but for case exactly where they are of one length and at
/// each place hold the same character, or an ASCII letter in its two cases.
pub proof fn law_case_is_that_of_ascii_letters(a: Seq<char>, b: Seq<char>)
    ensures
        same_but_case(a, b) <==> a.len() == b.len() && forall|i: int|
            #![trigger a[i]]
            0 <= i < a.len() ==> {
                ||| a[i] == b[i]
                ||| 'A' <= a[i] <= 'Z' && b[i] as u32 == a[i] as u32 + 32
                ||| 'A' <= b[i] <= 'Z' && a[i] as u32 == b[i] as u32 + 32
            },
{
    if a.len() == b.len() {
        assert forall|i: int| #![trigger a[i]] 0 <= i < a.len() implies (folded(a[i]) == folded(b[i]))
            == ({
            ||| a[i] == b[i]
            ||| 'A' <= a[i] <= 'Z' && b[i] as u32 == a[i] as u32 + 32
            ||| 'A' <= b[i] <= 'Z' && a[i] as u32 == b[i] as u32 + 32
        }) by {
            lemma_folded(a[i], b[i]);
        }
    }
}

proof fn lemma_folded(a: char, b: char)
    ensures
        (folded(a) == folded(b)) == ({
            ||| a == b
            ||| 'A' <= a <= 'Z' && b as u32 == a as u32 + 32
            ||| 'A' <= b <= 'Z' && a as u32 == b as u32 + 32
        }),
{
}

/// In decimal, one digit stands for itself, and each further digit is written
/// behind the ten times smaller number.
pub proof fn law_decimal_grows_by_a_digit(n: nat, d: nat)
    requires
        d < 10,
    ensures
        decimal(d).len() == 1,
        decimal(d)[0] as u32 == '0' as u32 + d,
        n > 0 ==> decimal(10 * n + d) == decimal(n) + decimal(d),
{
    assert((10 * n + d) / 10 == n && (10 * n + d) % 10 == d);
    if n > 0 {
        assert(decimal(10 * n + d) =~= decimal(n) + decimal(d));
    }
}

} // verus!

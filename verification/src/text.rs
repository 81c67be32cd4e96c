//! Text primitives: white space, splitting, comparing.
//!
//! Contracts speak of a text as the sequence of its characters.
use vstd::prelude::*;

verus! {

/// Whether a character has the Unicode `White_Space` property.
pub open spec fn is_white(c: char) -> bool {
    ||| 0x09 <= c as u32 <= 0x0d
    ||| c as u32 == 0x20
    ||| c as u32 == 0x85
    ||| c as u32 == 0xa0
    ||| c as u32 == 0x1680
    ||| 0x2000 <= c as u32 <= 0x200a
    ||| c as u32 == 0x2028
    ||| c as u32 == 0x2029
    ||| c as u32 == 0x202f
    ||| c as u32 == 0x205f
    ||| c as u32 == 0x3000
}

/// Decides [`is_white`].
pub fn white(c: char) -> (r: bool)
    ensures
        r == is_white(c),
{
    let u: u32 = c as u32;
    (0x09 <= u && u <= 0x0d) || u == 0x20 || u == 0x85 || u == 0xa0 || u == 0x1680 || (0x2000 <= u
        && u <= 0x200a) || u == 0x2028 || u == 0x2029 || u == 0x202f || u == 0x205f || u == 0x3000
}

/// How many characters of `s` come before the first one that satisfies `p`;
/// the length of `s` if none does.
pub open spec fn first_match(s: Seq<char>, p: spec_fn(char) -> bool) -> nat
    decreases s.len(),
{
    if s.len() == 0 || p(s[0]) {
        0
    } else {
        1 + first_match(s.drop_first(), p)
    }
}

/// `s` without its leading white space.
pub open spec fn trim_start(s: Seq<char>) -> Seq<char> {
    s.skip(first_match(s, |c: char| !is_white(c)) as int)
}

/// `s` without its trailing white space.
pub open spec fn trim_end(s: Seq<char>) -> Seq<char>
    decreases s.len(),
{
    if s.len() == 0 || !is_white(s.last()) {
        s
    } else {
        trim_end(s.drop_last())
    }
}

/// `s` without leading and trailing white space.
pub open spec fn trimmed(s: Seq<char>) -> Seq<char> {
    trim_end(trim_start(s))
}

/// `s` cut in two around its first character that satisfies `p`, which
/// belongs to neither part; nothing if there is no such character.
pub open spec fn cut(s: Seq<char>, p: spec_fn(char) -> bool) -> Option<(Seq<char>, Seq<char>)> {
    let i = first_match(s, p) as int;
    if i < s.len() {
        Some((s.take(i), s.skip(i + 1)))
    } else {
        None
    }
}

/// The maximal runs of characters of `s` that are not white space, in order.
pub open spec fn words(s: Seq<char>) -> Seq<Seq<char>>
    decreases s.len(),
    via words_decreases
{
    let t = trim_start(s);
    if t.len() == 0 {
        Seq::empty()
    } else {
        let i = first_match(t, |c: char| is_white(c)) as int;
        seq![t.take(i)] + words(t.skip(i))
    }
}

#[via_fn]
proof fn words_decreases(s: Seq<char>) {
    lemma_first_match(s, |c: char| !is_white(c));
    lemma_first_match(trim_start(s), |c: char| is_white(c));
}

/// What [`first_match`] is, position by position.
pub proof fn lemma_first_match(s: Seq<char>, p: spec_fn(char) -> bool)
    ensures
        first_match(s, p) <= s.len(),
        forall|i: int| 0 <= i < first_match(s, p) ==> !p(#[trigger] s[i]),
        first_match(s, p) < s.len() ==> p(s[first_match(s, p) as int]),
    decreases s.len(),
{
    if s.len() > 0 && !p(s[0]) {
        let t = s.drop_first();
        lemma_first_match(t, p);
        assert forall|i: int| 0 <= i < first_match(s, p) implies !p(#[trigger] s[i]) by {
            if i > 0 {
                assert(s[i] == t[i - 1]);
            }
        }
    }
}

/// A position with the two properties of [`first_match`] is that position.
pub proof fn lemma_first_match_is(s: Seq<char>, p: spec_fn(char) -> bool, n: int)
    requires
        0 <= n <= s.len(),
        forall|i: int| 0 <= i < n ==> !p(#[trigger] s[i]),
        n < s.len() ==> p(s[n]),
    ensures
        first_match(s, p) == n,
{
    lemma_first_match(s, p);
    let k = first_match(s, p) as int;
    if k < n {
        assert(!p(s[k]));
    } else if n < k {
        assert(!p(s[n]));
    }
}

/// Removing `k` trailing white characters one by one.
proof fn lemma_trim_end(s: Seq<char>, n: int)
    requires
        0 <= n <= s.len(),
        forall|i: int| n <= i < s.len() ==> is_white(#[trigger] s[i]),
        n > 0 ==> !is_white(s[n - 1]),
    ensures
        trim_end(s) == s.take(n),
    decreases s.len(),
{
    if n == s.len() {
        assert(s.take(n) == s);
    } else {
        assert(is_white(s[s.len() - 1]));
        lemma_trim_end(s.drop_last(), n);
        assert(s.drop_last().take(n) == s.take(n));
    }
}

/// A trimmed text ends in a character that is not white.
pub proof fn lemma_trimmed_ends(s: Seq<char>)
    ensures
        trimmed(s).len() > 0 ==> !is_white(trimmed(s).last()),
{
    lemma_trim_end_ends(trim_start(s));
}

proof fn lemma_trim_end_ends(s: Seq<char>)
    ensures
        trim_end(s).len() > 0 ==> !is_white(trim_end(s).last()),
        s.len() > 0 && !is_white(s.last()) ==> trim_end(s) == s,
    decreases s.len(),
{
    if s.len() > 0 && is_white(s.last()) {
        lemma_trim_end_ends(s.drop_last());
    }
}

/// Trimming leaves something of a text that ends in a character that is not white.
pub proof fn lemma_trimmed_keeps(s: Seq<char>)
    requires
        s.len() > 0,
        !is_white(s.last()),
    ensures
        trimmed(s).len() > 0,
{
    let ink = |c: char| !is_white(c);
    lemma_first_match(s, ink);
    let i = first_match(s, ink) as int;
    if i == s.len() {
        assert(!ink(s[s.len() - 1]));
    }
    assert(trim_start(s).last() == s.last());
    lemma_trim_end_ends(trim_start(s));
}

/// The characters of a text, one by one.
pub fn chars_of(s: &str) -> (r: Vec<char>)
    ensures
        r@ == s@,
{
    let mut r: Vec<char> = Vec::new();
    for c in it: s.chars()
        invariant
            r@ == it.seq().take(it.index()),
            it.seq() == s@,
    {
        r.push(c);
    }
    r
}

/// The position of [`first_match`] for white space (`want` true) or for
/// anything else (`want` false), searched from `from` on.
fn find_white(cs: &Vec<char>, from: usize, want: bool) -> (r: usize)
    requires
        from <= cs@.len(),
    ensures
        r == from + first_match(cs@.skip(from as int), |c: char| is_white(c) == want),
{
    let mut i: usize = from;
    while i < cs.len() && white(cs[i]) != want
        invariant
            from <= i <= cs@.len(),
            forall|k: int| from <= k < i ==> is_white(#[trigger] cs@[k]) != want,
        decreases cs@.len() - i,
    {
        i += 1;
    }
    proof {
        let t = cs@.skip(from as int);
        assert forall|k: int| 0 <= k < i - from implies is_white(#[trigger] t[k]) != want by {
            assert(t[k] == cs@[from + k]);
        }
        lemma_first_match_is(t, |c: char| is_white(c) == want, i - from);
    }
    i
}

/// Trims a text.
pub fn trim(s: &str) -> (r: &str)
    ensures
        r@ == trimmed(s@),
{
    let cs = chars_of(s);
    let a: usize = find_white(&cs, 0, false);
    let mut b: usize = cs.len();
    proof {
        assert(cs@.skip(0) == cs@);
        lemma_first_match(s@, |c: char| is_white(c) == false);
        lemma_first_match_is(s@, |c: char| !is_white(c), a as int);
    }
    while a < b && white(cs[b - 1])
        invariant
            a <= b <= cs@.len(),
            forall|k: int| b <= k < cs@.len() ==> is_white(#[trigger] cs@[k]),
        decreases b,
    {
        b -= 1;
    }
    proof {
        let t = s@.skip(a as int);
        assert forall|k: int| b - a <= k < t.len() implies is_white(#[trigger] t[k]) by {
            assert(t[k] == cs@[a + k]);
        }
        lemma_trim_end(t, b - a);
        assert(t.take(b - a) == s@.subrange(a as int, b as int));
    }
    s.substring_char(a, b)
}

/// Cuts a text around its first white character.
pub fn cut_white(s: &str) -> (r: Option<(&str, &str)>)
    ensures
        match r {
            Some(p) => cut(s@, |c: char| is_white(c)) == Some((p.0@, p.1@)),
            None => cut(s@, |c: char| is_white(c)) is None,
        },
{
    let cs = chars_of(s);
    let i: usize = find_white(&cs, 0, true);
    proof {
        assert(cs@.skip(0) == cs@);
        lemma_first_match(s@, |c: char| is_white(c) == true);
        lemma_first_match_is(s@, |c: char| is_white(c), i as int);
    }
    if i < cs.len() {
        proof {
            assert(s@.subrange(0, i as int) == s@.take(i as int));
            assert(s@.subrange(i + 1, s@.len() as int) == s@.skip(i + 1));
        }
        Some((s.substring_char(0, i), s.substring_char(i + 1, cs.len())))
    } else {
        None
    }
}

/// Cuts a text around its first blank (U+0020).
pub fn cut_blank(s: &str) -> (r: Option<(&str, &str)>)
    ensures
        match r {
            Some(p) => cut(s@, |c: char| c == ' ') == Some((p.0@, p.1@)),
            None => cut(s@, |c: char| c == ' ') is None,
        },
{
    let cs = chars_of(s);
    let mut i: usize = 0;
    while i < cs.len() && cs[i] != ' '
        invariant
            i <= cs@.len(),
            forall|k: int| 0 <= k < i ==> #[trigger] cs@[k] != ' ',
        decreases cs@.len() - i,
    {
        i += 1;
    }
    proof {
        lemma_first_match_is(s@, |c: char| c == ' ', i as int);
    }
    if i < cs.len() {
        proof {
            assert(s@.subrange(0, i as int) == s@.take(i as int));
            assert(s@.subrange(i + 1, s@.len() as int) == s@.skip(i + 1));
        }
        Some((s.substring_char(0, i), s.substring_char(i + 1, cs.len())))
    } else {
        None
    }
}

/// The characters of each text of a list.
pub open spec fn texts(v: Seq<String>) -> Seq<Seq<char>> {
    v.map_values(|t: String| t@)
}

/// Splits a text at white space.
pub fn split_words(s: &str) -> (r: Vec<String>)
    ensures
        texts(r@) == words(s@),
{
    let cs = chars_of(s);
    let mut r: Vec<String> = Vec::new();
    let mut i: usize = 0;
    proof {
        assert(texts(r@) == Seq::<Seq<char>>::empty());
        assert(s@.skip(0) == s@);
        assert(texts(r@) + words(s@.skip(0)) == words(s@));
    }
    while i < cs.len()
        invariant
            cs@ == s@,
            i <= cs@.len(),
            texts(r@) + words(s@.skip(i as int)) == words(s@),
        decreases cs@.len() - i,
    {
        let ghost rest = s@.skip(i as int);
        let ghost before = texts(r@);
        let a: usize = find_white(&cs, i, false);
        proof {
            lemma_first_match(rest, |c: char| is_white(c) == false);
            lemma_first_match_is(rest, |c: char| !is_white(c), a - i);
            assert(trim_start(rest) == s@.skip(a as int));
        }
        if a == cs.len() {
            proof {
                assert(words(rest) == Seq::<Seq<char>>::empty());
                assert(words(s@.skip(a as int)) == Seq::<Seq<char>>::empty()) by {
                    assert(trim_start(s@.skip(a as int)).len() == 0);
                }
            }
            i = a;
        } else {
            let b: usize = find_white(&cs, a, true);
            let ghost t = s@.skip(a as int);
            proof {
                lemma_first_match(t, |c: char| is_white(c) == true);
                lemma_first_match_is(t, |c: char| is_white(c), b - a);
                lemma_first_match(rest, |c: char| !is_white(c));
                assert(!is_white(t[0]));
                assert(t.take(b - a) == s@.subrange(a as int, b as int));
                assert(t.skip(b - a) == s@.skip(b as int));
            }
            let w = s.substring_char(a, b).to_owned();
            r.push(w);
            proof {
                assert(texts(r@) == before + seq![w@]);
                assert(words(rest) == seq![t.take(b - a)] + words(t.skip(b - a)));
                assert(texts(r@) + words(s@.skip(b as int)) == before + words(rest));
            }
            i = b;
        }
    }
    proof {
        assert(s@.skip(i as int).len() == 0);
        assert(words(s@.skip(i as int)) == Seq::<Seq<char>>::empty());
        assert(texts(r@) + words(s@.skip(i as int)) == texts(r@));
    }
    r
}

/// Whether two texts are the same.
pub fn same_text(a: &str, b: &str) -> (r: bool)
    ensures
        r == (a@ == b@),
{
    let x = a.as_bytes();
    let y = b.as_bytes();
    if x.len() != y.len() {
        return false;
    }
    let mut i: usize = 0;
    while i < x.len()
        invariant
            x@ == vstd::utf8::encode_utf8(a@),
            y@ == vstd::utf8::encode_utf8(b@),
            x@.len() == y@.len(),
            i <= x@.len(),
            forall|k: int| 0 <= k < i ==> x@[k] == y@[k],
        decreases x@.len() - i,
    {
        if x[i] != y[i] {
            return false;
        }
        i += 1;
    }
    proof {
        assert(x@ == y@);
        vstd::utf8::encode_utf8_decode_utf8(a@);
        vstd::utf8::encode_utf8_decode_utf8(b@);
    }
    true
}

/// Whether a text is the one an optional text holds.
pub fn holds_text(held: &Option<String>, t: &str) -> (r: bool)
    ensures
        r == (held is Some && held->0@ == t@),
{
    match held {
        Some(h) => same_text(h.as_str(), t),
        None => false,
    }
}

/// Whether a text is made of white space alone.
pub open spec fn blank(s: Seq<char>) -> bool {
    forall|i: int| 0 <= i < s.len() ==> is_white(#[trigger] s[i])
}

/// Whether a text is without white space.
pub open spec fn solid(s: Seq<char>) -> bool {
    forall|i: int| 0 <= i < s.len() ==> !is_white(#[trigger] s[i])
}

/// Whether a text neither begins nor ends with white space.
pub open spec fn tight(s: Seq<char>) -> bool {
    s.len() > 0 ==> !is_white(s.first()) && !is_white(s.last())
}

/// Trimming takes the white space before and behind a text away, all of it, and
/// nothing else.
pub proof fn law_trimming(before: Seq<char>, t: Seq<char>, after: Seq<char>)
    requires
        blank(before),
        tight(t),
        blank(after),
    ensures
        trimmed(before + t + after) == t,
        trimmed(t) == t,
{
    lemma_trimming(before, t, after);
    let nothing = Seq::<char>::empty();
    lemma_trimming(nothing, t, nothing);
    assert(nothing + t + nothing =~= t);
}

proof fn lemma_trimming(before: Seq<char>, t: Seq<char>, after: Seq<char>)
    requires
        blank(before),
        tight(t),
        blank(after),
    ensures
        trimmed(before + t + after) == t,
{
    let s = before + t + after;
    let ink = |c: char| !is_white(c);
    if t.len() > 0 {
        assert forall|i: int| 0 <= i < before.len() implies !ink(#[trigger] s[i]) by {
            assert(s[i] == before[i]);
        }
        assert(s[before.len() as int] == t.first());
        lemma_first_match_is(s, ink, before.len() as int);
        let u = t + after;
        assert(trim_start(s) =~= u);
        assert forall|i: int| t.len() <= i < u.len() implies is_white(#[trigger] u[i]) by {
            assert(u[i] == after[i - t.len()]);
        }
        assert(u[t.len() - 1] == t.last());
        lemma_trim_end(u, t.len() as int);
        assert(u.take(t.len() as int) =~= t);
    } else {
        assert forall|i: int| 0 <= i < s.len() implies !ink(#[trigger] s[i]) by {
            if i < before.len() {
                assert(s[i] == before[i]);
            } else {
                assert(s[i] == after[i - before.len()]);
            }
        }
        lemma_first_match_is(s, ink, s.len() as int);
        assert(trim_start(s).len() == 0);
        assert(trimmed(s) =~= t);
    }
}

/// Every text is its trimmed form with white space around it.
pub proof fn law_trimmed_form(s: Seq<char>)
    ensures
        tight(trimmed(s)),
        exists|before: Seq<char>, after: Seq<char>|
            #[trigger] blank(before) && #[trigger] blank(after) && s == before + trimmed(s) + after,
{
    let ink = |c: char| !is_white(c);
    lemma_first_match(s, ink);
    let i = first_match(s, ink) as int;
    let before = s.take(i);
    let u = trim_start(s);
    assert forall|k: int| 0 <= k < before.len() implies is_white(#[trigger] before[k]) by {
        assert(!ink(s[k]));
    }
    lemma_trim_end_splits(u);
    let t = trim_end(u);
    let after = u.skip(t.len() as int);
    assert(s =~= before + t + after);
    if t.len() > 0 {
        assert(t.first() == u.first());
        assert(u.first() == s[i]);
        lemma_trim_end_ends(u);
    }
    assert(blank(before) && blank(after) && s == before + trimmed(s) + after);
}

proof fn lemma_trim_end_splits(s: Seq<char>)
    ensures
        trim_end(s).len() <= s.len(),
        s.take(trim_end(s).len() as int) == trim_end(s),
        blank(s.skip(trim_end(s).len() as int)),
    decreases s.len(),
{
    if s.len() > 0 && is_white(s.last()) {
        let r = s.drop_last();
        lemma_trim_end_splits(r);
        let n = trim_end(s).len() as int;
        assert(s.take(n) =~= r.take(n));
        assert forall|k: int| 0 <= k < s.skip(n).len() implies is_white(#[trigger] s.skip(n)[k]) by {
            if k < r.skip(n).len() {
                assert(s.skip(n)[k] == r.skip(n)[k]);
            }
        }
    } else {
        assert(s.take(s.len() as int) =~= s);
    }
}

/// A cut is made at the first character that satisfies the condition: what comes before
/// it, and all that comes behind it.
pub proof fn law_cut(a: Seq<char>, c: char, b: Seq<char>, p: spec_fn(char) -> bool)
    requires
        forall|i: int| 0 <= i < a.len() ==> !p(#[trigger] a[i]),
        p(c),
    ensures
        cut(a + seq![c] + b, p) == Some((a, b)),
        cut(a, p) is None,
{
    let s = a + seq![c] + b;
    assert forall|i: int| 0 <= i < a.len() implies !p(#[trigger] s[i]) by {
        assert(s[i] == a[i]);
    }
    lemma_first_match_is(s, p, a.len() as int);
    lemma_first_match_is(a, p, a.len() as int);
    assert(s.take(a.len() as int) =~= a);
    assert(s.skip(a.len() as int + 1) =~= b);
}

/// White space separates words and belongs to none: the words of two texts with a white
/// character between them are those of the one, then those of the other. A text without
/// white space is one word, unless it is empty.
pub proof fn law_words(a: Seq<char>, w: char, b: Seq<char>, x: Seq<char>)
    requires
        is_white(w),
        solid(x),
    ensures
        words(a + seq![w] + b) == words(a) + words(b),
        x.len() > 0 ==> words(x) == seq![x],
        words(Seq::empty()) == Seq::<Seq<char>>::empty(),
        words(trimmed(a)) == words(a),
{
    lemma_words_join(a, w, b);
    lemma_words_trimmed(a);
    let none = Seq::<char>::empty();
    lemma_first_match(none, |c: char| !is_white(c));
    assert(trim_start(none).len() == 0);
    if x.len() > 0 {
        let ink = |c: char| !is_white(c);
        let white = |c: char| is_white(c);
        assert(ink(x[0]));
        lemma_first_match_is(x, ink, 0);
        assert(trim_start(x) =~= x);
        lemma_first_match_is(x, white, x.len() as int);
        assert(x.take(x.len() as int) =~= x);
        assert(x.skip(x.len() as int) =~= none);
        assert(words(x) == seq![x] + words(none));
        assert(words(x) =~= seq![x]);
    }
}

/// White space before a text does not change its words.
proof fn lemma_words_start(s: Seq<char>)
    ensures
        trim_start(trim_start(s)) == trim_start(s),
        words(trim_start(s)) == words(s),
{
    let ink = |c: char| !is_white(c);
    lemma_first_match(s, ink);
    let t = trim_start(s);
    if t.len() > 0 {
        assert(t[0] == s[first_match(s, ink) as int]);
        lemma_first_match_is(t, ink, 0);
    } else {
        lemma_first_match(t, ink);
    }
    assert(trim_start(t) =~= t);
}

proof fn lemma_words_join(a: Seq<char>, w: char, b: Seq<char>)
    requires
        is_white(w),
    ensures
        words(a + seq![w] + b) == words(a) + words(b),
    decreases a.len(),
{
    let ink = |c: char| !is_white(c);
    let white = |c: char| is_white(c);
    let s = a + seq![w] + b;
    let n = first_match(a, ink) as int;
    lemma_first_match(a, ink);
    let ta = trim_start(a);
    if ta.len() == 0 {
        let m = first_match(b, ink) as int;
        lemma_first_match(b, ink);
        assert forall|i: int| 0 <= i < a.len() + 1 + m implies !ink(#[trigger] s[i]) by {
            if i < a.len() {
                assert(s[i] == a[i] && !ink(a[i]));
            } else if i > a.len() {
                assert(s[i] == b[i - a.len() - 1]);
                assert(!ink(b[i - a.len() - 1]));
            }
        }
        if m < b.len() {
            assert(s[a.len() + 1 + m] == b[m]);
        }
        lemma_first_match_is(s, ink, a.len() as int + 1 + m);
        assert(trim_start(s) =~= trim_start(b));
        lemma_words_start(s);
        lemma_words_start(b);
        assert(words(a) =~= Seq::<Seq<char>>::empty());
        assert(words(a) + words(b) =~= words(b));
    } else {
        assert forall|i: int| 0 <= i < n implies !ink(#[trigger] s[i]) by {
            assert(s[i] == a[i] && !ink(a[i]));
        }
        assert(s[n] == a[n]);
        lemma_first_match_is(s, ink, n);
        let ts = trim_start(s);
        assert(ts =~= ta + seq![w] + b);
        let i = first_match(ta, white) as int;
        lemma_first_match(ta, white);
        assert forall|k: int| 0 <= k < i implies !white(#[trigger] ts[k]) by {
            assert(ts[k] == ta[k] && !white(ta[k]));
        }
        if i < ta.len() {
            assert(ts[i] == ta[i]);
        } else {
            assert(ts[i] == w);
        }
        lemma_first_match_is(ts, white, i);
        assert(ts.take(i) =~= ta.take(i));
        let rest = ta.skip(i);
        assert(ts.skip(i) =~= rest + seq![w] + b);
        assert(!white(ta[0])) by {
            assert(ta[0] == a[n]);
        }
        assert(i > 0);
        lemma_words_join(rest, w, b);
        assert(words(a) == seq![ta.take(i)] + words(rest));
        assert(words(s) == seq![ts.take(i)] + words(ts.skip(i)));
        assert(words(s) =~= words(a) + words(b));
    }
}

proof fn lemma_words_trimmed(s: Seq<char>)
    ensures
        words(trimmed(s)) == words(s),
{
    lemma_words_start(s);
    lemma_words_end(trim_start(s));
}

proof fn lemma_words_end(s: Seq<char>)
    ensures
        words(trim_end(s)) == words(s),
    decreases s.len(),
{
    if s.len() > 0 && is_white(s.last()) {
        let r = s.drop_last();
        let none = Seq::<char>::empty();
        lemma_words_end(r);
        lemma_words_join(r, s.last(), none);
        lemma_first_match(none, |c: char| !is_white(c));
        assert(trim_start(none).len() == 0);
        assert(words(none) =~= Seq::<Seq<char>>::empty());
        assert(r + seq![s.last()] + none =~= s);
        assert(words(r) + words(none) =~= words(r));
    }
}

} // verus!

//! Character-level helpers shared by the argument parsers.
use vstd::prelude::*;

verus! {

/// Unicode `White_Space`, the set that `char::is_whitespace` and `str::trim` use.
pub open spec fn is_space(c: char) -> bool {
    ('\u{9}' <= c && c <= '\u{d}') || c == ' ' || c == '\u{85}' || c == '\u{a0}' || c == '\u{1680}'
        || ('\u{2000}' <= c && c <= '\u{200a}') || c == '\u{2028}' || c == '\u{2029}'
        || c == '\u{202f}' || c == '\u{205f}' || c == '\u{3000}'
}

/// ASCII whitespace, the separators of `str::split_ascii_whitespace`.
pub open spec fn is_ascii_space(c: char) -> bool {
    c == ' ' || c == '\t' || c == '\n' || c == '\u{c}' || c == '\r'
}

pub open spec fn is_digit(c: char) -> bool {
    '0' <= c && c <= '9'
}

pub fn char_is_space(c: char) -> (r: bool)
    ensures
        r == is_space(c),
{
    ('\u{9}' <= c && c <= '\u{d}') || c == ' ' || c == '\u{85}' || c == '\u{a0}' || c == '\u{1680}'
        || ('\u{2000}' <= c && c <= '\u{200a}') || c == '\u{2028}' || c == '\u{2029}'
        || c == '\u{202f}' || c == '\u{205f}' || c == '\u{3000}'
}

pub fn char_is_ascii_space(c: char) -> (r: bool)
    ensures
        r == is_ascii_space(c),
{
    c == ' ' || c == '\t' || c == '\n' || c == '\u{c}' || c == '\r'
}

/// Number of leading characters of `s` that satisfy `is_space`.
pub open spec fn lead_spaces(s: Seq<char>) -> nat
    decreases s.len(),
{
    if s.len() > 0 && is_space(s[0]) {
        1 + lead_spaces(s.drop_first())
    } else {
        0
    }
}

/// Number of trailing characters of `s` that satisfy `is_space`.
pub open spec fn trail_spaces(s: Seq<char>) -> nat
    decreases s.len(),
{
    if s.len() > 0 && is_space(s.last()) {
        1 + trail_spaces(s.drop_last())
    } else {
        0
    }
}

pub open spec fn trim_start_of(s: Seq<char>) -> Seq<char> {
    s.skip(lead_spaces(s) as int)
}

pub open spec fn trim_of(s: Seq<char>) -> Seq<char> {
    let t = trim_start_of(s);
    t.take(t.len() - trail_spaces(t))
}

proof fn lemma_lead_spaces(s: Seq<char>, i: int)
    requires
        0 <= i <= s.len(),
        forall|k: int| 0 <= k < i ==> is_space(#[trigger] s[k]),
    ensures
        i == s.len() || !is_space(s[i]) ==> lead_spaces(s) == i,
        lead_spaces(s) >= i,
        lead_spaces(s) <= s.len(),
    decreases i,
{
    if i > 0 {
        let t = s.drop_first();
        assert forall|k: int| 0 <= k < i - 1 implies is_space(#[trigger] t[k]) by {
            assert(t[k] == s[k + 1]);
        }
        lemma_lead_spaces(t, i - 1);
        if i < s.len() {
            assert(t[i - 1] == s[i]);
        }
    } else {
        lemma_lead_spaces_le(s);
    }
}

proof fn lemma_lead_spaces_le(s: Seq<char>)
    ensures
        lead_spaces(s) <= s.len(),
    decreases s.len(),
{
    if s.len() > 0 {
        lemma_lead_spaces_le(s.drop_first());
    }
}

proof fn lemma_trail_spaces(s: Seq<char>, n: int)
    requires
        0 <= n <= s.len(),
        forall|k: int| s.len() - n <= k < s.len() ==> is_space(#[trigger] s[k]),
    ensures
        n == s.len() || !is_space(s[s.len() - n - 1]) ==> trail_spaces(s) == n,
        trail_spaces(s) >= n,
        trail_spaces(s) <= s.len(),
    decreases n,
{
    if n > 0 {
        let t = s.drop_last();
        assert forall|k: int| t.len() - (n - 1) <= k < t.len() implies is_space(#[trigger] t[k]) by {
            assert(t[k] == s[k]);
        }
        lemma_trail_spaces(t, n - 1);
        if n < s.len() {
            assert(t[t.len() - (n - 1) - 1] == s[s.len() - n - 1]);
        }
    } else {
        lemma_trail_spaces_le(s);
    }
}

proof fn lemma_trail_spaces_le(s: Seq<char>)
    ensures
        trail_spaces(s) <= s.len(),
    decreases s.len(),
{
    if s.len() > 0 {
        lemma_trail_spaces_le(s.drop_last());
    }
}

/// `str::trim_start`: drops the leading whitespace.
pub fn trim_start(s: &str) -> (r: &str)
    ensures
        r@ == trim_start_of(s@),
{
    let n = s.unicode_len();
    let mut i: usize = 0;
    while i < n && char_is_space(s.get_char(i))
        invariant
            n == s@.len(),
            0 <= i <= n,
            forall|k: int| 0 <= k < i ==> is_space(#[trigger] s@[k]),
        decreases n - i,
    {
        i = i + 1;
    }
    proof {
        lemma_lead_spaces(s@, i as int);
    }
    s.substring_char(i, n)
}

/// `str::trim`: drops the leading and the trailing whitespace.
pub fn trim(s: &str) -> (r: &str)
    ensures
        r@ == trim_of(s@),
{
    let t = trim_start(s);
    let n = t.unicode_len();
    let mut m: usize = 0;
    while m < n && char_is_space(t.get_char(n - 1 - m))
        invariant
            n == t@.len(),
            0 <= m <= n,
            forall|k: int| n - m <= k < n ==> is_space(#[trigger] t@[k]),
        decreases n - m,
    {
        m = m + 1;
    }
    proof {
        lemma_trail_spaces(t@, m as int);
    }
    t.substring_char(0, n - m)
}

fn char_is_strippable(c: char) -> (r: bool)
    ensures
        r == is_strippable(c),
{
    !('0' <= c && c <= '9')
}

pub open spec fn is_strippable(c: char) -> bool {
    !is_digit(c)
}

/// Number of leading characters of `s` that are not ASCII digits.
pub open spec fn lead_non_digits(s: Seq<char>) -> nat
    decreases s.len(),
{
    if s.len() > 0 && is_strippable(s[0]) {
        1 + lead_non_digits(s.drop_first())
    } else {
        0
    }
}

/// Number of trailing characters of `s` that are not ASCII digits.
pub open spec fn trail_non_digits(s: Seq<char>) -> nat
    decreases s.len(),
{
    if s.len() > 0 && is_strippable(s.last()) {
        1 + trail_non_digits(s.drop_last())
    } else {
        0
    }
}

pub open spec fn strip_start_of(s: Seq<char>) -> Seq<char> {
    s.skip(lead_non_digits(s) as int)
}

pub open spec fn strip_non_digits_of(s: Seq<char>) -> Seq<char> {
    let t = strip_start_of(s);
    t.take(t.len() - trail_non_digits(t))
}

proof fn lemma_lead_non_digits(s: Seq<char>, i: int)
    requires
        0 <= i <= s.len(),
        forall|k: int| 0 <= k < i ==> is_strippable(#[trigger] s[k]),
    ensures
        i == s.len() || !is_strippable(s[i]) ==> lead_non_digits(s) == i,
        lead_non_digits(s) >= i,
        lead_non_digits(s) <= s.len(),
    decreases i,
{
    if i > 0 {
        let t = s.drop_first();
        assert forall|k: int| 0 <= k < i - 1 implies is_strippable(#[trigger] t[k]) by {
            assert(t[k] == s[k + 1]);
        }
        lemma_lead_non_digits(t, i - 1);
        if i < s.len() {
            assert(t[i - 1] == s[i]);
        }
    } else {
        lemma_lead_non_digits_le(s);
    }
}

proof fn lemma_lead_non_digits_le(s: Seq<char>)
    ensures
        lead_non_digits(s) <= s.len(),
    decreases s.len(),
{
    if s.len() > 0 {
        lemma_lead_non_digits_le(s.drop_first());
    }
}

proof fn lemma_trail_non_digits(s: Seq<char>, n: int)
    requires
        0 <= n <= s.len(),
        forall|k: int| s.len() - n <= k < s.len() ==> is_strippable(#[trigger] s[k]),
    ensures
        n == s.len() || !is_strippable(s[s.len() - n - 1]) ==> trail_non_digits(s) == n,
        trail_non_digits(s) >= n,
        trail_non_digits(s) <= s.len(),
    decreases n,
{
    if n > 0 {
        let t = s.drop_last();
        assert forall|k: int| t.len() - (n - 1) <= k < t.len() implies is_strippable(#[trigger] t[k]) by {
            assert(t[k] == s[k]);
        }
        lemma_trail_non_digits(t, n - 1);
        if n < s.len() {
            assert(t[t.len() - (n - 1) - 1] == s[s.len() - n - 1]);
        }
    } else {
        lemma_trail_non_digits_le(s);
    }
}

proof fn lemma_trail_non_digits_le(s: Seq<char>)
    ensures
        trail_non_digits(s) <= s.len(),
    decreases s.len(),
{
    if s.len() > 0 {
        lemma_trail_non_digits_le(s.drop_last());
    }
}

/// Drops the leading characters that are not ASCII digits.
fn strip_start(s: &str) -> (r: &str)
    ensures
        r@ == strip_start_of(s@),
{
    let n = s.unicode_len();
    let mut i: usize = 0;
    while i < n && char_is_strippable(s.get_char(i))
        invariant
            n == s@.len(),
            0 <= i <= n,
            forall|k: int| 0 <= k < i ==> is_strippable(#[trigger] s@[k]),
        decreases n - i,
    {
        i = i + 1;
    }
    proof {
        lemma_lead_non_digits(s@, i as int);
    }
    s.substring_char(i, n)
}

/// `str::trim_matches` with the characters that are not ASCII digits: drops
/// them at both ends.
pub fn strip_non_digits(s: &str) -> (r: &str)
    ensures
        r@ == strip_non_digits_of(s@),
{
    let t = strip_start(s);
    let n = t.unicode_len();
    let mut m: usize = 0;
    while m < n && char_is_strippable(t.get_char(n - 1 - m))
        invariant
            n == t@.len(),
            0 <= m <= n,
            forall|k: int| n - m <= k < n ==> is_strippable(#[trigger] t@[k]),
        decreases n - m,
    {
        m = m + 1;
    }
    proof {
        lemma_trail_non_digits(t@, m as int);
    }
    t.substring_char(0, n - m)
}

/// The value of a run of decimal digits.
pub open spec fn digits_value(s: Seq<char>) -> nat
    decreases s.len(),
{
    if s.len() == 0 {
        0
    } else {
        digits_value(s.drop_last()) * 10 + (s.last() as nat - '0' as nat) as nat
    }
}

/// `s` without one leading `+`.
pub open spec fn sign_dropped(s: Seq<char>) -> Seq<char> {
    if s.len() > 0 && s[0] == '+' {
        s.drop_first()
    } else {
        s
    }
}

/// What `str::parse` reads as an unsigned integer: an optional `+` and one or
/// more decimal digits.
pub open spec fn unsigned_of(s: Seq<char>) -> Option<nat> {
    let d = sign_dropped(s);
    if d.len() > 0 && (forall|i: int| 0 <= i < d.len() ==> is_digit(#[trigger] d[i])) {
        Some(digits_value(d))
    } else {
        None
    }
}

/// The value that an unsigned integer type with largest value `max` parses from `s`.
pub open spec fn parse_bounded(s: Seq<char>, max: nat) -> Option<nat> {
    match unsigned_of(s) {
        Some(v) => if v <= max {
            Some(v)
        } else {
            None
        },
        None => None,
    }
}

/// Parses `s` as an unsigned integer no larger than `max`, as `str::parse` does
/// for the unsigned integer type whose largest value is `max`.
pub fn parse_unsigned(s: &str, max: u64) -> (r: Option<u64>)
    ensures
        r matches Some(v) ==> parse_bounded(s@, max as nat) == Some(v as nat),
        r is None ==> parse_bounded(s@, max as nat) is None,
{
    let n = s.unicode_len();
    let start: usize = if n > 0 && s.get_char(0) == '+' {
        1
    } else {
        0
    };
    if start >= n {
        return None;
    }
    let ghost d = s@.skip(start as int);
    assert(d =~= sign_dropped(s@));
    let mut i: usize = start;
    let mut acc: u64 = 0;
    let mut over = false;
    while i < n
        invariant
            n == s@.len(),
            start <= i <= n,
            d == s@.skip(start as int),
            d == sign_dropped(s@),
            forall|k: int| start <= k < i ==> is_digit(#[trigger] s@[k]),
            !over ==> acc as nat == digits_value(d.take(i - start)),
            !over ==> acc <= max,
            over ==> digits_value(d.take(i - start)) > max,
        decreases n - i,
    {
        let c = s.get_char(i);
        if !('0' <= c && c <= '9') {
            assert(d[i - start] == c);
            assert(!is_digit(d[i - start]));
            assert(!(forall|k: int| 0 <= k < d.len() ==> is_digit(#[trigger] d[k])));
            assert(unsigned_of(s@) is None);
            return None;
        }
        let dig = (c as u32 - '0' as u32) as u64;
        assert(d.take(i + 1 - start).drop_last() =~= d.take(i - start));
        assert(d.take(i + 1 - start).last() == c);
        if !over {
            if dig > max || acc > (max - dig) / 10 {
                over = true;
                assert(digits_value(d.take(i + 1 - start)) > max) by (nonlinear_arith)
                    requires
                        digits_value(d.take(i + 1 - start)) == acc * 10 + dig,
                        dig > max || acc > (max - dig) / 10,
                ;
            } else {
                assert(acc * 10 + dig <= max) by (nonlinear_arith)
                    requires
                        acc <= (max - dig) / 10,
                        dig <= max,
                ;
                acc = acc * 10 + dig;
            }
        }
        i = i + 1;
    }
    assert(d.take(n - start) =~= d);
    if over {
        None
    } else {
        Some(acc)
    }
}

} // verus!

verus! {

/// Character-wise equality of two string slices.
pub fn str_eq(a: &str, b: &str) -> (r: bool)
    ensures
        r == (a@ == b@),
{
    let n = a.unicode_len();
    if n != b.unicode_len() {
        return false;
    }
    let mut i: usize = 0;
    while i < n
        invariant
            n == a@.len(),
            n == b@.len(),
            0 <= i <= n,
            forall|k: int| 0 <= k < i ==> a@[k] == b@[k],
        decreases n - i,
    {
        if a.get_char(i) != b.get_char(i) {
            return false;
        }
        i = i + 1;
    }
    assert(a@ =~= b@);
    true
}

} // verus!

verus! {

/// The views of a sequence of string slices.
pub open spec fn views(v: Seq<&str>) -> Seq<Seq<char>> {
    v.map_values(|t: &str| t@)
}

/// The index of the first `c` in `s`, or its length where there is none.
pub open spec fn find_char(s: Seq<char>, c: char) -> nat
    decreases s.len(),
{
    if s.len() == 0 {
        0
    } else if s[0] == c {
        0
    } else {
        1 + find_char(s.drop_first(), c)
    }
}

proof fn lemma_find_char(s: Seq<char>, c: char, i: int)
    requires
        0 <= i <= s.len(),
        forall|k: int| 0 <= k < i ==> #[trigger] s[k] != c,
        i == s.len() || s[i] == c,
    ensures
        find_char(s, c) == i,
    decreases i,
{
    if i > 0 {
        let t = s.drop_first();
        assert forall|k: int| 0 <= k < i - 1 implies #[trigger] t[k] != c by {
            assert(t[k] == s[k + 1]);
        }
        if i < s.len() {
            assert(t[i - 1] == s[i]);
        }
        lemma_find_char(t, c, i - 1);
    }
}

/// Finds the first `c` in `s`.
pub fn find(s: &str, c: char) -> (r: usize)
    ensures
        r == find_char(s@, c),
        r <= s@.len(),
{
    let n = s.unicode_len();
    let mut i: usize = 0;
    while i < n && s.get_char(i) != c
        invariant
            n == s@.len(),
            0 <= i <= n,
            forall|k: int| 0 <= k < i ==> #[trigger] s@[k] != c,
        decreases n - i,
    {
        i = i + 1;
    }
    proof {
        lemma_find_char(s@, c, i as int);
    }
    i
}

/// The pieces of `s` between the separators `sep`, as `str::split` gives them:
/// one more than there are separators.
pub open spec fn pieces(s: Seq<char>, sep: char) -> Seq<Seq<char>>
    decreases s.len(),
{
    if s.len() == 0 {
        seq![seq![]]
    } else {
        let p = pieces(s.drop_last(), sep);
        if s.last() == sep {
            p.push(seq![])
        } else {
            p.update(p.len() - 1, p.last().push(s.last()))
        }
    }
}

/// `str::split` on one character.
pub fn split_on<'a>(s: &'a str, sep: char) -> (r: Vec<&'a str>)
    ensures
        views(r@) == pieces(s@, sep),
{
    let n = s.unicode_len();
    let mut out: Vec<&'a str> = Vec::new();
    let mut start: usize = 0;
    let mut i: usize = 0;
    assert(s@.take(0) =~= Seq::<char>::empty());
    assert(views(out@).push(s@.subrange(0, 0)) =~= seq![Seq::<char>::empty()]);
    while i < n
        invariant
            n == s@.len(),
            0 <= start <= i <= n,
            pieces(s@.take(i as int), sep) == views(out@).push(s@.subrange(start as int, i as int)),
        decreases n - i,
    {
        let c = s.get_char(i);
        assert(s@.take(i + 1).drop_last() =~= s@.take(i as int));
        assert(s@.take(i + 1).last() == c);
        if c == sep {
            let piece = s.substring_char(start, i);
            let ghost before = out@;
            out.push(piece);
            assert(views(out@) =~= views(before).push(piece@));
            start = i + 1;
            assert(s@.subrange(start as int, start as int) =~= Seq::<char>::empty());
        } else {
            assert(s@.subrange(start as int, i + 1) =~= s@.subrange(start as int, i as int).push(c));
        }
        i = i + 1;
    }
    assert(s@.take(n as int) =~= s@);
    let piece = s.substring_char(start, n);
    let ghost before = out@;
    out.push(piece);
    assert(views(out@) =~= views(before).push(piece@));
    out
}

/// The maximal runs of characters that are not ASCII whitespace, as
/// `str::split_ascii_whitespace` gives them.
pub open spec fn ws_tokens(s: Seq<char>) -> Seq<Seq<char>>
    decreases s.len(),
{
    if s.len() == 0 {
        seq![]
    } else {
        let t = ws_tokens(s.drop_last());
        if is_ascii_space(s.last()) {
            t
        } else if s.len() >= 2 && !is_ascii_space(s[s.len() - 2]) {
            t.update(t.len() - 1, t.last().push(s.last()))
        } else {
            t.push(seq![s.last()])
        }
    }
}

/// `str::split_ascii_whitespace`.
pub fn split_ascii_whitespace<'a>(s: &'a str) -> (r: Vec<&'a str>)
    ensures
        views(r@) == ws_tokens(s@),
{
    let n = s.unicode_len();
    let mut out: Vec<&'a str> = Vec::new();
    let mut start: usize = 0;
    let mut in_tok = false;
    let mut i: usize = 0;
    assert(s@.take(0) =~= Seq::<char>::empty());
    assert(views(out@) =~= Seq::<Seq<char>>::empty());
    while i < n
        invariant
            n == s@.len(),
            0 <= start <= i <= n,
            in_tok ==> start < i && !is_ascii_space(s@[i - 1]) && ws_tokens(s@.take(i as int))
                == views(out@).push(s@.subrange(start as int, i as int)),
            !in_tok ==> ws_tokens(s@.take(i as int)) == views(out@) && (i == 0 || is_ascii_space(
                s@[i - 1],
            )),
        decreases n - i,
    {
        let c = s.get_char(i);
        let ghost t = s@.take(i + 1);
        assert(t.drop_last() =~= s@.take(i as int));
        assert(t.last() == c);
        if char_is_ascii_space(c) {
            if in_tok {
                let piece = s.substring_char(start, i);
                let ghost before = out@;
                out.push(piece);
                assert(views(out@) =~= views(before).push(piece@));
                in_tok = false;
            }
        } else {
            if in_tok {
                assert(t[t.len() - 2] == s@[i - 1]);
                assert(s@.subrange(start as int, i + 1) =~= s@.subrange(start as int, i as int).push(c));
            } else {
                if i > 0 {
                    assert(t[t.len() - 2] == s@[i - 1]);
                }
                assert(s@.subrange(i as int, i + 1) =~= seq![c]);
                start = i;
                in_tok = true;
            }
        }
        i = i + 1;
    }
    assert(s@.take(n as int) =~= s@);
    if in_tok {
        let piece = s.substring_char(start, n);
        let ghost before = out@;
        out.push(piece);
        assert(views(out@) =~= views(before).push(piece@));
    }
    out
}

} // verus!

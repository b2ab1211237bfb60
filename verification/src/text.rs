//! Character-level text handling shared by the header, request and routing code.
//!
//! Strings are modelled by their views (`Seq<char>`); every operation here is stated
//! over those sequences.
use vstd::prelude::*;

verus! {

/// `char::is_whitespace`: the characters with the Unicode `White_Space` property.
pub open spec fn is_whitespace(c: char) -> bool {
    ||| ('\u{9}' <= c && c <= '\u{d}')
    ||| c == ' '
    ||| c == '\u{85}'
    ||| c == '\u{a0}'
    ||| c == '\u{1680}'
    ||| ('\u{2000}' <= c && c <= '\u{200a}')
    ||| c == '\u{2028}'
    ||| c == '\u{2029}'
    ||| c == '\u{202f}'
    ||| c == '\u{205f}'
    ||| c == '\u{3000}'
}

/// The characters that `split_ascii_whitespace` separates on.
pub open spec fn is_ascii_whitespace(c: char) -> bool {
    c == ' ' || c == '\t' || c == '\n' || c == '\u{c}' || c == '\r'
}

/// A set of characters that can be stripped from either end of a string.
pub enum CharSet {
    /// Unicode white space (`str::trim`).
    Whitespace,
    /// The character `/`.
    Slash,
    /// Carriage return and line feed.
    LineEnd,
}

impl CharSet {
    pub open spec fn contains(self, c: char) -> bool {
        match self {
            CharSet::Whitespace => is_whitespace(c),
            CharSet::Slash => c == '/',
            CharSet::LineEnd => c == '\r' || c == '\n',
        }
    }

    pub fn has(&self, c: char) -> (b: bool)
        ensures
            b == self.contains(c),
    {
        match self {
            CharSet::Whitespace => {
                ('\u{9}' <= c && c <= '\u{d}') || c == ' ' || c == '\u{85}' || c == '\u{a0}' || c
                    == '\u{1680}' || ('\u{2000}' <= c && c <= '\u{200a}') || c == '\u{2028}' || c
                    == '\u{2029}' || c == '\u{202f}' || c == '\u{205f}' || c == '\u{3000}'
            },
            CharSet::Slash => c == '/',
            CharSet::LineEnd => c == '\r' || c == '\n',
        }
    }
}

/// `s` without its leading characters from `set` (`trim_start_matches`).
pub open spec fn strip_start(s: Seq<char>, set: CharSet) -> Seq<char>
    decreases s.len(),
{
    if s.len() > 0 && set.contains(s[0]) {
        strip_start(s.drop_first(), set)
    } else {
        s
    }
}

/// `s` without its trailing characters from `set` (`trim_end_matches`).
pub open spec fn strip_end(s: Seq<char>, set: CharSet) -> Seq<char>
    decreases s.len(),
{
    if s.len() > 0 && set.contains(s.last()) {
        strip_end(s.drop_last(), set)
    } else {
        s
    }
}

/// `s` without the characters from `set` at both ends (`trim_matches`).
pub open spec fn strip_both(s: Seq<char>, set: CharSet) -> Seq<char> {
    strip_end(strip_start(s, set), set)
}

/// `str::trim`.
pub open spec fn trim(s: Seq<char>) -> Seq<char> {
    strip_both(s, CharSet::Whitespace)
}

/// `char::to_ascii_lowercase`.
pub open spec fn lower_char(c: char) -> char {
    if 'A' <= c && c <= 'Z' {
        ((c as u32) + 32) as char
    } else {
        c
    }
}

/// `str::to_ascii_lowercase`.
pub open spec fn to_lower(s: Seq<char>) -> Seq<char> {
    s.map_values(|c: char| lower_char(c))
}

/// `str::starts_with` for a string pattern.
pub open spec fn starts_with(s: Seq<char>, prefix: Seq<char>) -> bool {
    prefix.len() <= s.len() && s.take(prefix.len() as int) == prefix
}

/// The index of the first `c` in `s`, if any.
pub open spec fn find_char(s: Seq<char>, c: char) -> Option<int>
    decreases s.len(),
{
    if s.len() == 0 {
        None
    } else if s[0] == c {
        Some(0)
    } else {
        match find_char(s.drop_first(), c) {
            Some(i) => Some(i + 1),
            None => None,
        }
    }
}

/// `str::split(c)`: the pieces of `s` between the occurrences of `c`, empty pieces included.
pub open spec fn split_char(s: Seq<char>, c: char) -> Seq<Seq<char>>
    decreases s.len(),
{
    match find_char(s, c) {
        None => seq![s],
        Some(i) => if 0 <= i < s.len() {
            seq![s.take(i)] + split_char(s.skip(i + 1), c)
        } else {
            seq![s]
        },
    }
}

/// `str::split_once(c)`.
pub open spec fn split_once(s: Seq<char>, c: char) -> Option<(Seq<char>, Seq<char>)> {
    match find_char(s, c) {
        None => None,
        Some(i) => Some((s.take(i), s.skip(i + 1))),
    }
}

/// The index of the first character at or after `i` that is not ASCII white space.
pub open spec fn skip_ascii_ws(s: Seq<char>, i: int) -> int
    decreases s.len() - i,
{
    if 0 <= i < s.len() && is_ascii_whitespace(s[i]) {
        skip_ascii_ws(s, i + 1)
    } else {
        i
    }
}

/// The index of the first ASCII white space at or after `i` (or the end of `s`).
pub open spec fn token_end(s: Seq<char>, i: int) -> int
    decreases s.len() - i,
{
    if 0 <= i < s.len() && !is_ascii_whitespace(s[i]) {
        token_end(s, i + 1)
    } else {
        i
    }
}

/// The next word of `split_ascii_whitespace` when the scan stands at `i`:
/// its start and end, or `None` when only white space is left.
pub open spec fn next_word(s: Seq<char>, i: int) -> Option<(int, int)> {
    let start = skip_ascii_ws(s, i);
    if start < s.len() {
        Some((start, token_end(s, start)))
    } else {
        None
    }
}

pub open spec fn is_digit(c: char) -> bool {
    '0' <= c && c <= '9'
}

/// The number that a sequence of decimal digits stands for.
pub open spec fn digits_value(s: Seq<char>) -> nat
    decreases s.len(),
{
    if s.len() == 0 {
        0
    } else {
        digits_value(s.drop_last()) * 10 + ((s.last() as int) - ('0' as int)) as nat
    }
}

pub open spec fn all_digits(d: Seq<char>) -> bool {
    forall|i: int| 0 <= i < d.len() ==> is_digit(#[trigger] d[i])
}

/// A non-empty run of decimal digits whose value fits in `usize`.
pub open spec fn parse_digits(d: Seq<char>) -> Option<usize> {
    if d.len() > 0 && all_digits(d) && digits_value(d) <= usize::MAX {
        Some(digits_value(d) as usize)
    } else {
        None
    }
}

/// `str::parse::<usize>`: an optional `+`, then at least one decimal digit, with a value
/// that fits in `usize`.
pub open spec fn parse_usize(s: Seq<char>) -> Option<usize> {
    if s.len() > 0 && s[0] == '+' {
        parse_digits(s.drop_first())
    } else {
        parse_digits(s)
    }
}

pub open spec fn digit_char(d: nat) -> char {
    ((d as int) + ('0' as int)) as char
}

/// The decimal representation of `n`, as `usize::to_string` writes it.
pub open spec fn decimal(n: nat) -> Seq<char>
    decreases n,
{
    if n < 10 {
        seq![digit_char(n)]
    } else {
        decimal(n / 10).push(digit_char(n % 10))
    }
}

/// The decimal digits of `n` are digits, do not start with `+`, and stand for `n`.
pub proof fn lemma_decimal_digits(n: nat)
    ensures
        decimal(n).len() > 0,
        all_digits(decimal(n)),
        decimal(n)[0] != '+',
        digits_value(decimal(n)) == n,
    decreases n,
{
    let d = digit_char(n % 10);
    assert(is_digit(d));
    assert((d as int) == (n % 10) + 48);
    assert(((d as int) - ('0' as int)) as nat == n % 10);
    if n < 10 {
        assert(decimal(n) == seq![digit_char(n)]);
        assert(decimal(n).drop_last() == Seq::<char>::empty());
        assert(n % 10 == n);
        assert(digits_value(decimal(n)) == digits_value(decimal(n).drop_last()) * 10 + n % 10);
    } else {
        lemma_decimal_digits(n / 10);
        let s = decimal(n);
        assert(s == decimal(n / 10).push(d));
        assert(s.drop_last() == decimal(n / 10));
        assert(digits_value(s) == digits_value(decimal(n / 10)) * 10 + n % 10);
        assert((n / 10) * 10 + n % 10 == n) by (nonlinear_arith);
        assert forall|i: int| 0 <= i < s.len() implies is_digit(#[trigger] s[i]) by {
            if i < s.len() - 1 {
                assert(s[i] == decimal(n / 10)[i]);
            }
        }
    }
}

/// Writing a number in decimal and parsing it back gives the number: the `Content-Length`
/// a response is sent with reads back as the length of its body.
pub proof fn lemma_parse_decimal(n: usize)
    ensures
        parse_usize(decimal(n as nat)) == Some(n),
{
    lemma_decimal_digits(n as nat);
}

/// `String::push`: the contract claims that the string afterwards is the old one with `c`
/// appended.
#[verifier::external_body]
fn push_char(s: &mut String, c: char)
    ensures
        final(s)@ == old(s)@.push(c),
{
    s.push(c);
}

/// The characters of `s`.
pub fn chars_of(s: &str) -> (v: Vec<char>)
    ensures
        v@ == s@,
{
    let mut v: Vec<char> = Vec::new();
    for c in it: s.chars()
        invariant
            v@ == it.seq().take(it.index() as int),
            it.seq() == s@,
    {
        v.push(c);
    }
    v
}

/// The string made of `s[from..to]`.
pub fn string_of(s: &[char], from: usize, to: usize) -> (r: String)
    requires
        from <= to <= s@.len(),
    ensures
        r@ == s@.subrange(from as int, to as int),
{
    let mut r = String::new();
    let mut i = from;
    while i < to
        invariant
            from <= i <= to <= s@.len(),
            r@ == s@.subrange(from as int, i as int),
        decreases to - i,
    {
        push_char(&mut r, s[i]);
        assert(s@.subrange(from as int, i + 1) == s@.subrange(from as int, i as int).push(s@[i as int]));
        i += 1;
    }
    r
}

/// The string made of all of `s`.
pub fn string_of_all(s: &[char]) -> (r: String)
    ensures
        r@ == s@,
{
    let r = string_of(s, 0, s.len());
    assert(s@.subrange(0, s@.len() as int) == s@);
    r
}

/// A copy of `s`.
pub fn copy_str(s: &str) -> (r: String)
    ensures
        r@ == s@,
{
    s.to_owned()
}

/// Whether two character sequences are equal.
pub fn chars_eq(a: &[char], b: &[char]) -> (r: bool)
    ensures
        r == (a@ == b@),
{
    if a.len() != b.len() {
        return false;
    }
    let mut i: usize = 0;
    while i < a.len()
        invariant
            a@.len() == b@.len(),
            i <= a@.len(),
            forall|j: int| 0 <= j < i ==> a@[j] == b@[j],
        decreases a.len() - i,
    {
        if a[i] != b[i] {
            return false;
        }
        i += 1;
    }
    assert(a@ =~= b@);
    true
}

/// Whether two strings are equal.
pub fn str_eq(a: &str, b: &str) -> (r: bool)
    ensures
        r == (a@ == b@),
{
    let x = chars_of(a);
    let y = chars_of(b);
    chars_eq(x.as_slice(), y.as_slice())
}

/// The index at which `strip_start` of `s[from..]` begins.
pub fn strip_start_from(s: &[char], from: usize, set: &CharSet) -> (i: usize)
    requires
        from <= s@.len(),
    ensures
        from <= i <= s@.len(),
        strip_start(s@.skip(from as int), *set) == s@.skip(i as int),
{
    let mut i = from;
    while i < s.len() && set.has(s[i])
        invariant
            from <= i <= s@.len(),
            strip_start(s@.skip(from as int), *set) == strip_start(s@.skip(i as int), *set),
        decreases s.len() - i,
    {
        assert(s@.skip(i as int).drop_first() == s@.skip(i + 1));
        i += 1;
    }
    i
}

/// The index at which `strip_end` of `s[from..to]` ends.
pub fn strip_end_within(s: &[char], from: usize, to: usize, set: &CharSet) -> (j: usize)
    requires
        from <= to <= s@.len(),
    ensures
        from <= j <= to,
        strip_end(s@.subrange(from as int, to as int), *set) == s@.subrange(from as int, j as int),
{
    let mut j = to;
    while j > from && set.has(s[j - 1])
        invariant
            from <= j <= to <= s@.len(),
            strip_end(s@.subrange(from as int, to as int), *set) == strip_end(
                s@.subrange(from as int, j as int),
                *set,
            ),
        decreases j,
    {
        assert(s@.subrange(from as int, j as int).drop_last() == s@.subrange(from as int, j - 1));
        j -= 1;
    }
    j
}

/// The bounds of `strip_both(s[from..to])` within `s`.
pub fn strip_both_within(s: &[char], from: usize, to: usize, set: &CharSet) -> (r: (usize, usize))
    requires
        from <= to <= s@.len(),
    ensures
        from <= r.0 <= r.1 <= to,
        strip_both(s@.subrange(from as int, to as int), *set) == s@.subrange(
            r.0 as int,
            r.1 as int,
        ),
{
    let ghost part = s@.subrange(from as int, to as int);
    let mut i = from;
    while i < to && set.has(s[i])
        invariant
            from <= i <= to <= s@.len(),
            strip_start(part, *set) == strip_start(s@.subrange(i as int, to as int), *set),
        decreases to - i,
    {
        assert(s@.subrange(i as int, to as int).drop_first() == s@.subrange(i + 1, to as int));
        i += 1;
    }
    assert(strip_start(part, *set) == s@.subrange(i as int, to as int));
    let j = strip_end_within(s, i, to, set);
    (i, j)
}

/// `trim` of all of `s`, as a string.
pub fn trimmed(s: &str) -> (r: String)
    ensures
        r@ == trim(s@),
{
    let cs = chars_of(s);
    let (i, j) = strip_both_within(cs.as_slice(), 0, cs.len(), &CharSet::Whitespace);
    assert(cs@.subrange(0, cs@.len() as int) == cs@);
    string_of(cs.as_slice(), i, j)
}

/// `to_ascii_lowercase` of `s[from..to]`, as a string.
pub fn lower_of(s: &[char], from: usize, to: usize) -> (r: String)
    requires
        from <= to <= s@.len(),
    ensures
        r@ == to_lower(s@.subrange(from as int, to as int)),
{
    let mut r = String::new();
    let mut i = from;
    while i < to
        invariant
            from <= i <= to <= s@.len(),
            r@ == to_lower(s@.subrange(from as int, i as int)),
        decreases to - i,
    {
        let c = s[i];
        let l = if 'A' <= c && c <= 'Z' {
            ((c as u8) + 32) as char
        } else {
            c
        };
        assert(l == lower_char(c));
        push_char(&mut r, l);
        assert(to_lower(s@.subrange(from as int, i + 1)) == to_lower(
            s@.subrange(from as int, i as int),
        ).push(lower_char(c)));
        i += 1;
    }
    r
}

/// `s.trim().to_ascii_lowercase()`.
pub fn trim_lower(s: &str) -> (r: String)
    ensures
        r@ == to_lower(trim(s@)),
{
    let cs = chars_of(s);
    let (i, j) = strip_both_within(cs.as_slice(), 0, cs.len(), &CharSet::Whitespace);
    assert(cs@.subrange(0, cs@.len() as int) == cs@);
    lower_of(cs.as_slice(), i, j)
}

/// Whether `s` begins with `prefix`.
pub fn chars_start_with(s: &[char], prefix: &[char]) -> (r: bool)
    ensures
        r == starts_with(s@, prefix@),
{
    if prefix.len() > s.len() {
        return false;
    }
    let mut i: usize = 0;
    while i < prefix.len()
        invariant
            prefix@.len() <= s@.len(),
            i <= prefix@.len(),
            forall|j: int| 0 <= j < i ==> s@[j] == prefix@[j],
        decreases prefix.len() - i,
    {
        if s[i] != prefix[i] {
            assert(s@.take(prefix@.len() as int)[i as int] != prefix@[i as int]);
            return false;
        }
        i += 1;
    }
    assert(s@.take(prefix@.len() as int) =~= prefix@);
    true
}

/// The first index at or after `from` that holds `c`, or `s.len()` if there is none.
pub fn find_from(s: &[char], from: usize, c: char) -> (i: usize)
    requires
        from <= s@.len(),
    ensures
        from <= i <= s@.len(),
        i < s@.len() ==> s@[i as int] == c,
        forall|j: int| from <= j < i ==> s@[j] != c,
{
    let mut i = from;
    while i < s.len() && s[i] != c
        invariant
            from <= i <= s@.len(),
            forall|j: int| from <= j < i ==> s@[j] != c,
        decreases s.len() - i,
    {
        i += 1;
    }
    i
}

/// `find_char` is the first index holding `c`.
pub proof fn lemma_find_char(s: Seq<char>, c: char, i: int)
    requires
        0 <= i <= s.len(),
        forall|j: int| 0 <= j < i ==> s[j] != c,
        i < s.len() ==> s[i] == c,
    ensures
        find_char(s, c) == (if i < s.len() {
            Some(i)
        } else {
            None::<int>
        }),
    decreases i,
{
    if s.len() > 0 && i > 0 {
        let t = s.drop_first();
        assert forall|j: int| 0 <= j < i - 1 implies t[j] != c by {
            assert(t[j] == s[j + 1]);
        }
        lemma_find_char(t, c, i - 1);
    }
}

/// What `find_char` gives: the first index holding `c`, or `None` when no index does.
pub proof fn lemma_find_char_result(s: Seq<char>, c: char)
    ensures
        match find_char(s, c) {
            Some(i) => 0 <= i < s.len() && s[i] == c && forall|j: int| 0 <= j < i ==> s[j] != c,
            None => forall|j: int| 0 <= j < s.len() ==> s[j] != c,
        },
    decreases s.len(),
{
    if s.len() > 0 && s[0] != c {
        let t = s.drop_first();
        lemma_find_char_result(t, c);
        match find_char(t, c) {
            Some(i) => {
                assert forall|j: int| 0 <= j < i + 1 implies s[j] != c by {
                    if j > 0 {
                        assert(s[j] == t[j - 1]);
                    }
                }
            },
            None => {
                assert forall|j: int| 0 <= j < s.len() implies s[j] != c by {
                    if j > 0 {
                        assert(s[j] == t[j - 1]);
                    }
                }
            },
        }
    }
}

/// Splitting two pieces joined by the separator gives the pieces of the first followed by
/// those of the second.
pub proof fn lemma_split_concat(a: Seq<char>, b: Seq<char>, c: char)
    ensures
        split_char(a + seq![c] + b, c) == split_char(a, c) + split_char(b, c),
    decreases a.len(),
{
    let u = a + seq![c] + b;
    lemma_find_char_result(a, c);
    match find_char(a, c) {
        Some(i) => {
            assert forall|j: int| 0 <= j < i implies u[j] != c by {
                assert(u[j] == a[j]);
            }
            lemma_find_char(u, c, i);
            assert(u.take(i) =~= a.take(i));
            assert(u.skip(i + 1) =~= a.skip(i + 1) + seq![c] + b);
            lemma_split_concat(a.skip(i + 1), b, c);
            assert(split_char(u, c) == seq![a.take(i)] + split_char(a.skip(i + 1) + seq![c] + b, c));
            assert(seq![a.take(i)] + (split_char(a.skip(i + 1), c) + split_char(b, c)) =~= (seq![
                a.take(i),
            ] + split_char(a.skip(i + 1), c)) + split_char(b, c));
        },
        None => {
            assert forall|j: int| 0 <= j < a.len() implies u[j] != c by {
                assert(u[j] == a[j]);
            }
            lemma_find_char(u, c, a.len() as int);
            assert(u.take(a.len() as int) =~= a);
            assert(u.skip(a.len() as int + 1) =~= b);
        },
    }
}

/// A piece without the separator splits into itself alone.
pub proof fn lemma_split_single(a: Seq<char>, c: char)
    requires
        forall|j: int| 0 <= j < a.len() ==> a[j] != c,
    ensures
        split_char(a, c) == seq![a],
{
    lemma_find_char(a, c, a.len() as int);
}

/// Splitting once at a separator that the first piece does not hold gives the two pieces.
pub proof fn lemma_split_once_at(a: Seq<char>, b: Seq<char>, c: char)
    requires
        forall|j: int| 0 <= j < a.len() ==> a[j] != c,
    ensures
        split_once(a + seq![c] + b, c) == Some((a, b)),
{
    let u = a + seq![c] + b;
    assert forall|j: int| 0 <= j < a.len() implies u[j] != c by {
        assert(u[j] == a[j]);
    }
    lemma_find_char(u, c, a.len() as int);
    assert(u.take(a.len() as int) =~= a);
    assert(u.skip(a.len() as int + 1) =~= b);
}

/// Skipping white space from `i` stops at `j` when everything in between is white space
/// and `j` is the end or holds no white space.
pub proof fn lemma_skip_ascii_ws_to(s: Seq<char>, i: int, j: int)
    requires
        0 <= i <= j <= s.len(),
        forall|k: int| i <= k < j ==> is_ascii_whitespace(s[k]),
        j < s.len() ==> !is_ascii_whitespace(s[j]),
    ensures
        skip_ascii_ws(s, i) == j,
    decreases j - i,
{
    if i < j {
        lemma_skip_ascii_ws_to(s, i + 1, j);
    }
}

/// A word that starts at `i` ends at `j` when nothing in between is white space and `j` is
/// the end or holds white space.
pub proof fn lemma_token_end_to(s: Seq<char>, i: int, j: int)
    requires
        0 <= i <= j <= s.len(),
        forall|k: int| i <= k < j ==> !is_ascii_whitespace(s[k]),
        j < s.len() ==> is_ascii_whitespace(s[j]),
    ensures
        token_end(s, i) == j,
    decreases j - i,
{
    if i < j {
        lemma_token_end_to(s, i + 1, j);
    }
}

/// `parse::<usize>` of `s`.
pub fn parse_usize_str(s: &str) -> (r: Option<usize>)
    ensures
        r == parse_usize(s@),
{
    let cs = chars_of(s);
    let start: usize = if cs.len() > 0 && cs[0] == '+' {
        1
    } else {
        0
    };
    let ghost d = cs@.skip(start as int);
    assert(d == (if cs@.len() > 0 && cs@[0] == '+' {
        cs@.drop_first()
    } else {
        cs@
    }));
    if start == cs.len() {
        return None;
    }
    let mut value: u128 = 0;
    let mut over = false;
    let mut i = start;
    while i < cs.len()
        invariant
            start <= i <= cs@.len(),
            d == cs@.skip(start as int),
            cs@ == s@,
            d == (if cs@.len() > 0 && cs@[0] == '+' {
                cs@.drop_first()
            } else {
                cs@
            }),
            forall|j: int| 0 <= j < i - start ==> is_digit(#[trigger] d[j]),
            !over ==> value == digits_value(d.take(i - start)) && value <= usize::MAX,
            over ==> digits_value(d.take(i - start)) > usize::MAX,
        decreases cs.len() - i,
    {
        let c = cs[i];
        if !('0' <= c && c <= '9') {
            assert(!is_digit(d[i - start]));
            assert(!all_digits(d));
            return None;
        }
        let k = i - start;
        assert(d.take(k + 1).drop_last() == d.take(k as int));
        assert(d.take(k + 1).last() == c);
        if !over {
            let digit = ((c as u32) - ('0' as u32)) as u128;
            let next = value * 10 + digit;
            if next > usize::MAX as u128 {
                over = true;
            } else {
                value = next;
            }
        }
        i += 1;
    }
    assert(d.take(d.len() as int) == d);
    if over {
        None
    } else {
        Some(value as usize)
    }
}

/// The decimal digits of `n`.
pub fn usize_to_string(n: usize) -> (r: String)
    ensures
        r@ == decimal(n as nat),
{
    // Collect the digits from the least significant one up.
    let mut rev: Vec<char> = Vec::new();
    let mut m = n;
    loop
        invariant_except_break
            m <= n,
            decimal(n as nat) == decimal(m as nat) + rev@.reverse(),
        ensures
            decimal(n as nat) == rev@.reverse(),
        decreases m,
    {
        let d = m % 10;
        let ch = ((d as u8) + 48) as char;
        assert(ch == digit_char((m % 10) as nat));
        if m < 10 {
            rev.push(ch);
            assert(decimal(m as nat) == seq![ch]);
            assert(rev@.reverse() =~= seq![ch] + rev@.drop_last().reverse());
            break;
        }
        rev.push(ch);
        assert(decimal(m as nat) == decimal((m / 10) as nat).push(ch));
        assert(rev@.reverse() =~= seq![ch] + rev@.drop_last().reverse());
        assert(decimal(m as nat) + rev@.drop_last().reverse() =~= decimal((m / 10) as nat) + rev@.reverse());
        m = m / 10;
    }
    let mut out: Vec<char> = Vec::new();
    let mut k = rev.len();
    while k > 0
        invariant
            k <= rev@.len(),
            out@ == rev@.reverse().take(rev@.len() - k),
        decreases k,
    {
        k -= 1;
        out.push(rev[k]);
        assert(rev@.reverse().take(rev@.len() - k) =~= rev@.reverse().take(rev@.len() - k - 1).push(rev@[k as int]));
    }
    assert(rev@.reverse().take(rev@.len() as int) == rev@.reverse());
    assert(decimal(n as nat) == out@);
    string_of_all(out.as_slice())
}

/// The bounds of the segments of `s[from..to]` split at `c`.
pub fn split_bounds(s: &[char], from: usize, to: usize, c: char) -> (r: Vec<(usize, usize)>)
    requires
        from <= to <= s@.len(),
    ensures
        r@.len() == split_char(s@.subrange(from as int, to as int), c).len(),
        forall|k: int|
            0 <= k < r@.len() ==> from <= (#[trigger] r@[k]).0 <= r@[k].1 <= to && s@.subrange(
                r@[k].0 as int,
                r@[k].1 as int,
            ) == split_char(s@.subrange(from as int, to as int), c)[k],
{
    let ghost whole = s@.subrange(from as int, to as int);
    let mut r: Vec<(usize, usize)> = Vec::new();
    let mut start = from;
    loop
        invariant_except_break
            from <= start <= to <= s@.len(),
            whole == s@.subrange(from as int, to as int),
            split_char(whole, c) == Seq::new(
                r@.len(),
                |k: int| s@.subrange(r@[k].0 as int, r@[k].1 as int),
            ) + split_char(s@.subrange(start as int, to as int), c),
            forall|k: int|
                0 <= k < r@.len() ==> from <= (#[trigger] r@[k]).0 <= r@[k].1 <= to,
        ensures
            whole == s@.subrange(from as int, to as int),
            split_char(whole, c) == Seq::new(
                r@.len(),
                |k: int| s@.subrange(r@[k].0 as int, r@[k].1 as int),
            ),
            forall|k: int|
                0 <= k < r@.len() ==> from <= (#[trigger] r@[k]).0 <= r@[k].1 <= to,
        decreases to - start,
    {
        let ghost rest = s@.subrange(start as int, to as int);
        let ghost before = Seq::new(
            r@.len(),
            |k: int| s@.subrange(r@[k].0 as int, r@[k].1 as int),
        );
        let mut i = start;
        while i < to && s[i] != c
            invariant
                start <= i <= to <= s@.len(),
                forall|j: int| start <= j < i ==> s@[j] != c,
            decreases to - i,
        {
            i += 1;
        }
        proof {
            assert forall|j: int| 0 <= j < i - start implies rest[j] != c by {
                assert(rest[j] == s@[start + j]);
            }
            crate::text::lemma_find_char(rest, c, i - start);
        }
        r.push((start, i));
        let ghost after = Seq::new(
            r@.len(),
            |k: int| s@.subrange(r@[k].0 as int, r@[k].1 as int),
        );
        assert(after == before.push(s@.subrange(start as int, i as int)));
        if i == to {
            assert(split_char(rest, c) == seq![rest]);
            assert(split_char(whole, c) =~= after);
            break;
        }
        assert(rest.take(i - start) == s@.subrange(start as int, i as int));
        assert(rest.skip(i - start + 1) == s@.subrange(i + 1, to as int));
        assert(split_char(rest, c) == seq![s@.subrange(start as int, i as int)] + split_char(
            s@.subrange(i + 1, to as int),
            c,
        ));
        assert(split_char(whole, c) =~= after + split_char(s@.subrange(i + 1, to as int), c));
        start = i + 1;
    }
    r
}

} // verus!

//! Text primitives with their meanings: characters, white space, searching, decimal
//! numbers, lowercase, lines and character order.
use vstd::prelude::*;
use vstd::std_specs::iter::IteratorSpec;

verus! {

broadcast use vstd::string::group_string_axioms;

/// The characters of `s`, in order.
pub fn chars_of(s: &str) -> (out: Vec<char>)
    ensures
        out@ == s@,
{
    let mut out: Vec<char> = Vec::new();
    let mut it = s.chars();
    loop
        invariant
            it.remaining() == s@.subrange(out@.len() as int, s@.len() as int),
            out@ == s@.subrange(0, out@.len() as int),
            out@.len() <= s@.len(),
        ensures
            out@ == s@,
        decreases s@.len() - out@.len(),
    {
        match it.next() {
            Some(c) => {
                out.push(c);
            },
            None => {
                break;
            },
        }
    }
    out
}

} // verus!

verus! {

/// Unicode `White_Space` characters, the set that `char::is_whitespace` tests.
pub open spec fn is_white_space(c: char) -> bool {
    ||| ('\u{9}' <= c && c <= '\u{d}')
    ||| c == ' '
    ||| c == '\u{85}'
    ||| c == '\u{a0}'
    ||| c == '\u{1680}'
    ||| ('\u{2000}' <= c && c <= '\u{200a}')
    ||| c == '\u{2028}'
    ||| c == '\u{2029}'
    ||| c == '\u{202f}'
    ||| c == '\u{205f}'
    ||| c == '\u{3000}'
}

/// `s` without its trailing white space.
pub open spec fn trim_end_seq(s: Seq<char>) -> Seq<char>
    decreases s.len(),
{
    if s.len() > 0 && is_white_space(s.last()) {
        trim_end_seq(s.drop_last())
    } else {
        s
    }
}

/// `s` without its leading white space.
pub open spec fn trim_start_seq(s: Seq<char>) -> Seq<char>
    decreases s.len(),
{
    if s.len() > 0 && is_white_space(s[0]) {
        trim_start_seq(s.drop_first())
    } else {
        s
    }
}

/// `s` without leading and trailing white space.
pub open spec fn trim_seq(s: Seq<char>) -> Seq<char> {
    trim_start_seq(trim_end_seq(s))
}

/// Tests a character for Unicode white space.
pub fn is_whitespace_char(c: char) -> (r: bool)
    ensures
        r == is_white_space(c),
{
    ('\u{9}' <= c && c <= '\u{d}') || c == ' ' || c == '\u{85}' || c == '\u{a0}' || c == '\u{1680}'
        || ('\u{2000}' <= c && c <= '\u{200a}') || c == '\u{2028}' || c == '\u{2029}' || c
        == '\u{202f}' || c == '\u{205f}' || c == '\u{3000}'
}

/// The end of `v[start..end]` once its trailing white space is removed.
pub fn trim_end_bound(v: &Vec<char>, start: usize, end: usize) -> (n: usize)
    requires
        start <= end <= v@.len(),
    ensures
        start <= n <= end,
        v@.subrange(start as int, n as int) == trim_end_seq(v@.subrange(start as int, end as int)),
{
    let mut n = end;
    while n > start
        invariant
            start <= n <= end <= v@.len(),
            trim_end_seq(v@.subrange(start as int, end as int)) == trim_end_seq(
                v@.subrange(start as int, n as int),
            ),
        decreases n,
    {
        if !is_whitespace_char(v[n - 1]) {
            return n;
        }
        assert(v@.subrange(start as int, n as int).drop_last() =~= v@.subrange(
            start as int,
            n - 1,
        ));
        n = n - 1;
    }
    assert(v@.subrange(start as int, n as int).len() == 0);
    n
}

/// The start of `v[start..end]` once its leading white space is removed.
pub fn trim_start_bound(v: &Vec<char>, start: usize, end: usize) -> (n: usize)
    requires
        start <= end <= v@.len(),
    ensures
        start <= n <= end,
        v@.subrange(n as int, end as int) == trim_start_seq(v@.subrange(start as int, end as int)),
{
    let mut n = start;
    while n < end
        invariant
            start <= n <= end <= v@.len(),
            trim_start_seq(v@.subrange(start as int, end as int)) == trim_start_seq(
                v@.subrange(n as int, end as int),
            ),
        decreases end - n,
    {
        if !is_whitespace_char(v[n]) {
            return n;
        }
        assert(v@.subrange(n as int, end as int).drop_first() =~= v@.subrange(
            n + 1,
            end as int,
        ));
        n = n + 1;
    }
    assert(v@.subrange(n as int, end as int).len() == 0);
    n
}

/// First index `i >= from` with `s[i] == c`.
pub open spec fn find_char_from(s: Seq<char>, c: char, from: int) -> Option<int>
    decreases s.len() - from,
{
    if from < 0 || from >= s.len() {
        None
    } else if s[from] == c {
        Some(from)
    } else {
        find_char_from(s, c, from + 1)
    }
}

/// Last index `i < before` with `s[i] == c`.
pub open spec fn rfind_char_before(s: Seq<char>, c: char, before: int) -> Option<int>
    decreases before,
{
    if before <= 0 || before > s.len() {
        None
    } else if s[before - 1] == c {
        Some(before - 1)
    } else {
        rfind_char_before(s, c, before - 1)
    }
}

/// The first position of `c` in `v[from..end]`.
pub fn find_char(v: &Vec<char>, c: char, from: usize, end: usize) -> (r: Option<usize>)
    requires
        from <= end <= v@.len(),
    ensures
        r == (match find_char_from(v@.subrange(0, end as int), c, from as int) {
            Some(i) => Some(i as usize),
            None => None::<usize>,
        }),
{
    let ghost s = v@.subrange(0, end as int);
    let mut i = from;
    while i < end
        invariant
            from <= i <= end <= v@.len(),
            s == v@.subrange(0, end as int),
            find_char_from(s, c, from as int) == find_char_from(s, c, i as int),
        decreases end - i,
    {
        if v[i] == c {
            return Some(i);
        }
        i = i + 1;
    }
    None
}

/// The last position of `c` in `v[start..end]`.
pub fn rfind_char(v: &Vec<char>, c: char, start: usize, end: usize) -> (r: Option<usize>)
    requires
        start <= end <= v@.len(),
    ensures
        r == (match rfind_char_before(v@.subrange(start as int, end as int), c, (end - start) as int) {
            Some(i) => Some((i + start) as usize),
            None => None::<usize>,
        }),
{
    let ghost s = v@.subrange(start as int, end as int);
    let mut n = end;
    while n > start
        invariant
            start <= n <= end <= v@.len(),
            s == v@.subrange(start as int, end as int),
            rfind_char_before(s, c, (end - start) as int) == rfind_char_before(s, c, (n - start) as int),
        decreases n,
    {
        if v[n - 1] == c {
            return Some(n - 1);
        }
        n = n - 1;
    }
    None
}

} // verus!

verus! {

/// `p` occurs in `s` at position `i`.
pub open spec fn occurs_at<T>(s: Seq<T>, p: Seq<T>, i: int) -> bool {
    0 <= i && i + p.len() <= s.len() && s.subrange(i, i + p.len()) == p
}

/// First position `i >= from` at which `p` occurs in `s`.
pub open spec fn find_seq_from<T>(s: Seq<T>, p: Seq<T>, from: int) -> Option<int>
    decreases s.len() + 1 - from,
{
    if from < 0 || from + p.len() > s.len() {
        None
    } else if occurs_at(s, p, from) {
        Some(from)
    } else {
        find_seq_from(s, p, from + 1)
    }
}

/// `p` occurs somewhere in `s` (the meaning of `str::contains` with a string pattern).
pub open spec fn contains_seq<T>(s: Seq<T>, p: Seq<T>) -> bool {
    find_seq_from(s, p, 0) is Some
}

/// `p` is a prefix of `s`.
pub open spec fn starts_with_seq<T>(s: Seq<T>, p: Seq<T>) -> bool {
    p.len() <= s.len() && s.subrange(0, p.len() as int) == p
}

/// `p` is a suffix of `s`.
pub open spec fn ends_with_seq<T>(s: Seq<T>, p: Seq<T>) -> bool {
    p.len() <= s.len() && s.subrange(s.len() - p.len(), s.len() as int) == p
}

/// Whether `p` occurs in `v` at position `i`.
pub fn chars_occur_at(v: &Vec<char>, p: &Vec<char>, i: usize) -> (r: bool)
    ensures
        r == occurs_at(v@, p@, i as int),
{
    if i > v.len() || p.len() > v.len() - i {
        return false;
    }
    let mut k: usize = 0;
    while k < p.len()
        invariant
            i + p@.len() <= v@.len(),
            i + p.len() <= v.len(),
            0 <= k <= p@.len(),
            forall|j: int| 0 <= j < k ==> v@[i + j] == p@[j],
        decreases p@.len() - k,
    {
        if v[i + k] != p[k] {
            assert(v@.subrange(i as int, i + p@.len())[k as int] != p@[k as int]);
            return false;
        }
        k = k + 1;
    }
    assert(v@.subrange(i as int, i + p@.len()) =~= p@);
    true
}

/// First position at or after `from` where `p` occurs in `v`.
pub fn find_chars(v: &Vec<char>, p: &Vec<char>, from: usize) -> (r: Option<usize>)
    ensures
        find_seq_from(v@, p@, from as int) == (match r {
            Some(i) => Some(i as int),
            None => None::<int>,
        }),
{
    let mut i = from;
    while i <= v.len() && p.len() <= v.len() - i
        invariant
            from <= i,
            find_seq_from(v@, p@, from as int) == find_seq_from(v@, p@, i as int),
        decreases v@.len() + 1 - i,
    {
        if chars_occur_at(v, p, i) {
            return Some(i);
        }
        if i == v.len() {
            proof {
                if p@.len() == 0 {
                    assert(v@.subrange(i as int, i as int) =~= p@);
                }
            }
            return None;
        }
        i = i + 1;
    }
    None
}

/// Whether `p` occurs anywhere in `s`.
pub fn str_contains(s: &str, p: &str) -> (r: bool)
    ensures
        r == contains_seq(s@, p@),
{
    let v = chars_of(s);
    let q = chars_of(p);
    find_chars(&v, &q, 0).is_some()
}

/// Whether `s` begins with `p`.
pub fn str_starts_with(s: &str, p: &str) -> (r: bool)
    ensures
        r == starts_with_seq(s@, p@),
{
    let v = chars_of(s);
    let q = chars_of(p);
    let r = chars_occur_at(&v, &q, 0);
    assert(r == starts_with_seq(s@, p@));
    r
}

/// Whether `s` ends with `p`.
pub fn str_ends_with(s: &str, p: &str) -> (r: bool)
    ensures
        r == ends_with_seq(s@, p@),
{
    let v = chars_of(s);
    let q = chars_of(p);
    if q.len() > v.len() {
        return false;
    }
    chars_occur_at(&v, &q, v.len() - q.len())
}

/// The two strings hold the same characters.
pub fn str_eq(a: &str, b: &str) -> (r: bool)
    ensures
        r == (a@ == b@),
{
    let v = chars_of(a);
    let w = chars_of(b);
    if v.len() != w.len() {
        return false;
    }
    let r = chars_occur_at(&v, &w, 0);
    assert(v@ =~= v@.subrange(0, w@.len() as int));
    r
}

} // verus!

verus! {

/// `c` is one of `'0'..='9'`.
pub open spec fn is_digit_char(c: char) -> bool {
    '0' <= c && c <= '9'
}

/// The value of a decimal digit character.
pub open spec fn digit_value(c: char) -> nat {
    (c as int - '0' as int) as nat
}

/// Every character of `s` is a decimal digit.
pub open spec fn all_digits(s: Seq<char>) -> bool {
    forall|i: int| 0 <= i < s.len() ==> #[trigger] is_digit_char(s[i])
}

/// The number that the digits of `s` spell, most significant first.
pub open spec fn digits_value(s: Seq<char>) -> nat
    decreases s.len(),
{
    if s.len() == 0 {
        0
    } else {
        digits_value(s.drop_last()) * 10 + digit_value(s.last())
    }
}

/// `s` without one leading `'+'`.
pub open spec fn unsigned_body(s: Seq<char>) -> Seq<char> {
    if s.len() > 0 && s[0] == '+' {
        s.drop_first()
    } else {
        s
    }
}

/// What `str::parse` gives for an unsigned integer type whose largest value is `max`:
/// an optional `'+'`, then at least one decimal digit, and a value that fits.
pub open spec fn parse_unsigned(s: Seq<char>, max: nat) -> Option<nat> {
    let body = unsigned_body(s);
    if body.len() > 0 && all_digits(body) && digits_value(body) <= max {
        Some(digits_value(body))
    } else {
        None
    }
}

/// `parse_unsigned` at the width of `u64`.
pub open spec fn parse_u64_spec(s: Seq<char>) -> Option<u64> {
    match parse_unsigned(s, u64::MAX as nat) {
        Some(n) => Some(n as u64),
        None => None,
    }
}

/// `parse_unsigned` at the width of `usize`.
pub open spec fn parse_usize_spec(s: Seq<char>) -> Option<usize> {
    match parse_unsigned(s, usize::MAX as nat) {
        Some(n) => Some(n as usize),
        None => None,
    }
}

/// A prefix spells at most the number that the whole sequence spells.
pub proof fn lemma_digits_value_prefix(s: Seq<char>, j: int)
    requires
        0 <= j <= s.len(),
    ensures
        digits_value(s.take(j)) <= digits_value(s),
    decreases s.len() - j,
{
    if j < s.len() {
        lemma_digits_value_prefix(s, j + 1);
        assert(s.take(j + 1).drop_last() =~= s.take(j));
    } else {
        assert(s.take(j) =~= s);
    }
}

/// Parses `v[start..end]` as a `u64` the way `str::parse::<u64>` does.
pub fn parse_u64_chars(v: &Vec<char>, start: usize, end: usize) -> (r: Option<u64>)
    requires
        start <= end <= v@.len(),
    ensures
        r == parse_u64_spec(v@.subrange(start as int, end as int)),
{
    let ghost s = v@.subrange(start as int, end as int);
    let mut b = start;
    if start < end && v[start] == '+' {
        b = start + 1;
    }
    let ghost body = v@.subrange(b as int, end as int);
    assert(body =~= unsigned_body(s));
    if b == end {
        return None;
    }
    let mut acc: u64 = 0;
    let mut k = b;
    while k < end
        invariant
            start <= b <= k <= end <= v@.len(),
            body == v@.subrange(b as int, end as int),
            body == unsigned_body(v@.subrange(start as int, end as int)),
            acc as nat == digits_value(body.take(k - b)),
            all_digits(body.take(k - b)),
        decreases end - k,
    {
        let c = v[k];
        assert(c == body[k - b]);
        if !('0' <= c && c <= '9') {
            assert(!is_digit_char(body[k - b]));
            return None;
        }
        let d = (c as u32 - '0' as u32) as u64;
        assert(body.take(k - b + 1).drop_last() =~= body.take(k - b));
        assert(d as nat == digit_value(c));
        match acc.checked_mul(10) {
            Some(m) => match m.checked_add(d) {
                Some(n) => {
                    acc = n;
                },
                None => {
                    proof {
                        lemma_digits_value_prefix(body, k - b + 1);
                    }
                    return None;
                },
            },
            None => {
                proof {
                    lemma_digits_value_prefix(body, k - b + 1);
                }
                return None;
            },
        }
        assert forall|i: int| 0 <= i < k - b + 1 implies #[trigger] is_digit_char(
            body.take(k - b + 1)[i],
        ) by {
            if i < k - b {
                assert(body.take(k - b + 1)[i] == body.take(k - b)[i]);
            }
        }
        k = k + 1;
    }
    assert(body.take(end - b) =~= body);
    Some(acc)
}

/// Parses `v[start..end]` as a `usize` the way `str::parse::<usize>` does.
pub fn parse_usize_chars(v: &Vec<char>, start: usize, end: usize) -> (r: Option<usize>)
    requires
        start <= end <= v@.len(),
    ensures
        r == parse_usize_spec(v@.subrange(start as int, end as int)),
{
    match parse_u64_chars(v, start, end) {
        Some(n) => {
            if n as u128 <= usize::MAX as u128 {
                Some(n as usize)
            } else {
                None
            }
        },
        None => None,
    }
}

/// The digit character for `d < 10`.
pub open spec fn digit_char(d: nat) -> char {
    if d == 0 {
        '0'
    } else if d == 1 {
        '1'
    } else if d == 2 {
        '2'
    } else if d == 3 {
        '3'
    } else if d == 4 {
        '4'
    } else if d == 5 {
        '5'
    } else if d == 6 {
        '6'
    } else if d == 7 {
        '7'
    } else if d == 8 {
        '8'
    } else {
        '9'
    }
}

/// The decimal representation of `n`, as `to_string` writes it for an unsigned integer.
pub open spec fn decimal(n: nat) -> Seq<char>
    decreases n,
{
    if n < 10 {
        seq![digit_char(n)]
    } else {
        decimal(n / 10).push(digit_char(n % 10))
    }
}

/// Each digit character reads back as its value.
pub proof fn lemma_digit_char_value(d: nat)
    requires
        d < 10,
    ensures
        is_digit_char(digit_char(d)),
        digit_value(digit_char(d)) == d,
        digit_char(d) != '+',
{
}

/// Reading back the decimal representation of `n` gives `n`.
pub proof fn lemma_decimal_digits(n: nat)
    ensures
        decimal(n).len() > 0,
        all_digits(decimal(n)),
        decimal(n)[0] != '+',
        digits_value(decimal(n)) == n,
    decreases n,
{
    lemma_digit_char_value(n % 10);
    vstd::arithmetic::div_mod::lemma_fundamental_div_mod(n as int, 10);
    if n >= 10 {
        lemma_decimal_digits(n / 10);
        let s = decimal(n);
        assert(s.drop_last() =~= decimal(n / 10));
        assert(s.last() == digit_char(n % 10));
        assert(digits_value(s) == digits_value(decimal(n / 10)) * 10 + digit_value(s.last()));
        assert forall|i: int| 0 <= i < s.len() implies #[trigger] is_digit_char(s[i]) by {
            if i < s.len() - 1 {
                assert(s[i] == decimal(n / 10)[i]);
            }
        }
    } else {
        lemma_digit_char_value(n);
        assert(decimal(n).drop_last() =~= Seq::<char>::empty());
        assert(digits_value(decimal(n)) == digits_value(decimal(n).drop_last()) * 10
            + digit_value(decimal(n).last()));
    }
}

/// Parsing the decimal representation of `n` gives `n` back, when `n` fits.
pub proof fn lemma_parse_decimal(n: nat, max: nat)
    requires
        n <= max,
    ensures
        parse_unsigned(decimal(n), max) == Some(n),
{
    lemma_decimal_digits(n);
}

fn digit_str(d: u64) -> (r: &'static str)
    requires
        d < 10,
    ensures
        r@ == seq![digit_char(d as nat)],
{
    if d == 0 {
        proof { reveal_strlit("0"); }
        "0"
    } else if d == 1 {
        proof { reveal_strlit("1"); }
        "1"
    } else if d == 2 {
        proof { reveal_strlit("2"); }
        "2"
    } else if d == 3 {
        proof { reveal_strlit("3"); }
        "3"
    } else if d == 4 {
        proof { reveal_strlit("4"); }
        "4"
    } else if d == 5 {
        proof { reveal_strlit("5"); }
        "5"
    } else if d == 6 {
        proof { reveal_strlit("6"); }
        "6"
    } else if d == 7 {
        proof { reveal_strlit("7"); }
        "7"
    } else if d == 8 {
        proof { reveal_strlit("8"); }
        "8"
    } else {
        proof { reveal_strlit("9"); }
        "9"
    }
}

/// Appends the decimal representation of `n` to `out`.
pub fn push_decimal(out: &mut String, n: u64)
    ensures
        final(out)@ == old(out)@ + decimal(n as nat),
    decreases n,
{
    if n >= 10 {
        push_decimal(out, n / 10);
    }
    out.append(digit_str(n % 10));
    proof {
        if n < 10 {
            assert(decimal(n as nat) =~= seq![digit_char(n as nat)]);
        }
    }
    assert(final(out)@ =~= old(out)@ + decimal(n as nat));
}

/// The decimal representation of `n`, as `n.to_string()` gives it.
pub fn decimal_string(n: u64) -> (r: String)
    ensures
        r@ == decimal(n as nat),
{
    let mut s = String::new();
    push_decimal(&mut s, n);
    assert(s@ =~= decimal(n as nat));
    s
}

} // verus!

verus! {

/// What `str::to_lowercase` returns for a string with the characters `s`
/// (the Unicode lowercase mapping, which takes pages to state).
pub uninterp spec fn lowercase(s: Seq<char>) -> Seq<char>;

/// The ASCII lowercase of one character: `'A'..='Z'` become `'a'..='z'`, all else stays.
pub open spec fn ascii_lower_char(c: char) -> char {
    if 'A' <= c && c <= 'Z' {
        ((c as int) + 32) as char
    } else {
        c
    }
}

/// The ASCII lowercase of every character of `s`.
pub open spec fn ascii_lower(s: Seq<char>) -> Seq<char> {
    s.map_values(|c: char| ascii_lower_char(c))
}

/// What `str::to_lowercase` returns for `s`: the ASCII lowercase where `s` is all ASCII,
/// the named Unicode mapping otherwise.
pub open spec fn case_folded(s: Seq<char>) -> Seq<char> {
    if vstd::utf8::is_ascii_chars(s) {
        ascii_lower(s)
    } else {
        lowercase(s)
    }
}

/// Calls `str::to_lowercase`. Its result is named `lowercase`; for a string of ASCII
/// characters it is the ASCII lowercase, character by character, as the documentation of
/// `to_ascii_lowercase` and `to_lowercase` says. Nothing is stated of other characters.
#[verifier::external_body]
pub(crate) fn to_lowercase(s: &str) -> (r: String)
    ensures
        r@ == lowercase(s@),
        vstd::utf8::is_ascii_chars(s@) ==> r@ == ascii_lower(s@),
{
    s.to_lowercase()
}

/// The lowercase of `s`, as `str::to_lowercase` gives it.
pub fn lowercased(s: &str) -> (r: String)
    ensures
        r@ == case_folded(s@),
{
    to_lowercase(s)
}

/// A `String` with the characters `v[start..end]` of `s`, where `v` holds the characters of `s`.
pub fn owned_range(s: &str, start: usize, end: usize) -> (r: String)
    requires
        start <= end <= s@.len(),
    ensures
        r@ == s@.subrange(start as int, end as int),
{
    String::from_str(s.substring_char(start, end))
}

/// The elements of `parts` joined by `sep`.
pub open spec fn join_seq(parts: Seq<Seq<char>>, sep: Seq<char>) -> Seq<char>
    decreases parts.len(),
{
    if parts.len() == 0 {
        Seq::empty()
    } else if parts.len() == 1 {
        parts[0]
    } else {
        join_seq(parts.drop_last(), sep) + sep + parts.last()
    }
}

/// The views of a vector of strings.
pub open spec fn views(v: Seq<String>) -> Seq<Seq<char>> {
    v.map_values(|s: String| s@)
}

/// Joins `parts` with `sep` between neighbours.
pub fn join_strings(parts: &Vec<String>, sep: &str) -> (r: String)
    ensures
        r@ == join_seq(views(parts@), sep@),
{
    let mut r = String::new();
    let mut i: usize = 0;
    while i < parts.len()
        invariant
            0 <= i <= parts@.len(),
            r@ == join_seq(views(parts@).take(i as int), sep@),
        decreases parts@.len() - i,
    {
        assert(views(parts@).take(i + 1).drop_last() =~= views(parts@).take(i as int));
        if i > 0 {
            r.append(sep);
        }
        r.append(parts[i].as_str());
        proof {
            if i == 0 {
                assert(r@ =~= views(parts@).take(1)[0]);
            }
        }
        i = i + 1;
    }
    assert(views(parts@).take(parts@.len() as int) =~= views(parts@));
    r
}

} // verus!

verus! {

/// Where a search for `c` from `from` lands.
pub proof fn lemma_find_char_from(s: Seq<char>, c: char, from: int)
    requires
        0 <= from,
    ensures
        find_char_from(s, c, from) matches Some(k) ==> from <= k < s.len() && s[k] == c
            && forall|j: int| from <= j < k ==> s[j] != c,
        find_char_from(s, c, from) is None ==> forall|j: int| from <= j < s.len() ==> s[j] != c,
    decreases s.len() - from,
{
    if from < s.len() && s[from] != c {
        lemma_find_char_from(s, c, from + 1);
    }
}

/// `line` without one trailing carriage return.
pub open spec fn strip_cr(line: Seq<char>) -> Seq<char> {
    if line.len() > 0 && line.last() == '\r' {
        line.drop_last()
    } else {
        line
    }
}

/// The lines of `s` from position `start` on, as `str::lines` yields them: split at each
/// `'\n'`, a `'\r'` right before a `'\n'` dropped, no empty line after a final `'\n'`.
pub open spec fn lines_from(s: Seq<char>, start: int) -> Seq<Seq<char>>
    decreases s.len() - start,
{
    if start < 0 || start >= s.len() {
        Seq::empty()
    } else {
        match find_char_from(s, '\n', start) {
            None => seq![s.subrange(start, s.len() as int)],
            Some(k) => {
                proof {
                    lemma_find_char_from(s, '\n', start);
                }
                seq![strip_cr(s.subrange(start, k))] + lines_from(s, k + 1)
            },
        }
    }
}

/// The lines of `s`, as `str::lines` yields them.
pub open spec fn lines_seq(s: Seq<char>) -> Seq<Seq<char>> {
    lines_from(s, 0)
}

/// The character ranges of the lines of `v`, as `str::lines` splits them.
pub fn line_bounds(v: &Vec<char>) -> (r: Vec<(usize, usize)>)
    ensures
        r@.len() == lines_seq(v@).len(),
        forall|i: int|
            0 <= i < r@.len() ==> {
                &&& (#[trigger] r@[i]).0 <= r@[i].1 <= v@.len()
                &&& v@.subrange(r@[i].0 as int, r@[i].1 as int) == lines_seq(v@)[i]
            },
{
    let mut r: Vec<(usize, usize)> = Vec::new();
    let mut start: usize = 0;
    while start < v.len()
        invariant
            start <= v@.len(),
            lines_seq(v@) == lines_from(v@, 0),
            lines_from(v@, 0) =~= lines_from(v@, 0).take(r@.len() as int) + lines_from(
                v@,
                start as int,
            ),
            r@.len() <= lines_from(v@, 0).len(),
            forall|i: int|
                0 <= i < r@.len() ==> {
                    &&& (#[trigger] r@[i]).0 <= r@[i].1 <= v@.len()
                    &&& v@.subrange(r@[i].0 as int, r@[i].1 as int) == lines_from(v@, 0)[i]
                },
        decreases v@.len() - start,
    {
        let ghost before = lines_from(v@, 0).take(r@.len() as int);
        match find_char(v, '\n', start, v.len()) {
            None => {
                assert(v@.subrange(0, v@.len() as int) =~= v@);
                assert(lines_from(v@, start as int) =~= seq![
                    v@.subrange(start as int, v@.len() as int),
                ]);
                r.push((start, v.len()));
                assert(lines_from(v@, 0) =~= before + seq![
                    v@.subrange(start as int, v@.len() as int),
                ]);
                assert(lines_from(v@, 0)[r@.len() - 1] == v@.subrange(
                    start as int,
                    v@.len() as int,
                ));
                assert(lines_from(v@, 0).take(r@.len() as int) =~= lines_from(v@, 0));
                start = v.len();
                assert(lines_from(v@, start as int) =~= Seq::<Seq<char>>::empty());
            },
            Some(k) => {
                assert(v@.subrange(0, v@.len() as int) =~= v@);
                proof {
                    lemma_find_char_from(v@, '\n', start as int);
                }
                let mut e = k;
                if k > start && v[k - 1] == '\r' {
                    e = k - 1;
                }
                assert(v@.subrange(start as int, e as int) == strip_cr(
                    v@.subrange(start as int, k as int),
                )) by {
                    if k > start && v@[k - 1] == '\r' {
                        assert(v@.subrange(start as int, k as int).drop_last() =~= v@.subrange(
                            start as int,
                            e as int,
                        ));
                    }
                };
                let ghost line = strip_cr(v@.subrange(start as int, k as int));
                assert(lines_from(v@, start as int) =~= seq![line] + lines_from(v@, k + 1));
                r.push((start, e));
                assert(lines_from(v@, 0) =~= (before + seq![line]) + lines_from(v@, k + 1));
                assert(lines_from(v@, 0).take(r@.len() as int) =~= before + seq![line]);
                assert(lines_from(v@, 0)[r@.len() - 1] == line);
                start = k + 1;
            },
        }
    }
    assert(lines_from(v@, start as int) =~= Seq::<Seq<char>>::empty());
    assert(lines_from(v@, 0).take(r@.len() as int) =~= lines_from(v@, 0));
    r
}

} // verus!

verus! {

/// Where a backward search for `c` lands.
pub proof fn lemma_rfind_char_before(s: Seq<char>, c: char, before: int)
    ensures
        rfind_char_before(s, c, before) matches Some(k) ==> 0 <= k < before && k < s.len()
            && s[k] == c,
    decreases before,
{
    if 0 < before <= s.len() && s[before - 1] != c {
        lemma_rfind_char_before(s, c, before - 1);
    }
}

} // verus!

verus! {

/// `a` comes before `b` in character order (the order of their UTF-8 bytes).
pub open spec fn lex_less(a: Seq<char>, b: Seq<char>) -> bool
    decreases a.len(),
{
    if a.len() == 0 {
        b.len() > 0
    } else if b.len() == 0 {
        false
    } else if a[0] != b[0] {
        a[0] < b[0]
    } else {
        lex_less(a.drop_first(), b.drop_first())
    }
}

/// Whether `a` comes before `b` in character order.
pub fn chars_less(a: &Vec<char>, b: &Vec<char>) -> (r: bool)
    ensures
        r == lex_less(a@, b@),
{
    let mut i: usize = 0;
    assert(a@.skip(0) =~= a@);
    assert(b@.skip(0) =~= b@);
    while i < a.len() && i < b.len()
        invariant
            i <= a@.len(),
            i <= b@.len(),
            lex_less(a@, b@) == lex_less(a@.skip(i as int), b@.skip(i as int)),
        decreases a@.len() - i,
    {
        assert(a@.skip(i as int)[0] == a@[i as int]);
        assert(b@.skip(i as int)[0] == b@[i as int]);
        if a[i] != b[i] {
            return a[i] < b[i];
        }
        assert(a@.skip(i as int).drop_first() =~= a@.skip(i + 1));
        assert(b@.skip(i as int).drop_first() =~= b@.skip(i + 1));
        i = i + 1;
    }
    b.len() > i
}

/// Where `x` goes among the sorted `order`: before the first entry whose key is greater
/// than the key of `x`, so that entries of equal key keep their order.
pub open spec fn insert_pos(keys: Seq<Seq<char>>, order: Seq<usize>, x: usize, j: int) -> int
    decreases order.len() - j,
{
    if j < 0 || j >= order.len() {
        order.len() as int
    } else if lex_less(keys[x as int], keys[order[j] as int]) {
        j
    } else {
        insert_pos(keys, order, x, j + 1)
    }
}

/// The positions `0..n` ordered by their keys, equal keys keeping their order (a stable
/// insertion sort).
pub open spec fn sorted_order(keys: Seq<Seq<char>>, n: nat) -> Seq<usize>
    decreases n,
{
    if n == 0 {
        Seq::empty()
    } else {
        let o = sorted_order(keys, (n - 1) as nat);
        o.insert(insert_pos(keys, o, (n - 1) as usize, 0), (n - 1) as usize)
    }
}

/// Character order is irreflexive and asymmetric.
pub proof fn lemma_lex_less_asymmetric(a: Seq<char>, b: Seq<char>)
    ensures
        !lex_less(a, a),
        lex_less(a, b) ==> !lex_less(b, a),
    decreases a.len(),
{
    if a.len() > 0 && b.len() > 0 && a[0] == b[0] {
        lemma_lex_less_asymmetric(a.drop_first(), b.drop_first());
    }
    if a.len() > 0 {
        lemma_lex_less_asymmetric(a.drop_first(), a.drop_first());
    }
}

/// Character order is transitive.
pub proof fn lemma_lex_less_transitive(a: Seq<char>, b: Seq<char>, c: Seq<char>)
    requires
        lex_less(a, b),
        lex_less(b, c),
    ensures
        lex_less(a, c),
    decreases a.len(),
{
    if a.len() > 0 && b.len() > 0 && c.len() > 0 && a[0] == b[0] && b[0] == c[0] {
        lemma_lex_less_transitive(a.drop_first(), b.drop_first(), c.drop_first());
    }
}

/// Of two different character sequences, one comes before the other.
pub proof fn lemma_lex_less_total(a: Seq<char>, b: Seq<char>)
    ensures
        a == b || lex_less(a, b) || lex_less(b, a),
    decreases a.len(),
{
    if a.len() > 0 && b.len() > 0 && a[0] == b[0] {
        lemma_lex_less_total(a.drop_first(), b.drop_first());
        if a.drop_first() == b.drop_first() {
            assert(a =~= seq![a[0]] + a.drop_first());
            assert(b =~= seq![b[0]] + b.drop_first());
        }
    }
    if a.len() == 0 && b.len() == 0 {
        assert(a =~= b);
    }
}

/// In `o`, no entry's key comes before the key of an entry listed earlier.
pub open spec fn sorted_by(keys: Seq<Seq<char>>, o: Seq<usize>) -> bool {
    forall|i: int, j: int|
        0 <= i < j < o.len() ==> !lex_less(#[trigger] keys[o[j] as int], #[trigger] keys[o[i] as int])
}

/// In `o`, entries of equal key are listed in increasing order.
pub open spec fn stable_by(keys: Seq<Seq<char>>, o: Seq<usize>) -> bool {
    forall|i: int, j: int|
        0 <= i < j < o.len() && #[trigger] keys[o[i] as int] == #[trigger] keys[o[j] as int] ==> o[i]
            < o[j]
}

/// `k` occurs in `o`.
pub open spec fn occurs_in(o: Seq<usize>, k: nat) -> bool {
    exists|i: int| 0 <= i < o.len() && o[i] == k
}

/// `o` lists each of `0..n` exactly once.
pub open spec fn lists_each_once(o: Seq<usize>, n: nat) -> bool {
    &&& o.len() == n
    &&& forall|i: int| 0 <= i < o.len() ==> #[trigger] o[i] < n
    &&& forall|i: int, j: int| 0 <= i < j < o.len() ==> #[trigger] o[i] != #[trigger] o[j]
    &&& forall|k: nat| k < n ==> #[trigger] occurs_in(o, k)
}

/// Where `insert_pos` lands, and why: every entry before it has a key that does not come
/// after the key of `x`; the entry at it, if any, has a key that does.
pub proof fn lemma_insert_pos_split(keys: Seq<Seq<char>>, order: Seq<usize>, x: usize, j: int)
    requires
        0 <= j <= order.len(),
    ensures
        j <= insert_pos(keys, order, x, j) <= order.len(),
        forall|k: int|
            j <= k < insert_pos(keys, order, x, j) ==> !lex_less(
                keys[x as int],
                #[trigger] keys[order[k] as int],
            ),
        insert_pos(keys, order, x, j) < order.len() ==> lex_less(
            keys[x as int],
            keys[order[insert_pos(keys, order, x, j)] as int],
        ),
    decreases order.len() - j,
{
    if j < order.len() && !lex_less(keys[x as int], keys[order[j] as int]) {
        lemma_insert_pos_split(keys, order, x, j + 1);
    }
}

/// The stable insertion order sorts: `sorted_order(keys, n)` lists each of `0..n` once, by
/// character order of the keys, entries of equal key in the order given (for any
/// number of entries that positions of type `usize` can count).
pub proof fn lemma_sorted_order_sorts(keys: Seq<Seq<char>>, n: nat)
    requires
        n <= keys.len(),
        n <= usize::MAX,
    ensures
        lists_each_once(sorted_order(keys, n), n),
        sorted_by(keys, sorted_order(keys, n)),
        stable_by(keys, sorted_order(keys, n)),
    decreases n,
{
    if n > 0 {
        let x = (n - 1) as usize;
        let o = sorted_order(keys, (n - 1) as nat);
        lemma_sorted_order_sorts(keys, (n - 1) as nat);
        lemma_insert_pos_split(keys, o, x, 0);
        let p = insert_pos(keys, o, x, 0);
        let r = o.insert(p, x);
        assert(r == sorted_order(keys, n));
        assert(r.len() == n);
        assert(r[p] == x);
        assert forall|i: int| 0 <= i < r.len() implies #[trigger] r[i] < n by {
            if i < p {
                assert(r[i] == o[i]);
            } else if i > p {
                assert(r[i] == o[i - 1]);
            }
        }
        assert forall|k: nat| k < n implies #[trigger] occurs_in(r, k) by {
            if k == x {
                assert(r[p] == k);
            } else {
                assert(occurs_in(o, k));
                let j = choose|j: int| 0 <= j < o.len() && o[j] == k;
                if j < p {
                    assert(r[j] == o[j]);
                } else {
                    assert(r[j + 1] == o[j]);
                }
            }
        }
        assert forall|i: int, j: int| 0 <= i < j < r.len() implies #[trigger] r[i] != #[trigger] r[j] by {
            if i < p && j < p {
                assert(r[i] == o[i] && r[j] == o[j]);
            } else if i < p && j == p {
                assert(r[i] == o[i] && o[i] < x);
            } else if i < p && j > p {
                assert(r[i] == o[i] && r[j] == o[j - 1]);
            } else if i == p {
                assert(r[j] == o[j - 1] && o[j - 1] < x);
            } else {
                assert(r[i] == o[i - 1] && r[j] == o[j - 1]);
            }
        }
        assert forall|i: int, j: int| 0 <= i < j < r.len() implies !lex_less(
            #[trigger] keys[r[j] as int],
            #[trigger] keys[r[i] as int],
        ) by {
            let kx = keys[x as int];
            if j < p {
                assert(r[i] == o[i] && r[j] == o[j]);
            } else if j == p {
                assert(r[i] == o[i]);
                assert(!lex_less(kx, keys[o[i] as int]));
            } else if i > p {
                assert(r[i] == o[i - 1] && r[j] == o[j - 1]);
            } else {
                assert(r[j] == o[j - 1]);
                let kp = keys[o[p] as int];
                let kj = keys[o[j - 1] as int];
                assert(lex_less(kx, kp));
                if j - 1 > p {
                    assert(!lex_less(kj, kp));
                }
                lemma_lex_less_total(kp, kj);
                if kp != kj {
                    lemma_lex_less_transitive(kx, kp, kj);
                }
                lemma_lex_less_asymmetric(kx, kj);
                if i < p {
                    assert(r[i] == o[i]);
                    let ki = keys[o[i] as int];
                    assert(!lex_less(kx, ki));
                    lemma_lex_less_total(kx, ki);
                    if lex_less(kj, ki) {
                        if ki != kx {
                            lemma_lex_less_transitive(kj, ki, kx);
                        }
                        lemma_lex_less_asymmetric(kx, kj);
                    }
                }
            }
        }
        assert forall|i: int, j: int|
            0 <= i < j < r.len() && #[trigger] keys[r[i] as int] == #[trigger] keys[r[j] as int]
                implies r[i] < r[j] by {
            let kx = keys[x as int];
            if j < p {
                assert(r[i] == o[i] && r[j] == o[j]);
            } else if j == p {
                assert(r[i] == o[i] && o[i] < x);
            } else if i > p {
                assert(r[i] == o[i - 1] && r[j] == o[j - 1]);
            } else {
                assert(r[j] == o[j - 1]);
                let kp = keys[o[p] as int];
                let kj = keys[o[j - 1] as int];
                assert(lex_less(kx, kp));
                if j - 1 > p {
                    assert(!lex_less(kj, kp));
                }
                lemma_lex_less_total(kp, kj);
                if kp != kj {
                    lemma_lex_less_transitive(kx, kp, kj);
                }
                lemma_lex_less_asymmetric(kx, kx);
                if i == p {
                    assert(kx != kj);
                }
                if i < p {
                    assert(r[i] == o[i]);
                    let ki = keys[o[i] as int];
                    assert(!lex_less(kx, ki));
                    lemma_lex_less_total(kx, ki);
                    if ki == kj {
                        if ki != kx {
                            lemma_lex_less_transitive(ki, kx, kj);
                        }
                        lemma_lex_less_asymmetric(ki, ki);
                    }
                }
            }
        }
    }
}

/// The stable sorted order of `keys`: positions into `keys`, by character order of the
/// keys, equal keys in the order given.
pub fn stable_order(keys: &Vec<Vec<char>>) -> (r: Vec<usize>)
    ensures
        r@ == sorted_order(keys@.map_values(|k: Vec<char>| k@), keys@.len()),
        forall|i: int| 0 <= i < r@.len() ==> #[trigger] r@[i] < keys@.len(),
        lists_each_once(r@, keys@.len()),
        sorted_by(keys@.map_values(|k: Vec<char>| k@), r@),
        stable_by(keys@.map_values(|k: Vec<char>| k@), r@),
{
    let ghost ks = keys@.map_values(|k: Vec<char>| k@);
    let mut order: Vec<usize> = Vec::new();
    let mut n: usize = 0;
    while n < keys.len()
        invariant
            n <= keys@.len(),
            ks == keys@.map_values(|k: Vec<char>| k@),
            order@ == sorted_order(ks, n as nat),
        decreases keys@.len() - n,
    {
        proof {
            lemma_sorted_order_sorts(ks, n as nat);
        }
        let mut j: usize = 0;
        while j < order.len() && !chars_less(&keys[n], &keys[order[j]])
            invariant
                n < keys@.len(),
                ks == keys@.map_values(|k: Vec<char>| k@),
                order@ == sorted_order(ks, n as nat),
                order@.len() == n,
                forall|i: int| 0 <= i < n ==> #[trigger] order@[i] < n,
                j <= order@.len(),
                insert_pos(ks, order@, n, 0) == insert_pos(ks, order@, n, j as int),
            decreases order@.len() - j,
        {
            j = j + 1;
        }
        order.insert(j, n);
        n = n + 1;
    }
    proof {
        lemma_sorted_order_sorts(ks, n as nat);
    }
    order
}

} // verus!

verus! {

/// Where a search for `p` lands.
pub proof fn lemma_find_seq_from<T>(s: Seq<T>, p: Seq<T>, from: int)
    requires
        0 <= from,
    ensures
        find_seq_from(s, p, from) matches Some(i) ==> from <= i && i + p.len() <= s.len()
            && occurs_at(s, p, i),
    decreases s.len() + 1 - from,
{
    if from + p.len() <= s.len() && !occurs_at(s, p, from) {
        lemma_find_seq_from(s, p, from + 1);
    }
}

} // verus!

//! Small text utilities over strings viewed as sequences of `char`s:
//! prefix stripping, splitting at a separator, decimal parsing and
//! ASCII-safe string building.
use vstd::prelude::*;
use vstd::string::*;

verus! {

// ───────────────────────── specifications ─────────────────────────

/// `p` is a prefix of `s`.
pub open spec fn has_prefix(s: Seq<char>, p: Seq<char>) -> bool {
    p.len() <= s.len() && s.take(p.len() as int) == p
}

/// `p` occurs in `s` starting at index `i`.
pub open spec fn occurs_at(s: Seq<char>, p: Seq<char>, i: int) -> bool {
    0 <= i && i + p.len() <= s.len() && s.subrange(i, i + p.len()) == p
}

/// `i` is the first index of `c` in `s`.
pub open spec fn first_index_of(s: Seq<char>, c: char, i: int) -> bool {
    0 <= i < s.len() && s[i] == c && forall|j: int| 0 <= j < i ==> s[j] != c
}

/// What splitting `s` at the first occurrence of `c` yields.
pub open spec fn spec_split_once(s: Seq<char>, c: char) -> Option<(Seq<char>, Seq<char>)> {
    if exists|i: int| first_index_of(s, c, i) {
        let i = choose|i: int| first_index_of(s, c, i);
        Some((s.take(i), s.skip(i + 1)))
    } else {
        None
    }
}

/// `c` is an ASCII decimal digit.
pub open spec fn is_digit(c: char) -> bool {
    '0' <= c <= '9'
}

/// The numeric value of a decimal digit.
pub open spec fn digit_value(c: char) -> nat {
    (c as int - '0' as int) as nat
}

/// The value of a sequence of decimal digits (most significant first).
pub open spec fn digits_value(d: Seq<char>) -> nat
    decreases d.len(),
{
    if d.len() == 0 {
        0
    } else {
        digits_value(d.drop_last()) * 10 + digit_value(d.last())
    }
}

/// The digits part of an unsigned integer literal: an optional leading `+`
/// is dropped.
pub open spec fn unsigned_digits(s: Seq<char>) -> Seq<char> {
    if s.len() > 0 && s[0] == '+' {
        s.skip(1)
    } else {
        s
    }
}

/// The value of an unsigned decimal literal as `str::parse` reads it for an
/// unsigned integer type: an optional `+`, then one or more ASCII digits and
/// nothing else. `None` when the text is not such a literal.
pub open spec fn parse_unsigned(s: Seq<char>) -> Option<nat> {
    let d = unsigned_digits(s);
    if d.len() > 0 && forall|i: int| 0 <= i < d.len() ==> is_digit(#[trigger] d[i]) {
        Some(digits_value(d))
    } else {
        None
    }
}

/// `str::parse::<u16>`: the literal's value when it is one and fits.
pub open spec fn parse_u16_spec(s: Seq<char>) -> Option<u16> {
    match parse_unsigned(s) {
        Some(v) => if v <= u16::MAX {
            Some(v as u16)
        } else {
            None
        },
        None => None,
    }
}

/// `str::parse::<u64>`: the literal's value when it is one and fits.
pub open spec fn parse_u64_spec(s: Seq<char>) -> Option<u64> {
    match parse_unsigned(s) {
        Some(v) => if v <= u64::MAX {
            Some(v as u64)
        } else {
            None
        },
        None => None,
    }
}

/// A prefix of a digit string never has a larger value than the whole.
pub proof fn lemma_digits_value_prefix_le(d: Seq<char>, i: int)
    requires
        0 <= i <= d.len(),
    ensures
        digits_value(d.take(i)) <= digits_value(d),
    decreases d.len() - i,
{
    if i < d.len() {
        lemma_digits_value_prefix_le(d, i + 1);
        assert(d.take(i + 1).drop_last() =~= d.take(i));
    } else {
        assert(d.take(i) =~= d);
    }
}

// ───────────────────────── std wrappers ─────────────────────────

/// `str::strip_prefix` with a `&str` pattern: the rest of `s` after `p` when
/// `s` starts with `p`, else `None`.
#[verifier::external_body]
pub(crate) fn str_strip_prefix<'a>(s: &'a str, p: &str) -> (r: Option<&'a str>)
    ensures
        match r {
            Some(rest) => has_prefix(s@, p@) && rest@ == s@.skip(p@.len() as int),
            None => !has_prefix(s@, p@),
        },
{
    s.strip_prefix(p)
}

/// `str::split_once` with a `char` pattern: the parts before and after the
/// first occurrence of `c`, else `None`.
#[verifier::external_body]
pub(crate) fn str_split_once<'a>(s: &'a str, c: char) -> (r: Option<(&'a str, &'a str)>)
    ensures
        match r {
            Some((a, b)) => spec_split_once(s@, c) == Some((a@, b@)),
            None => spec_split_once(s@, c) is None,
        },
{
    s.split_once(c)
}

/// `String::push`: append one char.
#[verifier::external_body]
pub(crate) fn string_push(s: &mut String, c: char)
    ensures
        final(s)@ == old(s)@.push(c),
{
    s.push(c)
}

// ───────────────────────── verified helpers ─────────────────────────

/// Whether `p` occurs at index `i` of `s`.
fn occurs_here(s: &str, p: &str, i: usize) -> (r: bool)
    requires
        i + p@.len() <= s@.len(),
        s@.len() <= usize::MAX,
    ensures
        r == occurs_at(s@, p@, i as int),
{
    let m = p.unicode_len();
    let mut j: usize = 0;
    while j < m
        invariant
            m == p@.len(),
            i + m <= s@.len(),
            s@.len() <= usize::MAX,
            j <= m,
            forall|k: int| 0 <= k < j ==> s@[i + k] == #[trigger] p@[k],
        decreases m - j,
    {
        if s.get_char(i + j) != p.get_char(j) {
            assert(s@.subrange(i as int, i + m)[j as int] != p@[j as int]);
            return false;
        }
        j = j + 1;
    }
    assert(s@.subrange(i as int, i + m) =~= p@);
    true
}

/// Whether `p` occurs somewhere in `s` (`str::contains` with a `&str`
/// pattern).
pub fn contains_text(s: &str, p: &str) -> (r: bool)
    ensures
        r == exists|i: int| occurs_at(s@, p@, i),
{
    let n = s.unicode_len();
    let m = p.unicode_len();
    if m > n {
        return false;
    }
    let last = n - m;
    let mut i: usize = 0;
    loop
        invariant
            n == s@.len(),
            m == p@.len(),
            m <= n,
            last == n - m,
            i <= last,
            forall|k: int| 0 <= k < i ==> !#[trigger] occurs_at(s@, p@, k),
        decreases last - i,
    {
        if occurs_here(s, p, i) {
            return true;
        }
        if i == last {
            assert forall|k: int| !#[trigger] occurs_at(s@, p@, k) by {
                if 0 <= k < i {
                }
            }
            return false;
        }
        i = i + 1;
    }
}

/// Whether `s` starts with `p`.
pub fn starts_with(s: &str, p: &str) -> (r: bool)
    ensures
        r == has_prefix(s@, p@),
{
    str_strip_prefix(s, p).is_some()
}

/// Parse an unsigned decimal literal as `str::parse::<u64>` does.
pub fn parse_u64(s: &str) -> (r: Option<u64>)
    ensures
        r == parse_u64_spec(s@),
{
    proof {
        reveal_strlit("+");
    }
    let digits = match str_strip_prefix(s, "+") {
        Some(rest) => rest,
        None => s,
    };
    proof {
        let sv = s@;
        if sv.len() > 0 && sv[0] == '+' {
            assert(sv.take(1) =~= "+"@);
        }
        if has_prefix(sv, "+"@) {
            assert(sv.take(1)[0] == '+');
        }
    }
    assert(digits@ == unsigned_digits(s@));
    let ghost d = digits@;
    if digits.is_empty() {
        return None;
    }
    let mut acc: u64 = 0;
    for c in it: digits.chars()
        invariant
            d == digits@,
            d == unsigned_digits(s@),
            it.seq() == d,
            d.len() > 0,
            forall|j: int| 0 <= j < it.index() ==> is_digit(#[trigger] d[j]),
            acc == digits_value(d.take(it.index() as int)),
    {
        let ghost i = it.index();
        proof {
            assert(d.take(i + 1).drop_last() =~= d.take(i));
            assert(d.take(i + 1).last() == c);
        }
        if !('0' <= c && c <= '9') {
            assert(!is_digit(d[i]));
            return None;
        }
        let dv = (c as u32 - '0' as u32) as u64;
        if acc > (u64::MAX - dv) / 10 {
            proof {
                lemma_digits_value_prefix_le(d, i + 1);
                assert(acc * 10 + dv > u64::MAX) by (nonlinear_arith)
                    requires
                        acc > (u64::MAX - dv) / 10,
                        dv <= 9,
                ;
            }
            return None;
        }
        acc = acc * 10 + dv;
    }
    assert(d.take(d.len() as int) =~= d);
    Some(acc)
}

/// Parse an unsigned decimal literal as `str::parse::<u16>` does.
pub fn parse_u16(s: &str) -> (r: Option<u16>)
    ensures
        r == parse_u16_spec(s@),
{
    match parse_u64(s) {
        Some(v) => if v <= u16::MAX as u64 {
            Some(v as u16)
        } else {
            None
        },
        None => {
            proof {
                if parse_unsigned(s@) is Some {
                    assert(parse_unsigned(s@).unwrap() > u64::MAX);
                }
            }
            None
        },
    }
}

/// A char kept as-is in a lock/lease file name: an ASCII letter or digit,
/// `-` or `_`.
pub open spec fn is_name_char(c: char) -> bool {
    ('a' <= c <= 'z') || ('A' <= c <= 'Z') || ('0' <= c <= '9') || c == '-' || c == '_'
}

/// `key` with every char that is not a file-name char replaced by `_`.
pub open spec fn sanitized_chars(key: Seq<char>) -> Seq<char> {
    key.map_values(|c: char| if is_name_char(c) { c } else { '_' })
}

/// The file name for `key`: its sanitized chars (or `default` when the key is
/// empty), followed by `suffix`.
pub open spec fn sanitized_name(key: Seq<char>, suffix: Seq<char>) -> Seq<char> {
    if key.len() == 0 {
        "default"@ + suffix
    } else {
        sanitized_chars(key) + suffix
    }
}

/// Build the file name for `key`: ASCII letters, digits, `-` and `_` are
/// kept, every other char becomes `_`, an empty key becomes `default`, and
/// `suffix` is appended.
pub fn sanitize_with_suffix(key: &str, suffix: &str) -> (r: String)
    ensures
        r@ == sanitized_name(key@, suffix@),
{
    let mut out = String::new();
    let ghost k = key@;
    for c in it: key.chars()
        invariant
            k == key@,
            it.seq() == k,
            out@ == sanitized_chars(k.take(it.index() as int)),
    {
        let ghost i = it.index();
        let keep = ('a' <= c && c <= 'z') || ('A' <= c && c <= 'Z') || ('0' <= c && c <= '9')
            || c == '-' || c == '_';
        if keep {
            string_push(&mut out, c);
        } else {
            string_push(&mut out, '_');
        }
        assert(sanitized_chars(k.take(i + 1)) =~= sanitized_chars(k.take(i)).push(
            if is_name_char(c) { c } else { '_' },
        ));
    }
    assert(k.take(k.len() as int) =~= k);
    if key.is_empty() {
        out.append("default");
    }
    out.append(suffix);
    out
}

/// Decimal text of `n` (no sign, no leading zeros; `0` is `"0"`).
pub open spec fn dec_text(n: nat) -> Seq<char>
    decreases n,
{
    if n < 10 {
        seq![(48 + n) as char]
    } else {
        dec_text(n / 10).push((48 + n % 10) as char)
    }
}

/// Decimal text is a non-empty run of digits that reads back as `n`.
pub proof fn lemma_dec_text_digits(n: nat)
    ensures
        dec_text(n).len() > 0,
        forall|i: int| 0 <= i < dec_text(n).len() ==> is_digit(#[trigger] dec_text(n)[i]),
        digits_value(dec_text(n)) == n,
    decreases n,
{
    if n < 10 {
        let d = dec_text(n);
        assert(d.drop_last() =~= Seq::<char>::empty());
        assert(digits_value(d.drop_last()) == 0);
    } else {
        lemma_dec_text_digits(n / 10);
        let d = dec_text(n);
        let h = dec_text(n / 10);
        assert(d.drop_last() =~= h);
        assert(d.last() == (48 + n % 10) as char);
        assert(digit_value(d.last()) == n % 10);
        assert forall|i: int| 0 <= i < d.len() implies is_digit(#[trigger] d[i]) by {
            if i < h.len() {
                assert(d[i] == h[i]);
            }
        }
        assert(n == (n / 10) * 10 + n % 10);
    }
}

/// `str::parse::<u16>` reads the decimal text of a `u16` back as itself.
pub proof fn lemma_parse_u16_dec_text(n: u16)
    ensures
        parse_u16_spec(dec_text(n as nat)) == Some(n),
{
    lemma_dec_text_digits(n as nat);
    let d = dec_text(n as nat);
    assert(is_digit(d[0]));
    assert(unsigned_digits(d) == d);
}

/// Splitting `a + [c] + b` at `c`, where `a` holds no `c`, gives `a` and `b`.
pub proof fn lemma_split_once_joined(a: Seq<char>, c: char, b: Seq<char>)
    requires
        !a.contains(c),
    ensures
        spec_split_once(a + seq![c] + b, c) == Some((a, b)),
{
    let s = a + seq![c] + b;
    let n = a.len() as int;
    assert(s[n] == c);
    assert forall|j: int| 0 <= j < n implies s[j] != c by {
        assert(s[j] == a[j]);
        if a[j] == c {
            assert(a.contains(c));
        }
    }
    assert(first_index_of(s, c, n));
    let i = choose|i: int| first_index_of(s, c, i);
    if i < n {
        assert(s[i] != c);
    } else if n < i {
        assert(s[n] != c);
    }
    assert(s.take(n) =~= a);
    assert(s.skip(n + 1) =~= b);
}

/// Decimal text holds no character other than digits.
pub proof fn lemma_dec_text_lacks(n: nat, c: char)
    requires
        !is_digit(c),
    ensures
        !dec_text(n).contains(c),
{
    lemma_dec_text_digits(n);
    if dec_text(n).contains(c) {
        let k = choose|k: int| 0 <= k < dec_text(n).len() && dec_text(n)[k] == c;
        assert(is_digit(dec_text(n)[k]));
    }
}

/// Append the decimal text of `n` to `s`.
pub fn push_decimal_text(s: &mut String, n: u64)
    ensures
        final(s)@ == old(s)@ + dec_text(n as nat),
    decreases n,
{
    if n < 10 {
        let c = char_from_digit(n as u8);
        string_push(s, c);
        assert(dec_text(n as nat) =~= seq![c]);
    } else {
        push_decimal_text(s, n / 10);
        let c = char_from_digit((n % 10) as u8);
        string_push(s, c);
        assert(old(s)@ + dec_text(n as nat) =~= old(s)@ + dec_text((n / 10) as nat) + seq![c]);
    }
}

/// The ASCII digit char for `d` (`0..=9`).
pub fn char_from_digit(d: u8) -> (c: char)
    requires
        d < 10,
    ensures
        c == (48 + d) as char,
{
    match d {
        0 => '0',
        1 => '1',
        2 => '2',
        3 => '3',
        4 => '4',
        5 => '5',
        6 => '6',
        7 => '7',
        8 => '8',
        _ => '9',
    }
}

/// A string holding `s`.
pub fn string_of(s: &str) -> (r: String)
    ensures
        r@ == s@,
{
    let mut r = String::new();
    r.append(s);
    r
}

/// `char::is_whitespace`: the characters with the Unicode `White_Space`
/// property.
pub open spec fn is_unicode_ws(c: char) -> bool {
    ||| '\u{9}' <= c <= '\u{d}'
    ||| c == ' '
    ||| c == '\u{85}'
    ||| c == '\u{a0}'
    ||| c == '\u{1680}'
    ||| '\u{2000}' <= c <= '\u{200a}'
    ||| c == '\u{2028}'
    ||| c == '\u{2029}'
    ||| c == '\u{202f}'
    ||| c == '\u{205f}'
    ||| c == '\u{3000}'
}

/// `s` without its leading whitespace.
pub open spec fn trim_start_ws(s: Seq<char>) -> Seq<char>
    decreases s.len(),
{
    if s.len() > 0 && is_unicode_ws(s[0]) {
        trim_start_ws(s.skip(1))
    } else {
        s
    }
}

/// `s` without its trailing whitespace.
pub open spec fn trim_end_ws(s: Seq<char>) -> Seq<char>
    decreases s.len(),
{
    if s.len() > 0 && is_unicode_ws(s.last()) {
        trim_end_ws(s.drop_last())
    } else {
        s
    }
}

/// The text `str::trim` leaves of `s`: leading and trailing whitespace
/// removed.
pub open spec fn trimmed_text(s: Seq<char>) -> Seq<char> {
    trim_end_ws(trim_start_ws(s))
}

/// `str::trim`. Claimed: the result's text is the input without its leading
/// and trailing whitespace (`char::is_whitespace`).
#[verifier::external_body]
pub(crate) fn str_trim<'a>(s: &'a str) -> (r: &'a str)
    ensures
        r@ == trimmed_text(s@),
{
    s.trim()
}

/// ASCII lowercase of one char.
pub open spec fn ascii_lower(c: char) -> char {
    if 'A' <= c <= 'Z' {
        ((c as u32) + 32) as char
    } else {
        c
    }
}

/// `str::to_ascii_lowercase`: ASCII letters lowered, everything else kept.
pub open spec fn ascii_lowercase(s: Seq<char>) -> Seq<char> {
    s.map_values(|c: char| ascii_lower(c))
}

/// Lowercase the ASCII letters of `s`.
pub fn to_ascii_lowercase(s: &str) -> (r: String)
    ensures
        r@ == ascii_lowercase(s@),
{
    let mut out = String::new();
    let ghost k = s@;
    for c in it: s.chars()
        invariant
            k == s@,
            it.seq() == k,
            out@ == ascii_lowercase(k.take(it.index() as int)),
    {
        let ghost i = it.index();
        let lc = if 'A' <= c && c <= 'Z' { ((c as u32) + 32) as u8 as char } else { c };
        assert(lc == ascii_lower(c)) by {
            if 'A' <= c && c <= 'Z' {
                assert((c as u32) + 32 < 128);
            }
        }
        string_push(&mut out, lc);
        assert(ascii_lowercase(k.take(i + 1)) =~= ascii_lowercase(k.take(i)).push(ascii_lower(c)));
    }
    assert(k.take(k.len() as int) =~= k);
    out
}

/// Whether two strings have the same text.
pub fn text_eq(a: &str, b: &str) -> (r: bool)
    ensures
        r == (a@ == b@),
{
    string_of(a) == string_of(b)
}

} // verus!

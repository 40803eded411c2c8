//! Text helpers: decimal and hexadecimal digits, parsing, searching and the
//! byte/char encodings that the transports need.
use vstd::prelude::*;

use vstd::string::StrSliceExecFns;
use vstd::string::StringExecFns;

verus! {

/// What `String::from_utf8_lossy` makes of a byte sequence: the UTF-8 decoding
/// of the bytes, each invalid sequence replaced by U+FFFD.
pub uninterp spec fn utf8_lossy_decoding(bytes: Seq<u8>) -> Seq<char>;

/// The UTF-16 code units of one character: the character's code below
/// U+10000, else a surrogate pair carrying the code minus 0x10000, high ten
/// bits first.
pub open spec fn utf16_char_units(c: char) -> Seq<u16> {
    let code = c as u32;
    if code < 0x10000 {
        seq![code as u16]
    } else {
        let offset = code - 0x10000;
        seq![(0xD800 + offset / 0x400) as u16, (0xDC00 + offset % 0x400) as u16]
    }
}

/// The UTF-16 encoding of a string: the code units of each character in turn.
pub open spec fn utf16_encoding(text: Seq<char>) -> Seq<u16>
    decreases text.len(),
{
    if text.len() == 0 {
        Seq::empty()
    } else {
        utf16_encoding(text.drop_last()) + utf16_char_units(text.last())
    }
}

/// Decodes bytes as UTF-8, replacing invalid sequences (`String::from_utf8_lossy`).
///
/// Trusted: the result is the named decoding of the bytes; for bytes that are
/// all ASCII (below 128), std documents that valid UTF-8 is decoded unchanged,
/// so each byte becomes the character with that code.
#[verifier::external_body]
pub(crate) fn utf8_lossy(bytes: &[u8]) -> (text: String)
    ensures
        text@ == utf8_lossy_decoding(bytes@),
        (forall|i: int| 0 <= i < bytes@.len() ==> #[trigger] bytes@[i] < 128) ==> text@
            == bytes@.map_values(|b: u8| b as char),
{
    String::from_utf8_lossy(bytes).into_owned()
}

/// The UTF-16 code units of a string (`str::encode_utf16`).
///
/// Trusted: std documents the result as the string encoded as UTF-16, which
/// is [`utf16_encoding`].
#[verifier::external_body]
pub(crate) fn utf16_units(text: &str) -> (units: Vec<u16>)
    ensures
        units@ == utf16_encoding(text@),
{
    text.encode_utf16().collect()
}

/// The character of a decimal digit.
pub open spec fn digit_char(d: nat) -> char {
    (48 + d) as char
}

/// The character of a lowercase hexadecimal digit.
pub open spec fn hex_char(d: nat) -> char {
    if d < 10 {
        (48 + d) as char
    } else {
        (87 + d) as char
    }
}

/// The decimal representation of `n`, without leading zeros.
pub open spec fn decimal(n: nat) -> Seq<char>
    decreases n,
{
    if n < 10 {
        seq![digit_char(n)]
    } else {
        decimal(n / 10).push(digit_char(n % 10))
    }
}

/// The last `width` lowercase hexadecimal digits of `n`.
pub open spec fn hex_digits(n: nat, width: nat) -> Seq<char>
    decreases width,
{
    if width == 0 {
        Seq::empty()
    } else {
        hex_digits(n / 16, (width - 1) as nat).push(hex_char(n % 16))
    }
}

/// The number of values that `width` hexadecimal digits can show: 16 to the
/// power `width`.
pub open spec fn hex_range(width: nat) -> nat
    decreases width,
{
    if width == 0 {
        1
    } else {
        16 * hex_range((width - 1) as nat)
    }
}

/// Eight hexadecimal digits show every `u32`, sixteen every `u64`.
pub proof fn lemma_hex_range_of_words()
    ensures
        hex_range(8) == 0x1_0000_0000,
        hex_range(16) == 0x1_0000_0000_0000_0000,
{
    reveal_with_fuel(hex_range, 17);
}

/// `hex_digits(n, width)` has `width` characters.
pub proof fn lemma_hex_digits_len(n: nat, width: nat)
    ensures
        hex_digits(n, width).len() == width,
    decreases width,
{
    if width > 0 {
        lemma_hex_digits_len(n / 16, (width - 1) as nat);
    }
}

/// Numbers below `hex_range(width)` have different hexadecimal digits.
pub proof fn lemma_hex_digits_injective(n: nat, m: nat, width: nat)
    requires
        n < hex_range(width),
        m < hex_range(width),
        hex_digits(n, width) == hex_digits(m, width),
    ensures
        n == m,
    decreases width,
{
    if width > 0 {
        let w = (width - 1) as nat;
        let a = hex_digits(n, width);
        let b = hex_digits(m, width);
        assert(a.last() == hex_char(n % 16));
        assert(b.last() == hex_char(m % 16));
        assert(a.drop_last() =~= hex_digits(n / 16, w));
        assert(b.drop_last() =~= hex_digits(m / 16, w));
        let d = n % 16;
        let e = m % 16;
        assert(hex_char(d) == hex_char(e));
        assert(hex_char(d) as int == if d < 10 { 48 + d } else { 87 + d });
        assert(hex_char(e) as int == if e < 10 { 48 + e } else { 87 + e });
        assert(d == e);
        lemma_hex_digits_injective(n / 16, m / 16, w);
    }
}

fn digit_str(d: u64) -> (s: &'static str)
    requires
        d < 16,
    ensures
        s@ == seq![hex_char(d as nat)],
{
    let digits = "0123456789abcdef";
    proof {
        reveal_strlit("0123456789abcdef");
    }
    let s = digits.substring_ascii(d as usize, d as usize + 1);
    assert(s@ =~= seq![hex_char(d as nat)]);
    s
}

/// Append the decimal representation of `n`.
pub fn append_decimal(text: &mut String, n: u64)
    ensures
        final(text)@ == old(text)@ + decimal(n as nat),
    decreases n,
{
    if n >= 10 {
        append_decimal(text, n / 10);
    }
    let d = digit_str(n % 10);
    text.append(d);
    assert(old(text)@ + decimal(n as nat) =~= old(text)@ + (if n >= 10 {
        decimal((n / 10) as nat)
    } else {
        Seq::empty()
    }) + seq![digit_char((n % 10) as nat)]);
}

/// Append the last `width` lowercase hexadecimal digits of `n`.
pub fn append_hex(text: &mut String, n: u64, width: usize)
    ensures
        final(text)@ == old(text)@ + hex_digits(n as nat, width as nat),
    decreases width,
{
    if width > 0 {
        append_hex(text, n / 16, width - 1);
        let d = digit_str(n % 16);
        text.append(d);
        assert(old(text)@ + hex_digits(n as nat, width as nat) =~= old(text)@ + hex_digits(
            (n / 16) as nat,
            (width - 1) as nat,
        ) + seq![hex_char((n % 16) as nat)]);
    } else {
        assert(old(text)@ + hex_digits(n as nat, width as nat) =~= old(text)@);
    }
}

/// `c` with ASCII letters A..Z turned into a..z (`char::to_ascii_lowercase`).
pub open spec fn ascii_lower(c: char) -> char {
    if 'A' <= c && c <= 'Z' {
        ((c as u32) + 32) as char
    } else {
        c
    }
}

/// A string with its ASCII letters in lowercase (`str::to_ascii_lowercase`).
pub open spec fn ascii_lowercase(s: Seq<char>) -> Seq<char> {
    s.map_values(|c: char| ascii_lower(c))
}

/// Lowering the ASCII letters of a string a second time changes nothing.
pub proof fn lemma_ascii_lowercase_idempotent(s: Seq<char>)
    ensures
        ascii_lowercase(ascii_lowercase(s)) == ascii_lowercase(s),
{
    let l = ascii_lowercase(s);
    assert forall|i: int| 0 <= i < l.len() implies #[trigger] ascii_lower(l[i]) == l[i] by {
        let c = s[i];
        if 'A' <= c && c <= 'Z' {
            assert(0x41 <= (c as u32) <= 0x5a);
            assert(((c as u32) + 32) as char as u32 == (c as u32) + 32);
        }
    }
    assert(ascii_lowercase(l) =~= l);
}

fn lower_char(c: char) -> (r: char)
    ensures
        r == ascii_lower(c),
{
    if 'A' <= c && c <= 'Z' {
        let code = (c as u32) + 32;
        // the code of a lowercase ASCII letter is a valid character
        assert(0x61 <= code <= 0x7a);
        let bytes = code as u8;
        bytes as char
    } else {
        c
    }
}

/// Whether `text`, with its ASCII letters in lowercase, equals `word`.
pub fn equals_ignoring_ascii_case(text: &str, word: &str) -> (eq: bool)
    ensures
        eq == (ascii_lowercase(text@) == word@),
{
    let n = text.unicode_len();
    let m = word.unicode_len();
    if n != m {
        proof {
            assert(ascii_lowercase(text@).len() != word@.len());
        }
        return false;
    }
    let mut i: usize = 0;
    while i < n
        invariant
            n == text@.len(),
            m == word@.len(),
            n == m,
            i <= n,
            forall|j: int| 0 <= j < i ==> ascii_lower(#[trigger] text@[j]) == word@[j],
        decreases n - i,
    {
        if lower_char(text.get_char(i)) != word.get_char(i) {
            proof {
                assert(ascii_lowercase(text@)[i as int] != word@[i as int]);
            }
            return false;
        }
        i += 1;
    }
    assert(ascii_lowercase(text@) =~= word@);
    true
}

/// Whether two strings are equal.
pub fn str_equal(a: &str, b: &str) -> (eq: bool)
    ensures
        eq == (a@ == b@),
{
    let n = a.unicode_len();
    let m = b.unicode_len();
    if n != m {
        return false;
    }
    let mut i: usize = 0;
    while i < n
        invariant
            n == a@.len(),
            m == b@.len(),
            n == m,
            i <= n,
            forall|j: int| 0 <= j < i ==> a@[j] == b@[j],
        decreases n - i,
    {
        if a.get_char(i) != b.get_char(i) {
            return false;
        }
        i += 1;
    }
    assert(a@ =~= b@);
    true
}

/// Whether `pattern` occurs in `text` at position `at`.
pub open spec fn occurs_at(text: Seq<char>, pattern: Seq<char>, at: int) -> bool {
    0 <= at && at + pattern.len() <= text.len() && text.subrange(at, at + pattern.len()) == pattern
}

/// Whether `pattern` occurs somewhere in `text` (`str::contains`).
pub open spec fn contains(text: Seq<char>, pattern: Seq<char>) -> bool {
    exists|at: int| occurs_at(text, pattern, at)
}

fn occurs_at_exec(text: &str, pattern: &str, at: usize) -> (found: bool)
    requires
        at + pattern@.len() <= text@.len(),
    ensures
        found == occurs_at(text@, pattern@, at as int),
{
    let _n = text.unicode_len();
    let m = pattern.unicode_len();
    let mut j: usize = 0;
    while j < m
        invariant
            m == pattern@.len(),
            at + m <= text@.len(),
            text@.len() <= usize::MAX,
            j <= m,
            forall|k: int| 0 <= k < j ==> text@[at + k] == pattern@[k],
        decreases m - j,
    {
        if text.get_char(at + j) != pattern.get_char(j) {
            proof {
                assert(text@.subrange(at as int, at + m)[j as int] != pattern@[j as int]);
            }
            return false;
        }
        j += 1;
    }
    assert(text@.subrange(at as int, at + m) =~= pattern@);
    true
}

/// Whether `pattern` occurs in `text`.
pub fn str_contains(text: &str, pattern: &str) -> (found: bool)
    ensures
        found == contains(text@, pattern@),
{
    let n = text.unicode_len();
    let m = pattern.unicode_len();
    if m > n {
        proof {
            assert forall|at: int| !occurs_at(text@, pattern@, at) by {}
        }
        return false;
    }
    let limit = n - m;
    let mut at: usize = 0;
    while at < limit
        invariant
            n == text@.len(),
            m == pattern@.len(),
            limit == n - m,
            at <= limit,
            forall|k: int| 0 <= k < at ==> !occurs_at(text@, pattern@, k),
        decreases limit - at,
    {
        if occurs_at_exec(text, pattern, at) {
            return true;
        }
        at += 1;
    }
    if occurs_at_exec(text, pattern, limit) {
        return true;
    }
    proof {
        assert forall|k: int| !occurs_at(text@, pattern@, k) by {
            if occurs_at(text@, pattern@, k) {
                assert(k <= limit);
            }
        }
    }
    false
}

/// `text` without `prefix` when it starts with it, else `text` (`str::strip_prefix`
/// followed by `unwrap_or(text)`).
pub open spec fn strip_prefix_or_keep(text: Seq<char>, prefix: Seq<char>) -> Seq<char> {
    if prefix.len() <= text.len() && text.subrange(0, prefix.len() as int) == prefix {
        text.subrange(prefix.len() as int, text.len() as int)
    } else {
        text
    }
}

/// The value of a string of decimal digits.
pub open spec fn digits_value(s: Seq<char>) -> nat
    decreases s.len(),
{
    if s.len() == 0 {
        0
    } else {
        digits_value(s.drop_last()) * 10 + ((s.last() as nat) - 48) as nat
    }
}

/// Whether every character of `s` is an ASCII digit.
pub open spec fn all_digits(s: Seq<char>) -> bool {
    forall|i: int| 0 <= i < s.len() ==> '0' <= #[trigger] s[i] && s[i] <= '9'
}

/// The digits of an unsigned number: the text after an optional leading `+`.
pub open spec fn unsigned_digits(s: Seq<char>) -> Seq<char> {
    if s.len() > 0 && s[0] == '+' {
        s.drop_first()
    } else {
        s
    }
}

/// What `u32::from_str` accepts: an optional `+`, then one or more ASCII
/// digits whose value fits in a `u32`.
pub open spec fn spec_parse_u32(s: Seq<char>) -> Option<u32> {
    let d = unsigned_digits(s);
    if d.len() > 0 && all_digits(d) && digits_value(d) <= u32::MAX {
        Some(digits_value(d) as u32)
    } else {
        None
    }
}

/// The decimal representation of `n` is a non-empty string of digits whose
/// value is `n`.
pub proof fn lemma_decimal_reads_back(n: nat)
    ensures
        decimal(n).len() > 0,
        all_digits(decimal(n)),
        digits_value(decimal(n)) == n,
    decreases n,
{
    if n >= 10 {
        lemma_decimal_reads_back(n / 10);
        let s = decimal(n);
        assert(s.drop_last() =~= decimal(n / 10));
        assert(s.last() == digit_char(n % 10));
        assert(digit_char(n % 10) as int == 48 + n % 10);
        assert((s.last() as nat) - 48 == n % 10);
        assert(digits_value(s) == digits_value(decimal(n / 10)) * 10 + n % 10);
        assert forall|i: int| 0 <= i < s.len() implies '0' <= #[trigger] s[i] && s[i] <= '9' by {
            if i < s.len() - 1 {
                assert(s[i] == decimal(n / 10)[i]);
            }
        }
    } else {
        assert(digit_char(n) as int == 48 + n);
        assert(decimal(n).drop_last() =~= Seq::<char>::empty());
        assert(digits_value(Seq::<char>::empty()) == 0);
        assert(digits_value(decimal(n)) == digits_value(decimal(n).drop_last()) * 10 + n);
    }
}

/// Adding digits never lowers the value.
proof fn lemma_digits_value_grows(s: Seq<char>, t: Seq<char>)
    requires
        all_digits(s + t),
    ensures
        digits_value(s) <= digits_value(s + t),
    decreases t.len(),
{
    if t.len() > 0 {
        let st = s + t;
        assert(st.drop_last() =~= s + t.drop_last());
        lemma_digits_value_grows(s, t.drop_last());
    }
}

/// Parse a decimal `u32` from characters `start..` of `text`, as `u32::from_str` would.
pub fn parse_u32_from(text: &str, start: usize) -> (value: Option<u32>)
    requires
        start <= text@.len(),
    ensures
        value == spec_parse_u32(text@.subrange(start as int, text@.len() as int)),
{
    let n = text.unicode_len();
    let ghost s = text@.subrange(start as int, n as int);
    let mut first = start;
    if start < n && text.get_char(start) == '+' {
        first = start + 1;
    }
    let ghost d = text@.subrange(first as int, n as int);
    assert(d =~= unsigned_digits(s));
    if first == n {
        return None;
    }
    let mut value: u64 = 0;
    let mut i = first;
    while i < n
        invariant
            n == text@.len(),
            first <= i <= n,
            d == text@.subrange(first as int, n as int),
            d == unsigned_digits(s),
            s == text@.subrange(start as int, text@.len() as int),
            all_digits(text@.subrange(first as int, i as int)),
            value == digits_value(text@.subrange(first as int, i as int)),
            value <= u32::MAX,
        decreases n - i,
    {
        let c = text.get_char(i);
        let ghost prefix = text@.subrange(first as int, i as int);
        let ghost next = text@.subrange(first as int, i + 1);
        assert(next.drop_last() =~= prefix);
        if c < '0' || c > '9' {
            proof {
                assert(d[i - first] == c);
                assert(!all_digits(d));
            }
            return None;
        }
        let digit = (c as u32 - 48) as u64;
        assert(all_digits(next));
        value = value * 10 + digit;
        if value > 0xFFFF_FFFF {
            proof {
                assert(d =~= next + text@.subrange(i + 1, n as int));
                if all_digits(d) {
                    lemma_digits_value_grows(next, text@.subrange(i + 1, n as int));
                }
            }
            return None;
        }
        i += 1;
    }
    assert(text@.subrange(first as int, n as int) =~= d);
    Some(value as u32)
}

/// Parse a decimal `u32` (`u32::from_str`).
pub fn parse_u32(text: &str) -> (value: Option<u32>)
    ensures
        value == spec_parse_u32(text@),
{
    let v = parse_u32_from(text, 0);
    assert(text@.subrange(0, text@.len() as int) =~= text@);
    v
}

/// The position after `prefix` when `text` starts with it, else 0.
pub fn prefix_end(text: &str, prefix: &str) -> (end: usize)
    ensures
        end <= text@.len(),
        text@.subrange(end as int, text@.len() as int) == strip_prefix_or_keep(text@, prefix@),
{
    let n = text.unicode_len();
    let m = prefix.unicode_len();
    if m > n {
        assert(text@.subrange(0, n as int) =~= text@);
        return 0;
    }
    let mut i: usize = 0;
    while i < m
        invariant
            n == text@.len(),
            m == prefix@.len(),
            m <= n,
            i <= m,
            forall|j: int| 0 <= j < i ==> text@[j] == prefix@[j],
        decreases m - i,
    {
        if text.get_char(i) != prefix.get_char(i) {
            proof {
                assert(text@.subrange(0, m as int)[i as int] != prefix@[i as int]);
                assert(text@.subrange(0, n as int) =~= text@);
            }
            return 0;
        }
        i += 1;
    }
    assert(text@.subrange(0, m as int) =~= prefix@);
    m
}

/// The strings of `parts` joined with `separator` between consecutive ones.
pub open spec fn joined(parts: Seq<Seq<char>>, separator: Seq<char>) -> Seq<char>
    decreases parts.len(),
{
    if parts.len() == 0 {
        Seq::empty()
    } else if parts.len() == 1 {
        parts[0]
    } else {
        joined(parts.drop_last(), separator) + separator + parts.last()
    }
}

/// Join strings with a separator (`[String]::join`).
pub fn join(parts: &Vec<String>, separator: &str) -> (text: String)
    ensures
        text@ == joined(parts@.map_values(|p: String| p@), separator@),
{
    let ghost views = parts@.map_values(|p: String| p@);
    let mut text = String::new();
    let mut i: usize = 0;
    while i < parts.len()
        invariant
            views == parts@.map_values(|p: String| p@),
            i <= parts@.len(),
            text@ == joined(views.take(i as int), separator@),
        decreases parts@.len() - i,
    {
        if i > 0 {
            text.append(separator);
        }
        text.append(parts[i].as_str());
        proof {
            assert(views.take(i + 1).drop_last() =~= views.take(i as int));
            if i == 0 {
                assert(text@ =~= joined(views.take(1), separator@));
            }
        }
        i += 1;
    }
    assert(views.take(parts@.len() as int) =~= views);
    text
}

} // verus!

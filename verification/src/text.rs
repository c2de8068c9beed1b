//! Text operations, stated over sequences of Unicode scalar values.

use vstd::prelude::*;
use vstd::string::*;
use vstd::utf8::*;

verus! {

/// `String::push`: the given character is appended to the end of the string.
pub assume_specification[ String::push ](s: &mut String, c: char)
    ensures
        final(s)@ == old(s)@.push(c),
;

/// `From` of a type to itself: the value is handed back unchanged.
pub assume_specification<Value>[ <Value as std::convert::From<Value>>::from ](value: Value) -> (same:
    Value)
    ensures
        same == value,
;

/// The characters that the trimming functions take off the ends of a text.
#[derive(Clone, Copy)]
pub enum CharClass {
    /// Unicode white space.
    WhiteSpace,
    /// `\n` and `\r`.
    LineEnd,
    /// `/`.
    Slash,
}

/// The code points with the Unicode property `White_Space`.
pub open spec fn is_white_space(c: char) -> bool {
    let u = c as u32;
    ||| 0x09 <= u <= 0x0d
    ||| u == 0x20
    ||| u == 0x85
    ||| u == 0xa0
    ||| u == 0x1680
    ||| 0x2000 <= u <= 0x200a
    ||| u == 0x2028
    ||| u == 0x2029
    ||| u == 0x202f
    ||| u == 0x205f
    ||| u == 0x3000
}

impl CharClass {
    /// Membership in the class.
    pub open spec fn has(self, c: char) -> bool {
        match self {
            CharClass::WhiteSpace => is_white_space(c),
            CharClass::LineEnd => c == '\n' || c == '\r',
            CharClass::Slash => c == '/',
        }
    }

    /// Decides membership in the class.
    pub fn contains(self, c: char) -> (found: bool)
        ensures
            found == self.has(c),
    {
        match self {
            CharClass::WhiteSpace => {
                let u: u32 = c as u32;
                (0x09 <= u && u <= 0x0d) || u == 0x20 || u == 0x85 || u == 0xa0 || u == 0x1680 || (
                0x2000 <= u && u <= 0x200a) || u == 0x2028 || u == 0x2029 || u == 0x202f || u
                    == 0x205f || u == 0x3000
            },
            CharClass::LineEnd => c == '\n' || c == '\r',
            CharClass::Slash => c == '/',
        }
    }
}

/// `s` without the characters of `class` at its start.
pub open spec fn without_leading(s: Seq<char>, class: CharClass) -> Seq<char>
    decreases s.len(),
{
    if s.len() > 0 && class.has(s[0]) {
        without_leading(s.drop_first(), class)
    } else {
        s
    }
}

/// `s` without the characters of `class` at its end.
pub open spec fn without_trailing(s: Seq<char>, class: CharClass) -> Seq<char>
    decreases s.len(),
{
    if s.len() > 0 && class.has(s.last()) {
        without_trailing(s.drop_last(), class)
    } else {
        s
    }
}

/// `s` without white space at either end.
pub open spec fn trimmed(s: Seq<char>) -> Seq<char> {
    without_trailing(without_leading(s, CharClass::WhiteSpace), CharClass::WhiteSpace)
}

/// The text has no white space at either end.
pub open spec fn is_trimmed(s: Seq<char>) -> bool {
    s.len() > 0 ==> !is_white_space(s[0]) && !is_white_space(s.last())
}

/// Trimming leaves a text alone that has no white space at either end.
pub proof fn lemma_trimmed_is_fixed(s: Seq<char>)
    requires
        is_trimmed(s),
    ensures
        trimmed(s) == s,
{
}

/// What trimming leaves has no white space at either end, so that trimming twice is trimming
/// once.
pub proof fn lemma_trimmed_twice(s: Seq<char>)
    ensures
        is_trimmed(trimmed(s)),
        trimmed(trimmed(s)) == trimmed(s),
    decreases s.len(),
{
    if s.len() > 0 && is_white_space(s[0]) {
        lemma_trimmed_twice(s.drop_first());
    } else {
        lemma_without_trailing_is_prefix(s, CharClass::WhiteSpace);
    }
}

/// Taking characters off the end leaves a prefix that does not end in one of them.
pub proof fn lemma_without_trailing_is_prefix(s: Seq<char>, class: CharClass)
    ensures
        without_trailing(s, class).is_prefix_of(s),
        without_trailing(s, class).len() > 0 ==> !class.has(without_trailing(s, class).last()),
    decreases s.len(),
{
    if s.len() > 0 && class.has(s.last()) {
        lemma_without_trailing_is_prefix(s.drop_last(), class);
    }
}

/// The characters of a text.
pub fn chars_of(s: &str) -> (chars: Vec<char>)
    ensures
        chars@ == s@,
{
    let mut chars: Vec<char> = Vec::new();
    for c in it: s.chars()
        invariant
            chars@ == it.seq().take(it.index()),
            it.seq() == s@,
    {
        chars.push(c);
        assert(it.seq().take(it.index() + 1) == it.seq().take(it.index()).push(c));
    }
    assert(s@.take(s@.len() as int) == s@);
    chars
}

/// The part of `s` before the trailing characters of `class`.
pub fn trim_end_class(s: &str, class: CharClass) -> (r: &str)
    ensures
        r@ == without_trailing(s@, class),
{
    let chars = chars_of(s);
    let mut n: usize = chars.len();
    assert(s@.take(n as int) == s@);
    while n > 0 && class.contains(chars[n - 1])
        invariant
            n <= chars.len(),
            chars@ == s@,
            without_trailing(s@.take(n as int), class) == without_trailing(s@, class),
        decreases n,
    {
        n = n - 1;
        assert(s@.take(n as int + 1).drop_last() == s@.take(n as int));
    }
    assert(s@.take(n as int) == s@.subrange(0, n as int));
    s.substring_char(0, n)
}

/// The part of `s` after the leading characters of `class`.
pub fn trim_start_class(s: &str, class: CharClass) -> (r: &str)
    ensures
        r@ == without_leading(s@, class),
{
    let chars = chars_of(s);
    let mut n: usize = 0;
    assert(s@.skip(0) == s@);
    while n < chars.len() && class.contains(chars[n])
        invariant
            n <= chars.len(),
            chars@ == s@,
            without_leading(s@.skip(n as int), class) == without_leading(s@, class),
        decreases chars.len() - n,
    {
        assert(s@.skip(n as int).drop_first() == s@.skip(n as int + 1));
        n = n + 1;
    }
    assert(s@.skip(n as int) == s@.subrange(n as int, s@.len() as int));
    s.substring_char(n, chars.len())
}

/// `s` without white space at either end.
pub fn trim(s: &str) -> (r: &str)
    ensures
        r@ == trimmed(s@),
{
    trim_end_class(trim_start_class(s, CharClass::WhiteSpace), CharClass::WhiteSpace)
}

/// Whether two texts are the same.
pub fn same_text(a: &str, b: &str) -> (same: bool)
    ensures
        same == (a@ == b@),
{
    let x = a.as_bytes();
    let y = b.as_bytes();
    proof {
        encode_utf8_decode_utf8(a@);
        encode_utf8_decode_utf8(b@);
    }
    same_bytes(x, y)
}

/// Whether two byte strings are the same.
pub fn same_bytes(a: &[u8], b: &[u8]) -> (same: bool)
    ensures
        same == (a@ == b@),
{
    if a.len() != b.len() {
        return false;
    }
    let mut i: usize = 0;
    while i < a.len()
        invariant
            i <= a.len(),
            a.len() == b.len(),
            a@.take(i as int) == b@.take(i as int),
        decreases a.len() - i,
    {
        if a[i] != b[i] {
            return false;
        }
        assert(a@.take(i as int + 1) == a@.take(i as int).push(a@[i as int]));
        assert(b@.take(i as int + 1) == b@.take(i as int).push(b@[i as int]));
        i = i + 1;
    }
    assert(a@.take(a@.len() as int) == a@);
    assert(b@.take(b@.len() as int) == b@);
    true
}

/// A character in lower case, where it is an ASCII capital letter.
pub open spec fn ascii_lower(c: char) -> char {
    if 'A' <= c <= 'Z' {
        (c as u8 + 32) as u8 as char
    } else {
        c
    }
}

/// A text with its ASCII capital letters in lower case.
pub open spec fn ascii_lowercase(s: Seq<char>) -> Seq<char> {
    s.map_values(|c: char| ascii_lower(c))
}

/// `s` with its ASCII capital letters in lower case.
pub fn to_ascii_lowercase(s: &str) -> (r: String)
    ensures
        r@ == ascii_lowercase(s@),
{
    let chars = chars_of(s);
    let mut r = String::new();
    let mut i: usize = 0;
    while i < chars.len()
        invariant
            i <= chars.len(),
            chars@ == s@,
            r@ == ascii_lowercase(s@.take(i as int)),
        decreases chars.len() - i,
    {
        let c = chars[i];
        let low = if 'A' <= c && c <= 'Z' {
            let b: u8 = c as u8;
            (b + 32) as char
        } else {
            c
        };
        r.push(low);
        assert(s@.take(i as int + 1) == s@.take(i as int).push(c));
        assert(ascii_lowercase(s@.take(i as int + 1)) == ascii_lowercase(s@.take(i as int)).push(
            ascii_lower(c),
        ));
        i = i + 1;
    }
    assert(s@.take(s@.len() as int) == s@);
    r
}

/// What follows `prefix` in `s`, where `s` starts with it.
pub open spec fn after_prefix(s: Seq<char>, prefix: Seq<char>) -> Option<Seq<char>> {
    if prefix.is_prefix_of(s) {
        Some(s.skip(prefix.len() as int))
    } else {
        None
    }
}

/// What follows `prefix` in `s`, where `s` starts with it.
pub fn strip_prefix<'a>(s: &'a str, prefix: &str) -> (r: Option<&'a str>)
    ensures
        match r {
            Some(rest) => after_prefix(s@, prefix@) == Some(rest@),
            None => after_prefix(s@, prefix@) is None,
        },
{
    let n = s.unicode_len();
    let m = prefix.unicode_len();
    if n < m {
        return None;
    }
    let head = s.substring_char(0, m);
    if same_text(head, prefix) {
        let rest = s.substring_char(m, n);
        assert(s@.skip(m as int) == s@.subrange(m as int, n as int));
        Some(rest)
    } else {
        None
    }
}

/// The position of the first `c` in `s`, or the length of `s` where there is none.
pub open spec fn first_index(s: Seq<char>, c: char) -> int
    decreases s.len(),
{
    if s.len() == 0 || s[0] == c {
        0
    } else {
        1 + first_index(s.drop_first(), c)
    }
}

/// `first_index` is a position in the text with no `c` before it.
pub proof fn lemma_first_index(s: Seq<char>, c: char)
    ensures
        0 <= first_index(s, c) <= s.len(),
        first_index(s, c) < s.len() ==> s[first_index(s, c)] == c,
        forall|i: int| 0 <= i < first_index(s, c) ==> s[i] != c,
        first_index(s, c) == s.len() <==> !s.contains(c),
    decreases s.len(),
{
    if s.len() > 0 && s[0] != c {
        lemma_first_index(s.drop_first(), c);
        assert forall|i: int| 0 <= i < first_index(s, c) implies s[i] != c by {
            if i > 0 {
                assert(s.drop_first()[i - 1] == s[i]);
            }
        }
        if s.contains(c) {
            let k = choose|k: int| 0 <= k < s.len() && s[k] == c;
            assert(s.drop_first()[k - 1] == c);
        }
    }
}

/// A position with the properties of `first_index` is `first_index`.
pub proof fn lemma_first_index_unique(s: Seq<char>, c: char, k: int)
    requires
        0 <= k <= s.len(),
        k < s.len() ==> s[k] == c,
        forall|i: int| 0 <= i < k ==> s[i] != c,
    ensures
        first_index(s, c) == k,
{
    lemma_first_index(s, c);
    let j = first_index(s, c);
    if j < k {
        assert(s[j] == c);
    } else if k < j {
        assert(s[k] == c);
    }
}

/// The position of the first `c` in `s`, or the number of characters where there is none.
pub fn find_char(s: &str, c: char) -> (at: usize)
    ensures
        at == first_index(s@, c),
{
    let chars = chars_of(s);
    let mut i: usize = 0;
    while i < chars.len() && chars[i] != c
        invariant
            i <= chars.len(),
            chars@ == s@,
            forall|k: int| 0 <= k < i ==> s@[k] != c,
        decreases chars.len() - i,
    {
        i = i + 1;
    }
    proof {
        lemma_first_index_unique(s@, c, i as int);
    }
    i
}

/// Whether `c` occurs in `s`.
pub fn contains_char(s: &str, c: char) -> (found: bool)
    ensures
        found == s@.contains(c),
{
    let at = find_char(s, c);
    proof {
        lemma_first_index(s@, c);
    }
    at < s.unicode_len()
}

/// The parts of `s` before and after the first `c`.
pub open spec fn cut(s: Seq<char>, c: char) -> Option<(Seq<char>, Seq<char>)> {
    let k = first_index(s, c);
    if k < s.len() {
        Some((s.take(k), s.skip(k + 1)))
    } else {
        None
    }
}

/// The parts of `s` before and after the first `c`.
pub fn split_once<'a>(s: &'a str, c: char) -> (r: Option<(&'a str, &'a str)>)
    ensures
        match r {
            Some(parts) => cut(s@, c) == Some((parts.0@, parts.1@)),
            None => cut(s@, c) is None,
        },
{
    let n = s.unicode_len();
    let at = find_char(s, c);
    if at < n {
        let head = s.substring_char(0, at);
        let tail = s.substring_char(at + 1, n);
        assert(s@.take(at as int) == s@.subrange(0, at as int));
        assert(s@.skip(at as int + 1) == s@.subrange(at as int + 1, n as int));
        Some((head, tail))
    } else {
        None
    }
}

/// The parts of `s` between the occurrences of `c`.
pub open spec fn split_parts(s: Seq<char>, c: char) -> Seq<Seq<char>>
    decreases s.len(),
{
    let k = first_index(s, c);
    if 0 <= k < s.len() {
        seq![s.take(k)] + split_parts(s.skip(k + 1), c)
    } else {
        seq![s]
    }
}

/// The views of a list of texts.
pub open spec fn views(texts: Seq<String>) -> Seq<Seq<char>> {
    texts.map_values(|t: String| t@)
}

/// The views of a list of borrowed texts.
pub open spec fn str_views(texts: Seq<&str>) -> Seq<Seq<char>> {
    texts.map_values(|t: &str| t@)
}

/// The parts of `s` between the occurrences of `c`.
pub fn split_on<'a>(s: &'a str, c: char) -> (parts: Vec<&'a str>)
    ensures
        str_views(parts@) == split_parts(s@, c),
{
    let mut parts: Vec<&'a str> = Vec::new();
    let mut rest: &'a str = s;
    assert(str_views(parts@) + split_parts(rest@, c) == split_parts(s@, c));
    loop
        invariant
            str_views(parts@) + split_parts(rest@, c) == split_parts(s@, c),
        decreases rest@.len(),
    {
        let ghost before = parts@;
        proof {
            lemma_first_index(rest@, c);
        }
        match split_once(rest, c) {
            Some((head, tail)) => {
                let ghost whole = rest@;
                parts.push(head);
                rest = tail;
                assert(str_views(parts@) == str_views(before).push(head@));
                assert(split_parts(whole, c) == seq![head@] + split_parts(tail@, c));
                assert(str_views(parts@) + split_parts(rest@, c) == str_views(before) + (
                seq![head@] + split_parts(tail@, c)));
            },
            None => {
                parts.push(rest);
                assert(str_views(parts@) == str_views(before).push(rest@));
                assert(str_views(parts@) == str_views(before) + seq![rest@]);
                return parts;
            },
        }
    }
}

/// The texts one after the other, with `between` between them.
pub open spec fn joined(texts: Seq<Seq<char>>, between: Seq<char>) -> Seq<char>
    decreases texts.len(),
{
    if texts.len() == 0 {
        Seq::empty()
    } else if texts.len() == 1 {
        texts[0]
    } else {
        joined(texts.drop_last(), between) + between + texts.last()
    }
}

/// The texts one after the other, with `between` between them.
pub fn join_texts(texts: &Vec<String>, between: &str) -> (r: String)
    ensures
        r@ == joined(views(texts@), between@),
{
    let mut r = String::new();
    let mut i: usize = 0;
    while i < texts.len()
        invariant
            i <= texts.len(),
            r@ == joined(views(texts@).take(i as int), between@),
        decreases texts.len() - i,
    {
        let ghost all = views(texts@);
        if i > 0 {
            r.append(between);
        }
        r.append(texts[i].as_str());
        proof {
            assert(all.take(i as int + 1).drop_last() == all.take(i as int));
            assert(all.take(i as int + 1).last() == texts@[i as int]@);
            if i == 0 {
                assert(all.take(1)[0] == texts@[0]@);
            }
        }
        i = i + 1;
    }
    assert(views(texts@).take(texts@.len() as int) == views(texts@));
    r
}

/// The first `n` characters of `s`, or all of them where there are fewer.
pub open spec fn first_chars(s: Seq<char>, n: nat) -> Seq<char> {
    if s.len() <= n {
        s
    } else {
        s.take(n as int)
    }
}

/// The first `n` characters of `s`, or all of them where there are fewer.
pub fn take_chars(s: &str, n: usize) -> (r: String)
    ensures
        r@ == first_chars(s@, n as nat),
{
    let len = s.unicode_len();
    if len <= n {
        s.to_owned()
    } else {
        let head = s.substring_char(0, n);
        assert(s@.take(n as int) == s@.subrange(0, n as int));
        head.to_owned()
    }
}

/// A decimal digit.
pub open spec fn digit(n: nat) -> char {
    (48 + n) as u8 as char
}

/// A number in decimal notation.
pub open spec fn decimal(n: nat) -> Seq<char>
    decreases n,
{
    if n < 10 {
        seq![digit(n)]
    } else {
        decimal(n / 10).push(digit(n % 10))
    }
}

/// A number in decimal notation.
pub fn decimal_text(n: u64) -> (r: String)
    ensures
        r@ == decimal(n as nat),
    decreases n,
{
    let d: u8 = (n % 10) as u8;
    let c = (48 + d) as char;
    if n < 10 {
        let mut r = String::new();
        r.push(c);
        assert(r@ == seq![digit(n as nat)]);
        r
    } else {
        let mut r = decimal_text(n / 10);
        r.push(c);
        r
    }
}

/// What `String::from_utf8_lossy` makes of bytes that are not valid UTF-8.
pub uninterp spec fn utf8_replaced(bytes: Seq<u8>) -> Seq<char>;

/// The text that bytes stand for: what they encode where they are valid UTF-8, and otherwise the
/// text with replacement characters that the standard library gives.
pub open spec fn utf8_lossy(bytes: Seq<u8>) -> Seq<char> {
    if valid_utf8(bytes) {
        decode_utf8(bytes)
    } else {
        utf8_replaced(bytes)
    }
}

/// `String::from_utf8_lossy`: valid UTF-8 is decoded. Where the replacement characters go in
/// other bytes is named, not described.
#[verifier::external_body]
pub(crate) fn lossy_text(bytes: &[u8]) -> (s: String)
    ensures
        valid_utf8(bytes@) ==> s@ == decode_utf8(bytes@),
        !valid_utf8(bytes@) ==> s@ == utf8_replaced(bytes@),
{
    String::from_utf8_lossy(bytes).into_owned()
}

/// The bytes that an encoded character consists of hold `b`, an ASCII byte, only where it is that
/// very character.
proof fn lemma_encoded_ascii_byte(c: char, i: int, b: u8)
    requires
        0 <= i < encode_scalar(c as u32).len(),
        encode_scalar(c as u32)[i] == b,
        b < 0x80,
    ensures
        c as u32 == b,
        encode_scalar(c as u32).len() == 1,
{
    let u = c as u32;
    char_is_scalar(c);
    assert(u <= 0x7f ==> (u & 0x7f) as u8 as u32 == u) by (bit_vector);
    assert(0xc0u8 | (((u >> 6) & 0x1f) as u8) >= 0x80) by (bit_vector);
    assert(0xe0u8 | (((u >> 12) & 0x0f) as u8) >= 0x80) by (bit_vector);
    assert(0xf0u8 | (((u >> 18) & 0x07) as u8) >= 0x80) by (bit_vector);
    assert(0x80u8 | ((u & 0x3f) as u8) >= 0x80) by (bit_vector);
    assert(0x80u8 | (((u >> 6) & 0x3f) as u8) >= 0x80) by (bit_vector);
    assert(0x80u8 | (((u >> 12) & 0x3f) as u8) >= 0x80) by (bit_vector);
}

/// An ASCII byte occurs in the encoding of a text only where its character occurs in the text.
pub proof fn lemma_ascii_byte_in_encoding(s: Seq<char>, i: int)
    requires
        0 <= i < encode_utf8(s).len(),
        encode_utf8(s)[i] < 0x80,
    ensures
        s.contains(encode_utf8(s)[i] as char),
    decreases s.len(),
{
    let b = encode_utf8(s)[i];
    let first = encode_scalar(s[0] as u32);
    if i < first.len() {
        lemma_encoded_ascii_byte(s[0], i, b);
        char_u32_cast(s[0], s[0] as u32);
        assert(s[0] == b as char);
    } else {
        lemma_ascii_byte_in_encoding(s.drop_first(), i - first.len());
        let k = choose|k: int| 0 <= k < s.drop_first().len() && s.drop_first()[k] == b as char;
        assert(s[k + 1] == b as char);
    }
}

/// A text is no longer than its encoding.
pub proof fn lemma_encoding_length(s: Seq<char>)
    ensures
        s.len() <= encode_utf8(s).len(),
        s.len() == 0 <==> encode_utf8(s).len() == 0,
    decreases s.len(),
{
    if s.len() > 0 {
        char_is_scalar(s[0]);
        lemma_encoding_length(s.drop_first());
    }
}

/// How the `Debug` form of a text reads: quoted, with escapes.
pub uninterp spec fn quoted(s: Seq<char>) -> Seq<char>;

/// The `Debug` form of `str`: the text in double quotes, with escapes. It is named, not
/// described.
#[verifier::external_body]
pub(crate) fn quote(s: &str) -> (r: String)
    ensures
        r@ == quoted(s@),
{
    format!("{:?}", s)
}

/// The text of an optional string.
pub open spec fn opt_view(s: Option<String>) -> Option<Seq<char>> {
    match s {
        Some(t) => Some(t@),
        None => None,
    }
}

/// Whether two optional texts are the same.
pub fn same_option(a: &Option<String>, b: &Option<String>) -> (same: bool)
    ensures
        same == (opt_view(*a) == opt_view(*b)),
{
    match (a, b) {
        (Some(x), Some(y)) => same_text(x.as_str(), y.as_str()),
        (None, None) => true,
        _ => false,
    }
}

/// What each class takes off, character by character: white space is what Unicode calls so, a line end
/// is a line feed or a carriage return, and a slash is a slash.
pub proof fn law_classes_hold_what_they_are_named_for(class: CharClass, c: char, found: bool)
    requires
        call_ensures(CharClass::contains, (class, c), found),
    ensures
        class is LineEnd ==> (found <==> c == '\n' || c == '\r'),
        class is Slash ==> (found <==> c == '/'),
        class is WhiteSpace ==> {
            &&& c == ' ' || c == '\t' || c == '\n' || c == '\r' ==> found
            &&& '!' <= c <= '~' ==> !found
            &&& c == '\u{85}' || c == '\u{a0}' || c == '\u{1680}' || c == '\u{2028}' || c
                == '\u{2029}' || c == '\u{202f}' || c == '\u{205f}' || c == '\u{3000}' ==> found
            &&& '\u{2000}' <= c <= '\u{200a}' ==> found
            &&& '\u{a1}' <= c <= '\u{167f}' ==> !found
            &&& '\u{1681}' <= c <= '\u{1fff}' ==> !found
            &&& '\u{200b}' <= c <= '\u{2027}' ==> !found
            &&& '\u{3001}' <= c ==> !found
        },
{
}

/// Every character of the text is in the class.
pub open spec fn all_in(s: Seq<char>, class: CharClass) -> bool {
    forall|i: int| 0 <= i < s.len() ==> class.has(#[trigger] s[i])
}

/// What is taken off the end of a text is all of one class.
pub proof fn lemma_trailing_split(s: Seq<char>, class: CharClass)
    ensures
        without_trailing(s, class).len() <= s.len(),
        s == without_trailing(s, class) + s.skip(without_trailing(s, class).len() as int),
        all_in(s.skip(without_trailing(s, class).len() as int), class),
    decreases s.len(),
{
    let r = without_trailing(s, class);
    if s.len() > 0 && class.has(s.last()) {
        let t = s.drop_last();
        lemma_trailing_split(t, class);
        let n = r.len() as int;
        assert forall|i: int| 0 <= i < s.skip(n).len() implies class.has(
            #[trigger] s.skip(n)[i],
        ) by {
            if i < t.skip(n).len() {
                assert(t.skip(n)[i] == s.skip(n)[i]);
            }
        }
        assert(t =~= r + t.skip(n));
        assert(s =~= t.push(s.last()));
    }
    assert(s =~= r + s.skip(r.len() as int));
}

proof fn lemma_leading_split(s: Seq<char>, class: CharClass)
    ensures
        without_leading(s, class).len() <= s.len(),
        s == s.take(s.len() - without_leading(s, class).len()) + without_leading(s, class),
        all_in(s.take(s.len() - without_leading(s, class).len()), class),
        without_leading(s, class).len() > 0 ==> !class.has(without_leading(s, class)[0]),
    decreases s.len(),
{
    let r = without_leading(s, class);
    if s.len() > 0 && class.has(s[0]) {
        let t = s.drop_first();
        lemma_leading_split(t, class);
        let n = s.len() - r.len();
        let head = t.take(n - 1);
        assert forall|i: int| 0 <= i < n implies class.has(#[trigger] s.take(n)[i]) by {
            if i > 0 {
                assert(head[i - 1] == s.take(n)[i]);
            }
        }
        assert(t =~= head + r);
        assert(s =~= seq![s[0]] + t);
    }
    assert(s =~= s.take(s.len() - r.len()) + r);
}

/// Taking characters off the end of a text takes off all of that class and nothing else: what is left
/// is the beginning of the text, does not end in one of them, and only such characters followed it.
pub proof fn law_trim_end_takes_nothing_else(s: &str, class: CharClass, r: &str)
    requires
        call_ensures(trim_end_class, (s, class), r),
    ensures
        exists|tail: Seq<char>| s@ == r@ + tail && #[trigger] all_in(tail, class),
        r@.len() > 0 ==> !class.has(r@.last()),
{
    lemma_trailing_split(s@, class);
    lemma_without_trailing_is_prefix(s@, class);
    assert(all_in(s@.skip(r@.len() as int), class));
}

/// Taking characters off the start of a text takes off all of that class and nothing else.
pub proof fn law_trim_start_takes_nothing_else(s: &str, class: CharClass, r: &str)
    requires
        call_ensures(trim_start_class, (s, class), r),
    ensures
        exists|head: Seq<char>| s@ == head + r@ && #[trigger] all_in(head, class),
        r@.len() > 0 ==> !class.has(r@[0]),
{
    lemma_leading_split(s@, class);
    assert(all_in(s@.take(s@.len() - r@.len()), class));
}

/// A text is what trimming leaves of it, with nothing but white space before and after; and what is
/// left neither starts nor ends with white space.
pub proof fn law_trim_takes_only_white_space(s: &str, r: &str)
    requires
        call_ensures(trim, (s,), r),
    ensures
        exists|head: Seq<char>, tail: Seq<char>|
            s@ == head + r@ + tail && #[trigger] all_in(head, CharClass::WhiteSpace)
                && #[trigger] all_in(tail, CharClass::WhiteSpace),
        r@.len() > 0 ==> !is_white_space(r@[0]) && !is_white_space(r@.last()),
{
    let class = CharClass::WhiteSpace;
    let l = without_leading(s@, class);
    lemma_leading_split(s@, class);
    lemma_trailing_split(l, class);
    lemma_trimmed_twice(s@);
    let head = s@.take(s@.len() - l.len());
    let tail = l.skip(r@.len() as int);
    assert(s@ =~= head + r@ + tail);
    assert(all_in(head, class) && all_in(tail, class));
}

/// Only the ASCII capital letters change, each to its small letter, and every other character stays
/// where it is.
pub proof fn law_lower_case_changes_only_capitals(s: &str, r: String)
    requires
        call_ensures(to_ascii_lowercase, (s,), r),
    ensures
        r@.len() == s@.len(),
        forall|i: int|
            0 <= i < s@.len() ==> {
                &&& !('A' <= #[trigger] s@[i] <= 'Z') ==> r@[i] == s@[i]
                &&& 'A' <= s@[i] <= 'Z' ==> r@[i] as u32 == s@[i] as u32 + 32
            },
{
}

/// A text starts with a prefix exactly where it is the prefix and what was found to follow it.
pub proof fn law_prefix_and_rest_are_the_text(s: &str, prefix: &str, r: Option<&str>)
    requires
        call_ensures(strip_prefix, (s, prefix), r),
    ensures
        r matches Some(rest) ==> s@ == prefix@ + rest@,
        r is None ==> forall|rest: Seq<char>| s@ != #[trigger] (prefix@ + rest),
{
    match r {
        Some(rest) => {
            assert(s@ =~= prefix@ + rest@);
        },
        None => {
            assert forall|rest: Seq<char>| s@ != #[trigger] (prefix@ + rest) by {
                if s@ == prefix@ + rest {
                    assert(prefix@.is_prefix_of(s@));
                }
            }
        },
    }
}

/// A text is cut at the first of the given characters: the two parts with the character between them
/// are the text, and it does not occur in the first. There are no parts exactly where it does not
/// occur.
pub proof fn law_cut_parts_make_the_text(s: &str, c: char, r: Option<(&str, &str)>)
    requires
        call_ensures(split_once, (s, c), r),
    ensures
        r matches Some(parts) ==> s@ == parts.0@ + seq![c] + parts.1@ && !parts.0@.contains(c),
        r is None <==> !s@.contains(c),
{
    lemma_first_index(s@, c);
    if let Some(parts) = r {
        let k = first_index(s@, c);
        assert(s@ =~= s@.take(k) + seq![c] + s@.skip(k + 1));
        if parts.0@.contains(c) {
            let i = choose|i: int| 0 <= i < parts.0@.len() && parts.0@[i] == c;
            assert(s@[i] == c);
        }
    }
}

/// Texts that are joined in two groups are joined as one: what comes out holds every text, in order,
/// with the given text between each and the next.
pub proof fn law_joined_in_groups(a: Seq<Seq<char>>, b: Seq<Seq<char>>, between: Seq<char>)
    ensures
        joined(Seq::<Seq<char>>::empty(), between) == Seq::<char>::empty(),
        forall|t: Seq<char>| #[trigger] joined(seq![t], between) == t,
        a.len() > 0 && b.len() > 0 ==> joined(a + b, between) == joined(a, between) + between
            + joined(b, between),
    decreases b.len(),
{
    if a.len() > 0 && b.len() > 0 {
        assert((a + b).drop_last() =~= a + b.drop_last());
        assert((a + b).last() == b.last());
        if b.len() == 1 {
            assert(a + b.drop_last() =~= a);
            assert(joined(a + b, between) =~= joined(a, between) + between + joined(b, between));
        } else {
            law_joined_in_groups(a, b.drop_last(), between);
            assert(joined(a + b, between) =~= joined(a, between) + between + joined(b, between));
        }
    }
}

/// The text that joining gives is that of the texts, whole and in order.
pub proof fn law_join_keeps_every_text(
    texts: &Vec<String>,
    more: &Vec<String>,
    all: &Vec<String>,
    between: &str,
    r: String,
    r_more: String,
    r_all: String,
)
    requires
        views(all@) == views(texts@) + views(more@),
        texts@.len() > 0,
        more@.len() > 0,
        call_ensures(join_texts, (texts, between), r),
        call_ensures(join_texts, (more, between), r_more),
        call_ensures(join_texts, (all, between), r_all),
    ensures
        r_all@ == r@ + between@ + r_more@,
        texts@.len() == 1 ==> r@ == texts@[0]@,
{
    law_joined_in_groups(views(texts@), views(more@), between@);
    assert(views(texts@).len() == texts@.len() && views(more@).len() == more@.len());
    if texts@.len() == 1 {
        assert(views(texts@)[0] == texts@[0]@);
    }
}

/// No part holds the character that a text is split at, there is at least one part, and the parts with
/// the character between them are the text.
pub proof fn law_split_parts_make_the_text(s: &str, c: char, parts: Vec<&str>)
    requires
        call_ensures(split_on, (s, c), parts),
    ensures
        parts@.len() > 0,
        forall|i: int| 0 <= i < parts@.len() ==> !(#[trigger] parts@[i])@.contains(c),
        joined(str_views(parts@), seq![c]) == s@,
{
    lemma_split_parts(s@, c);
    assert(str_views(parts@).len() == parts@.len());
    assert forall|i: int| 0 <= i < parts@.len() implies !(#[trigger] parts@[i])@.contains(c) by {
        assert(str_views(parts@)[i] == parts@[i]@);
    }
}

proof fn lemma_split_parts(s: Seq<char>, c: char)
    ensures
        split_parts(s, c).len() > 0,
        forall|i: int|
            0 <= i < split_parts(s, c).len() ==> !(#[trigger] split_parts(s, c)[i]).contains(c),
        joined(split_parts(s, c), seq![c]) == s,
    decreases s.len(),
{
    let k = first_index(s, c);
    lemma_first_index(s, c);
    if 0 <= k < s.len() {
        let head = s.take(k);
        let rest = split_parts(s.skip(k + 1), c);
        lemma_split_parts(s.skip(k + 1), c);
        if head.contains(c) {
            let i = choose|i: int| 0 <= i < head.len() && head[i] == c;
            assert(s[i] == c);
        }
        assert forall|i: int| 0 <= i < split_parts(s, c).len() implies !(
        #[trigger] split_parts(s, c)[i]).contains(c) by {
            if i > 0 {
                assert(split_parts(s, c)[i] == rest[i - 1]);
            }
        }
        law_joined_in_groups(seq![head], rest, seq![c]);
        assert(s =~= head + seq![c] + s.skip(k + 1));
    } else {
        law_joined_in_groups(seq![s], Seq::empty(), seq![c]);
    }
}

/// The beginning of a text: all of it where it is short enough, and otherwise as many of its first
/// characters as were asked for.
pub proof fn law_taken_characters_come_first(s: &str, n: usize, r: String)
    requires
        call_ensures(take_chars, (s, n), r),
    ensures
        r@.is_prefix_of(s@),
        s@.len() <= n ==> r@ == s@,
        s@.len() > n ==> r@.len() == n,
{
}

/// The number that decimal digits stand for.
pub open spec fn decimal_value(digits: Seq<char>) -> nat
    decreases digits.len(),
{
    if digits.len() == 0 {
        0
    } else {
        decimal_value(digits.drop_last()) * 10 + (digits.last() as u32 - '0' as u32) as nat
    }
}

proof fn lemma_decimal(n: nat)
    ensures
        decimal(n).len() > 0,
        decimal_value(decimal(n)) == n,
        forall|i: int| 0 <= i < decimal(n).len() ==> '0' <= #[trigger] decimal(n)[i] <= '9',
        n > 0 ==> decimal(n)[0] != '0',
        n < 10 ==> decimal(n).len() == 1,
    decreases n,
{
    let d = digit(n % 10);
    assert('0' <= d <= '9' && d as u32 == 48 + n % 10);
    if n < 10 {
        assert(decimal(n).drop_last() =~= Seq::empty());
        assert(decimal_value(decimal(n).drop_last()) == 0);
    } else {
        lemma_decimal(n / 10);
        assert(decimal(n).drop_last() =~= decimal(n / 10));
        assert(decimal(n)[0] == decimal(n / 10)[0]);
    }
}

/// A number is written in decimal digits that stand for it, without a zero before them.
pub proof fn law_decimal_stands_for_the_number(n: u64, r: String)
    requires
        call_ensures(decimal_text, (n,), r),
    ensures
        r@.len() > 0,
        forall|i: int| 0 <= i < r@.len() ==> '0' <= #[trigger] r@[i] <= '9',
        decimal_value(r@) == n,
        r@.len() > 1 ==> r@[0] != '0',
{
    lemma_decimal(n as nat);
}

} // verus!

//! Text operations on `char` sequences.
//!
//! Contracts speak of a string through its view, a `Seq<char>`. Lengths in bytes are lengths of
//! the UTF-8 encoding.

use vstd::prelude::*;
use vstd::utf8;

verus! {

/// `String::push` appends one character to the end of the string.
pub assume_specification[ std::string::String::push ](s: &mut std::string::String, ch: char)
    ensures
        final(s)@ == old(s)@.push(ch),
;

/// The characters of a string, in order.
pub fn chars_of(s: &str) -> (r: Vec<char>)
    ensures
        r@ == s@,
{
    let mut out: Vec<char> = Vec::new();
    for c in it: s.chars()
        invariant
            it.seq() == s@,
            out@ == s@.take(it.index()),
    {
        out.push(c);
    }
    proof {
        assert(s@.take(s@.len() as int) =~= s@);
    }
    out
}

/// The string made of `chars[from..to]`.
pub fn string_of(chars: &Vec<char>, from: usize, to: usize) -> (r: String)
    requires
        from <= to <= chars@.len(),
    ensures
        r@ == chars@.subrange(from as int, to as int),
{
    let mut out = String::new();
    let mut i: usize = from;
    while i < to
        invariant
            from <= i <= to <= chars@.len(),
            out@ == chars@.subrange(from as int, i as int),
        decreases to - i,
    {
        out.push(chars[i]);
        i = i + 1;
        assert(chars@.subrange(from as int, i as int) =~= chars@.subrange(from as int, i - 1).push(chars@[i - 1]));
    }
    out
}

/// The lower-case form of an ASCII letter; any other character is left as it is.
pub open spec fn lower_char_of(c: char) -> char {
    if 'A' <= c && c <= 'Z' {
        (c as u32 + 32) as char
    } else {
        c
    }
}

pub fn lower_char(c: char) -> (r: char)
    ensures
        r == lower_char_of(c),
{
    if 'A' <= c && c <= 'Z' {
        ((c as u8) + 32) as char
    } else {
        c
    }
}

/// `s` with every ASCII letter in lower case.
pub open spec fn lower_of(s: Seq<char>) -> Seq<char> {
    Seq::new(s.len(), |i: int| lower_char_of(s[i]))
}

pub fn to_ascii_lowercase(s: &str) -> (r: String)
    ensures
        r@ == lower_of(s@),
{
    let chars = chars_of(s);
    let mut out = String::new();
    let mut i: usize = 0;
    while i < chars.len()
        invariant
            i <= chars@.len(),
            chars@ == s@,
            out@ == lower_of(s@).take(i as int),
        decreases chars@.len() - i,
    {
        out.push(lower_char(chars[i]));
        i = i + 1;
        assert(lower_of(s@).take(i as int) =~= lower_of(s@).take(i - 1).push(lower_of(s@)[i - 1]));
    }
    assert(lower_of(s@).take(s@.len() as int) =~= lower_of(s@));
    out
}

/// The upper-case form of an ASCII letter; any other character is left as it is.
pub open spec fn upper_char_of(c: char) -> char {
    if 'a' <= c && c <= 'z' {
        (c as u32 - 32) as char
    } else {
        c
    }
}

/// `s` with every ASCII letter in upper case.
pub open spec fn upper_of(s: Seq<char>) -> Seq<char> {
    Seq::new(s.len(), |i: int| upper_char_of(s[i]))
}

pub fn to_ascii_uppercase(s: &str) -> (r: String)
    ensures
        r@ == upper_of(s@),
{
    let chars = chars_of(s);
    let mut out = String::new();
    let mut i: usize = 0;
    while i < chars.len()
        invariant
            i <= chars@.len(),
            chars@ == s@,
            out@ == upper_of(s@).take(i as int),
        decreases chars@.len() - i,
    {
        let c = chars[i];
        if 'a' <= c && c <= 'z' {
            out.push(((c as u8) - 32) as char);
        } else {
            out.push(c);
        }
        i = i + 1;
        assert(upper_of(s@).take(i as int) =~= upper_of(s@).take(i - 1).push(upper_of(s@)[i - 1]));
    }
    assert(upper_of(s@).take(s@.len() as int) =~= upper_of(s@));
    out
}

/// Whether two strings hold the same characters.
pub fn same(a: &str, b: &str) -> (r: bool)
    ensures
        r == (a@ == b@),
{
    let x = a.as_bytes();
    let y = b.as_bytes();
    proof {
        utf8::encode_utf8_decode_utf8(a@);
        utf8::encode_utf8_decode_utf8(b@);
    }
    if x.len() != y.len() {
        return false;
    }
    let mut i: usize = 0;
    while i < x.len()
        invariant
            i <= x@.len(),
            x@.len() == y@.len(),
            x@ == utf8::encode_utf8(a@),
            y@ == utf8::encode_utf8(b@),
            x@.take(i as int) == y@.take(i as int),
        decreases x@.len() - i,
    {
        if x[i] != y[i] {
            return false;
        }
        i = i + 1;
        assert(x@.take(i as int) =~= x@.take(i - 1).push(x@[i - 1]));
        assert(y@.take(i as int) =~= y@.take(i - 1).push(y@[i - 1]));
    }
    assert(x@.take(i as int) =~= x@);
    assert(y@.take(i as int) =~= y@);
    true
}

/// Whether two strings are the same up to the case of ASCII letters.
pub fn eq_ignore_ascii_case(a: &str, b: &str) -> (r: bool)
    ensures
        r == (lower_of(a@) == lower_of(b@)),
{
    let x = chars_of(a);
    let y = chars_of(b);
    assert(lower_of(a@).len() == a@.len());
    assert(lower_of(b@).len() == b@.len());
    if x.len() != y.len() {
        return false;
    }
    let mut i: usize = 0;
    while i < x.len()
        invariant
            i <= x@.len(),
            x@.len() == y@.len(),
            x@ == a@,
            y@ == b@,
            forall|j: int| 0 <= j < i ==> lower_of(a@)[j] == lower_of(b@)[j],
        decreases x@.len() - i,
    {
        if lower_char(x[i]) != lower_char(y[i]) {
            assert(lower_of(a@)[i as int] != lower_of(b@)[i as int]);
            return false;
        }
        i = i + 1;
    }
    assert(lower_of(a@) =~= lower_of(b@));
    true
}

/// Whether `p` stands at the start of `s`.
pub open spec fn has_prefix(s: Seq<char>, p: Seq<char>) -> bool {
    p.len() <= s.len() && s.take(p.len() as int) == p
}

pub fn starts_with(s: &str, p: &str) -> (r: bool)
    ensures
        r == has_prefix(s@, p@),
{
    let x = chars_of(s);
    let y = chars_of(p);
    if y.len() > x.len() {
        return false;
    }
    matches_at(&x, 0, &y)
}

/// Whether `p` stands at the end of `s`.
pub open spec fn has_suffix(s: Seq<char>, p: Seq<char>) -> bool {
    p.len() <= s.len() && s.skip(s.len() - p.len()) == p
}

pub fn ends_with(s: &str, p: &str) -> (r: bool)
    ensures
        r == has_suffix(s@, p@),
{
    let x = chars_of(s);
    let y = chars_of(p);
    if y.len() > x.len() {
        return false;
    }
    let r = matches_at(&x, x.len() - y.len(), &y);
    assert(s@.subrange(s@.len() - p@.len(), s@.len() as int) =~= s@.skip(s@.len() - p@.len()));
    r
}

/// Whether `p` stands in `x` at position `at`.
fn matches_at(x: &Vec<char>, at: usize, p: &Vec<char>) -> (r: bool)
    requires
        at + p@.len() <= x@.len(),
    ensures
        r == (x@.subrange(at as int, at + p@.len()) == p@),
{
    let n: usize = x.len();
    let mut i: usize = 0;
    while i < p.len()
        invariant
            i <= p@.len(),
            n == x@.len(),
            at + p@.len() <= x@.len(),
            forall|j: int| 0 <= j < i ==> x@[at + j] == p@[j],
        decreases p@.len() - i,
    {
        if x[at + i] != p[i] {
            assert(x@.subrange(at as int, at + p@.len())[i as int] != p@[i as int]);
            return false;
        }
        i = i + 1;
    }
    assert(x@.subrange(at as int, at + p@.len()) =~= p@);
    true
}

/// Whether `p` stands in `s` at position `at`.
pub open spec fn occurs_at(s: Seq<char>, p: Seq<char>, at: int) -> bool {
    0 <= at && at + p.len() <= s.len() && s.subrange(at, at + p.len()) == p
}

/// Whether `p` stands anywhere in `s`.
pub open spec fn has_part(s: Seq<char>, p: Seq<char>) -> bool {
    exists|at: int| occurs_at(s, p, at)
}

pub fn contains(s: &str, p: &str) -> (r: bool)
    ensures
        r == has_part(s@, p@),
{
    let x = chars_of(s);
    let y = chars_of(p);
    if y.len() > x.len() {
        return false;
    }
    let last: usize = x.len() - y.len();
    let mut at: usize = 0;
    while at <= last
        invariant
            x@ == s@,
            y@ == p@,
            last + y@.len() == x@.len(),
            at <= last + 1,
            forall|j: int| 0 <= j < at ==> !occurs_at(s@, p@, j),
        decreases last + 1 - at,
    {
        if matches_at(&x, at, &y) {
            assert(occurs_at(s@, p@, at as int));
            return true;
        }
        if at == last {
            assert(forall|j: int| 0 <= j <= last ==> !occurs_at(s@, p@, j));
            return false;
        }
        at = at + 1;
    }
    false
}

/// Whether the character `c` stands in `s`.
pub fn contains_char(s: &str, c: char) -> (r: bool)
    ensures
        r == s@.contains(c),
{
    let x = chars_of(s);
    let mut i: usize = 0;
    while i < x.len()
        invariant
            i <= x@.len(),
            x@ == s@,
            forall|j: int| 0 <= j < i ==> s@[j] != c,
        decreases x@.len() - i,
    {
        if x[i] == c {
            assert(s@[i as int] == c);
            return true;
        }
        i = i + 1;
    }
    false
}

/// What follows the prefix `p` in `s`, where `s` starts with it.
pub open spec fn stripped_prefix(s: Seq<char>, p: Seq<char>) -> Option<Seq<char>> {
    if has_prefix(s, p) {
        Some(s.skip(p.len() as int))
    } else {
        None
    }
}

pub fn strip_prefix(s: &str, p: &str) -> (r: Option<String>)
    ensures
        r.deep_view() == stripped_prefix(s@, p@),
{
    if starts_with(s, p) {
        let x = chars_of(s);
        let n = chars_of(p).len();
        let rest = string_of(&x, n, x.len());
        assert(rest@ =~= s@.skip(p@.len() as int));
        Some(rest)
    } else {
        None
    }
}

/// The white space of Unicode (the property `White_Space`).
pub open spec fn is_space_char(c: char) -> bool {
    let v = c as u32;
    ||| 0x9 <= v <= 0xd
    ||| v == 0x20
    ||| v == 0x85
    ||| v == 0xa0
    ||| v == 0x1680
    ||| 0x2000 <= v <= 0x200a
    ||| v == 0x2028
    ||| v == 0x2029
    ||| v == 0x202f
    ||| v == 0x205f
    ||| v == 0x3000
}

pub fn is_space(c: char) -> (r: bool)
    ensures
        r == is_space_char(c),
{
    let v: u32 = c as u32;
    (0x9 <= v && v <= 0xd) || v == 0x20 || v == 0x85 || v == 0xa0 || v == 0x1680 || (0x2000 <= v
        && v <= 0x200a) || v == 0x2028 || v == 0x2029 || v == 0x202f || v == 0x205f || v == 0x3000
}

/// A class of characters.
#[derive(Clone, Copy)]
pub enum CharClass {
    /// White space.
    Space,
    /// One character.
    Only(char),
    /// Closing brackets.
    Closing,
    /// What ends a URL inside other text: ASCII white space, quotes, angle brackets, commas and
    /// semicolons.
    UrlEnd,
}

pub open spec fn in_class(t: CharClass, c: char) -> bool {
    match t {
        CharClass::Space => is_space_char(c),
        CharClass::Only(x) => c == x,
        CharClass::Closing => c == ')' || c == ']' || c == '}',
        CharClass::UrlEnd => {
            ||| c == ' ' || c == '\t' || c == '\n' || c as u32 == 0xc || c == '\r'
            ||| c == '"' || c == '\'' || c == '<' || c == '>' || c == ',' || c == ';'
        },
    }
}

pub open spec fn trim_end_of(s: Seq<char>, t: CharClass) -> Seq<char>
    decreases s.len(),
{
    if s.len() > 0 && in_class(t, s.last()) {
        trim_end_of(s.drop_last(), t)
    } else {
        s
    }
}

pub open spec fn trim_start_of(s: Seq<char>, t: CharClass) -> Seq<char>
    decreases s.len(),
{
    if s.len() > 0 && in_class(t, s[0]) {
        trim_start_of(s.drop_first(), t)
    } else {
        s
    }
}

/// `s` without leading and trailing white space.
pub open spec fn trim_of(s: Seq<char>) -> Seq<char> {
    trim_end_of(trim_start_of(s, CharClass::Space), CharClass::Space)
}

/// `s` without the character `c` at either end.
pub open spec fn trim_matches_of(s: Seq<char>, c: char) -> Seq<char> {
    trim_end_of(trim_start_of(s, CharClass::Only(c)), CharClass::Only(c))
}

pub fn is_in_class(t: CharClass, c: char) -> (r: bool)
    ensures
        r == in_class(t, c),
{
    match t {
        CharClass::Space => is_space(c),
        CharClass::Only(x) => c == x,
        CharClass::Closing => c == ')' || c == ']' || c == '}',
        CharClass::UrlEnd => {
            c == ' ' || c == '\t' || c == '\n' || c as u32 == 0xc || c == '\r' || c == '"' || c
                == '\'' || c == '<' || c == '>' || c == ',' || c == ';'
        },
    }
}

/// `s` without the characters of a class at its start.
pub fn trim_start_class(s: &str, t: CharClass) -> (r: String)
    ensures
        r@ == trim_start_of(s@, t),
{
    let x = chars_of(s);
    let mut from: usize = 0;
    assert(s@.skip(0) =~= s@);
    while from < x.len() && is_in_class(t, x[from])
        invariant
            x@ == s@,
            from <= x@.len(),
            trim_start_of(s@, t) == trim_start_of(s@.skip(from as int), t),
        decreases x@.len() - from,
    {
        assert(s@.skip(from as int).drop_first() =~= s@.skip(from + 1));
        from = from + 1;
    }
    let ghost mid = s@.skip(from as int);
    assert(trim_start_of(s@, t) == mid) by {
        if from < x@.len() {
            assert(mid[0] == s@[from as int]);
        }
    }
    let r = string_of(&x, from, x.len());
    assert(r@ =~= mid);
    r
}

/// `s` without the characters of a class at its end.
pub fn trim_end_class(s: &str, t: CharClass) -> (r: String)
    ensures
        r@ == trim_end_of(s@, t),
{
    let x = chars_of(s);
    let mut to: usize = x.len();
    assert(s@.take(to as int) =~= s@);
    while to > 0 && is_in_class(t, x[to - 1])
        invariant
            x@ == s@,
            to <= x@.len(),
            trim_end_of(s@, t) == trim_end_of(s@.take(to as int), t),
        decreases to,
    {
        assert(s@.take(to as int).drop_last() =~= s@.take(to - 1));
        to = to - 1;
    }
    assert(to > 0 ==> s@.take(to as int).last() == s@[to - 1]);
    let r = string_of(&x, 0, to);
    assert(r@ =~= s@.take(to as int));
    r
}

/// `s` without the characters of a class at either end.
pub fn trim_class(s: &str, t: CharClass) -> (r: String)
    ensures
        r@ == trim_end_of(trim_start_of(s@, t), t),
{
    let rest = trim_start_class(s, t);
    trim_end_class(rest.as_str(), t)
}

pub fn trim(s: &str) -> (r: String)
    ensures
        r@ == trim_of(s@),
{
    trim_class(s, CharClass::Space)
}

pub fn trim_matches(s: &str, c: char) -> (r: String)
    ensures
        r@ == trim_matches_of(s@, c),
{
    trim_class(s, CharClass::Only(c))
}

/// The parts of `s` between occurrences of `sep`; there is always at least one part.
pub open spec fn split_of(s: Seq<char>, sep: char) -> Seq<Seq<char>>
    decreases s.len(),
{
    if s.len() == 0 {
        seq![Seq::empty()]
    } else {
        let before = split_of(s.drop_last(), sep);
        if s.last() == sep {
            before.push(Seq::empty())
        } else {
            before.drop_last().push(before.last().push(s.last()))
        }
    }
}

pub fn split(s: &str, sep: char) -> (r: Vec<String>)
    ensures
        r.deep_view() == split_of(s@, sep),
{
    let x = chars_of(s);
    let mut out: Vec<String> = Vec::new();
    let mut cur = String::new();
    let mut i: usize = 0;
    assert(split_of(s@.take(0), sep) =~= out.deep_view().push(cur@));
    while i < x.len()
        invariant
            x@ == s@,
            i <= x@.len(),
            split_of(s@.take(i as int), sep) == out.deep_view().push(cur@),
        decreases x@.len() - i,
    {
        let ghost before = out.deep_view();
        let c = x[i];
        assert(s@.take(i + 1).drop_last() =~= s@.take(i as int));
        if c == sep {
            push_text(&mut out, cur);
            cur = String::new();
            assert(split_of(s@.take(i + 1), sep) =~= out.deep_view().push(cur@));
        } else {
            cur.push(c);
            assert(split_of(s@.take(i + 1), sep) =~= out.deep_view().push(cur@));
        }
        i = i + 1;
    }
    assert(s@.take(i as int) =~= s@);
    push_text(&mut out, cur);
    out
}

/// Appends a string to a list of strings.
pub fn push_text(v: &mut Vec<String>, s: String)
    ensures
        final(v).deep_view() == old(v).deep_view().push(s@),
        final(v)@ == old(v)@.push(s),
{
    v.push(s);
    assert(v.deep_view() =~= old(v).deep_view().push(s@));
}

/// `parts` one after another with `sep` between them.
pub open spec fn join_of(parts: Seq<Seq<char>>, sep: Seq<char>) -> Seq<char>
    decreases parts.len(),
{
    if parts.len() == 0 {
        Seq::empty()
    } else if parts.len() == 1 {
        parts[0]
    } else {
        join_of(parts.drop_last(), sep) + sep + parts.last()
    }
}

pub fn join(parts: &Vec<String>, sep: &str) -> (r: String)
    ensures
        r@ == join_of(parts.deep_view(), sep@),
{
    let mut out = String::new();
    let mut i: usize = 0;
    while i < parts.len()
        invariant
            i <= parts@.len(),
            out@ == join_of(parts.deep_view().take(i as int), sep@),
        decreases parts@.len() - i,
    {
        assert(parts.deep_view().take(i + 1).drop_last() =~= parts.deep_view().take(i as int));
        if i > 0 {
            out.append(sep);
        }
        out.append(parts[i].as_str());
        assert(i == 0 ==> out@ =~= parts.deep_view()[0]);
        i = i + 1;
    }
    assert(parts.deep_view().take(i as int) =~= parts.deep_view());
    out
}

/// Whether a list of strings holds `s`.
pub fn list_contains(v: &Vec<String>, s: &str) -> (r: bool)
    ensures
        r == v.deep_view().contains(s@),
{
    let mut i: usize = 0;
    while i < v.len()
        invariant
            i <= v@.len(),
            forall|j: int| 0 <= j < i ==> v.deep_view()[j] != s@,
        decreases v@.len() - i,
    {
        if same(v[i].as_str(), s) {
            assert(v.deep_view()[i as int] == s@);
            return true;
        }
        i = i + 1;
    }
    false
}

/// A copy of a list of strings.
pub fn clone_list(v: &Vec<String>) -> (r: Vec<String>)
    ensures
        r@ == v@,
        r.deep_view() == v.deep_view(),
{
    let r = v.clone();
    assert(r@ =~= v@);
    assert(r.deep_view() =~= v.deep_view());
    r
}

/// A copy of an optional string.
pub fn clone_option(v: &Option<String>) -> (r: Option<String>)
    ensures
        r == *v,
        r.deep_view() == v.deep_view(),
{
    match v {
        Some(s) => Some(s.clone()),
        None => None,
    }
}

/// The number of bytes of a character in UTF-8.
pub open spec fn width_of(c: char) -> nat {
    let v = c as u32;
    if v <= 0x7f {
        1
    } else if v <= 0x7ff {
        2
    } else if v <= 0xffff {
        3
    } else {
        4
    }
}

/// The number of bytes of a string in UTF-8.
pub open spec fn byte_len_of(s: Seq<char>) -> nat
    decreases s.len(),
{
    if s.len() == 0 {
        0
    } else {
        byte_len_of(s.drop_last()) + width_of(s.last())
    }
}

proof fn lemma_byte_len_front(s: Seq<char>)
    requires
        s.len() > 0,
    ensures
        byte_len_of(s) == width_of(s[0]) + byte_len_of(s.drop_first()),
    decreases s.len(),
{
    if s.len() == 1 {
        assert(s.drop_last() =~= Seq::<char>::empty());
        assert(s.drop_first() =~= Seq::<char>::empty());
    } else {
        lemma_byte_len_front(s.drop_last());
        assert(s.drop_last().drop_first() =~= s.drop_first().drop_last());
        assert(s.drop_first().last() == s.last());
    }
}

/// The byte length is the length of the UTF-8 encoding.
pub proof fn lemma_byte_len_is_encoded_len(s: Seq<char>)
    ensures
        byte_len_of(s) == utf8::encode_utf8(s).len(),
    decreases s.len(),
{
    if s.len() > 0 {
        lemma_byte_len_is_encoded_len(s.drop_first());
        lemma_byte_len_front(s);
        utf8::char_is_scalar(s[0]);
    }
}

/// A longer prefix has no fewer bytes.
pub proof fn lemma_byte_len_take(s: Seq<char>, i: int, j: int)
    requires
        0 <= i <= j <= s.len(),
    ensures
        byte_len_of(s.take(i)) <= byte_len_of(s.take(j)),
        i < j ==> byte_len_of(s.take(i)) + width_of(s[j - 1]) <= byte_len_of(s.take(j)),
    decreases j - i,
{
    if i < j {
        lemma_byte_len_take(s, i, j - 1);
        assert(s.take(j).drop_last() =~= s.take(j - 1));
    }
}

fn width(c: char) -> (r: usize)
    ensures
        r == width_of(c),
        1 <= r <= 4,
{
    let v: u32 = c as u32;
    if v <= 0x7f {
        1
    } else if v <= 0x7ff {
        2
    } else if v <= 0xffff {
        3
    } else {
        4
    }
}

/// The byte length of a string.
pub fn byte_len(s: &str) -> (r: usize)
    ensures
        r == byte_len_of(s@),
{
    proof {
        lemma_byte_len_is_encoded_len(s@);
    }
    s.as_bytes().len()
}

/// The longest prefix of `s` that fits in `max` bytes.
pub open spec fn bounded_of(s: Seq<char>, max: nat) -> Seq<char>
    decreases s.len(),
{
    if byte_len_of(s) <= max || s.len() == 0 {
        s
    } else {
        bounded_of(s.drop_last(), max)
    }
}

/// The prefix that fits is a prefix, and it fits.
pub proof fn lemma_bounded_fits(s: Seq<char>, max: nat)
    ensures
        byte_len_of(bounded_of(s, max)) <= max,
        has_prefix(s, bounded_of(s, max)),
        byte_len_of(s) <= max ==> bounded_of(s, max) == s,
    decreases s.len(),
{
    if byte_len_of(s) <= max || s.len() == 0 {
        assert(s.take(s.len() as int) =~= s);
    } else {
        lemma_bounded_fits(s.drop_last(), max);
        let r = bounded_of(s.drop_last(), max);
        assert(s.take(r.len() as int) =~= s.drop_last().take(r.len() as int));
    }
}

proof fn lemma_bounded_at(s: Seq<char>, max: nat, k: int)
    requires
        0 <= k <= s.len(),
        byte_len_of(s.take(k)) <= max,
        k == s.len() || byte_len_of(s.take(k + 1)) > max,
    ensures
        bounded_of(s, max) == s.take(k),
    decreases s.len(),
{
    if k == s.len() {
        assert(s.take(k) =~= s);
    } else {
        lemma_byte_len_take(s, k + 1, s.len() as int);
        assert(s.take(s.len() as int) =~= s);
        let d = s.drop_last();
        assert(d.take(k) =~= s.take(k));
        if k < d.len() {
            assert(d.take(k + 1) =~= s.take(k + 1));
        }
        lemma_bounded_at(d, max, k);
    }
}

pub fn bounded(s: &str, max: usize) -> (r: String)
    ensures
        r@ == bounded_of(s@, max as nat),
{
    let x = chars_of(s);
    let mut used: usize = 0;
    let mut i: usize = 0;
    while i < x.len()
        invariant
            x@ == s@,
            i <= x@.len(),
            used == byte_len_of(s@.take(i as int)),
            used <= max,
        decreases x@.len() - i,
    {
        let w = width(x[i]);
        proof {
            assert(s@.take(i + 1).drop_last() =~= s@.take(i as int));
        }
        if w > max - used {
            proof {
                lemma_bounded_at(s@, max as nat, i as int);
            }
            return string_of(&x, 0, i);
        }
        used = used + w;
        i = i + 1;
    }
    proof {
        lemma_bounded_at(s@, max as nat, i as int);
    }
    string_of(&x, 0, i)
}

/// `s` where it fits in `max` bytes, else its longest fitting prefix and an ellipsis.
pub open spec fn truncate_of(s: Seq<char>, max: nat) -> Seq<char> {
    if byte_len_of(s) <= max {
        s
    } else {
        bounded_of(s, max) + "..."@
    }
}

pub fn truncate(value: &str, max: usize) -> (r: String)
    ensures
        r@ == truncate_of(value@, max as nat),
{
    if byte_len(value) <= max {
        value.to_string()
    } else {
        let mut out = bounded(value, max);
        out.append("...");
        out
    }
}

/// The decimal digit of `d`, for `d` below ten.
pub open spec fn digit_char(d: nat) -> char {
    (d + 48) as char
}

/// The decimal digits of a number, without leading zeros.
pub open spec fn decimal_of(n: nat) -> Seq<char>
    decreases n,
{
    if n < 10 {
        seq![digit_char(n)]
    } else {
        decimal_of(n / 10).push(digit_char(n % 10))
    }
}

pub fn decimal(n: u128) -> (r: String)
    ensures
        r@ == decimal_of(n as nat),
    decreases n,
{
    let d: u8 = (n % 10) as u8;
    if n < 10 {
        let mut out = String::new();
        out.push((d + 48) as char);
        assert(out@ =~= seq![digit_char(n as nat)]);
        out
    } else {
        let mut out = decimal(n / 10);
        out.push((d + 48) as char);
        out
    }
}

pub open spec fn is_digit_char(c: char) -> bool {
    '0' <= c && c <= '9'
}

/// The number that a sequence of decimal digits writes.
pub open spec fn value_of(s: Seq<char>) -> nat
    decreases s.len(),
{
    if s.len() == 0 {
        0
    } else {
        (value_of(s.drop_last()) * 10 + (s.last() as u32 - 48)) as nat
    }
}

pub open spec fn all_digits(s: Seq<char>) -> bool {
    forall|i: int| 0 <= i < s.len() ==> is_digit_char(#[trigger] s[i])
}

/// What an unsigned integer with the largest value `max` is read as: an optional plus sign, then
/// at least one decimal digit and nothing else.
pub open spec fn parsed_uint(s: Seq<char>, max: nat) -> Option<nat> {
    let digits = if s.len() > 0 && s[0] == '+' {
        s.drop_first()
    } else {
        s
    };
    if digits.len() > 0 && all_digits(digits) && value_of(digits) <= max {
        Some(value_of(digits))
    } else {
        None
    }
}

proof fn lemma_value_grows(s: Seq<char>, i: int, j: int)
    requires
        0 <= i <= j <= s.len(),
        all_digits(s),
    ensures
        value_of(s.take(i)) <= value_of(s.take(j)),
    decreases j - i,
{
    if i < j {
        lemma_value_grows(s, i, j - 1);
        assert(s.take(j).drop_last() =~= s.take(j - 1));
        assert(s.take(j).last() == s[j - 1]);
        assert(is_digit_char(s[j - 1]));
    }
}

/// Reads an unsigned integer of at most `max`.
pub fn parse_uint(s: &str, max: u64) -> (r: Option<u64>)
    ensures
        r matches Some(v) ==> parsed_uint(s@, max as nat) == Some(v as nat),
        r is None ==> parsed_uint(s@, max as nat) is None,
{
    let x = chars_of(s);
    let from: usize = if x.len() > 0 && x[0] == '+' {
        1
    } else {
        0
    };
    let ghost digits = s@.skip(from as int);
    assert(from == 1 ==> digits =~= s@.drop_first());
    assert(from == 0 ==> digits =~= s@);
    if from == x.len() {
        return None;
    }
    let mut v: u128 = 0;
    let mut i: usize = from;
    assert(digits.take(0) =~= Seq::empty());
    while i < x.len()
        invariant
            x@ == s@,
            from <= i <= x@.len(),
            digits == s@.skip(from as int),
            all_digits(digits.take(i - from)),
            v == value_of(digits.take(i - from)),
            v <= max,
            parsed_uint(s@, max as nat) == (if digits.len() > 0 && all_digits(digits) && value_of(
                digits,
            ) <= max {
                Some(value_of(digits))
            } else {
                None
            }),
        decreases x@.len() - i,
    {
        let c = x[i];
        assert(digits[i - from] == c);
        if c < '0' || c > '9' {
            return None;
        }
        assert(digits.take(i - from + 1).drop_last() =~= digits.take(i - from));
        v = v * 10 + ((c as u32) - 48) as u128;
        i = i + 1;
        if v > max as u128 {
            proof {
                if all_digits(digits) {
                    lemma_value_grows(digits, i - from, digits.len() as int);
                    assert(digits.take(digits.len() as int) =~= digits);
                }
            }
            return None;
        }
    }
    assert(digits.take(i - from) =~= digits);
    Some(v as u64)
}

/// Code-point order, which is also the order of the UTF-8 encodings.
pub open spec fn less_of(a: Seq<char>, b: Seq<char>) -> bool
    decreases a.len(),
{
    if b.len() == 0 {
        false
    } else if a.len() == 0 {
        true
    } else if a[0] != b[0] {
        a[0] < b[0]
    } else {
        less_of(a.drop_first(), b.drop_first())
    }
}

pub fn less(a: &str, b: &str) -> (r: bool)
    ensures
        r == less_of(a@, b@),
{
    let x = chars_of(a);
    let y = chars_of(b);
    let mut i: usize = 0;
    assert(a@.skip(0) =~= a@);
    assert(b@.skip(0) =~= b@);
    while i < x.len() && i < y.len()
        invariant
            x@ == a@,
            y@ == b@,
            i <= x@.len(),
            i <= y@.len(),
            less_of(a@, b@) == less_of(a@.skip(i as int), b@.skip(i as int)),
        decreases x@.len() - i,
    {
        assert(a@.skip(i as int)[0] == a@[i as int]);
        assert(b@.skip(i as int)[0] == b@[i as int]);
        if x[i] != y[i] {
            return x[i] < y[i];
        }
        assert(a@.skip(i as int).drop_first() =~= a@.skip(i + 1));
        assert(b@.skip(i as int).drop_first() =~= b@.skip(i + 1));
        i = i + 1;
    }
    i < y.len()
}

/// The order is irreflexive and transitive, and any two different strings stand in it.
pub proof fn lemma_less_order(a: Seq<char>, b: Seq<char>, c: Seq<char>)
    ensures
        !less_of(a, a),
        less_of(a, b) && less_of(b, c) ==> less_of(a, c),
        a != b ==> less_of(a, b) || less_of(b, a),
        !(less_of(a, b) && less_of(b, a)),
    decreases a.len() + b.len() + c.len(),
{
    if a.len() > 0 && b.len() > 0 {
        if c.len() > 0 {
            lemma_less_order(a.drop_first(), b.drop_first(), c.drop_first());
        } else {
            lemma_less_order(a.drop_first(), b.drop_first(), c);
        }
        if a[0] == b[0] && a.drop_first() == b.drop_first() {
            assert(a =~= seq![a[0]] + a.drop_first());
            assert(b =~= seq![b[0]] + b.drop_first());
        }
    } else if a.len() == 0 && b.len() == 0 {
        assert(a =~= b);
    } else if a.len() > 0 {
        lemma_less_irreflexive(a);
    }
}

proof fn lemma_less_irreflexive(a: Seq<char>)
    ensures
        !less_of(a, a),
    decreases a.len(),
{
    if a.len() > 0 {
        lemma_less_irreflexive(a.drop_first());
    }
}

/// `s` with every occurrence of the character `from` replaced by the text `to`.
pub open spec fn replaced_of(s: Seq<char>, from: char, to: Seq<char>) -> Seq<char>
    decreases s.len(),
{
    if s.len() == 0 {
        Seq::empty()
    } else if s.last() == from {
        replaced_of(s.drop_last(), from, to) + to
    } else {
        replaced_of(s.drop_last(), from, to).push(s.last())
    }
}

pub fn replace_char(s: &str, from: char, to: &str) -> (r: String)
    ensures
        r@ == replaced_of(s@, from, to@),
{
    let x = chars_of(s);
    let mut out = String::new();
    let mut i: usize = 0;
    while i < x.len()
        invariant
            x@ == s@,
            i <= x@.len(),
            out@ == replaced_of(s@.take(i as int), from, to@),
        decreases x@.len() - i,
    {
        assert(s@.take(i + 1).drop_last() =~= s@.take(i as int));
        if x[i] == from {
            out.append(to);
        } else {
            out.push(x[i]);
        }
        i = i + 1;
    }
    assert(s@.take(i as int) =~= s@);
    out
}

pub fn cat2(a: &str, b: &str) -> (r: String)
    ensures
        r@ == a@ + b@,
{
    let mut out = a.to_string();
    out.append(b);
    out
}

pub fn cat3(a: &str, b: &str, c: &str) -> (r: String)
    ensures
        r@ == a@ + b@ + c@,
{
    let mut out = a.to_string();
    out.append(b);
    out.append(c);
    out
}

pub fn cat4(a: &str, b: &str, c: &str, d: &str) -> (r: String)
    ensures
        r@ == a@ + b@ + c@ + d@,
{
    let mut out = a.to_string();
    out.append(b);
    out.append(c);
    out.append(d);
    out
}

pub fn cat5(a: &str, b: &str, c: &str, d: &str, e: &str) -> (r: String)
    ensures
        r@ == a@ + b@ + c@ + d@ + e@,
{
    let mut out = a.to_string();
    out.append(b);
    out.append(c);
    out.append(d);
    out.append(e);
    out
}

/// The parts, each without white space at its ends, that are not empty then.
pub open spec fn trimmed_fields_of(parts: Seq<Seq<char>>) -> Seq<Seq<char>>
    decreases parts.len(),
{
    if parts.len() == 0 {
        Seq::empty()
    } else {
        let before = trimmed_fields_of(parts.drop_last());
        let t = trim_of(parts.last());
        if t.len() > 0 {
            before.push(t)
        } else {
            before
        }
    }
}

/// The trimmed, non-empty parts of `s` between occurrences of `sep`.
pub fn trimmed_fields(s: &str, sep: char) -> (r: Vec<String>)
    ensures
        r.deep_view() == trimmed_fields_of(split_of(s@, sep)),
{
    let parts = split(s, sep);
    let ghost all = parts.deep_view();
    let mut out: Vec<String> = Vec::new();
    let mut i: usize = 0;
    assert(out.deep_view() =~= trimmed_fields_of(all.take(0)));
    while i < parts.len()
        invariant
            i <= parts@.len(),
            all == parts.deep_view(),
            out.deep_view() == trimmed_fields_of(all.take(i as int)),
        decreases parts@.len() - i,
    {
        let t = trim(parts[i].as_str());
        assert(all.take(i + 1).drop_last() =~= all.take(i as int));
        if !t.as_str().is_empty() {
            push_text(&mut out, t);
        }
        i = i + 1;
    }
    assert(all.take(i as int) =~= all);
    out
}

/// A copy of a list of pairs of strings.
pub fn clone_pairs(v: &Vec<(String, String)>) -> (r: Vec<(String, String)>)
    ensures
        r@ == v@,
        r.deep_view() == v.deep_view(),
{
    let mut out: Vec<(String, String)> = Vec::new();
    let mut i: usize = 0;
    while i < v.len()
        invariant
            i <= v@.len(),
            out@ == v@.take(i as int),
        decreases v@.len() - i,
    {
        let a = v[i].0.clone();
        let b = v[i].1.clone();
        assert((a, b) == v@[i as int]);
        out.push((a, b));
        i = i + 1;
        assert(out@ =~= v@.take(i as int));
    }
    assert(out@ =~= v@);
    assert(out.deep_view() =~= v.deep_view());
    out
}

/// A text without the separator is its own only part.
pub proof fn lemma_split_whole(s: Seq<char>, sep: char)
    requires
        !s.contains(sep),
    ensures
        split_of(s, sep) == seq![s],
    decreases s.len(),
{
    if s.len() == 0 {
        assert(s =~= Seq::empty());
    } else {
        assert(s[s.len() - 1] != sep);
        assert(!s.drop_last().contains(sep)) by {
            assert forall|i: int| 0 <= i < s.drop_last().len() implies s.drop_last()[i] != sep by {
                assert(s.drop_last()[i] == s[i]);
            }
        }
        lemma_split_whole(s.drop_last(), sep);
        assert(s.drop_last().push(s.last()) =~= s);
        assert(seq![s.drop_last()].drop_last().push(s) =~= seq![s]);
    }
}

/// Behind a separator, a text without separators is one more part.
pub proof fn lemma_split_append(a: Seq<char>, sep: char, b: Seq<char>)
    requires
        !b.contains(sep),
    ensures
        split_of(a + seq![sep] + b, sep) == split_of(a, sep).push(b),
    decreases b.len(),
{
    let s = a + seq![sep] + b;
    if b.len() == 0 {
        assert(s.drop_last() =~= a);
        assert(b =~= Seq::empty());
    } else {
        assert(b[b.len() - 1] != sep);
        assert(!b.drop_last().contains(sep)) by {
            assert forall|i: int| 0 <= i < b.drop_last().len() implies b.drop_last()[i] != sep by {
                assert(b.drop_last()[i] == b[i]);
            }
        }
        lemma_split_append(a, sep, b.drop_last());
        assert(s.drop_last() =~= a + seq![sep] + b.drop_last());
        assert(s.last() == b.last());
        assert(b.drop_last().push(b.last()) =~= b);
        assert(split_of(a, sep).push(b.drop_last()).drop_last() =~= split_of(a, sep));
    }
}

/// The parts of two texts with a separator between them are the parts of one and of the other.
pub proof fn lemma_split_between(a: Seq<char>, sep: char, b: Seq<char>)
    ensures
        split_of(a + seq![sep] + b, sep) == split_of(a, sep) + split_of(b, sep),
        split_of(b, sep).len() > 0,
    decreases b.len(),
{
    let s = a + seq![sep] + b;
    let e = Seq::<char>::empty();
    let left = split_of(a, sep);
    if b.len() == 0 {
        assert(s.drop_last() =~= a);
        assert(b =~= e);
        assert(left.push(e) =~= left + seq![e]);
    } else {
        lemma_split_between(a, sep, b.drop_last());
        assert(s.drop_last() =~= a + seq![sep] + b.drop_last());
        assert(s.last() == b.last());
        let before = split_of(b.drop_last(), sep);
        if b.last() == sep {
            assert((left + before).push(e) =~= left + before.push(e));
        } else {
            let grown = before.last().push(b.last());
            assert((left + before).last() == before.last());
            assert((left + before).drop_last().push(grown) =~= left + before.drop_last().push(
                grown,
            ));
        }
    }
}

/// A leading separator makes an empty first part.
pub proof fn lemma_split_leading(sep: char, s: Seq<char>)
    ensures
        split_of(seq![sep] + s, sep) == seq![Seq::<char>::empty()] + split_of(s, sep),
        split_of(s, sep).len() > 0,
    decreases s.len(),
{
    let t = seq![sep] + s;
    let e = Seq::<char>::empty();
    if s.len() == 0 {
        assert(t.drop_last() =~= e);
        assert(split_of(e, sep) == seq![e]);
        assert(t.last() == sep);
        assert(split_of(t, sep) =~= seq![e].push(e));
        assert(s =~= e);
        assert(seq![e].push(e) =~= seq![e] + seq![e]);
    } else {
        lemma_split_leading(sep, s.drop_last());
        assert(t.drop_last() =~= seq![sep] + s.drop_last());
        assert(t.last() == s.last());
        let before = split_of(s.drop_last(), sep);
        if s.last() == sep {
            assert((seq![e] + before).push(e) =~= seq![e] + before.push(e));
        } else {
            let grown = before.last().push(s.last());
            assert((seq![e] + before).last() == before.last());
            assert((seq![e] + before).drop_last().push(grown) =~= seq![e]
                + before.drop_last().push(grown));
        }
    }
}

/// No part holds the separator, and there is at least one part.
pub proof fn lemma_split_parts(s: Seq<char>, sep: char)
    ensures
        split_of(s, sep).len() > 0,
        forall|i: int| 0 <= i < split_of(s, sep).len() ==> !(#[trigger] split_of(s, sep)[i]).contains(sep),
    decreases s.len(),
{
    if s.len() > 0 {
        lemma_split_parts(s.drop_last(), sep);
        let before = split_of(s.drop_last(), sep);
        let after = split_of(s, sep);
        assert forall|i: int| 0 <= i < after.len() implies !(#[trigger] after[i]).contains(sep) by {
            if s.last() == sep {
                if i < before.len() {
                    assert(after[i] == before[i]);
                } else {
                    assert(after[i] == Seq::<char>::empty());
                }
            } else if i < before.len() - 1 {
                assert(after[i] == before[i]);
            } else {
                assert(after[i] == before.last().push(s.last()));
                assert(!before[before.len() - 1].contains(sep));
                assert forall|j: int| 0 <= j < after[i].len() implies after[i][j] != sep by {
                    if j < before.last().len() {
                        assert(before.last()[j] != sep);
                    }
                }
            }
        }
    }
}

/// Splitting what was joined gives the parts back, where no part holds the separator.
pub proof fn law_split_undoes_join(parts: Seq<Seq<char>>, sep: char)
    requires
        parts.len() > 0,
        forall|i: int| 0 <= i < parts.len() ==> !(#[trigger] parts[i]).contains(sep),
    ensures
        split_of(join_of(parts, seq![sep]), sep) == parts,
    decreases parts.len(),
{
    if parts.len() == 1 {
        lemma_split_whole(parts[0], sep);
        assert(seq![parts[0]] =~= parts);
    } else {
        let before = parts.drop_last();
        assert forall|i: int| 0 <= i < before.len() implies !(#[trigger] before[i]).contains(
            sep,
        ) by {
            assert(before[i] == parts[i]);
        }
        law_split_undoes_join(before, sep);
        assert(!parts[parts.len() - 1].contains(sep));
        lemma_split_append(join_of(before, seq![sep]), sep, parts.last());
        assert(before.push(parts.last()) =~= parts);
    }
}

/// Joining what was split gives the text back.
pub proof fn law_join_undoes_split(s: Seq<char>, sep: char)
    ensures
        join_of(split_of(s, sep), seq![sep]) == s,
    decreases s.len(),
{
    let e = Seq::<char>::empty();
    if s.len() == 0 {
        assert(join_of(seq![e], seq![sep]) =~= s);
    } else {
        law_join_undoes_split(s.drop_last(), sep);
        lemma_split_parts(s.drop_last(), sep);
        let before = split_of(s.drop_last(), sep);
        assert(s.drop_last().push(s.last()) =~= s);
        if s.last() == sep {
            assert(before.push(e).drop_last() =~= before);
            assert(join_of(before.push(e), seq![sep]) =~= s.drop_last() + seq![sep] + e);
            assert(s.drop_last() + seq![sep] + e =~= s);
        } else {
            let grown = before.last().push(s.last());
            let after = before.drop_last().push(grown);
            assert(after.drop_last() =~= before.drop_last());
            if before.len() == 1 {
                assert(join_of(after, seq![sep]) =~= s);
            } else {
                let head = join_of(before.drop_last(), seq![sep]) + seq![sep];
                assert(join_of(before, seq![sep]) =~= head + before.last());
                assert(join_of(after, seq![sep]) =~= head + grown);
                assert(head + grown =~= (head + before.last()).push(s.last()));
            }
        }
    }
}

/// Reading the decimal digits of a number gives the number back.
pub proof fn law_decimal_value(n: nat)
    ensures
        value_of(decimal_of(n)) == n,
        all_digits(decimal_of(n)),
        decimal_of(n).len() > 0,
    decreases n,
{
    if n < 10 {
        let d = seq![digit_char(n)];
        assert(d.drop_last() =~= Seq::empty());
        assert(value_of(d.drop_last()) == 0);
        assert(d.last() as u32 == n + 48);
    } else {
        law_decimal_value(n / 10);
        let d = decimal_of(n);
        assert(d.drop_last() =~= decimal_of(n / 10));
        assert(d.last() as u32 == n % 10 + 48);
        assert forall|i: int| 0 <= i < d.len() implies is_digit_char(#[trigger] d[i]) by {
            if i < d.len() - 1 {
                assert(is_digit_char(decimal_of(n / 10)[i]));
            }
        }
    }
}

/// The first part is what stands before the first separator.
pub proof fn lemma_split_first(a: Seq<char>, sep: char, b: Seq<char>)
    requires
        !a.contains(sep),
    ensures
        split_of(a + seq![sep] + b, sep).len() >= 2,
        split_of(a + seq![sep] + b, sep)[0] == a,
    decreases b.len(),
{
    let s = a + seq![sep] + b;
    if b.len() == 0 {
        lemma_split_whole(a, sep);
        lemma_split_append(a, sep, b);
    } else {
        lemma_split_first(a, sep, b.drop_last());
        assert(s.drop_last() =~= a + seq![sep] + b.drop_last());
    }
}

/// A text that neither starts nor ends with white space stays as it is.
pub proof fn lemma_trim_kept(s: Seq<char>)
    requires
        s.len() > 0 ==> !is_space_char(s[0]) && !is_space_char(s.last()),
    ensures
        trim_of(s) == s,
{
}

/// A text that starts with something else than white space is not empty when it is trimmed.
pub proof fn lemma_trim_not_empty(s: Seq<char>)
    requires
        s.len() > 0,
        !is_space_char(s[0]),
    ensures
        trim_of(s).len() > 0,
{
    lemma_trim_end_not_empty(s);
}

proof fn lemma_trim_end_not_empty(s: Seq<char>)
    requires
        s.len() > 0,
        !is_space_char(s[0]),
    ensures
        trim_end_of(s, CharClass::Space).len() > 0,
    decreases s.len(),
{
    if in_class(CharClass::Space, s.last()) {
        lemma_trim_end_not_empty(s.drop_last());
    }
}

/// Reading the decimal digits of a number as an unsigned integer gives the number back.
pub proof fn law_decimal_read(n: nat, max: nat)
    requires
        n <= max,
    ensures
        parsed_uint(decimal_of(n), max) == Some(n),
{
    law_decimal_value(n);
    assert(is_digit_char(decimal_of(n)[0]));
}

/// The position of the first `c` in `s`, or the length of `s` where there is none.
pub open spec fn first_index(s: Seq<char>, c: char) -> int
    decreases s.len(),
{
    if s.len() == 0 || s[0] == c {
        0
    } else {
        1 + first_index(s.drop_first(), c)
    }
}

/// What stands before the first `c`, and what stands behind it where there is one.
pub open spec fn split_once_of(s: Seq<char>, c: char) -> (Seq<char>, Option<Seq<char>>) {
    let i = first_index(s, c);
    if i < s.len() {
        (s.take(i), Some(s.skip(i + 1)))
    } else {
        (s, None)
    }
}

pub fn split_once(s: &str, c: char) -> (r: (String, Option<String>))
    ensures
        (r.0@, r.1.deep_view()) == split_once_of(s@, c),
{
    let x = chars_of(s);
    let mut i: usize = 0;
    assert(s@.skip(0) =~= s@);
    while i < x.len() && x[i] != c
        invariant
            x@ == s@,
            i <= x@.len(),
            first_index(s@, c) == i + first_index(s@.skip(i as int), c),
        decreases x@.len() - i,
    {
        assert(s@.skip(i as int)[0] == s@[i as int]);
        assert(s@.skip(i as int).drop_first() =~= s@.skip(i + 1));
        i = i + 1;
    }
    if i < x.len() {
        assert(s@.skip(i as int)[0] == s@[i as int]);
        let head = string_of(&x, 0, i);
        let tail = string_of(&x, i + 1, x.len());
        assert(head@ =~= s@.take(i as int));
        assert(tail@ =~= s@.skip(i + 1));
        (head, Some(tail))
    } else {
        assert(s@.skip(i as int).len() == 0);
        (s.to_string(), None)
    }
}

pub open spec fn is_alphanumeric_char(c: char) -> bool {
    ||| '0' <= c && c <= '9'
    ||| 'a' <= c && c <= 'z'
    ||| 'A' <= c && c <= 'Z'
}

/// Whether a character is kept when a name is cleaned: ASCII letters and digits, the underscore
/// and, if asked for, the dash.
pub open spec fn is_kept_char(c: char, dash: bool) -> bool {
    is_alphanumeric_char(c) || c == '_' || (dash && c == '-')
}

/// A name without the characters that are not kept.
pub open spec fn cleaned_of(s: Seq<char>, dash: bool) -> Seq<char>
    decreases s.len(),
{
    if s.len() == 0 {
        Seq::empty()
    } else if is_kept_char(s.last(), dash) {
        cleaned_of(s.drop_last(), dash).push(s.last())
    } else {
        cleaned_of(s.drop_last(), dash)
    }
}

/// Cleaning goes over two texts one after the other.
pub proof fn lemma_cleaned_append(a: Seq<char>, b: Seq<char>, dash: bool)
    ensures
        cleaned_of(a + b, dash) == cleaned_of(a, dash) + cleaned_of(b, dash),
    decreases b.len(),
{
    let s = a + b;
    if b.len() == 0 {
        assert(s =~= a);
    } else {
        lemma_cleaned_append(a, b.drop_last(), dash);
        assert(s.drop_last() =~= a + b.drop_last());
        assert(s.last() == b.last());
        assert(cleaned_of(s, dash) =~= cleaned_of(a, dash) + cleaned_of(b, dash));
    }
}

/// Cleaning and lower case do not depend on which comes first.
pub proof fn lemma_cleaned_lower(s: Seq<char>, dash: bool)
    ensures
        lower_of(cleaned_of(s, dash)) == cleaned_of(lower_of(s), dash),
    decreases s.len(),
{
    let l = lower_of(s);
    if s.len() == 0 {
        assert(lower_of(cleaned_of(s, dash)) =~= Seq::empty());
    } else {
        lemma_cleaned_lower(s.drop_last(), dash);
        assert(l.drop_last() =~= lower_of(s.drop_last()));
        assert(l.last() == lower_char_of(s.last()));
        let c = s.last();
        if 'A' <= c && c <= 'Z' {
            assert(97 <= lower_char_of(c) as u32 <= 122);
        }
        assert(is_kept_char(lower_char_of(c), dash) == is_kept_char(c, dash));
        assert(lower_of(cleaned_of(s, dash)) =~= cleaned_of(l, dash));
    }
}

/// What stands in a text stands in every text around it.
pub proof fn lemma_part_around(a: Seq<char>, s: Seq<char>, b: Seq<char>, p: Seq<char>)
    requires
        has_part(s, p),
    ensures
        has_part(a + s + b, p),
{
    let at = choose|at: int| occurs_at(s, p, at);
    let t = a + s + b;
    assert(t.subrange(a.len() + at, a.len() + at + p.len()) =~= s.subrange(at, at + p.len()));
    assert(occurs_at(t, p, a.len() + at));
}

pub fn clean_name(s: &str, dash: bool) -> (r: String)
    ensures
        r@ == cleaned_of(s@, dash),
{
    let x = chars_of(s);
    let mut out = String::new();
    let mut i: usize = 0;
    while i < x.len()
        invariant
            x@ == s@,
            i <= x@.len(),
            out@ == cleaned_of(s@.take(i as int), dash),
        decreases x@.len() - i,
    {
        let c = x[i];
        assert(s@.take(i + 1).drop_last() =~= s@.take(i as int));
        if ('0' <= c && c <= '9') || ('a' <= c && c <= 'z') || ('A' <= c && c <= 'Z') || c == '_'
            || (dash && c == '-') {
            out.push(c);
        }
        i = i + 1;
    }
    assert(s@.take(i as int) =~= s@);
    out
}

/// Appends a pair of strings to a list of pairs.
pub fn push_pair(v: &mut Vec<(String, String)>, a: String, b: String)
    ensures
        final(v).deep_view() == old(v).deep_view().push((a@, b@)),
{
    v.push((a, b));
    assert(v.deep_view() =~= old(v).deep_view().push((a@, b@)));
}

/// The parts of `s` between characters of a class; there is always at least one part.
pub open spec fn split_class_of(s: Seq<char>, t: CharClass) -> Seq<Seq<char>>
    decreases s.len(),
{
    if s.len() == 0 {
        seq![Seq::empty()]
    } else {
        let before = split_class_of(s.drop_last(), t);
        if in_class(t, s.last()) {
            before.push(Seq::empty())
        } else {
            before.drop_last().push(before.last().push(s.last()))
        }
    }
}

pub fn split_class(s: &str, t: CharClass) -> (r: Vec<String>)
    ensures
        r.deep_view() == split_class_of(s@, t),
{
    let x = chars_of(s);
    let mut out: Vec<String> = Vec::new();
    let mut cur = String::new();
    let mut i: usize = 0;
    assert(split_class_of(s@.take(0), t) =~= out.deep_view().push(cur@));
    while i < x.len()
        invariant
            x@ == s@,
            i <= x@.len(),
            split_class_of(s@.take(i as int), t) == out.deep_view().push(cur@),
        decreases x@.len() - i,
    {
        let c = x[i];
        assert(s@.take(i + 1).drop_last() =~= s@.take(i as int));
        if is_in_class(t, c) {
            push_text(&mut out, cur);
            cur = String::new();
            assert(split_class_of(s@.take(i + 1), t) =~= out.deep_view().push(cur@));
        } else {
            cur.push(c);
            assert(split_class_of(s@.take(i + 1), t) =~= out.deep_view().push(cur@));
        }
        i = i + 1;
    }
    assert(s@.take(i as int) =~= s@);
    push_text(&mut out, cur);
    out
}

/// The parts that are not empty.
pub open spec fn filled_parts(parts: Seq<Seq<char>>) -> Seq<Seq<char>>
    decreases parts.len(),
{
    if parts.len() == 0 {
        Seq::empty()
    } else if parts.last().len() > 0 {
        filled_parts(parts.drop_last()).push(parts.last())
    } else {
        filled_parts(parts.drop_last())
    }
}

/// The words of `s`: what stands between white space.
pub open spec fn words_of(s: Seq<char>) -> Seq<Seq<char>> {
    filled_parts(split_class_of(s, CharClass::Space))
}

pub fn words(s: &str) -> (r: Vec<String>)
    ensures
        r.deep_view() == words_of(s@),
{
    let parts = split_class(s, CharClass::Space);
    let ghost all = parts.deep_view();
    let mut out: Vec<String> = Vec::new();
    let mut i: usize = 0;
    assert(all.take(0) =~= Seq::empty());
    assert(out.deep_view() =~= Seq::empty());
    while i < parts.len()
        invariant
            i <= parts@.len(),
            all == parts.deep_view(),
            out.deep_view() == filled_parts(all.take(i as int)),
        decreases parts@.len() - i,
    {
        assert(all.take(i + 1).drop_last() =~= all.take(i as int));
        assert(all.take(i + 1).last() == parts@[i as int]@);
        if !parts[i].as_str().is_empty() {
            push_text(&mut out, parts[i].clone());
        }
        i = i + 1;
    }
    assert(all.take(i as int) =~= all);
    out
}

/// How often the character `c` stands in `s`.
pub open spec fn count_of(s: Seq<char>, c: char) -> nat
    decreases s.len(),
{
    if s.len() == 0 {
        0
    } else {
        count_of(s.drop_last(), c) + if s.last() == c {
            1nat
        } else {
            0
        }
    }
}

pub fn count_char(s: &str, c: char) -> (r: usize)
    ensures
        r == count_of(s@, c),
{
    let x = chars_of(s);
    let mut n: usize = 0;
    let mut i: usize = 0;
    while i < x.len()
        invariant
            x@ == s@,
            i <= x@.len(),
            n == count_of(s@.take(i as int), c),
            n <= i,
        decreases x@.len() - i,
    {
        assert(s@.take(i + 1).drop_last() =~= s@.take(i as int));
        if x[i] == c {
            n = n + 1;
        }
        i = i + 1;
    }
    assert(s@.take(i as int) =~= s@);
    n
}

/// The texts of a list, each once, in the order in which they first come.
pub open spec fn distinct_of(s: Seq<Seq<char>>) -> Seq<Seq<char>>
    decreases s.len(),
{
    if s.len() == 0 {
        Seq::empty()
    } else {
        let before = distinct_of(s.drop_last());
        if before.contains(s.last()) {
            before
        } else {
            before.push(s.last())
        }
    }
}

pub fn distinct(v: &Vec<String>) -> (r: Vec<String>)
    ensures
        r.deep_view() == distinct_of(v.deep_view()),
{
    let ghost all = v.deep_view();
    let mut out: Vec<String> = Vec::new();
    let mut i: usize = 0;
    assert(all.take(0) =~= Seq::empty());
    assert(out.deep_view() =~= Seq::empty());
    while i < v.len()
        invariant
            i <= v@.len(),
            all == v.deep_view(),
            out.deep_view() == distinct_of(all.take(i as int)),
        decreases v@.len() - i,
    {
        assert(all.take(i + 1).drop_last() =~= all.take(i as int));
        assert(all.take(i + 1).last() == v@[i as int]@);
        if !list_contains(&out, v[i].as_str()) {
            push_text(&mut out, v[i].clone());
        }
        i = i + 1;
    }
    assert(all.take(i as int) =~= all);
    out
}

/// Appends the texts of a list.
pub fn extend_list(v: &mut Vec<String>, more: Vec<String>)
    ensures
        final(v).deep_view() == old(v).deep_view() + more.deep_view(),
{
    let ghost start = v.deep_view();
    let ghost all = more.deep_view();
    let mut i: usize = 0;
    assert(start =~= start + all.take(0));
    while i < more.len()
        invariant
            i <= more@.len(),
            all == more.deep_view(),
            v.deep_view() == start + all.take(i as int),
        decreases more@.len() - i,
    {
        assert(all[i as int] == more@[i as int]@);
        push_text(v, more[i].clone());
        i = i + 1;
        assert(v.deep_view() =~= start + all.take(i as int));
    }
    assert(all.take(i as int) =~= all);
}

} // verus!

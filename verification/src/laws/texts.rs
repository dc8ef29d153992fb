//! What the operations on texts mean.

use crate::text;
use crate::text::CharClass;
use vstd::prelude::*;

verus! {

/// The case of the twenty-six ASCII letters is all that changes between a text and the text in
/// lower or upper case, and going both ways changes nothing more.
pub proof fn law_case(s: Seq<char>, i: int)
    requires
        0 <= i < s.len(),
    ensures
        text::lower_of(s).len() == s.len(),
        text::upper_of(s).len() == s.len(),
        'A' <= s[i] <= 'Z' ==> text::lower_of(s)[i] as u32 == s[i] as u32 + 32,
        !('A' <= s[i] <= 'Z') ==> text::lower_of(s)[i] == s[i],
        'a' <= s[i] <= 'z' ==> text::upper_of(s)[i] as u32 == s[i] as u32 - 32,
        !('a' <= s[i] <= 'z') ==> text::upper_of(s)[i] == s[i],
        !('A' <= text::lower_of(s)[i] <= 'Z'),
        !('a' <= text::upper_of(s)[i] <= 'z'),
{
}

/// A text starts with, ends with or holds another exactly where something completes the other to
/// it.
pub proof fn law_parts(a: Seq<char>, p: Seq<char>, b: Seq<char>)
    ensures
        text::has_prefix(p + b, p),
        text::has_suffix(a + p, p),
        text::has_part(a + p + b, p),
        text::has_prefix(a, p) ==> a == p + a.skip(p.len() as int),
        text::has_suffix(a, p) ==> a == a.take(a.len() - p.len()) + p,
        text::has_part(a, p) ==> exists|i: int|
            0 <= i <= a.len() - p.len() && a == #[trigger] a.take(i) + p + a.skip(i + p.len()),
        text::stripped_prefix(p + b, p) == Some(b),
        !text::has_prefix(a, p) ==> text::stripped_prefix(a, p) is None,
{
    assert((p + b).take(p.len() as int) =~= p);
    assert((p + b).skip(p.len() as int) =~= b);
    assert((a + p).skip(a.len() as int) =~= p);
    let all = a + p + b;
    assert(all.subrange(a.len() as int, (a.len() + p.len()) as int) =~= p);
    assert(text::occurs_at(all, p, a.len() as int));
    if text::has_prefix(a, p) {
        assert(a =~= p + a.skip(p.len() as int));
    }
    if text::has_suffix(a, p) {
        assert(a =~= a.take(a.len() - p.len()) + p);
    }
    if text::has_part(a, p) {
        let i = choose|i: int| text::occurs_at(a, p, i);
        assert(a =~= a.take(i) + p + a.skip(i + p.len()));
    }
}

proof fn lemma_trim_start(s: Seq<char>, t: CharClass) -> (n: int)
    ensures
        0 <= n <= s.len(),
        text::trim_start_of(s, t) == s.skip(n),
        forall|i: int| 0 <= i < n ==> text::in_class(t, #[trigger] s[i]),
        n < s.len() ==> !text::in_class(t, s[n]),
    decreases s.len(),
{
    if s.len() > 0 && text::in_class(t, s[0]) {
        let rest = s.drop_first();
        let n = lemma_trim_start(rest, t);
        assert(rest.skip(n) =~= s.skip(n + 1));
        assert forall|i: int| 0 <= i < n + 1 implies text::in_class(t, #[trigger] s[i]) by {
            if i > 0 {
                assert(rest[i - 1] == s[i]);
            }
        }
        if n < rest.len() {
            assert(rest[n] == s[n + 1]);
        }
        n + 1
    } else {
        assert(s.skip(0) =~= s);
        0
    }
}

proof fn lemma_trim_end(s: Seq<char>, t: CharClass) -> (n: int)
    ensures
        0 <= n <= s.len(),
        text::trim_end_of(s, t) == s.take(n),
        forall|i: int| n <= i < s.len() ==> text::in_class(t, #[trigger] s[i]),
        n > 0 ==> !text::in_class(t, s[n - 1]),
    decreases s.len(),
{
    if s.len() > 0 && text::in_class(t, s.last()) {
        let rest = s.drop_last();
        let n = lemma_trim_end(rest, t);
        assert(rest.take(n) =~= s.take(n));
        assert forall|i: int| n <= i < s.len() implies text::in_class(t, #[trigger] s[i]) by {
            if i < rest.len() {
                assert(rest[i] == s[i]);
            }
        }
        n
    } else {
        assert(s.take(s.len() as int) =~= s);
        s.len() as int
    }
}

/// A trimmed text is what is left when white space is taken from both ends: it neither starts nor
/// ends with white space, and what was taken is nothing else.
pub proof fn law_trim(s: Seq<char>)
    ensures
        ({
            let t = text::trim_of(s);
            &&& t.len() > 0 ==> !text::is_space_char(t[0]) && !text::is_space_char(t.last())
            &&& exists|i: int, j: int|
                0 <= i <= j <= s.len() && #[trigger] s.subrange(i, j) == t && (forall|k: int|
                    0 <= k < s.len() && (k < i || j <= k) ==> text::is_space_char(#[trigger] s[k]))
        }),
        forall|c: char|
            (c == ' ' || c == '\t' || c == '\n' || c == '\r') ==> #[trigger] text::is_space_char(c),
        forall|c: char| '!' <= c <= '~' ==> !#[trigger] text::is_space_char(c),
{
    let i = lemma_trim_start(s, CharClass::Space);
    let u = s.skip(i);
    let n = lemma_trim_end(u, CharClass::Space);
    let t = text::trim_of(s);
    let j = i + n;
    assert(s.subrange(i, j) =~= t);
    assert forall|k: int| 0 <= k < s.len() && (k < i || j <= k) implies text::is_space_char(
        #[trigger] s[k],
    ) by {
        if k < i {
            assert(text::in_class(CharClass::Space, s[k]));
        } else {
            assert(u[k - i] == s[k]);
            assert(text::in_class(CharClass::Space, u[k - i]));
        }
    }
    if t.len() > 0 {
        assert(t[0] == s[i]);
        assert(t.last() == u[n - 1]);
    }
}

/// A number is read from decimal digits, with a plus sign in front or without, where it does not
/// exceed the largest that is allowed; nothing else is a number.
pub proof fn law_number_read(n: nat, max: nat, s: Seq<char>)
    ensures
        n <= max ==> text::parsed_uint(text::decimal_of(n), max) == Some(n),
        n <= max ==> text::parsed_uint(seq!['+'] + text::decimal_of(n), max) == Some(n),
        n > max ==> text::parsed_uint(text::decimal_of(n), max) is None,
        text::parsed_uint(s, max) is Some ==> text::parsed_uint(s, max)->0 <= max && s.len() > 0 && (
        s[0] == '+' || '0' <= s[0] <= '9') && forall|i: int|
            0 < i < s.len() ==> '0' <= #[trigger] s[i] <= '9',
        text::parsed_uint(Seq::empty(), max) is None,
{
    let d = text::decimal_of(n);
    text::law_decimal_value(n);
    let p = seq!['+'] + d;
    assert(p.drop_first() =~= d);
    assert(d[0] != '+') by {
        assert(text::is_digit_char(d[0]));
    }
    if text::parsed_uint(s, max) is Some {
        let digits = if s[0] == '+' {
            s.drop_first()
        } else {
            s
        };
        assert forall|i: int| 0 < i < s.len() implies '0' <= #[trigger] s[i] <= '9' by {
            if s[0] == '+' {
                assert(digits[i - 1] == s[i]);
                assert(text::is_digit_char(digits[i - 1]));
            } else {
                assert(text::is_digit_char(digits[i]));
            }
        }
        if s[0] != '+' {
            assert(text::is_digit_char(digits[0]));
        }
    }
}

/// A text that is held to a number of bytes is its longest start that fits; a text that is cut for
/// display ends with three dots where something is missing.
pub proof fn law_held(s: Seq<char>, max: nat, k: int)
    requires
        0 <= k <= s.len(),
    ensures
        text::has_prefix(s, text::bounded_of(s, max)),
        text::byte_len_of(text::bounded_of(s, max)) <= max,
        text::byte_len_of(s.take(k)) <= max ==> k <= text::bounded_of(s, max).len(),
        text::byte_len_of(s) <= max ==> text::truncate_of(s, max) == s,
        text::byte_len_of(s) > max ==> text::truncate_of(s, max) == text::bounded_of(s, max)
            + "..."@,
        text::byte_len_of(s) >= s.len(),
        (forall|i: int| 0 <= i < s.len() ==> #[trigger] s[i] as u32 <= 127) ==> text::byte_len_of(s)
            == s.len(),
    decreases s.len(),
{
    text::lemma_bounded_fits(s, max);
    assert(s.take(s.len() as int) =~= s);
    if s.len() > 0 {
        let rest = s.drop_last();
        if k < s.len() {
            assert(rest.take(k) =~= s.take(k));
            law_held(rest, max, k);
        } else {
            law_held(rest, max, 0);
        }
        assert(s.last() == s[s.len() - 1]);
        if forall|i: int| 0 <= i < s.len() ==> #[trigger] s[i] as u32 <= 127 {
            assert forall|i: int| 0 <= i < rest.len() implies #[trigger] rest[i] as u32 <= 127 by {
                assert(rest[i] == s[i]);
            }
        }
    }
}

/// How often a character stands in a text: not at all in an empty one, once more with every one of
/// it.
pub proof fn law_count(a: Seq<char>, b: Seq<char>, c: char)
    ensures
        text::count_of(a + b, c) == text::count_of(a, c) + text::count_of(b, c),
        text::count_of(seq![c], c) == 1,
        text::count_of(a, c) == 0 <==> !a.contains(c),
    decreases b.len(), a.len(),
{
    assert(seq![c].drop_last() =~= Seq::empty());
    assert(text::count_of(seq![c].drop_last(), c) == 0);
    let all = a + b;
    if b.len() > 0 {
        law_count(a, b.drop_last(), c);
        assert(all.drop_last() =~= a + b.drop_last());
        assert(all.last() == b.last());
    } else {
        assert(all =~= a);
        if a.len() > 0 {
            law_count(a.drop_last(), b, c);
            let d = a.drop_last();
            if d.contains(c) {
                let i = choose|i: int| 0 <= i < d.len() && d[i] == c;
                assert(a[i] == c);
            }
            if a.contains(c) && a.last() != c {
                let i = choose|i: int| 0 <= i < a.len() && a[i] == c;
                assert(d[i] == c);
            }
            if a.last() == c {
                assert(a[a.len() - 1] == c);
            }
        }
    }
}

} // verus!

//! Texts as sequences of characters: trimming, stated once for every set of
//! characters, and splitting at a separator.

use crate::seqs::{lemma_views_push, views};
use vstd::prelude::*;
use vstd::string::StrSliceExecFns;

verus! {

/// Equality of string slices. Trusted: two slices compare equal exactly when
/// they hold the same characters.
pub assume_specification[ <str as PartialEq>::eq ](a: &str, b: &str) -> (r: bool)
    ensures
        r == (a@ == b@),
;

/// Whether a character is white space: the name for what `char::is_whitespace`
/// returns, which is the property `White_Space` of the Unicode character
/// database.
pub uninterp spec fn is_whitespace(c: char) -> bool;

/// Trusted: `char::is_whitespace` is a function of the character alone.
pub assume_specification[ char::is_whitespace ](c: char) -> (b: bool)
    ensures
        b == is_whitespace(c),
;

/// The characters that are white space.
pub open spec fn whitespace() -> spec_fn(char) -> bool {
    |c: char| is_whitespace(c)
}

/// Appends one character to a string. Trusted: `String::push` adds exactly the
/// given character at the end and leaves what was there.
#[verifier::external_body]
pub(crate) fn push_char(s: &mut String, c: char)
    ensures
        final(s)@ == old(s)@.push(c),
{
    s.push(c);
}

/// Where `sep` first occurs in `s`; the length of `s` where it does not occur.
pub open spec fn first_at<T>(s: Seq<T>, sep: T) -> nat
    decreases s.len(),
{
    if s.len() == 0 || s[0] == sep {
        0
    } else {
        1 + first_at(s.drop_first(), sep)
    }
}

/// `first_at` lies within `s`, nothing before it is `sep`, and `sep` stands
/// there unless `s` holds none.
pub proof fn lemma_first_at<T>(s: Seq<T>, sep: T)
    ensures
        first_at(s, sep) <= s.len(),
        forall|i: int| 0 <= i < first_at(s, sep) ==> #[trigger] s[i] != sep,
        first_at(s, sep) < s.len() ==> s[first_at(s, sep) as int] == sep,
    decreases s.len(),
{
    if !(s.len() == 0 || s[0] == sep) {
        let rest = s.drop_first();
        lemma_first_at(rest, sep);
        assert forall|i: int| 0 <= i < first_at(s, sep) implies #[trigger] s[i] != sep by {
            if i > 0 {
                assert(s[i] == rest[i - 1]);
            }
        }
        if first_at(s, sep) < s.len() {
            assert(s[first_at(s, sep) as int] == rest[first_at(rest, sep) as int]);
        }
    }
}

/// The first place at which `sep` stands, or the end of a sequence without
/// `sep`, is `first_at`.
pub proof fn lemma_first_at_is<T>(s: Seq<T>, sep: T, n: nat)
    requires
        n <= s.len(),
        forall|i: int| 0 <= i < n ==> #[trigger] s[i] != sep,
        n < s.len() ==> s[n as int] == sep,
    ensures
        first_at(s, sep) == n,
    decreases n,
{
    if n > 0 {
        let rest = s.drop_first();
        assert(s[0] != sep);
        assert forall|i: int| 0 <= i < n - 1 implies #[trigger] rest[i] != sep by {
            assert(rest[i] == s[i + 1]);
        }
        if n - 1 < rest.len() {
            assert(rest[n - 1] == s[n as int]);
        }
        lemma_first_at_is(rest, sep, (n - 1) as nat);
    }
}

/// The pieces of `s` between the occurrences of `sep`. A sequence without
/// `sep` is one piece, and so is the empty sequence.
pub open spec fn split<T>(s: Seq<T>, sep: T) -> Seq<Seq<T>>
    decreases s.len(),
{
    let i = first_at(s, sep);
    if i >= s.len() {
        seq![s]
    } else {
        seq![s.take(i as int)] + split(s.skip(i as int + 1), sep)
    }
}

/// How many characters at the front of `s` belong to `strip`.
pub open spec fn leading(s: Seq<char>, strip: spec_fn(char) -> bool) -> nat
    decreases s.len(),
{
    if s.len() > 0 && strip(s[0]) {
        1 + leading(s.drop_first(), strip)
    } else {
        0
    }
}

/// How many characters at the back of `s` belong to `strip`.
pub open spec fn trailing(s: Seq<char>, strip: spec_fn(char) -> bool) -> nat
    decreases s.len(),
{
    if s.len() > 0 && strip(s.last()) {
        1 + trailing(s.drop_last(), strip)
    } else {
        0
    }
}

/// `s` without the characters of `strip` at its front.
pub open spec fn trim_front(s: Seq<char>, strip: spec_fn(char) -> bool) -> Seq<char> {
    s.skip(leading(s, strip) as int)
}

/// `s` without the characters of `strip` at its back.
pub open spec fn trim_back(s: Seq<char>, strip: spec_fn(char) -> bool) -> Seq<char> {
    s.take(s.len() - trailing(s, strip))
}

/// `s` without the characters of `strip` at either end.
pub open spec fn trim(s: Seq<char>, strip: spec_fn(char) -> bool) -> Seq<char> {
    trim_back(trim_front(s, strip), strip)
}

/// The leading run ends inside `s`, every character of it belongs to `strip`,
/// and the character behind it, if there is one, does not.
pub proof fn lemma_leading(s: Seq<char>, strip: spec_fn(char) -> bool)
    ensures
        leading(s, strip) <= s.len(),
        forall|i: int| 0 <= i < leading(s, strip) ==> strip(#[trigger] s[i]),
        leading(s, strip) < s.len() ==> !strip(s[leading(s, strip) as int]),
    decreases s.len(),
{
    if s.len() > 0 && strip(s[0]) {
        let rest = s.drop_first();
        lemma_leading(rest, strip);
        assert forall|i: int| 0 <= i < leading(s, strip) implies strip(#[trigger] s[i]) by {
            if i > 0 {
                assert(s[i] == rest[i - 1]);
            }
        }
        if leading(s, strip) < s.len() {
            assert(s[leading(s, strip) as int] == rest[leading(rest, strip) as int]);
        }
    }
}

/// The trailing run ends inside `s`, every character of it belongs to `strip`,
/// and the character before it, if there is one, does not.
pub proof fn lemma_trailing(s: Seq<char>, strip: spec_fn(char) -> bool)
    ensures
        trailing(s, strip) <= s.len(),
        forall|i: int| s.len() - trailing(s, strip) <= i < s.len() ==> strip(#[trigger] s[i]),
        trailing(s, strip) < s.len() ==> !strip(s[s.len() - trailing(s, strip) - 1]),
    decreases s.len(),
{
    if s.len() > 0 && strip(s.last()) {
        let rest = s.drop_last();
        lemma_trailing(rest, strip);
        assert forall|i: int| s.len() - trailing(s, strip) <= i < s.len() implies strip(
            #[trigger] s[i],
        ) by {
            if i < s.len() - 1 {
                assert(s[i] == rest[i]);
            }
        }
        if trailing(s, strip) < s.len() {
            assert(s[s.len() - trailing(s, strip) - 1] == rest[rest.len() - trailing(rest, strip)
                - 1]);
        }
    }
}

/// A run of `n` characters of `strip` at the front of `s`, followed by the end
/// of `s` or by a character outside `strip`, is the leading run.
pub proof fn lemma_leading_is(s: Seq<char>, strip: spec_fn(char) -> bool, n: nat)
    requires
        n <= s.len(),
        forall|i: int| 0 <= i < n ==> strip(#[trigger] s[i]),
        n < s.len() ==> !strip(s[n as int]),
    ensures
        leading(s, strip) == n,
    decreases n,
{
    if n > 0 {
        let rest = s.drop_first();
        assert(strip(s[0]));
        assert forall|i: int| 0 <= i < n - 1 implies strip(#[trigger] rest[i]) by {
            assert(rest[i] == s[i + 1]);
        }
        if n - 1 < rest.len() {
            assert(rest[n - 1] == s[n as int]);
        }
        lemma_leading_is(rest, strip, (n - 1) as nat);
    }
}

/// A run of `n` characters of `strip` at the back of `s`, preceded by the start
/// of `s` or by a character outside `strip`, is the trailing run.
pub proof fn lemma_trailing_is(s: Seq<char>, strip: spec_fn(char) -> bool, n: nat)
    requires
        n <= s.len(),
        forall|i: int| s.len() - n <= i < s.len() ==> strip(#[trigger] s[i]),
        n < s.len() ==> !strip(s[s.len() - n - 1]),
    ensures
        trailing(s, strip) == n,
    decreases n,
{
    if n > 0 {
        let rest = s.drop_last();
        assert(strip(s[s.len() - 1]));
        assert forall|i: int| rest.len() - (n - 1) <= i < rest.len() implies strip(
            #[trigger] rest[i],
        ) by {
            assert(rest[i] == s[i]);
        }
        if n - 1 < rest.len() {
            assert(rest[rest.len() - (n - 1) - 1] == s[s.len() - n - 1]);
        }
        lemma_trailing_is(rest, strip, (n - 1) as nat);
    }
}

/// Trimming twice is trimming once.
pub proof fn lemma_trim_idempotent(s: Seq<char>, strip: spec_fn(char) -> bool)
    ensures
        trim(trim(s, strip), strip) == trim(s, strip),
{
    let t = trim(s, strip);
    lemma_trim_ends(s, strip);
    lemma_leading_is(t, strip, 0);
    lemma_trailing_is(t, strip, 0);
    assert(trim_front(t, strip) =~= t);
    assert(trim_back(t, strip) =~= t);
}

/// A trimmed sequence neither starts nor ends with a character of `strip`.
pub proof fn lemma_trim_ends(s: Seq<char>, strip: spec_fn(char) -> bool)
    ensures
        trim(s, strip).len() > 0 ==> !strip(trim(s, strip).first()) && !strip(
            trim(s, strip).last(),
        ),
        trim(s, strip).len() <= s.len(),
{
    let f = trim_front(s, strip);
    lemma_leading(s, strip);
    lemma_trailing(f, strip);
    let t = trim(s, strip);
    if t.len() > 0 {
        assert(t.last() == f[f.len() - trailing(f, strip) - 1]);
        assert(t.first() == f[0]);
        assert(f[0] == s[leading(s, strip) as int]);
    }
}

/// `s` without the characters of `strip` at either end. `in_strip` decides
/// membership in `strip`.
pub(crate) fn trim_where<'a, F: Fn(char) -> bool>(
    s: &'a str,
    in_strip: F,
    Ghost(strip): Ghost<spec_fn(char) -> bool>,
) -> (r: &'a str)
    requires
        forall|c: char| call_requires(in_strip, (c,)),
        forall|c: char, b: bool| call_ensures(in_strip, (c,), b) ==> b == strip(c),
    ensures
        r@ == trim(s@, strip),
{
    let total = s.unicode_len();
    let mut lead: usize = 0;
    let mut end: usize = 0;
    let mut seen: usize = 0;
    let mut in_lead = true;
    for c in it: s.chars()
        invariant
            it.seq() == s@,
            total == s@.len(),
            seen == it.index(),
            in_lead ==> lead == seen && end == seen,
            lead <= end <= seen,
            forall|i: int| 0 <= i < lead ==> strip(#[trigger] s@[i]),
            forall|i: int| end <= i < seen ==> strip(#[trigger] s@[i]),
            !in_lead ==> lead < end && !strip(s@[lead as int]) && !strip(s@[end - 1]),
            forall|c: char| call_requires(in_strip, (c,)),
            forall|c: char, b: bool| call_ensures(in_strip, (c,), b) ==> b == strip(c),
    {
        assert(seen < total);
        seen = seen + 1;
        if !in_strip(c) {
            in_lead = false;
            end = seen;
        } else if in_lead {
            lead = seen;
            end = seen;
        }
    }
    proof {
        let f = trim_front(s@, strip);
        lemma_leading_is(s@, strip, lead as nat);
        assert(f.len() == s@.len() - lead);
        assert forall|i: int| f.len() - (s@.len() - end) <= i < f.len() implies strip(
            #[trigger] f[i],
        ) by {
            assert(f[i] == s@[i + lead]);
        }
        lemma_trailing_is(f, strip, (s@.len() - end) as nat);
        assert(trim(s@, strip) =~= s@.subrange(lead as int, end as int));
    }
    s.substring_char(lead, end)
}

/// `s` without the white space at either end.
pub fn trim_whitespace<'a>(s: &'a str) -> (r: &'a str)
    ensures
        r@ == trim(s@, whitespace()),
{
    let is_space = |c: char| -> (b: bool)
        ensures
            b == is_whitespace(c),
        { c.is_whitespace() };
    trim_where(s, is_space, Ghost(whitespace()))
}

/// The pieces of `s` between the occurrences of `sep`.
pub fn split_on<'a>(s: &'a str, sep: char) -> (r: Vec<&'a str>)
    ensures
        views(r@) == split(s@, sep),
{
    let total = s.unicode_len();
    let mut pieces: Vec<&'a str> = Vec::new();
    let mut start: usize = 0;
    let mut seen: usize = 0;
    assert(s@.skip(0) =~= s@);
    assert(views(pieces@) =~= Seq::<Seq<char>>::empty());
    for c in it: s.chars()
        invariant
            it.seq() == s@,
            total == s@.len(),
            seen == it.index(),
            start <= seen,
            forall|i: int| start <= i < seen ==> #[trigger] s@[i] != sep,
            split(s@, sep) == views(pieces@) + split(s@.skip(start as int), sep),
    {
        assert(seen < total);
        if c == sep {
            let piece = s.substring_char(start, seen);
            proof {
                let rest = s@.skip(start as int);
                assert forall|i: int| 0 <= i < seen - start implies #[trigger] rest[i] != sep by {
                    assert(rest[i] == s@[i + start]);
                }
                lemma_first_at_is(rest, sep, (seen - start) as nat);
                assert(rest.take(seen - start) =~= piece@);
                assert(rest.skip(seen - start + 1) =~= s@.skip(seen + 1));
                lemma_views_push(pieces@, piece);
                assert(views(pieces@) + (seq![piece@] + split(s@.skip(seen + 1), sep)) =~= views(
                    pieces@,
                ).push(piece@) + split(s@.skip(seen + 1), sep));
            }
            pieces.push(piece);
            start = seen + 1;
        }
        seen = seen + 1;
    }
    let piece = s.substring_char(start, total);
    proof {
        let rest = s@.skip(start as int);
        assert forall|i: int| 0 <= i < total - start implies #[trigger] rest[i] != sep by {
            assert(rest[i] == s@[i + start]);
        }
        lemma_first_at_is(rest, sep, (total - start) as nat);
        assert(rest =~= piece@);
        lemma_views_push(pieces@, piece);
        assert(views(pieces@) + seq![piece@] =~= views(pieces@).push(piece@));
    }
    pieces.push(piece);
    pieces
}

} // verus!

//! Normal form of the path prefix under which the service is mounted.

use crate::text::{
    lemma_leading_is, lemma_trailing_is, lemma_trim_ends, lemma_trim_idempotent, trim, trim_front,
    trim_where,
};
use vstd::prelude::*;
use vstd::string::StringExecFns;

verus! {

/// The characters that a path prefix loses at both ends.
pub open spec fn slashes() -> spec_fn(char) -> bool {
    |c: char| c == '/'
}

/// The normal form of a path prefix: one slash, then the prefix without the
/// slashes at its ends.
pub open spec fn normal_prefix(path_prefix: Seq<char>) -> Seq<char> {
    seq!['/'] + trim(path_prefix, slashes())
}

/// Strips all but one leading slash and all trailing slashes.
pub fn parse_path_prefix(path_prefix: &str) -> (r: String)
    ensures
        r@ == normal_prefix(path_prefix@),
        r@.len() > 0,
        r@[0] == '/',
        r@.len() > 1 ==> r@[1] != '/' && r@.last() != '/',
{
    let is_slash = |c: char| -> (b: bool)
        ensures
            b == (c == '/'),
        { c == '/' };
    let trimmed = trim_where(path_prefix, is_slash, Ghost(slashes()));
    proof {
        lemma_trim_ends(path_prefix@, slashes());
        reveal_strlit("/");
        assert("/"@ =~= seq!['/']);
    }
    String::from_str("/").concat(trimmed)
}

/// The path prefix of a configuration, once it has been read: the normal form
/// of the prefix that was read, or the failure to read it.
pub fn de_path_prefix<E>(path_prefix: Result<String, E>) -> (r: Result<Option<String>, E>)
    ensures
        match path_prefix {
            Ok(read) => r matches Ok(Some(prefix)) && prefix@ == normal_prefix(read@),
            Err(e) => r matches Err(failure) && failure == e,
        },
{
    match path_prefix {
        Ok(read) => Ok(Some(parse_path_prefix(read.as_str()))),
        Err(e) => Err(e),
    }
}

/// A normal form starts with one slash and no second, and does not end with
/// a slash unless it is the slash alone.
pub proof fn lemma_normal_prefix_shape(path_prefix: Seq<char>)
    ensures
        normal_prefix(path_prefix).len() > 0,
        normal_prefix(path_prefix)[0] == '/',
        normal_prefix(path_prefix).len() > 1 ==> normal_prefix(path_prefix)[1] != '/'
            && normal_prefix(path_prefix).last() != '/',
{
    lemma_trim_ends(path_prefix, slashes());
}

/// A path prefix in normal form is its own normal form.
pub proof fn lemma_normal_prefix_idempotent(path_prefix: Seq<char>)
    ensures
        normal_prefix(normal_prefix(path_prefix)) == normal_prefix(path_prefix),
{
    let strip = slashes();
    let t = trim(path_prefix, strip);
    let n = normal_prefix(path_prefix);
    lemma_trim_ends(path_prefix, strip);
    lemma_trim_idempotent(path_prefix, strip);
    if t.len() == 0 {
        assert(n =~= seq!['/']);
        lemma_leading_is(n, strip, 1);
        assert(trim_front(n, strip) =~= Seq::<char>::empty());
        lemma_trailing_is(trim_front(n, strip), strip, 0);
        assert(trim(n, strip) =~= t);
    } else {
        assert(n[1] == t[0]);
        lemma_leading_is(n, strip, 1);
        assert(trim_front(n, strip) =~= t);
    }
}

} // verus!

//! The query parameters that a request must carry.

use crate::errors::{GraphError, GraphErrorView};
use crate::seqs::views;
use crate::string_set::StringSet;
use crate::text::{split, split_on, trim, trim_whitespace, whitespace};
use crate::text_order::{
    ascending, lemma_ascending_unique, lemma_text_lt_total, lemma_text_lt_transitive, text_lt,
    text_precedes,
};
use vstd::prelude::*;
use vstd::string::StringExecFns;

verus! {

/// Whether `key` is one of the keys that `params` lists: a piece between
/// commas that is not empty once the white space at its ends is gone.
pub open spec fn lists_key(params: Seq<char>, key: Seq<char>) -> bool {
    key.len() > 0 && exists|i: int|
        0 <= i < split(params, ',').len() && trim(#[trigger] split(params, ',')[i], whitespace())
            == key
}

/// The keys that `params` lists.
pub open spec fn listed_keys(params: Seq<char>) -> Set<Seq<char>> {
    Set::new(|key: Seq<char>| lists_key(params, key))
}

/// Parses a comma-separated set of parameter keys.
pub fn parse_params_set(params: &str) -> (r: StringSet)
    ensures
        r@ == listed_keys(params@),
{
    let pieces = split_on(params, ',');
    let ghost all = split(params@, ',');
    let mut keys = StringSet::new();
    let mut i: usize = 0;
    while i < pieces.len()
        invariant
            i <= pieces.len(),
            views(pieces@) == all,
            forall|key: Seq<char>|
                keys@.contains(key) <==> key.len() > 0 && exists|k: int|
                    0 <= k < i && trim(#[trigger] all[k], whitespace()) == key,
        decreases pieces.len() - i,
    {
        let trimmed = trim_whitespace(pieces[i]);
        assert(all[i as int] == pieces@[i as int]@);
        if trimmed.unicode_len() > 0 {
            keys.insert(String::from_str(trimmed));
        }
        i = i + 1;
    }
    assert(keys@ =~= listed_keys(params@));
    keys
}

/// The names of the pairs that a query string holds, in the order in which
/// they stand in it: what parsing the string as `x-www-form-urlencoded` gives.
pub uninterp spec fn query_keys(query: Seq<char>) -> Seq<Seq<char>>;

/// The names of the pairs of a query string. Trusted: `form_urlencoded::parse`
/// reads nothing but the bytes it is given, so the names it yields depend on
/// the query alone.
#[verifier::external_body]
fn parse_query_keys(query: &str) -> (keys: Vec<String>)
    ensures
        views(keys@) == query_keys(query@),
{
    url::form_urlencoded::parse(query.as_bytes()).into_owned().map(|(k, _)| k).collect()
}

/// Whether `missing` lists, in ascending order and each once, the keys of
/// `required` that are not among `present`.
pub open spec fn is_missing_list(
    missing: Seq<Seq<char>>,
    required: Set<Seq<char>>,
    present: Seq<Seq<char>>,
) -> bool {
    &&& ascending(missing)
    &&& forall|key: Seq<char>|
        missing.contains(key) <==> required.contains(key) && !present.contains(key)
}

/// The keys that are missing can be listed in one way only.
pub proof fn lemma_missing_list_unique(
    a: Seq<Seq<char>>,
    b: Seq<Seq<char>>,
    required: Set<Seq<char>>,
    present: Seq<Seq<char>>,
)
    requires
        is_missing_list(a, required, present),
        is_missing_list(b, required, present),
    ensures
        a == b,
{
    lemma_ascending_unique(a, b);
}

/// Whether `text` is one of `items`.
fn holds_text(items: &Vec<String>, text: &str) -> (r: bool)
    ensures
        r == views(items@).contains(text@),
{
    let mut i: usize = 0;
    while i < items.len()
        invariant
            i <= items.len(),
            forall|k: int| 0 <= k < i ==> #[trigger] views(items@)[k] != text@,
        decreases items.len() - i,
    {
        if items[i].as_str().eq(text) {
            assert(views(items@)[i as int] == text@);
            return true;
        }
        i = i + 1;
    }
    false
}

/// Puts `text` into the ascending `list`, at its place.
fn insert_ascending(list: &mut Vec<String>, text: String)
    requires
        ascending(views(old(list)@)),
        !views(old(list)@).contains(text@),
    ensures
        ascending(views(final(list)@)),
        forall|key: Seq<char>|
            views(final(list)@).contains(key) <==> views(old(list)@).contains(key) || key == text@,
{
    let ghost before = views(list@);
    let mut at: usize = 0;
    while at < list.len() && text_precedes(list[at].as_str(), text.as_str())
        invariant
            at <= list.len(),
            views(list@) == before,
            forall|k: int| 0 <= k < at ==> text_lt(#[trigger] before[k], text@),
        decreases list.len() - at,
    {
        assert(before[at as int] == list@[at as int]@);
        at = at + 1;
    }
    proof {
        if at < list.len() {
            assert(before[at as int] == list@[at as int]@);
            assert(before.contains(before[at as int]));
            lemma_text_lt_total(before[at as int], text@);
        }
        let after = before.insert(at as int, text@);
        assert(views(list@.insert(at as int, text)) =~= after);
        assert forall|i: int, j: int| 0 <= i < j < after.len() implies text_lt(
            #[trigger] after[i],
            #[trigger] after[j],
        ) by {
            if j == at {
                assert(after[i] == before[i]);
            } else if i == at {
                assert(after[j] == before[j - 1]);
                if j - 1 > at {
                    lemma_text_lt_transitive(text@, before[at as int], before[j - 1]);
                }
            } else {
                let p = if i < at { i } else { i - 1 };
                let q = if j < at { j } else { j - 1 };
                assert(after[i] == before[p]);
                assert(after[j] == before[q]);
            }
        }
        assert forall|key: Seq<char>| after.contains(key) <==> before.contains(key) || key
            == text@ by {
            if after.contains(key) {
                let k = choose|k: int| 0 <= k < after.len() && after[k] == key;
                if k < at {
                    assert(before[k] == key);
                } else if k > at {
                    assert(before[k - 1] == key);
                }
            }
            if before.contains(key) {
                let k = choose|k: int| 0 <= k < before.len() && before[k] == key;
                if k < at {
                    assert(after[k] == key);
                } else {
                    assert(after[k + 1] == key);
                }
            }
            if key == text@ {
                assert(after[at as int] == key);
            }
        }
    }
    list.insert(at, text);
}

/// The keys of `required` that are not among `present`, in ascending order.
pub fn missing_params(required: &StringSet, present: &Vec<String>) -> (missing: Vec<String>)
    ensures
        is_missing_list(views(missing@), required@, views(present@)),
{
    let n = required.len();
    let mut missing: Vec<String> = Vec::new();
    let mut i: usize = 0;
    while i < n
        invariant
            i <= n,
            n == required.spec_members().len(),
            required.spec_members().no_duplicates(),
            forall|key: Seq<char>| required@.contains(key) <==> required.spec_members().contains(key),
            ascending(views(missing@)),
            forall|key: Seq<char>|
                views(missing@).contains(key) <==> !views(present@).contains(key) && exists|k: int|
                    0 <= k < i && #[trigger] required.spec_members()[k] == key,
        decreases n - i,
    {
        let member = required.member(i);
        if !holds_text(present, member.as_str()) {
            insert_ascending(&mut missing, member.clone());
        }
        i = i + 1;
    }
    missing
}

/// The outcome of the check of a request's query for the keys of `required`,
/// given the keys `present` in the query: every key is there, or the missing
/// ones are reported in ascending order.
pub fn check_required_params(required: &StringSet, present: &Vec<String>) -> (r: Result<
    (),
    GraphError,
>)
    ensures
        r is Ok <==> forall|key: Seq<char>|
            required@.contains(key) ==> views(present@).contains(key),
        r matches Err(e) ==> e@ matches GraphErrorView::MissingParams(missing) && is_missing_list(
            missing,
            required@,
            views(present@),
        ) && missing.len() > 0,
{
    let missing = missing_params(required, present);
    if missing.len() > 0 {
        proof {
            let first = views(missing@)[0];
            assert(views(missing@).contains(first));
        }
        return Err(GraphError::MissingParams(missing));
    }
    Ok(())
}

/// Makes sure that the query string has every key of `required_params`.
/// Nothing is required of a query where no key is mandatory.
pub fn ensure_query_params(required_params: &StringSet, query: &str) -> (r: Result<
    (),
    GraphError,
>)
    ensures
        r is Ok <==> forall|key: Seq<char>|
            required_params@.contains(key) ==> query_keys(query@).contains(key),
        required_params@ == Set::<Seq<char>>::empty() ==> r is Ok,
        r matches Err(e) ==> e@ matches GraphErrorView::MissingParams(missing) && is_missing_list(
            missing,
            required_params@,
            query_keys(query@),
        ) && missing.len() > 0,
{
    if required_params.is_empty() {
        return Ok(());
    }
    let present = parse_query_keys(query);
    check_required_params(required_params, &present)
}

} // verus!

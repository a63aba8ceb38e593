//! Content negotiation: which media type a client gets, given its `Accept`
//! header and the media types the server can produce.
//!
//! The matcher tests one value for membership. It does not parse a list of
//! preferences, nor rank by quality values.

use crate::errors::{GraphError, GraphErrorView};
use crate::seqs::{lemma_views_push, views};
use crate::text::{first_at, lemma_first_at, lemma_first_at_is, push_char};
use crate::versions::{VersionTable, MIN_CINCINNATI_VERSION};
use vstd::prelude::*;
use vstd::string::StringExecFns;

verus! {

/// Whether an octet may stand in the value of a header field.
pub open spec fn is_field_octet(b: u8) -> bool {
    (b >= 32 && b != 127) || b == 9
}

/// Whether an octet is a visible ASCII character, a space or a tab.
pub open spec fn is_visible_ascii(b: u8) -> bool {
    (b >= 32 && b < 127) || b == 9
}

/// Whether every octet of `bytes` may stand in a header field's value.
pub open spec fn all_field_octets(bytes: Seq<u8>) -> bool {
    forall|i: int| 0 <= i < bytes.len() ==> is_field_octet(#[trigger] bytes[i])
}

/// Whether `bytes` can be read as text.
pub open spec fn all_visible(bytes: Seq<u8>) -> bool {
    forall|i: int| 0 <= i < bytes.len() ==> is_visible_ascii(#[trigger] bytes[i])
}

/// The text that octets of ASCII spell.
pub open spec fn as_text(bytes: Seq<u8>) -> Seq<char> {
    Seq::new(bytes.len(), |i: int| bytes[i] as char)
}

/// The octets `*`.
pub open spec fn wildcard() -> Seq<u8> {
    seq![42u8]
}

/// The octets `*/*`.
pub open spec fn double_wildcard() -> Seq<u8> {
    seq![42u8, 47u8, 42u8]
}

/// The top-level type of a media type: what stands before its first `/`. A
/// media type that cannot be read as text has the empty top-level type.
pub open spec fn top_type(media_type: Seq<u8>) -> Seq<u8> {
    if all_visible(media_type) {
        media_type.take(first_at(media_type, 47u8) as int)
    } else {
        Seq::empty()
    }
}

/// The wildcard that stands for every subtype of a media type's top-level
/// type: `application/*` for `application/json`.
pub open spec fn top_type_wildcard(media_type: Seq<u8>) -> Seq<u8> {
    top_type(media_type) + seq![47u8, 42u8]
}

/// What a client may ask for when the server produces `producible`: either
/// wildcard, each producible media type, and the wildcard of each one's
/// top-level type, in this order.
pub open spec fn acceptable(producible: Seq<Seq<u8>>) -> Seq<Seq<u8>> {
    seq![wildcard(), double_wildcard()] + producible + Seq::new(
        producible.len(),
        |i: int| top_type_wildcard(producible[i]),
    )
}

/// The outcome of the negotiation. Without an `Accept` header the client gets
/// `minimum`. An acceptable header is echoed back as it came, and one that
/// cannot be read as text gives `minimum`. Any other header is refused.
pub open spec fn negotiated(
    minimum: Seq<char>,
    accept: Option<Seq<u8>>,
    producible: Seq<Seq<u8>>,
) -> Result<Seq<char>, GraphErrorView> {
    match accept {
        None => Ok(minimum),
        Some(wanted) => if acceptable(producible).contains(wanted) {
            if all_visible(wanted) {
                Ok(as_text(wanted))
            } else {
                Ok(minimum)
            }
        } else {
            Err(GraphErrorView::InvalidContentType)
        },
    }
}

/// The value of one header field: octets, none of which is a control
/// character other than the tab.
#[derive(Debug)]
pub struct FieldValue {
    bytes: Vec<u8>,
}

impl View for FieldValue {
    type V = Seq<u8>;

    closed spec fn view(&self) -> Seq<u8> {
        self.bytes@
    }
}

impl FieldValue {
    #[verifier::type_invariant]
    spec fn valid(&self) -> bool {
        all_field_octets(self.bytes@)
    }

    /// The field value made of the octets `src`, if each of them may stand in
    /// one.
    pub fn from_bytes(src: &[u8]) -> (r: Option<FieldValue>)
        ensures
            r is Some <==> all_field_octets(src@),
            r matches Some(v) ==> v@ == src@,
    {
        let mut bytes: Vec<u8> = Vec::new();
        let mut i: usize = 0;
        while i < src.len()
            invariant
                i <= src.len(),
                bytes@ == src@.take(i as int),
                all_field_octets(bytes@),
            decreases src.len() - i,
        {
            let b = src[i];
            if !((b >= 32 && b != 127) || b == 9) {
                return None;
            }
            bytes.push(b);
            assert(bytes@ =~= src@.take(i + 1));
            i = i + 1;
        }
        assert(src@.take(i as int) =~= src@);
        Some(FieldValue { bytes })
    }

    /// The field value made of the UTF-8 encoding of `src`, if each of its
    /// octets may stand in one.
    pub fn from_str(src: &str) -> (r: Option<FieldValue>)
        ensures
            r is Some <==> all_field_octets(vstd::utf8::encode_utf8(src@)),
            r matches Some(v) ==> v@ == vstd::utf8::encode_utf8(src@),
    {
        FieldValue::from_bytes(src.as_bytes())
    }

    /// The octets of the value, each of which may stand in a header field.
    pub fn as_bytes(&self) -> (r: &Vec<u8>)
        ensures
            r@ == self@,
            all_field_octets(self@),
    {
        proof {
            use_type_invariant(self);
        }
        &self.bytes
    }

    /// The value as text, if it can be read as text.
    pub fn to_str(&self) -> (r: Option<String>)
        ensures
            r is Some <==> all_visible(self@),
            r matches Some(s) ==> s@ == as_text(self@),
    {
        let mut text = String::new();
        let mut i: usize = 0;
        while i < self.bytes.len()
            invariant
                i <= self.bytes.len(),
                all_visible(self.bytes@.take(i as int)),
                text@ == as_text(self.bytes@.take(i as int)),
            decreases self.bytes.len() - i,
        {
            let b = self.bytes[i];
            if !((b >= 32 && b < 127) || b == 9) {
                return None;
            }
            push_char(&mut text, b as char);
            assert(self.bytes@.take(i + 1) =~= self.bytes@.take(i as int).push(b));
            assert(text@ =~= as_text(self.bytes@.take(i + 1)));
            i = i + 1;
        }
        assert(self.bytes@.take(i as int) =~= self.bytes@);
        Some(text)
    }
}

impl Clone for FieldValue {
    fn clone(&self) -> (r: Self)
        ensures
            r@ == self@,
    {
        proof {
            use_type_invariant(self);
        }
        FieldValue { bytes: self.bytes.clone() }
    }
}

impl PartialEq for FieldValue {
    fn eq(&self, other: &Self) -> (r: bool) {
        same_octets(&self.bytes, &other.bytes)
    }
}

impl vstd::std_specs::cmp::PartialEqSpecImpl for FieldValue {
    open spec fn obeys_eq_spec() -> bool {
        true
    }

    open spec fn eq_spec(&self, other: &Self) -> bool {
        self@ == other@
    }
}

/// Whether two vectors hold the same octets.
fn same_octets(a: &Vec<u8>, b: &Vec<u8>) -> (r: bool)
    ensures
        r == (a@ == b@),
{
    if a.len() != b.len() {
        return false;
    }
    let mut i: usize = 0;
    while i < a.len()
        invariant
            i <= a.len(),
            a.len() == b.len(),
            a@.take(i as int) == b@.take(i as int),
        decreases a.len() - i,
    {
        if a[i] != b[i] {
            return false;
        }
        assert(a@.take(i + 1) =~= a@.take(i as int).push(a[i as int]));
        assert(b@.take(i + 1) =~= b@.take(i as int).push(b[i as int]));
        i = i + 1;
    }
    assert(a@.take(i as int) =~= a@);
    assert(b@.take(i as int) =~= b@);
    true
}

/// The wildcard of the top-level type of `media_type`.
pub fn top_type_wildcard_of(media_type: &FieldValue) -> (r: FieldValue)
    ensures
        r@ == top_type_wildcard(media_type@),
{
    let src = &media_type.bytes;
    let mut readable = true;
    let mut i: usize = 0;
    while i < src.len()
        invariant
            i <= src.len(),
            readable == all_visible(src@.take(i as int)),
        decreases src.len() - i,
    {
        let b = src[i];
        assert(src@.take(i + 1) =~= src@.take(i as int).push(b));
        if !((b >= 32 && b < 127) || b == 9) {
            readable = false;
            assert(!is_visible_ascii(src@.take(i + 1)[i as int]));
        }
        i = i + 1;
    }
    assert(src@.take(i as int) =~= src@);
    let mut bytes: Vec<u8> = Vec::new();
    if readable {
        let mut k: usize = 0;
        while k < src.len() && src[k] != 47
            invariant
                k <= src.len(),
                all_visible(src@),
                bytes@ == src@.take(k as int),
                forall|j: int| 0 <= j < k ==> #[trigger] src@[j] != 47u8,
            decreases src.len() - k,
        {
            bytes.push(src[k]);
            assert(bytes@ =~= src@.take(k + 1));
            k = k + 1;
        }
        proof {
            lemma_first_at_is(src@, 47u8, k as nat);
        }
    }
    assert(bytes@ == top_type(media_type@));
    bytes.push(47);
    bytes.push(42);
    assert(bytes@ =~= top_type_wildcard(media_type@));
    FieldValue { bytes }
}

/// Every value a client may send in `Accept`, given what the server produces.
pub fn acceptable_content_types(content_type: &Vec<FieldValue>) -> (r: Vec<FieldValue>)
    ensures
        views(r@) == acceptable(views(content_type@)),
{
    let mut all: Vec<FieldValue> = Vec::new();
    let mut star: Vec<u8> = Vec::new();
    star.push(42);
    let mut star_star: Vec<u8> = Vec::new();
    star_star.push(42);
    star_star.push(47);
    star_star.push(42);
    assert(star@ =~= wildcard());
    assert(star_star@ =~= double_wildcard());
    let any = FieldValue { bytes: star };
    let any_of_any = FieldValue { bytes: star_star };
    let ghost head = seq![wildcard(), double_wildcard()];
    let ghost given = views(content_type@);
    proof {
        lemma_views_push(all@, any);
        lemma_views_push(all@.push(any), any_of_any);
        assert(views(all@) =~= Seq::<Seq<u8>>::empty());
    }
    all.push(any);
    all.push(any_of_any);
    assert(views(all@) =~= head);
    let mut i: usize = 0;
    while i < content_type.len()
        invariant
            i <= content_type.len(),
            given == views(content_type@),
            head == seq![wildcard(), double_wildcard()],
            views(all@) == head + given.take(i as int),
        decreases content_type.len() - i,
    {
        let next = content_type[i].clone();
        proof {
            lemma_views_push(all@, next);
            assert(given[i as int] == content_type@[i as int]@);
            assert(given.take(i + 1) =~= given.take(i as int).push(given[i as int]));
        }
        all.push(next);
        assert(views(all@) =~= head + given.take(i + 1));
        i = i + 1;
    }
    assert(given.take(i as int) =~= given);
    let ghost tops = Seq::new(given.len(), |i: int| top_type_wildcard(given[i]));
    let mut j: usize = 0;
    while j < content_type.len()
        invariant
            j <= content_type.len(),
            given == views(content_type@),
            tops == Seq::new(given.len(), |i: int| top_type_wildcard(given[i])),
            views(all@) == head + given + tops.take(j as int),
        decreases content_type.len() - j,
    {
        let next = top_type_wildcard_of(&content_type[j]);
        proof {
            lemma_views_push(all@, next);
            assert(given[j as int] == content_type@[j as int]@);
            assert(tops.take(j + 1) =~= tops.take(j as int).push(tops[j as int]));
        }
        all.push(next);
        assert(views(all@) =~= head + given + tops.take(j + 1));
        j = j + 1;
    }
    assert(tops.take(j as int) =~= tops);
    all
}

/// Makes sure the client can accept a media type the server produces, and
/// says which media type it gets. `accept` is the value of the request's
/// `Accept` header, `content_type` what the server produces. A client without
/// a preference gets the media type of the oldest schema of this service.
pub fn validate_content_type(accept: Option<&FieldValue>, content_type: Vec<FieldValue>) -> (r:
    Result<String, GraphError>)
    ensures
        match r {
            Ok(media_type) => Ok::<Seq<char>, GraphErrorView>(media_type@),
            Err(e) => Err(e@),
        } == negotiated(
            MIN_CINCINNATI_VERSION@,
            match accept {
                Some(v) => Some(v@),
                None => None,
            },
            views(content_type@),
        ),
{
    negotiate(MIN_CINCINNATI_VERSION, accept, content_type)
}

/// Makes sure the client can accept a media type the server produces, and
/// says which media type it gets. A client without a preference gets the
/// default media type of `table`.
pub fn validate_content_type_by(
    table: &VersionTable,
    accept: Option<&FieldValue>,
    content_type: Vec<FieldValue>,
) -> (r: Result<String, GraphError>)
    ensures
        match r {
            Ok(media_type) => Ok::<Seq<char>, GraphErrorView>(media_type@),
            Err(e) => Err(e@),
        } == negotiated(
            table@.default_media_type,
            match accept {
                Some(v) => Some(v@),
                None => None,
            },
            views(content_type@),
        ),
{
    negotiate(table.default_media_type().as_str(), accept, content_type)
}

/// The negotiation, for a client that gets `minimum` where it has no
/// preference.
fn negotiate(minimum: &str, accept: Option<&FieldValue>, content_type: Vec<FieldValue>) -> (r:
    Result<String, GraphError>)
    ensures
        match r {
            Ok(media_type) => Ok::<Seq<char>, GraphErrorView>(media_type@),
            Err(e) => Err(e@),
        } == negotiated(
            minimum@,
            match accept {
                Some(v) => Some(v@),
                None => None,
            },
            views(content_type@),
        ),
{
    let header_value = match accept {
        None => {
            return Ok(String::from_str(minimum));
        },
        Some(v) => v,
    };
    let candidates = acceptable_content_types(&content_type);
    let ghost wanted = header_value@;
    let ghost pool = acceptable(views(content_type@));
    let mut found = false;
    let mut i: usize = 0;
    while i < candidates.len()
        invariant
            i <= candidates.len(),
            wanted == header_value@,
            views(candidates@) == pool,
            found <==> exists|k: int| 0 <= k < i && #[trigger] pool[k] == wanted,
        decreases candidates.len() - i,
    {
        let hit = same_octets(&candidates[i].bytes, &header_value.bytes);
        assert(pool[i as int] == candidates@[i as int]@);
        found = found || hit;
        i = i + 1;
    }
    if found {
        match header_value.to_str() {
            Some(media_type) => Ok(media_type),
            None => Ok(String::from_str(minimum)),
        }
    } else {
        Err(GraphError::InvalidContentType)
    }
}

/// A client that states no preference gets the minimum media type, whatever
/// the server produces.
pub proof fn lemma_no_preference_gets_minimum(minimum: Seq<char>, producible: Seq<Seq<u8>>)
    ensures
        negotiated(minimum, None, producible) == Ok::<Seq<char>, GraphErrorView>(minimum),
{
}

/// Either wildcard is accepted, whatever the server produces, and echoed.
pub proof fn lemma_wildcards_accepted(minimum: Seq<char>, producible: Seq<Seq<u8>>)
    ensures
        negotiated(minimum, Some(wildcard()), producible) == Ok::<Seq<char>, GraphErrorView>(
            as_text(wildcard()),
        ),
        negotiated(minimum, Some(double_wildcard()), producible) == Ok::<
            Seq<char>,
            GraphErrorView,
        >(as_text(double_wildcard())),
{
    let pool = acceptable(producible);
    assert(pool[0] == wildcard());
    assert(pool[1] == double_wildcard());
}

/// A client that asks for a media type the server produces gets it, named as
/// the client named it, if the name can be read as text.
pub proof fn lemma_producible_accepted(
    minimum: Seq<char>,
    producible: Seq<Seq<u8>>,
    wanted: Seq<u8>,
)
    requires
        producible.contains(wanted),
        all_visible(wanted),
    ensures
        negotiated(minimum, Some(wanted), producible) == Ok::<Seq<char>, GraphErrorView>(
            as_text(wanted),
        ),
{
    let k = choose|k: int| 0 <= k < producible.len() && producible[k] == wanted;
    assert(acceptable(producible)[k + 2] == wanted);
}

/// A client that asks for every subtype of the top-level type of a media type
/// the server produces is echoed its wildcard.
pub proof fn lemma_top_type_wildcard_accepted(
    minimum: Seq<char>,
    producible: Seq<Seq<u8>>,
    media_type: Seq<u8>,
)
    requires
        producible.contains(media_type),
    ensures
        negotiated(minimum, Some(top_type_wildcard(media_type)), producible) == Ok::<
            Seq<char>,
            GraphErrorView,
        >(as_text(top_type_wildcard(media_type))),
{
    let k = choose|k: int| 0 <= k < producible.len() && producible[k] == media_type;
    let wanted = top_type_wildcard(media_type);
    assert(acceptable(producible)[producible.len() + k + 2] == wanted);
    lemma_first_at(media_type, 47u8);
    assert forall|i: int| 0 <= i < wanted.len() implies is_visible_ascii(#[trigger] wanted[i]) by {
        if i < top_type(media_type).len() {
            assert(wanted[i] == media_type[i]);
        }
    }
}

/// A header that is neither a wildcard, nor a media type the server produces,
/// nor the wildcard of the top-level type of one, is refused.
pub proof fn lemma_mismatch_refused(minimum: Seq<char>, producible: Seq<Seq<u8>>, wanted: Seq<u8>)
    requires
        wanted != wildcard(),
        wanted != double_wildcard(),
        forall|k: int|
            0 <= k < producible.len() ==> #[trigger] producible[k] != wanted && top_type_wildcard(
                producible[k],
            ) != wanted,
    ensures
        negotiated(minimum, Some(wanted), producible) == Err::<Seq<char>, GraphErrorView>(
            GraphErrorView::InvalidContentType,
        ),
{
    let pool = acceptable(producible);
    assert forall|i: int| 0 <= i < pool.len() implies pool[i] != wanted by {
        if 2 <= i < 2 + producible.len() {
            assert(pool[i] == producible[i - 2]);
        } else if i >= 2 + producible.len() {
            assert(pool[i] == top_type_wildcard(producible[i - 2 - producible.len()]));
        }
    }
}

} // verus!

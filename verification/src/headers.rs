//! Trusted surface over the header container of the `http` crate.
//!
//! The container is modelled as a map from a header name (its lower-case
//! character sequence) to the ordered sequence of the texts of its values.
//! Every mutation goes through the wrappers here, which admit only names and
//! values that the container can store and read back unchanged, so a map
//! built through them always reads back exactly what the model says.
//!
//! The container refuses growth beyond an internal limit: its slot table
//! doubles as entries arrive and may never exceed `1 << 15` slots.  With
//! fewer than `HEADER_CAP` values stored (and hence fewer distinct names),
//! every growth step stays within that limit, so insertion cannot fail; the
//! wrappers that add a value therefore require the count to be below
//! `HEADER_CAP` and the callers keep it there.
use vstd::prelude::*;

use crate::chars::{lower_name, valid_header_name, valid_header_value};

verus! {

/// Strict bound on the number of stored values under which the header
/// container is always willing to take one more.
pub const HEADER_CAP: usize = 4096;

#[verifier::external_type_specification]
#[verifier::external_body]
#[verifier::reject_recursive_types(T)]
pub struct ExHeaderMap<T>(http::HeaderMap<T>);

#[verifier::external_type_specification]
#[verifier::external_body]
pub struct ExHeaderValue(http::header::HeaderValue);

#[verifier::external_type_specification]
#[verifier::external_body]
pub struct ExHeaderName(http::header::HeaderName);

/// What the container holds: for each name present, the ordered texts of its
/// values.  A value whose bytes are not readable as text contributes the
/// empty sequence; the wrappers below never store such a value.
pub uninterp spec fn hm_model(m: http::HeaderMap<http::header::HeaderValue>) -> Map<
    Seq<char>,
    Seq<Seq<char>>,
>;

/// The number of values the container holds, over all names.
pub uninterp spec fn hm_count(m: http::HeaderMap<http::header::HeaderValue>) -> nat;

/// The (lower-case) character sequence of a header name.
pub uninterp spec fn hn_chars(n: http::header::HeaderName) -> Seq<char>;

/// The model of a container with nothing in it.
pub open spec fn hm_empty_model() -> Map<Seq<char>, Seq<Seq<char>>> {
    Map::empty()
}

/// `m` with `v` appended to the values of `k`.
pub open spec fn hm_append_model(
    m: Map<Seq<char>, Seq<Seq<char>>>,
    k: Seq<char>,
    v: Seq<char>,
) -> Map<Seq<char>, Seq<Seq<char>>> {
    if m.contains_key(k) {
        m.insert(k, m[k].push(v))
    } else {
        m.insert(k, seq![v])
    }
}

/// Every value under every name of `m` may stand in a header value.
pub open spec fn hm_all_values_valid(m: Map<Seq<char>, Seq<Seq<char>>>) -> bool {
    forall|k: Seq<char>, i: int|
        m.contains_key(k) && 0 <= i < m[k].len() ==> valid_header_value(#[trigger] m[k][i])
}

/// Relies on `http::HeaderMap::new`: the new map is empty.
#[verifier::external_body]
pub fn hm_new() -> (m: http::HeaderMap<http::header::HeaderValue>)
    ensures
        hm_model(m) == hm_empty_model(),
        hm_count(m) == 0,
{
    http::HeaderMap::new()
}

/// Relies on `http::HeaderMap::try_append`: the value is pushed to the end
/// of the list held under the name, and the map takes one more value while
/// under its growth limit.
#[verifier::external_body]
pub fn hm_append(
    m: &mut http::HeaderMap<http::header::HeaderValue>,
    name: &http::header::HeaderName,
    value: &str,
)
    requires
        hm_count(*old(m)) < HEADER_CAP,
        valid_header_value(value@),
    ensures
        hm_model(*final(m)) == hm_append_model(hm_model(*old(m)), hn_chars(*name), value@),
        hm_count(*final(m)) == hm_count(*old(m)) + 1,
{
    let v = http::header::HeaderValue::from_str(value).unwrap();
    m.try_append(name.clone(), v).unwrap();
}

/// Relies on `http::HeaderMap::try_insert`: all values previously held
/// under the name are dropped and the new value is the only one left.
#[verifier::external_body]
pub fn hm_insert(
    m: &mut http::HeaderMap<http::header::HeaderValue>,
    name: &http::header::HeaderName,
    value: &str,
)
    requires
        hm_count(*old(m)) < HEADER_CAP,
        valid_header_value(value@),
    ensures
        hm_model(*final(m)) == hm_model(*old(m)).insert(hn_chars(*name), seq![value@]),
        hm_count(*final(m)) == hm_count(*old(m)) + 1 - (if hm_model(*old(m)).contains_key(
            hn_chars(*name),
        ) {
            hm_model(*old(m))[hn_chars(*name)].len()
        } else {
            0
        }),
{
    let v = http::header::HeaderValue::from_str(value).unwrap();
    m.try_insert(name.clone(), v).unwrap();
}

/// Relies on `http::HeaderMap::remove`: the name and all its values leave
/// the map.
#[verifier::external_body]
pub fn hm_remove(m: &mut http::HeaderMap<http::header::HeaderValue>, name: &http::header::HeaderName)
    ensures
        hm_model(*final(m)) == hm_model(*old(m)).remove(hn_chars(*name)),
        hm_count(*final(m)) == hm_count(*old(m)) - (if hm_model(*old(m)).contains_key(
            hn_chars(*name),
        ) {
            hm_model(*old(m))[hn_chars(*name)].len()
        } else {
            0
        }),
{
    let _ = m.remove(name);
}

/// Relies on `http::HeaderMap::contains_key`.
#[verifier::external_body]
pub fn hm_contains(
    m: &http::HeaderMap<http::header::HeaderValue>,
    name: &http::header::HeaderName,
) -> (b: bool)
    ensures
        b == hm_model(*m).contains_key(hn_chars(*name)),
{
    m.contains_key(name)
}

/// Relies on `http::HeaderMap::get_all`: the values held under the name, in
/// the order they were added.
#[verifier::external_body]
pub fn hm_get_all(
    m: &http::HeaderMap<http::header::HeaderValue>,
    name: &http::header::HeaderName,
) -> (r: Vec<String>)
    ensures
        hm_model(*m).contains_key(hn_chars(*name)) ==> r.deep_view() == hm_model(*m)[hn_chars(
            *name,
        )],
        !hm_model(*m).contains_key(hn_chars(*name)) ==> r.deep_view() == Seq::<Seq<char>>::empty(),
{
    m.get_all(name)
        .iter()
        .map(|v| v.to_str().map(|s| s.to_string()).unwrap_or_default())
        .collect()
}

/// Relies on `http::HeaderMap::len`: the number of values stored.
#[verifier::external_body]
pub fn hm_len(m: &http::HeaderMap<http::header::HeaderValue>) -> (n: usize)
    ensures
        n == hm_count(*m),
{
    m.len()
}

/// Relies on `http::HeaderName::from_bytes`: it accepts exactly the
/// non-empty strings of header-name token characters, folding ASCII
/// capitals to lower case.
#[verifier::external_body]
pub fn hn_parse(s: &str) -> (r: Option<http::header::HeaderName>)
    ensures
        r matches Some(n) ==> hn_chars(n) == lower_name(s@),
        (r is Some) == valid_header_name(s@),
{
    http::header::HeaderName::from_bytes(s.as_bytes()).ok()
}

/// Relies on `http::header::SET_COOKIE`: the header name `set-cookie`.
#[verifier::external_body]
pub fn hn_set_cookie() -> (n: http::header::HeaderName)
    ensures
        hn_chars(n) == "set-cookie"@,
{
    http::header::SET_COOKIE
}

/// Relies on `http::header::CONTENT_TYPE`: the header name `content-type`.
#[verifier::external_body]
pub fn hn_content_type() -> (n: http::header::HeaderName)
    ensures
        hn_chars(n) == "content-type"@,
{
    http::header::CONTENT_TYPE
}

/// Relies on `http::header::CONTENT_LENGTH`: the header name
/// `content-length`.
#[verifier::external_body]
pub fn hn_content_length() -> (n: http::header::HeaderName)
    ensures
        hn_chars(n) == "content-length"@,
{
    http::header::CONTENT_LENGTH
}

/// Relies on `http::header::UPGRADE`: the header name `upgrade`.
#[verifier::external_body]
pub fn hn_upgrade() -> (n: http::header::HeaderName)
    ensures
        hn_chars(n) == "upgrade"@,
{
    http::header::UPGRADE
}

} // verus!

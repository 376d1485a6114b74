//! What the HTTP stacks on either side of the relay can represent: header
//! names, header values and status codes. The outbound client and the inbound
//! server each bring their own header types, and a field is only passed on if
//! the next hop's types accept it.

use vstd::prelude::*;

use crate::error::HeaderPart;
use crate::error::RelayError;
use crate::error::RelayErrorView;
use crate::header::folded;
use crate::header::law_case_is_ignored;
use crate::header::law_only_stripped_field_is_dropped;
use crate::header::law_stripped_field_is_gone;
use crate::header::lemma_folded_is_same_name;
use crate::header::retained;
use crate::header::Direction;
use crate::header::Header;
use crate::header::HeaderView;

verus! {

/// The longest header name, in octets, that either side accepts.
pub const MAX_NAME_LEN: usize = 65535;

/// The characters of an HTTP token: letters, digits and fifteen marks.
pub open spec fn is_token_octet(b: u8) -> bool {
    ||| 0x30 <= b <= 0x39  // 0-9
    ||| 0x41 <= b <= 0x5a  // A-Z
    ||| 0x61 <= b <= 0x7a  // a-z
    ||| b == 0x21  // !
    ||| b == 0x23  // #
    ||| b == 0x24  // $
    ||| b == 0x25  // %
    ||| b == 0x26  // &
    ||| b == 0x27  // '
    ||| b == 0x2a  // *
    ||| b == 0x2b  // +
    ||| b == 0x2d  // -
    ||| b == 0x2e  // .
    ||| b == 0x5e  // ^
    ||| b == 0x5f  // _
    ||| b == 0x60  // `
    ||| b == 0x7c  // |
    ||| b == 0x7e  // ~
}

/// The header names that the outbound client can hold: tokens of 1 to
/// [`MAX_NAME_LEN`] octets.
pub open spec fn is_client_name(name: Seq<u8>) -> bool {
    &&& 1 <= name.len() <= MAX_NAME_LEN
    &&& forall|i: int| 0 <= i < name.len() ==> is_token_octet(#[trigger] name[i])
}

/// The header names that the inbound server can hold. It is more lenient
/// than the client by one character, the double quote.
pub open spec fn is_server_name(name: Seq<u8>) -> bool {
    &&& 1 <= name.len() <= MAX_NAME_LEN
    &&& forall|i: int|
        0 <= i < name.len() ==> is_token_octet(#[trigger] name[i]) || name[i] == 0x22
}

/// The octets of a header value: tab, and everything from space upwards
/// but delete.
pub open spec fn is_value_octet(b: u8) -> bool {
    b == 0x09 || (b >= 0x20 && b != 0x7f)
}

/// The header values that either side can hold.
pub open spec fn is_value(value: Seq<u8>) -> bool {
    forall|i: int| 0 <= i < value.len() ==> is_value_octet(#[trigger] value[i])
}

/// The status codes that the inbound server can hold.
pub open spec fn is_status(code: u16) -> bool {
    100 <= code < 1000
}

/// Calls `reqwest::header::HeaderName::from_bytes` and hands back the octets
/// of the name it made. The contract claims that the call succeeds exactly on
/// the names of [`is_client_name`], and that the name it makes is the input
/// in lower case.
#[verifier::external_body]
fn client_header_name(raw: &[u8]) -> (name: Option<Vec<u8>>)
    ensures
        match name {
            Some(octets) => is_client_name(raw@) && octets@ == folded(raw@),
            None => !is_client_name(raw@),
        },
{
    match reqwest::header::HeaderName::from_bytes(raw) {
        Ok(name) => Some(name.as_str().as_bytes().to_vec()),
        Err(_) => None,
    }
}

/// Calls `reqwest::header::HeaderValue::from_bytes` and hands back the octets
/// of the value it made. The contract claims that the call succeeds exactly
/// on the values of [`is_value`], and that the value it makes holds the
/// input unchanged.
#[verifier::external_body]
fn client_header_value(raw: &[u8]) -> (value: Option<Vec<u8>>)
    ensures
        match value {
            Some(octets) => is_value(raw@) && octets@ == raw@,
            None => !is_value(raw@),
        },
{
    match reqwest::header::HeaderValue::from_bytes(raw) {
        Ok(value) => Some(value.as_bytes().to_vec()),
        Err(_) => None,
    }
}

/// Calls `actix_web::http::header::HeaderName::from_bytes` and hands back the
/// octets of the name it made. The contract claims that the call succeeds
/// exactly on the names of [`is_server_name`], and that the name it makes is
/// the input in lower case.
#[verifier::external_body]
fn server_header_name(raw: &[u8]) -> (name: Option<Vec<u8>>)
    ensures
        match name {
            Some(octets) => is_server_name(raw@) && octets@ == folded(raw@),
            None => !is_server_name(raw@),
        },
{
    match actix_web::http::header::HeaderName::from_bytes(raw) {
        Ok(name) => Some(name.as_str().as_bytes().to_vec()),
        Err(_) => None,
    }
}

/// Calls `actix_web::http::header::HeaderValue::from_bytes` and hands back
/// the octets of the value it made. The contract claims that the call
/// succeeds exactly on the values of [`is_value`], and that the value it
/// makes holds the input unchanged.
#[verifier::external_body]
fn server_header_value(raw: &[u8]) -> (value: Option<Vec<u8>>)
    ensures
        match value {
            Some(octets) => is_value(raw@) && octets@ == raw@,
            None => !is_value(raw@),
        },
{
    match actix_web::http::header::HeaderValue::from_bytes(raw) {
        Ok(value) => Some(value.as_bytes().to_vec()),
        Err(_) => None,
    }
}

/// Calls `actix_web::http::StatusCode::from_u16` and hands back the number
/// of the status code it made. The contract claims that the call succeeds
/// exactly on the codes of [`is_status`], and keeps the number.
#[verifier::external_body]
fn server_status(code: u16) -> (status: Option<u16>)
    ensures
        status == (if is_status(code) { Some(code) } else { None::<u16> }),
{
    match actix_web::http::StatusCode::from_u16(code) {
        Ok(status) => Some(status.as_u16()),
        Err(_) => None,
    }
}

/// Whether the hop that `direction` leads to can hold `name`.
pub open spec fn name_fits(direction: Direction, name: Seq<u8>) -> bool {
    match direction {
        Direction::RequestBound => is_client_name(name),
        Direction::ResponseBound => is_server_name(name),
    }
}

/// Whether the hop that `direction` leads to can hold the field `h`.
pub open spec fn fits(direction: Direction, h: HeaderView) -> bool {
    name_fits(direction, h.name) && is_value(h.value)
}

/// The field `h` as the next hop holds it: the name in lower case, the value
/// untouched.
pub open spec fn encoded(h: HeaderView) -> HeaderView {
    HeaderView { name: folded(h.name), value: h.value }
}

/// The half of `h` on which encoding for `direction` fails: the name is
/// looked at before the value.
pub open spec fn faulty_part(direction: Direction, h: HeaderView) -> HeaderPart {
    if name_fits(direction, h.name) {
        HeaderPart::Value
    } else {
        HeaderPart::Name
    }
}

/// Encodes one field for the hop that `direction` leads to.
pub fn encode_header(header: &Header, direction: Direction) -> (r: Result<Header, HeaderPart>)
    ensures
        match r {
            Ok(field) => fits(direction, header@) && field@ == encoded(header@),
            Err(part) => !fits(direction, header@) && part == faulty_part(direction, header@),
        },
{
    let name = match direction {
        Direction::RequestBound => client_header_name(header.name.as_slice()),
        Direction::ResponseBound => server_header_name(header.name.as_slice()),
    };
    match name {
        None => Err(HeaderPart::Name),
        Some(name) => {
            let value = match direction {
                Direction::RequestBound => client_header_value(header.value.as_slice()),
                Direction::ResponseBound => server_header_value(header.value.as_slice()),
            };
            match value {
                None => Err(HeaderPart::Value),
                Some(value) => Ok(Header { name, value }),
            }
        },
    }
}

/// A field stands in the way of passing `headers` on when it travels in
/// `direction` and the next hop cannot hold it.
pub open spec fn offends(direction: Direction, h: HeaderView) -> bool {
    !direction.strips(h.name) && !fits(direction, h)
}

/// The place of the first field of `headers` at or behind `from` that
/// [`offends`]; the length of `headers` where there is none.
pub open spec fn offender_from(headers: Seq<HeaderView>, direction: Direction, from: int) -> int
    decreases headers.len() - from,
{
    if from >= headers.len() || offends(direction, headers[from]) {
        from
    } else {
        offender_from(headers, direction, from + 1)
    }
}

/// The header set as the next hop holds it, where every field that travels
/// can be encoded: the stripped field left out, each other field encoded in
/// its place.
pub open spec fn passed_on(headers: Seq<HeaderView>, direction: Direction) -> Seq<HeaderView> {
    retained(headers, direction).map_values(|h: HeaderView| encoded(h))
}

/// What comes of passing `headers` on in `direction`: the set of
/// [`passed_on`], unless a field offends; then the first such field fails the
/// whole set, and the error names it.
pub open spec fn sanitized(headers: Seq<HeaderView>, direction: Direction) -> Result<
    Seq<HeaderView>,
    RelayErrorView,
> {
    let index = offender_from(headers, direction, 0);
    if index < headers.len() {
        Err(
            RelayErrorView::HeaderEncodingError {
                index,
                part: faulty_part(direction, headers[index]),
            },
        )
    } else {
        Ok(passed_on(headers, direction))
    }
}

/// [`offender_from`] finds the first offending field behind `from`, and
/// nothing else.
pub proof fn lemma_offender_from(headers: Seq<HeaderView>, direction: Direction, from: int)
    requires
        0 <= from <= headers.len(),
    ensures
        from <= offender_from(headers, direction, from) <= headers.len(),
        forall|j: int|
            from <= j < offender_from(headers, direction, from) ==> !offends(
                direction,
                #[trigger] headers[j],
            ),
        offender_from(headers, direction, from) < headers.len() ==> offends(
            direction,
            headers[offender_from(headers, direction, from)],
        ),
    decreases headers.len() - from,
{
    if from < headers.len() && !offends(direction, headers[from]) {
        lemma_offender_from(headers, direction, from + 1);
    }
}

/// Prepares `headers` for the hop that `direction` leads to: the stripped
/// field is left out, every other field is encoded in its place, and the
/// first field that cannot be encoded fails the whole set.
pub fn sanitize_headers(headers: &[Header], direction: Direction) -> (r: Result<
    Vec<Header>,
    RelayError,
>)
    ensures
        match r {
            Ok(out) => sanitized(headers.deep_view(), direction) == Ok::<_, RelayErrorView>(
                out.deep_view(),
            ),
            Err(e) => sanitized(headers.deep_view(), direction) == Err::<Seq<HeaderView>, _>(e@),
        },
{
    let ghost source = headers.deep_view();
    let ghost travels = |h: HeaderView| !direction.strips(h.name);
    let ghost encode = |h: HeaderView| encoded(h);
    let mut out: Vec<Header> = Vec::new();
    let mut i: usize = 0;
    proof {
        reveal(Seq::filter);
        assert(source.take(0) =~= Seq::<HeaderView>::empty());
        assert(out.deep_view() =~= Seq::<HeaderView>::empty());
        assert(source.take(0).filter(travels).map_values(encode) =~= Seq::<HeaderView>::empty());
    }
    while i < headers.len()
        invariant
            i <= headers.len(),
            source == headers.deep_view(),
            travels == |h: HeaderView| !direction.strips(h.name),
            encode == |h: HeaderView| encoded(h),
            offender_from(source, direction, 0) == offender_from(source, direction, i as int),
            out.deep_view() == source.take(i as int).filter(travels).map_values(encode),
        decreases headers.len() - i,
    {
        let ghost seen = source.take(i as int);
        let ghost before = out.deep_view();
        let header = &headers[i];
        proof {
            seen.lemma_filter_push(header@, travels);
            assert(source.take(i + 1) =~= seen.push(header@));
            assert(source[i as int] == header@);
        }
        if !direction.drops(header.name.as_slice()) {
            match encode_header(header, direction) {
                Ok(field) => {
                    out.push(field);
                    assert(out.deep_view() =~= before.push(encoded(header@)));
                    assert(seen.filter(travels).push(header@).map_values(encode)
                        =~= seen.filter(travels).map_values(encode).push(encoded(header@)));
                },
                Err(part) => {
                    return Err(RelayError::HeaderEncodingError { index: i, part });
                },
            }
        }
        i += 1;
    }
    assert(source.take(i as int) =~= source);
    Ok(out)
}

/// Checks a status code that the origin sent against what the inbound server
/// can hold.
pub fn check_status(code: u16) -> (r: Result<u16, RelayError>)
    ensures
        match r {
            Ok(status) => is_status(code) && status == code,
            Err(e) => !is_status(code) && e@ == (RelayErrorView::RelayFailure {
                cause: "invalid status code"@,
            }),
        },
{
    match server_status(code) {
        Some(status) => Ok(status),
        None => Err(RelayError::RelayFailure { cause: "invalid status code".to_owned() }),
    }
}

/// The field that `direction` strips is not among those passed on, and
/// encoding neither adds a field nor loses one.
pub proof fn law_stripped_field_never_travels(headers: Seq<HeaderView>, direction: Direction)
    ensures
        passed_on(headers, direction).len() == retained(headers, direction).len(),
        forall|i: int|
            0 <= i < passed_on(headers, direction).len() ==> !direction.strips(
                (#[trigger] passed_on(headers, direction)[i]).name,
            ),
{
    law_stripped_field_is_gone(headers, direction);
    assert forall|i: int| 0 <= i < passed_on(headers, direction).len() implies !direction.strips(
        (#[trigger] passed_on(headers, direction)[i]).name,
    ) by {
        let kept = retained(headers, direction)[i];
        lemma_folded_is_same_name(kept.name);
        law_case_is_ignored(direction, folded(kept.name), kept.name);
    }
}

/// A header set is passed on whole exactly when none of its fields offends.
pub proof fn law_headers_pass_unless_one_offends(headers: Seq<HeaderView>, direction: Direction)
    ensures
        sanitized(headers, direction) is Ok <==> forall|i: int|
            0 <= i < headers.len() ==> !offends(direction, #[trigger] headers[i]),
{
    lemma_offender_from(headers, direction, 0);
}

/// Of a header set that holds the stripped field once, under whatever
/// casing, among other fields that the next hop can hold, exactly those
/// others are passed on, encoded and in their order.
pub proof fn law_all_but_stripped_field_are_passed_on(
    before: Seq<HeaderView>,
    stripped: HeaderView,
    after: Seq<HeaderView>,
    direction: Direction,
)
    requires
        direction.strips(stripped.name),
        forall|i: int|
            0 <= i < before.len() ==> !direction.strips((#[trigger] before[i]).name) && fits(
                direction,
                before[i],
            ),
        forall|i: int|
            0 <= i < after.len() ==> !direction.strips((#[trigger] after[i]).name) && fits(
                direction,
                after[i],
            ),
    ensures
        sanitized(before.push(stripped) + after, direction) == Ok::<_, RelayErrorView>(
            (before + after).map_values(|h: HeaderView| encoded(h)),
        ),
{
    let headers = before.push(stripped) + after;
    law_only_stripped_field_is_dropped(before, stripped, after, direction);
    law_headers_pass_unless_one_offends(headers, direction);
    assert forall|i: int| 0 <= i < headers.len() implies !offends(
        direction,
        #[trigger] headers[i],
    ) by {
        if i < before.len() {
            assert(headers[i] == before[i]);
        } else if i > before.len() {
            assert(headers[i] == after[i - before.len() - 1]);
        }
    }
}

} // verus!

//! Header fields as the relay sees them: an ordered list of name and value
//! pairs, names compared without regard to ASCII case, and the one field
//! that each direction of travel leaves behind.

use vstd::prelude::*;

verus! {

/// One header field, as raw octets.
#[derive(Clone, Debug, PartialEq, Eq)]
pub struct Header {
    pub name: Vec<u8>,
    pub value: Vec<u8>,
}

/// The mathematical content of a [`Header`].
pub struct HeaderView {
    pub name: Seq<u8>,
    pub value: Seq<u8>,
}

impl View for Header {
    type V = HeaderView;

    open spec fn view(&self) -> HeaderView {
        HeaderView { name: self.name@, value: self.value@ }
    }
}

impl DeepView for Header {
    type V = HeaderView;

    open spec fn deep_view(&self) -> HeaderView {
        self@
    }
}

/// The lower-case form of an ASCII letter; every other octet is left alone.
pub open spec fn fold(b: u8) -> u8 {
    if 0x41 <= b <= 0x5a {
        (b + 0x20) as u8
    } else {
        b
    }
}

/// `name` with every ASCII capital replaced by its lower-case letter.
pub open spec fn folded(name: Seq<u8>) -> Seq<u8> {
    Seq::new(name.len(), |i: int| fold(name[i]))
}

/// Two header names denote the same field when they differ at most in the
/// case of ASCII letters.
pub open spec fn same_name(a: Seq<u8>, b: Seq<u8>) -> bool {
    folded(a) == folded(b)
}

/// The octets of a text made of ASCII characters only.
pub open spec fn ascii(text: Seq<char>) -> Seq<u8> {
    Seq::new(text.len(), |i: int| text[i] as u8)
}

/// The way a header set is travelling.
#[derive(Clone, Copy, Debug, PartialEq, Eq, Structural)]
pub enum Direction {
    /// From the caller towards the origin.
    RequestBound,
    /// From the origin back to the caller.
    ResponseBound,
}

impl Direction {
    /// The name of the field that does not travel in this direction.
    pub open spec fn stripped_name(self) -> Seq<u8> {
        match self {
            Direction::RequestBound => ascii("host"@),
            Direction::ResponseBound => ascii("connection"@),
        }
    }

    /// Whether a field called `name` is left behind in this direction.
    pub open spec fn strips(self, name: Seq<u8>) -> bool {
        same_name(name, self.stripped_name())
    }

    /// Decides whether a field called `name` is left behind.
    pub fn drops(self, name: &[u8]) -> (left_behind: bool)
        ensures
            left_behind == self.strips(name@),
    {
        broadcast use vstd::string::is_ascii_spec_bytes;

        match self {
            Direction::RequestBound => {
                let stripped = "host".as_bytes();
                proof {
                    reveal_strlit("host");
                    assert(vstd::string::is_ascii("host"));
                    assert(stripped@ =~= ascii("host"@));
                }
                names_match(name, stripped)
            },
            Direction::ResponseBound => {
                let stripped = "connection".as_bytes();
                proof {
                    reveal_strlit("connection");
                    assert(vstd::string::is_ascii("connection"));
                    assert(stripped@ =~= ascii("connection"@));
                }
                names_match(name, stripped)
            },
        }
    }
}

/// What remains of `headers` once the field that `direction` strips is taken
/// out: every other field, as often as it occurs and in its place.
pub open spec fn retained(headers: Seq<HeaderView>, direction: Direction) -> Seq<HeaderView> {
    headers.filter(|h: HeaderView| !direction.strips(h.name))
}

impl Header {
    /// A header field holding copies of `name` and `value`.
    pub fn new(name: &[u8], value: &[u8]) -> (header: Header)
        ensures
            header@ == (HeaderView { name: name@, value: value@ }),
    {
        Header { name: octets(name), value: octets(value) }
    }

    /// A second header field with the same content.
    pub fn duplicate(&self) -> (copy: Header)
        ensures
            copy@ == self@,
    {
        Header::new(self.name.as_slice(), self.value.as_slice())
    }
}

/// A vector holding the octets of `raw`.
fn octets(raw: &[u8]) -> (copy: Vec<u8>)
    ensures
        copy@ == raw@,
{
    let mut copy: Vec<u8> = Vec::with_capacity(raw.len());
    let mut i: usize = 0;
    while i < raw.len()
        invariant
            i <= raw.len(),
            copy@ == raw@.take(i as int),
        decreases raw.len() - i,
    {
        copy.push(raw[i]);
        i += 1;
    }
    copy
}

/// The lower-case form of `b` where it is an ASCII capital, else `b`.
pub fn fold_octet(b: u8) -> (lower: u8)
    ensures
        lower == fold(b),
{
    if 0x41 <= b && b <= 0x5a {
        b + 0x20
    } else {
        b
    }
}

/// Compares two header names without regard to the case of ASCII letters.
pub fn names_match(a: &[u8], b: &[u8]) -> (same: bool)
    ensures
        same == same_name(a@, b@),
{
    if a.len() != b.len() {
        assert(folded(a@).len() != folded(b@).len());
        return false;
    }
    let mut i: usize = 0;
    while i < a.len()
        invariant
            a.len() == b.len(),
            i <= a.len(),
            forall|j: int| 0 <= j < i ==> fold(a[j]) == fold(b[j]),
        decreases a.len() - i,
    {
        if fold_octet(a[i]) != fold_octet(b[i]) {
            assert(folded(a@)[i as int] != folded(b@)[i as int]);
            return false;
        }
        i += 1;
    }
    assert(folded(a@) =~= folded(b@));
    true
}

/// Copies the fields of `headers` that travel in `direction`, in their order.
pub fn filter_headers(headers: &[Header], direction: Direction) -> (kept: Vec<Header>)
    ensures
        kept.deep_view() == retained(headers.deep_view(), direction),
{
    let ghost travels = |h: HeaderView| !direction.strips(h.name);
    let mut kept: Vec<Header> = Vec::new();
    let mut i: usize = 0;
    assert(headers.deep_view().take(0) =~= Seq::<HeaderView>::empty());
    assert(kept.deep_view() =~= Seq::<HeaderView>::empty());
    proof {
        reveal(Seq::filter);
    }
    while i < headers.len()
        invariant
            i <= headers.len(),
            travels == |h: HeaderView| !direction.strips(h.name),
            kept.deep_view() == headers.deep_view().take(i as int).filter(travels),
        decreases headers.len() - i,
    {
        let ghost seen = headers.deep_view().take(i as int);
        let ghost before = kept.deep_view();
        let header = &headers[i];
        proof {
            seen.lemma_filter_push(header@, travels);
            assert(headers.deep_view().take(i + 1) =~= seen.push(header@));
        }
        if !direction.drops(header.name.as_slice()) {
            kept.push(header.duplicate());
            assert(kept.deep_view() =~= before.push(header@));
        }
        i += 1;
    }
    assert(headers.deep_view().take(i as int) =~= headers.deep_view());
    kept
}

/// No field that `direction` strips is among those that remain.
pub proof fn law_stripped_field_is_gone(headers: Seq<HeaderView>, direction: Direction)
    ensures
        forall|i: int|
            0 <= i < retained(headers, direction).len() ==> !direction.strips(
                (#[trigger] retained(headers, direction)[i]).name,
            ),
{
    let travels = |h: HeaderView| !direction.strips(h.name);
    assert forall|i: int| 0 <= i < retained(headers, direction).len() implies !direction.strips(
        (#[trigger] retained(headers, direction)[i]).name,
    ) by {
        headers.lemma_filter_pred(travels, i);
    }
}

/// What remains of two header sets laid end to end is what remains of the
/// first, followed by what remains of the second: whether a field stays
/// depends on its name alone, not on its place or its neighbours.
pub proof fn law_fields_are_judged_alone(
    first: Seq<HeaderView>,
    second: Seq<HeaderView>,
    direction: Direction,
)
    ensures
        retained(first + second, direction) == retained(first, direction) + retained(
            second,
            direction,
        ),
{
    Seq::filter_distributes_over_add(first, second, |h: HeaderView| !direction.strips(h.name));
}

/// A header set in which no field is stripped remains as it is.
pub proof fn law_other_fields_remain(headers: Seq<HeaderView>, direction: Direction)
    requires
        forall|i: int| 0 <= i < headers.len() ==> !direction.strips((#[trigger] headers[i]).name),
    ensures
        retained(headers, direction) == headers,
    decreases headers.len(),
{
    reveal(Seq::filter);
    if headers.len() > 0 {
        law_other_fields_remain(headers.drop_last(), direction);
        assert(headers.drop_last().push(headers.last()) =~= headers);
    }
}

/// Of a header set that holds the stripped field once, under whatever
/// casing, among any number of other fields, exactly those others remain, in
/// their order.
pub proof fn law_only_stripped_field_is_dropped(
    before: Seq<HeaderView>,
    stripped: HeaderView,
    after: Seq<HeaderView>,
    direction: Direction,
)
    requires
        direction.strips(stripped.name),
        forall|i: int| 0 <= i < before.len() ==> !direction.strips((#[trigger] before[i]).name),
        forall|i: int| 0 <= i < after.len() ==> !direction.strips((#[trigger] after[i]).name),
    ensures
        retained(before.push(stripped) + after, direction) == before + after,
{
    let travels = |h: HeaderView| !direction.strips(h.name);
    law_other_fields_remain(before, direction);
    law_other_fields_remain(after, direction);
    before.lemma_filter_push(stripped, travels);
    law_fields_are_judged_alone(before.push(stripped), after, direction);
}

/// Names that differ only in the case of their letters are stripped alike.
pub proof fn law_case_is_ignored(direction: Direction, a: Seq<u8>, b: Seq<u8>)
    requires
        same_name(a, b),
    ensures
        direction.strips(a) == direction.strips(b),
{
}

/// A name in lower case is the same name, and lowering it again changes
/// nothing.
pub proof fn lemma_folded_is_same_name(name: Seq<u8>)
    ensures
        folded(folded(name)) == folded(name),
        same_name(folded(name), name),
{
    assert(folded(folded(name)) =~= folded(name));
}

} // verus!

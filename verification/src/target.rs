//! Where a request is to go. The caller writes the destination behind the
//! question mark of the URI it asks the relay for, and the relay takes it
//! from there as it stands.

use vstd::prelude::*;
use vstd::std_specs::iter::IteratorSpec;
use vstd::string::StrSliceExecFns;
use vstd::string::StringExecFns;

use crate::error::RelayError;

verus! {

/// The place of the first `mark` in `text` at or behind `from`; the length of
/// `text` where there is none.
pub open spec fn position_from(text: Seq<char>, mark: char, from: int) -> int
    decreases text.len() - from,
{
    if from >= text.len() || text[from] == mark {
        from
    } else {
        position_from(text, mark, from + 1)
    }
}

/// The place of the first `mark` in `text`; the length of `text` where there
/// is none.
pub open spec fn first_position(text: Seq<char>, mark: char) -> int {
    position_from(text, mark, 0)
}

/// The query component of `uri`: what stands between the first question mark
/// and the fragment, or the end. A URI whose first question mark lies in its
/// fragment has none, as has one without a question mark.
pub open spec fn query_of(uri: Seq<char>) -> Option<Seq<char>> {
    let mark = first_position(uri, '?');
    let end = first_position(uri, '#');
    if mark < end {
        Some(uri.subrange(mark + 1, end))
    } else {
        None
    }
}

/// The destination that `uri` names: its query component, where it has one
/// that is not empty.
pub open spec fn target_of(uri: Seq<char>) -> Option<Seq<char>> {
    match query_of(uri) {
        Some(query) if query.len() > 0 => Some(query),
        _ => None,
    }
}

/// [`position_from`] finds the first `mark` behind `from`, and nothing else.
pub proof fn lemma_position_from(text: Seq<char>, mark: char, from: int)
    requires
        0 <= from <= text.len(),
    ensures
        from <= position_from(text, mark, from) <= text.len(),
        forall|j: int| from <= j < position_from(text, mark, from) ==> text[j] != mark,
        position_from(text, mark, from) < text.len() ==> text[position_from(text, mark, from)]
            == mark,
    decreases text.len() - from,
{
    if from < text.len() && text[from] != mark {
        lemma_position_from(text, mark, from + 1);
    }
}

/// A place `at` that holds `mark`, with none before it, is the first position
/// of `mark`; so is the length of a text that holds none.
pub proof fn lemma_first_position_is(text: Seq<char>, mark: char, at: int)
    requires
        0 <= at <= text.len(),
        forall|j: int| 0 <= j < at ==> text[j] != mark,
        at < text.len() ==> text[at] == mark,
    ensures
        first_position(text, mark) == at,
{
    lemma_position_from(text, mark, 0);
}

/// Everything behind the first question mark is the destination, character
/// for character: nothing is decoded, nothing is normalised.
pub proof fn law_target_is_raw_query(path: Seq<char>, query: Seq<char>)
    requires
        !path.contains('?'),
        !path.contains('#'),
        !query.contains('#'),
    ensures
        query_of(path + seq!['?'] + query) == Some(query),
        query.len() > 0 ==> target_of(path + seq!['?'] + query) == Some(query),
        query.len() == 0 ==> target_of(path + seq!['?'] + query) is None,
{
    let uri = path + seq!['?'] + query;
    assert forall|j: int| 0 <= j < path.len() implies uri[j] != '?' && uri[j] != '#' by {
        assert(path.contains(uri[j]));
    }
    assert forall|j: int| 0 <= j < uri.len() implies uri[j] != '#' by {
        if j < path.len() {
            assert(path.contains(uri[j]));
        } else if j > path.len() {
            assert(uri[j] == query[j - path.len() - 1]);
            assert(query.contains(uri[j]));
        }
    }
    lemma_first_position_is(uri, '?', path.len() as int);
    lemma_first_position_is(uri, '#', uri.len() as int);
    assert(uri.subrange(path.len() as int + 1, uri.len() as int) =~= query);
}

/// A URI without a question mark names no destination.
pub proof fn law_no_query_no_target(uri: Seq<char>)
    requires
        !uri.contains('?'),
    ensures
        query_of(uri) is None,
        target_of(uri) is None,
{
    assert forall|j: int| 0 <= j < uri.len() implies uri[j] != '?' by {
        assert(uri.contains(uri[j]));
    }
    lemma_first_position_is(uri, '?', uri.len() as int);
    lemma_position_from(uri, '#', 0);
}

/// Finds the destination that `uri` names, or says that it names none.
pub fn resolve_target(uri: &str) -> (r: Result<String, RelayError>)
    ensures
        match r {
            Ok(target) => target_of(uri@) == Some(target@),
            Err(RelayError::MalformedTarget) => target_of(uri@) is None,
            Err(_) => false,
        },
{
    broadcast use vstd::string::axiom_spec_iter, vstd::string::next_postcondition;

    // The number of characters fits a `usize`, so counting them cannot overflow.
    let length = uri.unicode_len();
    let mut chars = uri.chars();
    let mut mark: Option<usize> = None;
    let mut i: usize = 0;
    let mut end: Option<usize> = None;
    loop
        invariant_except_break
            end is None,
            chars.remaining() == uri@.skip(i as int),
        invariant
            chars.obeys_prophetic_iter_laws(),
            chars.decrease() is Some,
            length == uri@.len(),
            0 <= i <= uri@.len(),
            forall|j: int| 0 <= j < i ==> uri@[j] != '#',
            match mark {
                Some(m) => m < i && first_position(uri@, '?') == m,
                None => forall|j: int| 0 <= j < i ==> uri@[j] != '?',
            },
        ensures
            end matches Some(e) && e <= uri@.len() && first_position(uri@, '#') == e,
            match mark {
                Some(m) => m < end->0 && first_position(uri@, '?') == m,
                None => forall|j: int| 0 <= j < end->0 ==> uri@[j] != '?',
            },
        decreases chars.decrease()->0,
    {
        match chars.next() {
            None => {
                proof {
                    lemma_first_position_is(uri@, '#', i as int);
                }
                end = Some(i);
                break ;
            },
            Some(c) => {
                assert(c == uri@[i as int]);
                if c == '#' {
                    proof {
                        lemma_first_position_is(uri@, '#', i as int);
                    }
                    end = Some(i);
                    break ;
                }
                if c == '?' && mark.is_none() {
                    proof {
                        lemma_first_position_is(uri@, '?', i as int);
                    }
                    mark = Some(i);
                }
                assert(uri@.skip(i as int).drop_first() =~= uri@.skip(i + 1));
                i += 1;
            },
        }
    }
    let end = end.unwrap();
    match mark {
        Some(m) if m + 1 < end => {
            let target = String::from_str(uri.substring_char(m + 1, end));
            Ok(target)
        },
        Some(_) => Err(RelayError::MalformedTarget),
        None => {
            proof {
                lemma_position_from(uri@, '?', 0);
            }
            Err(RelayError::MalformedTarget)
        },
    }
}

} // verus!

//! The contract the aggregator offers the request surface: a story id given
//! as text is validated before any fetch, and a malformed one is rejected as
//! invalid input.

use vstd::prelude::*;
use vstd::string::StrSliceExecFns;
use crate::aggregate::{AggView, AggregateResult, aggregate, aggregate_spec};
use crate::upstream::{AggError, EntryView, Upstream};

verus! {

/// Whether `c` is a decimal digit.
pub open spec fn is_digit(c: char) -> bool {
    '0' as u32 <= c as u32 && c as u32 <= '9' as u32
}

/// Whether `s` consists of decimal digits only.
pub open spec fn all_digits(s: Seq<char>) -> bool {
    forall|j: int| 0 <= j < s.len() ==> is_digit(#[trigger] s[j])
}

/// The numeric value of one digit.
pub open spec fn digit_val(c: char) -> int {
    c as u32 - '0' as u32
}

/// The numeric value of a digit string, most significant digit first.
pub open spec fn digits_val(s: Seq<char>) -> int
    decreases s.len(),
{
    if s.len() == 0 {
        0
    } else {
        digits_val(s.drop_last()) * 10 + digit_val(s.last())
    }
}

/// Parses a story id: a nonempty string of decimal digits whose value fits
/// the id type, and nothing else, is accepted.
pub fn parse_story_id(s: &str) -> (r: Option<u32>)
    ensures
        match r {
            Some(v) => s@.len() > 0 && all_digits(s@) && v == digits_val(s@),
            None => s@.len() == 0 || !all_digits(s@) || digits_val(s@) > u32::MAX,
        },
{
    let len = s.unicode_len();
    if len == 0 {
        return None;
    }
    let mut i: usize = 0;
    let mut acc: u64 = 0;
    let mut too_big = false;
    proof {
        assert(s@.take(0) =~= Seq::<char>::empty());
    }
    while i < len
        invariant
            i <= len,
            len as nat == s@.len(),
            forall|j: int| 0 <= j < i ==> is_digit(#[trigger] s@[j]),
            !too_big ==> acc == digits_val(s@.take(i as int)) && acc <= u32::MAX,
            too_big ==> digits_val(s@.take(i as int)) > u32::MAX,
        decreases len - i,
    {
        let c = s.get_char(i);
        let u = c as u32;
        if u < '0' as u32 || u > '9' as u32 {
            proof {
                assert(!is_digit(s@[i as int]));
            }
            return None;
        }
        let d = (u - '0' as u32) as u64;
        proof {
            assert(s@.take(i as int + 1).drop_last() =~= s@.take(i as int));
            assert(s@.take(i as int + 1).last() == s@[i as int]);
        }
        if !too_big {
            let next = acc * 10 + d;
            if next > u32::MAX as u64 {
                too_big = true;
            } else {
                acc = next;
            }
        }
        i = i + 1;
    }
    proof {
        assert(s@.take(len as int) =~= s@);
    }
    if too_big {
        None
    } else {
        Some(acc as u32)
    }
}

/// What serving a request with the raw id text `id_str` yields: a malformed
/// id is rejected as invalid input before any fetch, a well-formed one is
/// aggregated.
pub open spec fn request_spec(
    s: Seq<EntryView>,
    id_str: Seq<char>,
    max_depth: Option<u32>,
    limit: Option<usize>,
) -> Result<AggView, AggError> {
    if id_str.len() > 0 && all_digits(id_str) && digits_val(id_str) <= u32::MAX {
        aggregate_spec(s, digits_val(id_str) as u32, max_depth, limit)
    } else {
        Err(AggError::InvalidInput)
    }
}

/// Serves one request: validates the raw id text, then aggregates, exactly
/// as `request_spec` states.
pub fn aggregate_request(
    store: &Upstream,
    id_str: &str,
    max_depth: Option<u32>,
    limit: Option<usize>,
) -> (r: Result<AggregateResult, AggError>)
    ensures
        match r {
            Ok(res) => request_spec(store@, id_str@, max_depth, limit) == Ok::<
                AggView,
                AggError,
            >(res@),
            Err(e) => request_spec(store@, id_str@, max_depth, limit) == Err::<
                AggView,
                AggError,
            >(e),
        },
{
    match parse_story_id(id_str) {
        Some(id) => aggregate(store, id, max_depth, limit),
        None => Err(AggError::InvalidInput),
    }
}

} // verus!

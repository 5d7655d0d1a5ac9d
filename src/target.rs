use crate::error::KvmError;
use vstd::prelude::*;

verus! {

/// Every character of `s` is an ASCII decimal digit.
pub open spec fn all_digits(s: Seq<char>) -> bool {
    forall|i: int| 0 <= i < s.len() ==> '0' <= #[trigger] s[i] <= '9'
}

/// The number that the decimal digits `s` spell.
pub open spec fn digits_value(s: Seq<char>) -> int
    decreases s.len(),
{
    if s.len() == 0 {
        0
    } else {
        digits_value(s.drop_last()) * 10 + ((s.last() as u32) - ('0' as u32))
    }
}

/// The value of a decimal integer: an optional `+` or `-` and then one or
/// more digits, nothing else.
pub open spec fn decimal_value(s: Seq<char>) -> Option<int> {
    if s.len() > 1 && s[0] == '-' && all_digits(s.drop_first()) {
        Some(-digits_value(s.drop_first()))
    } else if s.len() > 1 && s[0] == '+' && all_digits(s.drop_first()) {
        Some(digits_value(s.drop_first()))
    } else if s.len() > 0 && all_digits(s) {
        Some(digits_value(s))
    } else {
        None
    }
}

/// What parsing `s` as an `i32` gives: its decimal value where that is one
/// and fits.
pub open spec fn parsed_i32(s: Seq<char>) -> Option<i32> {
    match decimal_value(s) {
        Some(v) => if i32::MIN <= v <= i32::MAX {
            Some(v as i32)
        } else {
            None
        },
        None => None,
    }
}

/// Relies on std's `i32::from_str`, which accepts an optional sign followed
/// by decimal digits, and nothing else, and fails where the value does not
/// fit.
#[verifier::external_body]
fn parse_i32(s: &str) -> (r: Option<i32>)
    ensures
        r == parsed_i32(s@),
{
    s.parse::<i32>().ok()
}

/// The VM that the connector's target argument selects: `None`, meaning any
/// VM, where the argument is absent or empty, and otherwise the process
/// identifier it spells (zero again meaning any VM). An argument that is no
/// `i32` is rejected with `ArgValidation`.
pub fn parse_target(target: Option<&str>) -> (r: Result<Option<i32>, KvmError>)
    ensures
        target.is_none() ==> r == Ok::<Option<i32>, KvmError>(None),
        target matches Some(s) ==> if s@.len() == 0 {
            r == Ok::<Option<i32>, KvmError>(None)
        } else {
            match parsed_i32(s@) {
                Some(p) => r == Ok::<Option<i32>, KvmError>(Some(p)),
                None => r == Err::<Option<i32>, KvmError>(KvmError::ArgValidation),
            }
        },
{
    match target {
        None => Ok(None),
        Some(s) => {
            if s.unicode_len() == 0 {
                Ok(None)
            } else {
                match parse_i32(s) {
                    Some(p) => Ok(Some(p)),
                    None => Err(KvmError::ArgValidation),
                }
            }
        },
    }
}

} // verus!

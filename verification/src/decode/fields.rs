//! The fields of a record: text, ids, genders and account names.
use vstd::prelude::*;

use crate::edupage_types::{account_from_chars, account_name_ok, AccountType, AccountView, Gender};
use crate::json::{JsonModel, JsonValue};
use crate::text::{chars_of, has_prefix, parse_i32, parse_i32_spec, str_eq};
use crate::Educlient;

verus! {

// ---------------------------------------------------------------------
// Fields
// ---------------------------------------------------------------------

/// The text of member `key`, when it is a string.
pub open spec fn text_field(j: JsonModel, key: Seq<char>) -> Option<Seq<char>> {
    j.index(key).as_str()
}

/// The id that member `key` holds as text; `None` when it cannot be read.
pub open spec fn id_field(j: JsonModel, key: Seq<char>) -> Option<i32> {
    match text_field(j, key) {
        Some(s) => parse_i32_spec(s),
        None => None,
    }
}

/// An id that may be missing: absent, not a string, or empty gives no id;
/// outermost `None` when there is text that is no id.
pub open spec fn optional_id_field(j: JsonModel, key: Seq<char>) -> Option<Option<i32>> {
    match text_field(j, key) {
        Some(s) => if s.len() == 0 {
            Some(None)
        } else {
            match parse_i32_spec(s) {
                Some(n) => Some(Some(n)),
                None => None,
            }
        },
        None => Some(None),
    }
}

/// An id that is read whenever member `key` is a string (even an empty
/// one); outermost `None` when that text is no id.
pub open spec fn mapped_id_field(j: JsonModel, key: Seq<char>) -> Option<Option<i32>> {
    match text_field(j, key) {
        Some(s) => match parse_i32_spec(s) {
            Some(n) => Some(Some(n)),
            None => None,
        },
        None => Some(None),
    }
}

/// A gender given by one of two codes; inner `None` for any other text,
/// outermost `None` when member `key` is no string.
pub open spec fn gender_field(j: JsonModel, key: Seq<char>, male: Seq<char>, female: Seq<char>) -> Option<
    Option<Gender>,
> {
    match text_field(j, key) {
        Some(s) => Some(
            if s == male {
                Some(Gender::Male)
            } else if s == female {
                Some(Gender::Female)
            } else {
                None
            },
        ),
        None => None,
    }
}

/// An account named by member `key`.
pub open spec fn account_field(j: JsonModel, key: Seq<char>) -> Option<AccountView> {
    match text_field(j, key) {
        Some(s) => if account_name_ok(s) {
            Some(account_from_chars(s))
        } else {
            None
        },
        None => None,
    }
}

pub(crate) fn text_at(j: &JsonValue, key: &str) -> (r: Option<String>)
    ensures
        match r {
            Some(s) => text_field(j.model(), key@) == Some(s@),
            None => text_field(j.model(), key@) is None,
        },
{
    match j.index(key).as_str() {
        Some(s) => Some(String::from_str(s)),
        None => None,
    }
}

pub(crate) fn id_at(j: &JsonValue, key: &str) -> (r: Option<i32>)
    ensures
        r == id_field(j.model(), key@),
{
    match j.index(key).as_str() {
        Some(s) => parse_i32(s),
        None => None,
    }
}

pub(crate) fn optional_id_at(j: &JsonValue, key: &str) -> (r: Option<Option<i32>>)
    ensures
        r == optional_id_field(j.model(), key@),
{
    match j.index(key).as_str() {
        Some(s) => if s.unicode_len() == 0 {
            Some(None)
        } else {
            match parse_i32(s) {
                Some(n) => Some(Some(n)),
                None => None,
            }
        },
        None => Some(None),
    }
}

pub(crate) fn mapped_id_at(j: &JsonValue, key: &str) -> (r: Option<Option<i32>>)
    ensures
        r == mapped_id_field(j.model(), key@),
{
    match j.index(key).as_str() {
        Some(s) => match parse_i32(s) {
            Some(n) => Some(Some(n)),
            None => None,
        },
        None => Some(None),
    }
}

pub(crate) fn gender_at(j: &JsonValue, key: &str, male: &str, female: &str) -> (r: Option<Option<Gender>>)
    ensures
        r == gender_field(j.model(), key@, male@, female@),
{
    match j.index(key).as_str() {
        Some(s) => Some(
            if str_eq(s, male) {
                Some(Gender::Male)
            } else if str_eq(s, female) {
                Some(Gender::Female)
            } else {
                None
            },
        ),
        None => None,
    }
}

/// Whether an account name can be read (see [`account_name_ok`]).
fn account_name_fits(name: &[char]) -> (r: bool)
    ensures
        r == account_name_ok(name@),
{
    let student = chars_of("Student");
    let teacher = chars_of("Ucitel");
    proof {
        reveal_strlit("Student");
        reveal_strlit("Ucitel");
    }
    let n = name.len();
    if has_prefix(name, student.as_slice()) && !(n > 7 && (name[7] as u32) < 128) {
        return false;
    }
    if has_prefix(name, teacher.as_slice()) && !(n > 6 && (name[6] as u32) < 128) {
        return false;
    }
    true
}

pub(crate) fn account_at(j: &JsonValue, key: &str) -> (r: Option<AccountType>)
    ensures
        match r {
            Some(a) => account_field(j.model(), key@) == Some(a@),
            None => account_field(j.model(), key@) is None,
        },
{
    match j.index(key).as_str() {
        Some(s) => {
            let cs = chars_of(s);
            if account_name_fits(cs.as_slice()) {
                Some(Educlient::account_from_string(String::from_str(s)))
            } else {
                None
            }
        },
        None => None,
    }
}

} // verus!

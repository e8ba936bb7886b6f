//! Reading JSON values by the names and places of what they hold.

use crate::json::JsonView;
use crate::text::decimal;
use vstd::prelude::*;

verus! {

/// The member of an object, where there is an object that has it.
pub open spec fn member(o: Option<JsonView>, key: Seq<char>) -> Option<JsonView> {
    match o {
        Some(JsonView::Object(m)) => if m.contains_key(key) {
            Some(m[key])
        } else {
            None
        },
        _ => None,
    }
}

/// The item of an array, where there is an array that long.
pub open spec fn item(o: Option<JsonView>, i: int) -> Option<JsonView> {
    match o {
        Some(JsonView::Array(v)) => if 0 <= i < v.len() {
            Some(v[i])
        } else {
            None
        },
        _ => None,
    }
}

/// The length of a text and some of its characters. Texts with different marks
/// are different.
pub open spec fn mark(s: Seq<char>) -> (int, char, char, char, char, char) {
    let n = s.len() as int;
    (n, s[0], s[n / 3], s[n / 2], s[3 * n / 4], s[n - 1])
}

pub open spec fn text(s: Seq<char>) -> Option<JsonView> {
    Some(JsonView::Text(s))
}

pub open spec fn number(n: nat) -> Option<JsonView> {
    Some(JsonView::Number(decimal(n)))
}

} // verus!

//! The order of siblings: directories first, names that start with a dot
//! last, and otherwise by name without regard to case.

use crate::text::{has_dot_prefix, lowercase, starts_with_dot, text_less, text_lt};
use crate::text::{lemma_text_lt_asymmetric, lemma_text_lt_total, lemma_text_lt_transitive};
use std::cmp::Ordering;
use vstd::prelude::*;

verus! {

/// The order of two names, compared in lower case.
pub open spec fn name_order(a_name: Seq<char>, b_name: Seq<char>) -> Ordering {
    if text_lt(lowercase(a_name), lowercase(b_name)) {
        Ordering::Less
    } else if text_lt(lowercase(b_name), lowercase(a_name)) {
        Ordering::Greater
    } else {
        Ordering::Equal
    }
}

/// The order of two siblings. A directory comes before a file. Of two of
/// one kind, a name that starts with a dot comes after one that does not.
/// Otherwise the names decide, compared in lower case.
pub open spec fn sibling_order(
    a_is_dir: bool,
    a_name: Seq<char>,
    b_is_dir: bool,
    b_name: Seq<char>,
) -> Ordering {
    if a_is_dir != b_is_dir {
        if a_is_dir {
            Ordering::Less
        } else {
            Ordering::Greater
        }
    } else if starts_with_dot(a_name) != starts_with_dot(b_name) {
        if starts_with_dot(a_name) {
            Ordering::Greater
        } else {
            Ordering::Less
        }
    } else {
        name_order(a_name, b_name)
    }
}

/// The order seen from the other side.
pub open spec fn reversed(o: Ordering) -> Ordering {
    match o {
        Ordering::Less => Ordering::Greater,
        Ordering::Equal => Ordering::Equal,
        Ordering::Greater => Ordering::Less,
    }
}

/// Compares two siblings for the order in which they are shown.
pub fn sort_cmp(a_is_dir: bool, a_name: &str, b_is_dir: bool, b_name: &str) -> (o: Ordering)
    ensures
        o == sibling_order(a_is_dir, a_name@, b_is_dir, b_name@),
{
    if a_is_dir != b_is_dir {
        return if a_is_dir {
            Ordering::Less
        } else {
            Ordering::Greater
        };
    }
    let a_dot = has_dot_prefix(a_name);
    let b_dot = has_dot_prefix(b_name);
    if a_dot != b_dot {
        return if a_dot {
            Ordering::Greater
        } else {
            Ordering::Less
        };
    }
    let a_lower = a_name.to_lowercase();
    let b_lower = b_name.to_lowercase();
    if text_less(a_lower.as_str(), b_lower.as_str()) {
        Ordering::Less
    } else if text_less(b_lower.as_str(), a_lower.as_str()) {
        Ordering::Greater
    } else {
        Ordering::Equal
    }
}

/// Two siblings compare the other way round when they change places.
pub proof fn lemma_sibling_order_reverses(
    a_is_dir: bool,
    a_name: Seq<char>,
    b_is_dir: bool,
    b_name: Seq<char>,
)
    ensures
        sibling_order(b_is_dir, b_name, a_is_dir, a_name) == reversed(
            sibling_order(a_is_dir, a_name, b_is_dir, b_name),
        ),
{
    lemma_text_lt_asymmetric(lowercase(a_name), lowercase(b_name));
}

/// Two siblings compare equal only if they are of one kind and their names
/// are one name in lower case.
pub proof fn lemma_sibling_order_equal(
    a_is_dir: bool,
    a_name: Seq<char>,
    b_is_dir: bool,
    b_name: Seq<char>,
)
    requires
        sibling_order(a_is_dir, a_name, b_is_dir, b_name) == Ordering::Equal,
    ensures
        a_is_dir == b_is_dir,
        starts_with_dot(a_name) == starts_with_dot(b_name),
        lowercase(a_name) == lowercase(b_name),
{
    lemma_text_lt_total(lowercase(a_name), lowercase(b_name));
}

/// The order of siblings is transitive, so that a list sorted by it is in
/// order throughout: every directory before every file, and within each
/// kind the names without a dot before those with one.
pub proof fn lemma_sibling_order_transitive(
    a_is_dir: bool,
    a_name: Seq<char>,
    b_is_dir: bool,
    b_name: Seq<char>,
    c_is_dir: bool,
    c_name: Seq<char>,
)
    requires
        sibling_order(a_is_dir, a_name, b_is_dir, b_name) != Ordering::Greater,
        sibling_order(b_is_dir, b_name, c_is_dir, c_name) != Ordering::Greater,
    ensures
        sibling_order(a_is_dir, a_name, c_is_dir, c_name) != Ordering::Greater,
{
    let a = lowercase(a_name);
    let b = lowercase(b_name);
    let c = lowercase(c_name);
    if a_is_dir == b_is_dir && b_is_dir == c_is_dir && starts_with_dot(a_name) == starts_with_dot(
        b_name,
    ) && starts_with_dot(b_name) == starts_with_dot(c_name) {
        if text_lt(c, a) {
            if text_lt(a, b) {
                lemma_text_lt_transitive(c, a, b);
                lemma_text_lt_asymmetric(b, c);
            } else {
                lemma_text_lt_total(a, b);
                lemma_text_lt_asymmetric(b, c);
            }
        }
    }
}

} // verus!

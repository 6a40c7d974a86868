//! Decisions of the icon-update path: reading the checker's report and the
//! operator's reply. Running the external tools is the caller's business;
//! these rules are pure text predicates.

use vstd::prelude::*;
use vstd::string::*;
use crate::strutil::{contains_str, has_substring, is_space, space_char};

verus! {

/// The checker's report indicates that a version is available: its output
/// carries the quoted version key.
pub open spec fn version_indicated(out: Seq<char>) -> bool {
    has_substring(out, "\"version\""@)
}

/// Scans the update checker's captured output for the version indicator.
pub fn update_available(output: &str) -> (r: bool)
    ensures
        r == version_indicated(output@),
{
    contains_str(output, "\"version\"")
}

/// The operator's reply is affirmative: besides whitespace it is exactly
/// one `y`, of either case.
pub open spec fn affirmative(s: Seq<char>) -> bool {
    exists|i: int|
        0 <= i < s.len() && ((#[trigger] s[i]) == 'y' || s[i] == 'Y') && (forall|j: int|
            0 <= j < s.len() && j != i ==> is_space(#[trigger] s[j]))
}

/// Reads the operator's reply: affirmative exactly when the line, trimmed
/// of whitespace, is a lone case-insensitive `y`.
pub fn wants_update(input: &str) -> (r: bool)
    ensures
        r == affirmative(input@),
{
    let len = input.unicode_len();
    let mut i: usize = 0;
    let mut count: u32 = 0;
    let mut yes = false;
    let ghost mut w: int = 0;
    let ghost mut w2: int = 0;
    while i < len
        invariant
            len == input@.len(),
            i <= len,
            count <= 2,
            count == 0 ==> forall|j: int| 0 <= j < i ==> is_space(#[trigger] input@[j]),
            count == 1 ==> 0 <= w < i && !is_space(input@[w]) && (forall|j: int|
                0 <= j < i && j != w ==> is_space(#[trigger] input@[j])) && yes == (input@[w]
                == 'y' || input@[w] == 'Y'),
            count == 2 ==> 0 <= w < w2 < i && !is_space(input@[w]) && !is_space(input@[w2]),
        decreases len - i,
    {
        let c = input.get_char(i);
        if !space_char(c) {
            if count == 0 {
                proof {
                    w = i as int;
                }
                yes = c == 'y' || c == 'Y';
                count = 1;
            } else if count == 1 {
                proof {
                    w2 = i as int;
                }
                count = 2;
            }
        }
        i += 1;
    }
    if count == 1 && yes {
        proof {
            assert(affirmative(input@)) by {
                assert(0 <= w < input@.len() && (input@[w] == 'y' || input@[w] == 'Y') && (
                forall|j: int| 0 <= j < input@.len() && j != w ==> is_space(
                    #[trigger] input@[j],
                )));
            }
        }
        true
    } else {
        proof {
            assert(!affirmative(input@)) by {
                if count == 0 {
                    assert forall|i2: int|
                        0 <= i2 < input@.len() implies !((#[trigger] input@[i2]) == 'y'
                        || input@[i2] == 'Y') by {
                        assert(is_space(input@[i2]));
                    }
                } else if count == 1 {
                    assert forall|i2: int|
                        0 <= i2 < input@.len() && ((#[trigger] input@[i2]) == 'y'
                        || input@[i2] == 'Y') implies !(forall|j: int|
                        0 <= j < input@.len() && j != i2 ==> is_space(
                            #[trigger] input@[j],
                        )) by {
                        if i2 == w {
                            assert(false);
                        } else {
                            assert(is_space(input@[i2]));
                            assert(false);
                        }
                    }
                } else {
                    assert forall|i2: int|
                        0 <= i2 < input@.len() && ((#[trigger] input@[i2]) == 'y'
                        || input@[i2] == 'Y') implies !(forall|j: int|
                        0 <= j < input@.len() && j != i2 ==> is_space(
                            #[trigger] input@[j],
                        )) by {
                        if i2 != w {
                            assert(!is_space(input@[w]));
                        } else {
                            assert(!is_space(input@[w2]));
                        }
                    }
                }
            }
        }
        false
    }
}

} // verus!

//! Two values written as `a, b`.
use vstd::prelude::*;
use crate::scalar::parses;
use crate::text::{trim_text, trimmed};

verus! {

/// Why a text is not a pair.
#[derive(Debug, Clone, PartialEq, Eq)]
pub enum TupleError {
    /// The text, given here, does not split on a comma into exactly two parts.
    WrongCount(String),
    /// The part before the comma does not read as a value.
    FirstValue,
    /// The part after the comma does not read as a value.
    SecondValue,
}

impl TupleError {
    /// The message shown to the operator.
    pub fn message(&self) -> (r: String)
        ensures
            r@ == match self {
                TupleError::WrongCount(t) => "Invalid tuple: expected two comma-separated values, got '"@
                    + t@ + "'"@,
                TupleError::FirstValue => "Error parsing first value"@,
                TupleError::SecondValue => "Error parsing second value"@,
            },
    {
        match self {
            TupleError::WrongCount(t) => {
                let mut m = String::from_str(
                    "Invalid tuple: expected two comma-separated values, got '",
                );
                m.append(t.as_str());
                m.append("'");
                m
            },
            TupleError::FirstValue => String::from_str("Error parsing first value"),
            TupleError::SecondValue => String::from_str("Error parsing second value"),
        }
    }
}

/// `k` is the position of the one comma in `s`.
pub open spec fn sole_comma_at(s: Seq<char>, k: int) -> bool {
    0 <= k < s.len() && s[k] == ',' && forall|j: int|
        0 <= j < s.len() && j != k ==> #[trigger] s[j] != ','
}

/// `s` holds exactly one comma, so it splits into exactly two parts.
pub open spec fn is_pair_text(s: Seq<char>) -> bool {
    exists|k: int| sole_comma_at(s, k)
}

pub open spec fn comma_index(s: Seq<char>) -> int {
    choose|k: int| sole_comma_at(s, k)
}

/// The trimmed part before the comma.
pub open spec fn first_part(s: Seq<char>) -> Seq<char> {
    trimmed(s.take(comma_index(s)))
}

/// The trimmed part after the comma.
pub open spec fn second_part(s: Seq<char>) -> Seq<char> {
    trimmed(s.skip(comma_index(s) + 1))
}

/// Splits `a, b` into its two trimmed parts; `None` unless `s` holds exactly
/// one comma.
pub fn split_pair(s: &str) -> (r: Option<(String, String)>)
    ensures
        match r {
            Some((a, b)) => is_pair_text(s@) && a@ == first_part(s@) && b@ == second_part(s@),
            None => !is_pair_text(s@),
        },
{
    let n = s.unicode_len();
    let mut i: usize = 0;
    let mut count: usize = 0;
    let mut at: usize = 0;
    while i < n
        invariant
            n == s@.len(),
            i <= n,
            count <= i,
            count == 0 ==> forall|j: int| 0 <= j < i ==> s@[j] != ',',
            count == 1 ==> at < i && s@[at as int] == ',' && forall|j: int|
                0 <= j < i && j != at ==> s@[j] != ',',
            count >= 2 ==> !is_pair_text(s@),
        decreases n - i,
    {
        if s.get_char(i) == ',' {
            if count == 1 {
                assert forall|k: int| !sole_comma_at(s@, k) by {
                    if sole_comma_at(s@, k) {
                        if k == at as int {
                            assert(s@[i as int] == ',');
                        } else {
                            assert(s@[at as int] == ',');
                        }
                    }
                }
            }
            if count < 2 {
                count = count + 1;
            }
            at = i;
        }
        i = i + 1;
    }
    if count != 1 {
        if count == 0 {
            assert forall|k: int| !sole_comma_at(s@, k) by {
                if sole_comma_at(s@, k) {
                    assert(s@[k] == ',');
                }
            }
        }
        return None;
    }
    assert(sole_comma_at(s@, at as int));
    assert(comma_index(s@) == at as int) by {
        let k = comma_index(s@);
        assert(sole_comma_at(s@, k));
        if k != at as int {
            assert(s@[at as int] == ',');
        }
    }
    let head = s.substring_char(0, at);
    let tail = s.substring_char(at + 1, n);
    assert(head@ =~= s@.take(at as int));
    assert(tail@ =~= s@.skip(at + 1));
    Some((trim_text(head), trim_text(tail)))
}

/// Reads two values written `a, b`, each part through `parse_one`.
pub fn parse_tuple<T, F: Fn(&str) -> Option<T>>(s: &str, parse_one: &F) -> (r: Result<
    (T, T),
    TupleError,
>)
    requires
        forall|t: &str| parse_one.requires((t,)),
    ensures
        !is_pair_text(s@) ==> match r {
            Err(TupleError::WrongCount(t)) => t@ == s@,
            _ => false,
        },
        is_pair_text(s@) ==> match r {
            Ok((x, y)) => parses(parse_one, first_part(s@), Some(x)) && parses(
                parse_one,
                second_part(s@),
                Some(y),
            ),
            Err(TupleError::FirstValue) => parses(parse_one, first_part(s@), None),
            Err(TupleError::SecondValue) => (exists|x: T|
                parses(parse_one, first_part(s@), Some(x))) && parses(
                parse_one,
                second_part(s@),
                None,
            ),
            Err(TupleError::WrongCount(_)) => false,
        },
{
    match split_pair(s) {
        None => Err(TupleError::WrongCount(s.to_owned())),
        Some((a, b)) => {
            let a_text = a.as_str();
            let first = parse_one(a_text);
            assert(parses(parse_one, first_part(s@), first));
            match first {
                None => Err(TupleError::FirstValue),
                Some(x) => {
                    let b_text = b.as_str();
                    let second = parse_one(b_text);
                    assert(parses(parse_one, second_part(s@), second));
                    match second {
                        None => Err(TupleError::SecondValue),
                        Some(y) => Ok((x, y)),
                    }
                },
            }
        },
    }
}

/// `s` is a pair whose two parts `f` may read as `v`.
pub open spec fn pair_reads<T, F: Fn(&str) -> Option<T>>(f: &F, s: Seq<char>, v: (T, T)) -> bool {
    is_pair_text(s) && parses(f, first_part(s), Some(v.0)) && parses(f, second_part(s), Some(v.1))
}

/// `s` is no pair, or `f` may refuse one of its parts.
pub open spec fn pair_refused<T, F: Fn(&str) -> Option<T>>(f: &F, s: Seq<char>) -> bool {
    !is_pair_text(s) || parses(f, first_part(s), None::<T>) || parses(f, second_part(s), None::<T>)
}

} // verus!

//! Framing of one progress line into a key and a value.
use vstd::prelude::*;
use crate::text::{find_char, trim, trim_end, trim_end_str, trim_start, trim_start_str, trim_str};

verus! {

/// Whether `i` is the position of the first `=` in `t`.
pub open spec fn first_eq_at(t: Seq<char>, i: int) -> bool {
    0 <= i < t.len() && t[i] == '=' && forall|j: int| 0 <= j < i ==> t[j] != '='
}

/// The key and value of a line: the line is trimmed, split at its first `=`,
/// the key is trimmed at its end and the value at its start. `None` when the
/// trimmed line holds no `=`.
pub open spec fn split_line(line: Seq<char>) -> Option<(Seq<char>, Seq<char>)> {
    let t = trim(line);
    if t.contains('=') {
        let i = choose|i: int| first_eq_at(t, i);
        Some((trim_end(t.subrange(0, i)), trim_start(t.subrange(i + 1, t.len() as int))))
    } else {
        None
    }
}

/// Splits one protocol line into its key and value.
pub fn parse_line<'a>(line: &'a str) -> (r: Option<(&'a str, &'a str)>)
    ensures
        r is None <==> split_line(line@) is None,
        r matches Some((k, v)) ==> split_line(line@) == Some((k@, v@)),
{
    let trimmed = trim_str(line);
    match find_char(trimmed, '=') {
        None => None,
        Some(i) => {
            let n = trimmed.unicode_len();
            let key = trim_end_str(trimmed.substring_char(0, i));
            let value = trim_start_str(trimmed.substring_char(i + 1, n));
            proof {
                let t = trimmed@;
                assert(first_eq_at(t, i as int));
                let c = choose|c: int| first_eq_at(t, c);
                assert(c == i) by {
                    if c < i {
                        assert(t[c] != '=');
                    } else if c > i {
                        assert(t[i as int] != '=');
                    }
                }
            }
            Some((key, value))
        },
    }
}

} // verus!

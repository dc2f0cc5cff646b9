//! Input handling of the command-line producer.

use vstd::prelude::*;
use vstd::string::{StrSliceExecFns, StringExecFns};

verus! {

/// Whether `c` occurs in `s` before position `end`.
pub open spec fn has_char_before(s: Seq<char>, c: char, end: int) -> bool {
    exists|i: int| 0 <= i < end && s[i] == c
}

/// The position of the first colon, if any.
pub open spec fn first_colon(s: Seq<char>) -> Option<int> {
    if has_char_before(s, ':', s.len() as int) {
        Some(choose|i: int| 0 <= i < s.len() && s[i] == ':' && !has_char_before(s, ':', i))
    } else {
        None
    }
}

/// Splits a line at its first colon into key and value; a line without a
/// colon is all value and has no key.
pub fn parse_input_line(line: &str) -> (r: (Option<String>, String))
    ensures
        match first_colon(line@) {
            Some(i) => r.0 matches Some(k) && k@ == line@.take(i) && r.1@ == line@.skip(i + 1),
            None => r.0 is None && r.1@ == line@,
        },
{
    let n = line.unicode_len();
    let mut i: usize = 0;
    while i < n
        invariant
            n == line@.len(),
            i <= n,
            !has_char_before(line@, ':', i as int),
        decreases n - i,
    {
        if line.get_char(i) == ':' {
            let key = String::from_str(line.substring_char(0, i));
            let value = String::from_str(line.substring_char(i + 1, n));
            proof {
                let j = first_colon(line@).unwrap();
                assert(has_char_before(line@, ':', line@.len() as int));
                assert(0 <= j < line@.len() && line@[j] == ':' && !has_char_before(line@, ':', j));
                if j < i {
                    assert(has_char_before(line@, ':', i as int));
                } else if j > i {
                    assert(has_char_before(line@, ':', j));
                }
                assert(line@.subrange(0, i as int) =~= line@.take(i as int));
                assert(line@.subrange(i + 1, n as int) =~= line@.skip(i + 1));
            }
            return (Some(key), value);
        }
        proof {
            assert forall|k: int| 0 <= k < i + 1 implies line@[k] != ':' by {
                if k < i {
                    if line@[k] == ':' {
                        assert(has_char_before(line@, ':', i as int));
                    }
                }
            }
        }
        i = i + 1;
    }
    (None, String::from_str(line))
}

} // verus!

//! Parsing of a helper's captured output: raw bytes are split on line feeds,
//! each line is split at its first `=` into a key and a value, and only the
//! keys `username` and `password` are recognized. A line without a `=`, or
//! whose value is not valid text, is skipped silently; the first occurrence
//! of each recognized key wins.
use vstd::prelude::*;
use vstd::utf8::{decode_utf8, valid_utf8};

use crate::merge::first_fill;

verus! {

/// Position of the first occurrence of `b` in `s`, or the length of `s`
/// when `b` does not occur.
pub open spec fn first_at(s: Seq<u8>, b: u8) -> nat
    decreases s.len(),
{
    if s.len() == 0 {
        0
    } else if s[0] == b {
        0
    } else {
        1 + first_at(s.drop_first(), b)
    }
}

/// `first_at` is pinned by what a scan saw: no occurrence before `m`, and
/// either an occurrence at `m` or the end of the bytes.
pub proof fn lemma_first_at_position(s: Seq<u8>, b: u8, m: nat)
    requires
        m <= s.len(),
        forall|k: int| 0 <= k < m ==> s[k] != b,
        m == s.len() || s[m as int] == b,
    ensures
        first_at(s, b) == m,
    decreases m,
{
    if s.len() == 0 {
    } else if s[0] == b {
        assert(m == 0);
    } else {
        assert(m >= 1);
        assert(forall|k: int| 0 <= k < m - 1 ==> s.drop_first()[k] == s[k + 1]);
        lemma_first_at_position(s.drop_first(), b, (m - 1) as nat);
    }
}

/// The bytes of the key `username`.
pub open spec fn username_bytes() -> Seq<u8> {
    seq![117u8, 115u8, 101u8, 114u8, 110u8, 97u8, 109u8, 101u8]
}

/// The bytes of the key `password`.
pub open spec fn password_bytes() -> Seq<u8> {
    seq![112u8, 97u8, 115u8, 115u8, 119u8, 111u8, 114u8, 100u8]
}

/// The decoded value of one output line: the text after the first `=`, or
/// nothing when the line has no `=` or the value is not valid text.
pub open spec fn line_value(line: Seq<u8>) -> Option<Seq<char>> {
    let e = first_at(line, 61);
    if e >= line.len() {
        None
    } else {
        let v = line.skip(e + 1 as int);
        if valid_utf8(v) {
            Some(decode_utf8(v))
        } else {
            None
        }
    }
}

/// The key of one output line: the bytes before the first `=`.
pub open spec fn line_key(line: Seq<u8>) -> Seq<u8> {
    line.take(first_at(line, 61) as int)
}

/// What one line contributes to the username.
pub open spec fn line_username(line: Seq<u8>) -> Option<Seq<char>> {
    if line_key(line) == username_bytes() {
        line_value(line)
    } else {
        None
    }
}

/// What one line contributes to the password.
pub open spec fn line_password(line: Seq<u8>) -> Option<Seq<char>> {
    if line_key(line) == password_bytes() {
        line_value(line)
    } else {
        None
    }
}

/// What parsing a helper's whole output yields: per field, the first value
/// any line-feed-separated line offers under the matching key.
pub open spec fn parse_reply(out: Seq<u8>) -> (Option<Seq<char>>, Option<Seq<char>>)
    decreases out.len(),
{
    if out.len() == 0 {
        (None, None)
    } else {
        let n = first_at(out, 10);
        let line = out.take(n as int);
        let tail = if n + 1 <= out.len() {
            parse_reply(out.skip(n + 1 as int))
        } else {
            (None, None)
        };
        (first_fill(line_username(line), tail.0), first_fill(line_password(line), tail.1))
    }
}

/// Relies on `String::from_utf8`: it succeeds exactly on valid UTF-8 and
/// yields the decoded text.
#[verifier::external_body]
fn utf8_to_string(bytes: Vec<u8>) -> (ret: Option<String>)
    ensures
        ret is Some <==> valid_utf8(bytes@),
        ret matches Some(s) ==> s@ == decode_utf8(bytes@),
{
    String::from_utf8(bytes).ok()
}

/// The key and value of the line `output[start..end]`, as parsed replies:
/// what the line contributes to the username and to the password.
fn line_fields(output: &Vec<u8>, start: usize, end: usize) -> (ret: (
    Option<String>,
    Option<String>,
))
    requires
        start <= end <= output@.len(),
    ensures
        ret.0.deep_view() == line_username(output@.subrange(start as int, end as int)),
        ret.1.deep_view() == line_password(output@.subrange(start as int, end as int)),
{
    let ghost line = output@.subrange(start as int, end as int);
    let mut j = start;
    while j < end && output[j] != 61
        invariant
            start <= j <= end <= output@.len(),
            forall|k: int| start <= k < j ==> output@[k] != 61,
        decreases end - j,
    {
        j = j + 1;
    }
    proof {
        assert(forall|k: int| 0 <= k < j - start ==> line[k] == output@[start + k]);
        lemma_first_at_position(line, 61, (j - start) as nat);
    }
    if j == end {
        // no `=` on this line: it contributes nothing
        return (None, None);
    }
    let key_len = j - start;
    let is_user = key_len == 8 && output[start] == 117 && output[start + 1] == 115 && output[start
        + 2] == 101 && output[start + 3] == 114 && output[start + 4] == 110 && output[start + 5]
        == 97 && output[start + 6] == 109 && output[start + 7] == 101;
    let is_pass = key_len == 8 && output[start] == 112 && output[start + 1] == 97 && output[start
        + 2] == 115 && output[start + 3] == 115 && output[start + 4] == 119 && output[start + 5]
        == 111 && output[start + 6] == 114 && output[start + 7] == 100;
    proof {
        let key = line_key(line);
        assert(key =~= output@.subrange(start as int, j as int));
        if is_user {
            assert(key =~= username_bytes());
        } else if key == username_bytes() {
            assert(key.len() == 8);
            assert(output@[start as int] == 117) by { assert(key[0] == username_bytes()[0]); }
            assert(output@[start + 1] == 115) by { assert(key[1] == username_bytes()[1]); }
            assert(output@[start + 2] == 101) by { assert(key[2] == username_bytes()[2]); }
            assert(output@[start + 3] == 114) by { assert(key[3] == username_bytes()[3]); }
            assert(output@[start + 4] == 110) by { assert(key[4] == username_bytes()[4]); }
            assert(output@[start + 5] == 97) by { assert(key[5] == username_bytes()[5]); }
            assert(output@[start + 6] == 109) by { assert(key[6] == username_bytes()[6]); }
            assert(output@[start + 7] == 101) by { assert(key[7] == username_bytes()[7]); }
        }
        if is_pass {
            assert(key =~= password_bytes());
        } else if key == password_bytes() {
            assert(key.len() == 8);
            assert(output@[start as int] == 112) by { assert(key[0] == password_bytes()[0]); }
            assert(output@[start + 1] == 97) by { assert(key[1] == password_bytes()[1]); }
            assert(output@[start + 2] == 115) by { assert(key[2] == password_bytes()[2]); }
            assert(output@[start + 3] == 115) by { assert(key[3] == password_bytes()[3]); }
            assert(output@[start + 4] == 119) by { assert(key[4] == password_bytes()[4]); }
            assert(output@[start + 5] == 111) by { assert(key[5] == password_bytes()[5]); }
            assert(output@[start + 6] == 114) by { assert(key[6] == password_bytes()[6]); }
            assert(output@[start + 7] == 100) by { assert(key[7] == password_bytes()[7]); }
        }
    }
    if !is_user && !is_pass {
        return (None, None);
    }
    let mut value: Vec<u8> = Vec::new();
    let mut k = j + 1;
    while k < end
        invariant
            j + 1 <= k <= end <= output@.len(),
            value@ == output@.subrange(j + 1, k as int),
        decreases end - k,
    {
        value.push(output[k]);
        proof {
            assert(value@ =~= output@.subrange(j + 1, k + 1));
        }
        k = k + 1;
    }
    proof {
        assert(value@ =~= line.skip(first_at(line, 61) + 1 as int));
    }
    let decoded = utf8_to_string(value);
    match decoded {
        None => (None, None),
        Some(s) => {
            if is_user {
                (Some(s), None)
            } else {
                (None, Some(s))
            }
        },
    }
}

/// Parse a helper's captured output into the username and password it
/// offered, first occurrence of each key winning.
pub(crate) fn parse_reply_bytes(output: Vec<u8>) -> (ret: (Option<String>, Option<String>))
    ensures
        ret.deep_view() == parse_reply(output@),
{
    let mut user: Option<String> = None;
    let mut pass: Option<String> = None;
    let len = output.len();
    let mut i: usize = 0;
    proof {
        assert(output@.skip(0) =~= output@);
    }
    while i < len
        invariant
            i <= len,
            len == output@.len(),
            parse_reply(output@).0 == first_fill(
                user.deep_view(),
                parse_reply(output@.skip(i as int)).0,
            ),
            parse_reply(output@).1 == first_fill(
                pass.deep_view(),
                parse_reply(output@.skip(i as int)).1,
            ),
        decreases len - i,
    {
        let start = i;
        let mut j = i;
        while j < len && output[j] != 10
            invariant
                start <= j <= len == output@.len(),
                forall|k: int| start <= k < j ==> output@[k] != 10,
            decreases len - j,
        {
            j = j + 1;
        }
        let ghost rest = output@.skip(start as int);
        proof {
            assert(forall|k: int| 0 <= k < j - start ==> rest[k] == output@[start + k]);
            lemma_first_at_position(rest, 10, (j - start) as nat);
            assert(rest.take((j - start) as int) =~= output@.subrange(start as int, j as int));
        }
        let (lu, lp) = line_fields(&output, start, j);
        proof {
            let tail = if j < len {
                parse_reply(output@.skip(j + 1))
            } else {
                (None, None)
            };
            if j < len {
                assert(rest.skip((j - start) + 1) =~= output@.skip(j + 1));
            } else {
                assert(output@.skip(len as int) =~= Seq::<u8>::empty());
            }
            assert(parse_reply(rest).0 == first_fill(
                line_username(output@.subrange(start as int, j as int)),
                tail.0,
            ));
            assert(parse_reply(rest).1 == first_fill(
                line_password(output@.subrange(start as int, j as int)),
                tail.1,
            ));
        }
        if user.is_none() {
            user = lu;
        }
        if pass.is_none() {
            pass = lp;
        }
        if j < len {
            i = j + 1;
        } else {
            i = len;
        }
    }
    proof {
        assert(output@.skip(len as int) =~= Seq::<u8>::empty());
    }
    (user, pass)
}

} // verus!

//! How timestamps are shown.

use crate::text::{replace_char, replaced};
use vstd::prelude::*;
use vstd::utf8::{decode_utf8, encode_utf8, is_char_boundary};

verus! {

/// The bytes of `YYYY-MM-DDTHH:MM:SS`.
pub const SECONDS_LEN: usize = 19;

/// Whether a text can be cut after its seconds: it is shorter, or a character
/// ends there.
pub open spec fn is_cuttable(s: Seq<char>) -> bool {
    encode_utf8(s).len() >= SECONDS_LEN ==> is_char_boundary(encode_utf8(s), SECONDS_LEN as int)
}

pub fn can_be_cut(s: &str) -> (r: bool)
    ensures
        r == is_cuttable(s@),
{
    s.as_bytes().len() < SECONDS_LEN || s.is_char_boundary(SECONDS_LEN)
}

/// A timestamp as far as its seconds.
pub open spec fn to_seconds(s: Seq<char>) -> Seq<char> {
    if encode_utf8(s).len() >= SECONDS_LEN {
        decode_utf8(encode_utf8(s).subrange(0, SECONDS_LEN as int))
    } else {
        s
    }
}

/// A timestamp as `YYYY-MM-DD HH:MM:SS`.
pub open spec fn shown_time(s: Seq<char>) -> Seq<char> {
    replaced(to_seconds(s), 'T', " "@)
}

/// Shows an RFC 3339 timestamp as `YYYY-MM-DD HH:MM:SS`.
pub fn fmt_ts(s: &str) -> (r: String)
    requires
        is_cuttable(s@),
    ensures
        r@ == shown_time(s@),
{
    if s.as_bytes().len() >= SECONDS_LEN {
        let (head, _tail) = s.split_at(SECONDS_LEN);
        proof {
            vstd::utf8::encode_utf8_decode_utf8(head@);
        }
        replace_char(head, 'T', " ")
    } else {
        replace_char(s, 'T', " ")
    }
}

/// A moment is shown to the second, with a blank between the day and the time.
pub proof fn moments_are_shown_to_the_second(s: Seq<char>)
    ensures
        encode_utf8(s).len() < 19 ==> shown_time(s) == replaced(s, 'T', " "@),
        encode_utf8(s).len() >= 19 ==> shown_time(s) == replaced(
            decode_utf8(encode_utf8(s).subrange(0, 19)),
            'T',
            " "@,
        ),
{
}

} // verus!

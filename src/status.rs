//! The status line at the foot of the screen: a prompt followed by the keys
//! pressed, started afresh when it would no longer fit.
use vstd::prelude::*;
use vstd::string::*;
use vstd::utf8::encode_utf8;
use crate::text_width::{repeat, repeat_str};

verus! {

/// Bytes that `s` takes in UTF-8.
pub open spec fn byte_len(s: Seq<char>) -> nat {
    (encode_utf8(s).len() as usize) as nat
}

pub open spec fn prompt() -> Seq<char> {
    seq!['>', ' ']
}

/// `status` with `s` added; once `status` fills the `w` columns it starts
/// again from the prompt.
pub fn format_status(status: String, w: usize, s: &str) -> (r: String)
    ensures
        byte_len(status@) >= w ==> r@ == prompt() + s@,
        byte_len(status@) < w ==> r@ == status@ + s@,
{
    if status.as_str().len() >= w {
        let mut r = String::from_str("> ");
        proof {
            reveal_strlit("> ");
            assert("> "@ =~= prompt());
        }
        r.append(s);
        r
    } else {
        let mut r = status;
        r.append(s);
        r
    }
}

/// `status` padded with spaces to `w` bytes.
pub fn status_line(status: &str, w: usize) -> (r: String)
    ensures
        r@ == status@ + repeat(seq![' '], if w > byte_len(status@) {
            (w - byte_len(status@)) as nat
        } else {
            0nat
        }),
{
    let len = status.len();
    assert(len == byte_len(status@));
    let spacing = if w > len {
        w - len
    } else {
        0
    };
    proof {
        reveal_strlit(" ");
        assert(" "@ =~= seq![' ']);
    }
    let mut r = String::from_str(status);
    let pad = repeat_str(" ", spacing);
    r.append(pad.as_str());
    r
}

} // verus!

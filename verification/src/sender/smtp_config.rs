//! SMTP relay settings and the masked form in which they are shown.

use vstd::prelude::*;
use vstd::string::*;

verus! {

/// What a secret of `len` characters keeps visible at its front.
pub open spec fn visible_head(s: Seq<char>) -> Seq<char> {
    if s.len() <= 2 {
        s
    } else {
        s.take(2)
    }
}

/// What a secret keeps visible at its end: the last two characters, and
/// nothing of a secret that has no more than two.
pub open spec fn visible_tail(s: Seq<char>) -> Seq<char> {
    if s.len() <= 2 {
        Seq::<char>::empty()
    } else {
        s.skip(s.len() - 2)
    }
}

/// The masked form of a secret: its visible head, two stars, its visible tail.
pub open spec fn masked(s: Seq<char>) -> Seq<char> {
    visible_head(s) + seq!['*', '*'] + visible_tail(s)
}

/// Masks `secret` for display.
pub fn mask(secret: &str) -> (out: String)
    ensures
        out@ == masked(secret@),
{
    let len: usize = secret.unicode_len();
    let head_end: usize = if len <= 2 { len } else { 2 };
    let mut out = String::from_str(secret.substring_char(0, head_end));
    proof {
        reveal_strlit("**");
        assert(secret@.subrange(0, head_end as int) =~= visible_head(secret@));
        assert("**"@ =~= seq!['*', '*']);
    }
    out.append("**");
    if len > 2 {
        out.append(secret.substring_char(len - 2, len));
        proof {
            assert(secret@.subrange(len - 2, len as int) =~= visible_tail(secret@));
        }
    } else {
        proof {
            assert(out@ =~= masked(secret@));
        }
    }
    out
}

} // verus!

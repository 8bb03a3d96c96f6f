//! Bookmark tags: a tag is a trimmed, lowercased word of 1 to 30
//! characters drawn from ASCII letters, digits, `_` and `-`; anything
//! else is refused.

use vstd::prelude::*;
use vstd::string::StrSliceExecFns;
use crate::text::{spec_trim, trim_str, push_char};

verus! {

/// Whether a character may stand in a tag: an ASCII letter, a digit,
/// `_` or `-`.
pub open spec fn tag_char_ok(c: char) -> bool {
    let n = c as u32;
    ||| (48 <= n && n <= 57)
    ||| (65 <= n && n <= 90)
    ||| (97 <= n && n <= 122)
    ||| n == 95
    ||| n == 45
}

fn tag_char_ok_x(c: char) -> (r: bool)
    ensures
        r == tag_char_ok(c),
{
    let n = c as u32;
    (48 <= n && n <= 57) || (65 <= n && n <= 90) || (97 <= n && n <= 122) || n == 95 || n == 45
}

/// Whether a trimmed candidate is a well-formed tag body: 1 to 30
/// characters, all from the tag alphabet.
pub open spec fn tag_body_ok(t: Seq<char>) -> bool {
    1 <= t.len() <= 30 && forall|i: int| 0 <= i < t.len() ==> tag_char_ok(#[trigger] t[i])
}

/// The ASCII-lowercased form of a character.
pub open spec fn spec_lower_char(c: char) -> char {
    if 65 <= c as u32 && c as u32 <= 90 {
        (((c as u32) + 32) as u8) as char
    } else {
        c
    }
}

/// The ASCII-lowercased form of a sequence.
pub open spec fn spec_lower(t: Seq<char>) -> Seq<char> {
    Seq::new(t.len(), |i: int| spec_lower_char(t[i]))
}

/// What a candidate tag string becomes: trimmed, refused when empty or
/// not a well-formed tag body, else lowercased.
pub open spec fn spec_tag(s: Seq<char>) -> Result<Seq<char>, ()> {
    let t = spec_trim(s);
    if t.len() == 0 {
        Err(())
    } else if !tag_body_ok(t) {
        Err(())
    } else {
        Ok(spec_lower(t))
    }
}

/// A bookmark tag: the validated, lowercased word.
#[derive(Debug, PartialEq, Eq, Hash)]
pub struct Tag(pub String);

impl Tag {
    /// Validates a candidate tag: trims it, refuses the empty or
    /// ill-formed, and lowercases the rest.
    pub fn try_from(tag: &str) -> (r: Result<Tag, ()>)
        ensures
            match r {
                Ok(t) => spec_tag(tag@) == Ok::<Seq<char>, ()>(t.0@),
                Err(_) => spec_tag(tag@) is Err,
            },
    {
        let t = trim_str(tag);
        let n = t.unicode_len();
        if n == 0 {
            return Err(());
        }
        if n > 30 {
            return Err(());
        }
        let mut i: usize = 0;
        let mut out = String::new();
        while i < n
            invariant
                i <= n,
                n == t@.len(),
                t@ == spec_trim(tag@),
                1 <= n <= 30,
                forall|j: int| 0 <= j < i ==> tag_char_ok(#[trigger] t@[j]),
                out@ == spec_lower(t@).take(i as int),
            decreases n - i,
        {
            let c = t.get_char(i);
            if !tag_char_ok_x(c) {
                return Err(());
            }
            let m = c as u32;
            if 65 <= m && m <= 90 {
                push_char(&mut out, ((m + 32) as u8) as char);
            } else {
                push_char(&mut out, c);
            }
            proof {
                assert(out@ =~= spec_lower(t@).take(i as int + 1));
            }
            i += 1;
        }
        proof {
            assert(out@ =~= spec_lower(t@));
        }
        Ok(Tag(out))
    }
}

} // verus!

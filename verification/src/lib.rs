pub mod arch;
pub mod bytes;
pub mod elf;
pub mod executable;
pub mod laws;
pub mod macho;
pub mod magic;
pub mod pe;

use vstd::prelude::*;
use vstd::string::StrSliceExecFns;

verus! {

/// Whether a character counts as alphabetic.
pub uninterp spec fn is_alpha_char(c: char) -> bool;

/// Relies on char::is_alphabetic: a property of the character alone.
#[verifier::external_body]
fn char_is_alphabetic(c: char) -> (r: bool)
    ensures
        r == is_alpha_char(c),
{
    c.is_alphabetic()
}

/// A leading run of alphabetic characters is followed by a colon: the shape
/// of a drive-letter prefix.
pub open spec fn drive_prefix(s: Seq<char>) -> bool
    decreases s.len(),
{
    if s.len() == 0 {
        false
    } else if is_alpha_char(s[0]) {
        drive_prefix(s.skip(1))
    } else {
        s[0] == ':'
    }
}

/// The path shapes that Windows treats as absolute: a UNC path beginning
/// with two backslashes, or a path whose alphabetic prefix ends in a colon.
pub open spec fn is_windows_absolute(s: Seq<char>) -> bool {
    (s.len() >= 2 && s[0] == '\\' && s[1] == '\\') || drive_prefix(s)
}

pub fn is_windows_absolute_path(path: &str) -> (r: bool)
    ensures
        r == is_windows_absolute(path@),
{
    let n = path.unicode_len();
    if n >= 2 && path.get_char(0) == '\\' && path.get_char(1) == '\\' {
        return true;
    }
    let mut i: usize = 0;
    proof {
        assert(path@.skip(0) =~= path@);
    }
    while i < n
        invariant
            0 <= i <= n,
            n == path@.len(),
            !(path@.len() >= 2 && path@[0] == '\\' && path@[1] == '\\'),
            drive_prefix(path@) == drive_prefix(path@.skip(i as int)),
        decreases n - i,
    {
        let c = path.get_char(i);
        proof {
            assert(path@.skip(i as int)[0] == path@[i as int]);
        }
        if char_is_alphabetic(c) {
            proof {
                assert(path@.skip(i as int).skip(1) =~= path@.skip(i + 1 as int));
            }
            i = i + 1;
        } else {
            return c == ':';
        }
    }
    proof {
        assert(!drive_prefix(path@.skip(n as int)));
    }
    false
}

} // verus!

//! Validation of display names: non-empty, ASCII letters and digits only.

use vstd::prelude::*;
use vstd::string::StrSliceExecFns;

verus! {

/// A character a display name may contain: an ASCII letter or digit.
pub open spec fn is_name_char(c: char) -> bool {
    (48 <= c as u32 && c as u32 <= 57)  // '0' ..= '9'
    || (65 <= c as u32 && c as u32 <= 90)  // 'A' ..= 'Z'
    || (97 <= c as u32 && c as u32 <= 122)  // 'a' ..= 'z'
}

/// A usable display name: non-empty, every character an ASCII letter or digit.
pub open spec fn valid_name_spec(s: Seq<char>) -> bool {
    s.len() >= 1 && forall|i: int| 0 <= i < s.len() ==> is_name_char(#[trigger] s[i])
}

/// A name character lies in the ASCII range.
pub proof fn lemma_name_char_ascii(c: char)
    requires
        is_name_char(c),
    ensures
        '\0' <= c <= '\u{7f}',
{
    assert(c as u32 <= 122);
}

/// Every character of a valid name lies in the ASCII range.
pub proof fn lemma_valid_name_ascii(s: Seq<char>)
    requires
        valid_name_spec(s),
    ensures
        vstd::utf8::is_ascii_chars(s),
{
    assert forall|j: int| 0 <= j < s.len() implies '\0' <= #[trigger] s[j] <= '\u{7f}' by {
        lemma_name_char_ascii(s[j]);
    }
}

/// True iff `name` may be claimed as a display name.
pub fn valid_name(name: &str) -> (r: bool)
    ensures
        r == valid_name_spec(name@),
{
    if !name.is_ascii() {
        proof {
            if valid_name_spec(name@) {
                lemma_valid_name_ascii(name@);
            }
        }
        return false;
    }
    let len = name.unicode_len();
    if len == 0 {
        return false;
    }
    let mut i: usize = 0;
    while i < len
        invariant
            0 <= i <= len,
            len == name@.len(),
            vstd::string::is_ascii(name),
            forall|j: int| 0 <= j < i ==> is_name_char(#[trigger] name@[j]),
        decreases len - i,
    {
        let b = name.get_ascii(i);
        proof {
            assert('\0' <= name@[i as int] <= '\u{7f}');
        }
        if (48 <= b && b <= 57) || (65 <= b && b <= 90) || (97 <= b && b <= 122) {
            proof {
                assert(is_name_char(name@[i as int]));
            }
        } else {
            proof {
                assert(!is_name_char(name@[i as int]));
            }
            return false;
        }
        i = i + 1;
    }
    true
}

} // verus!

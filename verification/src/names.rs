//! The interface-name rule: two or more dot-separated labels of lowercase
//! letters, digits and hyphens; no label starts or ends with a hyphen; the
//! first label must start with a lowercase letter, while later labels may
//! start with a digit. Any uppercase character invalidates the name.

use vstd::prelude::*;

verus! {

pub open spec fn is_lower(c: char) -> bool {
    'a' as int <= c as int && c as int <= 'z' as int
}

pub open spec fn is_digit(c: char) -> bool {
    '0' as int <= c as int && c as int <= '9' as int
}

pub open spec fn is_name_char(c: char) -> bool {
    is_lower(c) || is_digit(c) || c == '-' || c == '.'
}

/// Whether a character sequence is a valid interface name.
pub open spec fn valid_name(s: Seq<char>) -> bool {
    &&& s.len() > 0
    &&& is_lower(s[0])
    &&& s[s.len() - 1] != '.'
    &&& s[s.len() - 1] != '-'
    &&& exists|i: int| 0 <= i < s.len() && s[i] == '.'
    &&& forall|i: int| 0 <= i < s.len() ==> is_name_char(#[trigger] s[i])
    &&& forall|i: int|
        #![trigger s[i]]
        0 <= i < s.len() - 1 ==> {
            &&& (s[i] == '.' ==> s[i + 1] != '.' && s[i + 1] != '-')
            &&& (s[i] == '-' ==> s[i + 1] != '.')
        }
}

fn lower_c(c: char) -> (r: bool)
    ensures
        r == is_lower(c),
{
    let u = c as u32;
    97 <= u && u <= 122
}

fn digit_c(c: char) -> (r: bool)
    ensures
        r == is_digit(c),
{
    let u = c as u32;
    48 <= u && u <= 57
}

fn name_c(c: char) -> (r: bool)
    ensures
        r == is_name_char(c),
{
    lower_c(c) || digit_c(c) || c == '-' || c == '.'
}

/// Decides the interface-name rule.
pub fn check_name(s: &str) -> (r: bool)
    ensures
        r == valid_name(s@),
{
    let n = s.unicode_len();
    if n == 0 {
        return false;
    }
    if !lower_c(s.get_char(0)) {
        return false;
    }
    let last = s.get_char(n - 1);
    if last == '.' || last == '-' {
        return false;
    }
    let mut has_dot = false;
    let mut i: usize = 0;
    while i < n
        invariant
            i <= n,
            n == s@.len(),
            has_dot == exists|j: int| 0 <= j < i && s@[j] == '.',
            forall|j: int| 0 <= j < i ==> is_name_char(#[trigger] s@[j]),
            forall|j: int|
                #![trigger s@[j]]
                0 <= j < i - 1 ==> {
                    &&& (s@[j] == '.' ==> s@[j + 1] != '.' && s@[j + 1] != '-')
                    &&& (s@[j] == '-' ==> s@[j + 1] != '.')
                },
        decreases n - i,
    {
        let c = s.get_char(i);
        if !name_c(c) {
            return false;
        }
        if c == '.' {
            has_dot = true;
        }
        if i > 0 {
            let prev = s.get_char(i - 1);
            if prev == '.' && (c == '.' || c == '-') {
                return false;
            }
            if prev == '-' && c == '.' {
                return false;
            }
        }
        i = i + 1;
    }
    has_dot
}

} // verus!

use vstd::prelude::*;
use crate::text::chars_of;

verus! {

pub open spec fn is_lower(c: char) -> bool {
    'a' <= c && c <= 'z'
}

pub open spec fn is_upper(c: char) -> bool {
    'A' <= c && c <= 'Z'
}

pub open spec fn is_digit(c: char) -> bool {
    '0' <= c && c <= '9'
}

/// Which characters a name may continue with.
#[derive(Clone, Copy)]
pub struct CharClass {
    pub lower: bool,
    pub upper: bool,
    pub digit: bool,
    pub underscore: bool,
}

pub open spec fn in_class(c: char, k: CharClass) -> bool {
    (k.lower && is_lower(c)) || (k.upper && is_upper(c)) || (k.digit && is_digit(c)) || (
    k.underscore && c == '_')
}

/// Every character of `s` from index `start` on is in class `k`.
pub open spec fn tail_in_class(s: Seq<char>, start: int, k: CharClass) -> bool {
    forall|i: int| start <= i < s.len() ==> in_class(#[trigger] s[i], k)
}

/// `[a-z][a-z0-9_]*`
pub open spec fn snake_case(s: Seq<char>) -> bool {
    s.len() >= 1 && is_lower(s[0]) && tail_in_class(
        s,
        1,
        CharClass { lower: true, upper: false, digit: true, underscore: true },
    )
}

/// `_[a-z][a-z0-9_]*`
pub open spec fn private_snake_case(s: Seq<char>) -> bool {
    s.len() >= 2 && s[0] == '_' && is_lower(s[1]) && tail_in_class(
        s,
        2,
        CharClass { lower: true, upper: false, digit: true, underscore: true },
    )
}

/// `[A-Z][A-Z0-9_]*`
pub open spec fn constant_case(s: Seq<char>) -> bool {
    s.len() >= 1 && is_upper(s[0]) && tail_in_class(
        s,
        1,
        CharClass { lower: false, upper: true, digit: true, underscore: true },
    )
}

/// `_[A-Z][A-Z0-9_]*`
pub open spec fn private_constant_case(s: Seq<char>) -> bool {
    s.len() >= 2 && s[0] == '_' && is_upper(s[1]) && tail_in_class(
        s,
        2,
        CharClass { lower: false, upper: true, digit: true, underscore: true },
    )
}

/// `[A-Z][a-zA-Z0-9]*`
pub open spec fn pascal_case(s: Seq<char>) -> bool {
    s.len() >= 1 && is_upper(s[0]) && tail_in_class(
        s,
        1,
        CharClass { lower: true, upper: true, digit: true, underscore: false },
    )
}

/// The name starts with an underscore.
pub open spec fn starts_with_underscore(s: Seq<char>) -> bool {
    s.len() >= 1 && s[0] == '_'
}

fn tail_matches(s: &Vec<char>, start: usize, k: CharClass) -> (r: bool)
    ensures
        r == tail_in_class(s@, start as int, k),
{
    let mut i = start;
    while i < s.len()
        invariant
            start <= i,
            forall|j: int| start <= j < i && j < s@.len() ==> in_class(#[trigger] s@[j], k),
        decreases s.len() - i,
    {
        let c = s[i];
        let ok = (k.lower && 'a' <= c && c <= 'z') || (k.upper && 'A' <= c && c <= 'Z') || (k.digit
            && '0' <= c && c <= '9') || (k.underscore && c == '_');
        if !ok {
            return false;
        }
        i = i + 1;
    }
    true
}

/// Whether `name` is in snake_case.
pub fn is_snake_case(name: &str) -> (r: bool)
    ensures
        r == snake_case(name@),
{
    let s = chars_of(name);
    s.len() >= 1 && 'a' <= s[0] && s[0] <= 'z' && tail_matches(&s, 1, CharClass { lower: true, upper: false, digit: true, underscore: true })
}

/// Whether `name` is in _private_snake_case.
pub fn is_private_snake_case(name: &str) -> (r: bool)
    ensures
        r == private_snake_case(name@),
{
    let s = chars_of(name);
    s.len() >= 2 && s[0] == '_' && 'a' <= s[1] && s[1] <= 'z' && tail_matches(&s, 2, CharClass { lower: true, upper: false, digit: true, underscore: true })
}

/// Whether `name` is in CONSTANT_CASE.
pub fn is_constant_case(name: &str) -> (r: bool)
    ensures
        r == constant_case(name@),
{
    let s = chars_of(name);
    s.len() >= 1 && 'A' <= s[0] && s[0] <= 'Z' && tail_matches(&s, 1, CharClass { lower: false, upper: true, digit: true, underscore: true })
}

/// Whether `name` is in _PRIVATE_CONSTANT_CASE.
pub fn is_private_constant_case(name: &str) -> (r: bool)
    ensures
        r == private_constant_case(name@),
{
    let s = chars_of(name);
    s.len() >= 2 && s[0] == '_' && 'A' <= s[1] && s[1] <= 'Z' && tail_matches(&s, 2, CharClass { lower: false, upper: true, digit: true, underscore: true })
}

/// Whether `name` is in PascalCase.
pub fn is_pascal_case(name: &str) -> (r: bool)
    ensures
        r == pascal_case(name@),
{
    let s = chars_of(name);
    s.len() >= 1 && 'A' <= s[0] && s[0] <= 'Z' && tail_matches(&s, 1, CharClass { lower: true, upper: true, digit: true, underscore: false })
}

/// Whether `name` starts with an underscore.
pub fn has_underscore_prefix(name: &str) -> (r: bool)
    ensures
        r == starts_with_underscore(name@),
{
    let s = chars_of(name);
    s.len() >= 1 && s[0] == '_'
}

} // verus!

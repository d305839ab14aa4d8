//! Names: case conversion, singular forms, reference targets and field identifiers.

use vstd::prelude::*;
use vstd::string::*;
use inflector::cases::pascalcase::to_pascal_case;
use inflector::string::singularize::to_singular;

verus! {

/// The text `s` in type-name casing: what
/// `inflector::cases::pascalcase::to_pascal_case` returns for it. Nothing is
/// stated of it but that it depends on `s` alone.
pub uninterp spec fn pascal_case(s: Seq<char>) -> Seq<char>;

/// The singular of the text `s`: what
/// `inflector::string::singularize::to_singular` returns for it. Nothing is
/// stated of it but that it depends on `s` alone.
pub uninterp spec fn singular(s: Seq<char>) -> Seq<char>;

/// Trusted, not proved: `inflector::cases::pascalcase::to_pascal_case`
/// returns for every text, and what it returns depends on the characters of
/// its argument alone. It walks them once, with no state but its own locals:
/// letters and digits are kept, the first letter of each word as a capital,
/// and every other character only parts two words.
pub assume_specification[ to_pascal_case ](non_pascalized_string: &str) -> (r: String)
    ensures
        r@ == pascal_case(non_pascalized_string@),
;

/// Trusted, not proved: `inflector::string::singularize::to_singular`
/// returns for every text, and what it returns depends on the characters of
/// its argument alone. It answers from three fixed lists, tried in a fixed
/// order: words without a plural, irregular plurals, and rules on endings.
pub assume_specification[ to_singular ](non_singular_string: &str) -> (r: String)
    ensures
        r@ == singular(non_singular_string@),
;

/// Where the last `/`-delimited segment of `s` begins: just behind the last
/// `/`, or at 0 where `s` holds none.
pub open spec fn segment_start(s: Seq<char>) -> int
    decreases s.len(),
{
    if s.len() == 0 {
        0
    } else if s.last() == '/' {
        s.len() as int
    } else {
        segment_start(s.drop_last())
    }
}

/// Where the first `.` of `s` stands, or the length of `s` where it holds none.
pub open spec fn first_dot(s: Seq<char>) -> int
    decreases s.len(),
{
    if s.len() == 0 {
        0
    } else if first_dot(s.drop_last()) < s.len() - 1 {
        first_dot(s.drop_last())
    } else if s.last() == '.' {
        s.len() - 1
    } else {
        s.len() as int
    }
}

/// The last `/`-delimited segment of `s`.
pub open spec fn last_segment(s: Seq<char>) -> Seq<char> {
    s.subrange(segment_start(s), s.len() as int)
}

/// What stands in `s` before its first `.`.
pub open spec fn stem(s: Seq<char>) -> Seq<char> {
    s.subrange(0, first_dot(s))
}

/// The name that a reference string points to.
pub open spec fn reference_name(reference: Seq<char>) -> Seq<char> {
    pascal_case(stem(last_segment(reference)))
}

/// The identifier that the first entry of `reserved` for `property` gives,
/// if there is one.
pub open spec fn replacement(
    reserved: Seq<(Seq<char>, Seq<char>)>,
    property: Seq<char>,
) -> Option<Seq<char>>
    decreases reserved.len(),
{
    if reserved.len() == 0 {
        None
    } else if reserved[0].0 == property {
        Some(reserved[0].1)
    } else {
        replacement(reserved.drop_first(), property)
    }
}

/// The identifier of the field that stands for `property`: the one that
/// `reserved` gives in its place, or the property's name itself.
pub open spec fn field_identifier(
    reserved: Seq<(Seq<char>, Seq<char>)>,
    property: Seq<char>,
) -> Seq<char> {
    match replacement(reserved, property) {
        Some(identifier) => identifier,
        None => property,
    }
}

/// The name that the field for `property` records beside its identifier:
/// the property's name, where the identifier differs from it.
pub open spec fn field_rename(
    reserved: Seq<(Seq<char>, Seq<char>)>,
    property: Seq<char>,
) -> Option<Seq<char>> {
    if field_identifier(reserved, property) == property {
        None
    } else {
        Some(property)
    }
}

/// The stretch of a reference string that names what it points to: its
/// last `/`-delimited segment, without what follows the first `.` there.
pub fn reference_stem(reference: &str) -> (r: &str)
    ensures
        r@ == stem(last_segment(reference@)),
{
    let len = reference.unicode_len();
    let mut start: usize = 0;
    let mut end: usize = 0;
    let mut n: usize = 0;
    for c in it: reference.chars()
        invariant
            it.seq() == reference@,
            len == reference@.len(),
            n == it.index(),
            start == segment_start(reference@.take(n as int)),
            start <= end <= n <= len,
            end == start + first_dot(reference@.subrange(start as int, n as int)),
    {
        proof {
            let seen = reference@.take(n as int + 1);
            assert(seen.drop_last() == reference@.take(n as int));
            let segment = reference@.subrange(start as int, n as int + 1);
            assert(segment.drop_last() == reference@.subrange(start as int, n as int));
        }
        if c == '/' {
            start = n + 1;
            end = n + 1;
        } else if end == n && c != '.' {
            end = n + 1;
        }
        n = n + 1;
    }
    proof {
        assert(reference@.take(len as int) == reference@);
        let segment = last_segment(reference@);
        assert(stem(segment) == reference@.subrange(start as int, end as int));
    }
    reference.substring_char(start, end)
}

/// The name of the structure that a reference string points to: its stem in
/// type-name casing.
pub fn reference_target(reference: &str) -> (r: String)
    ensures
        r@ == reference_name(reference@),
{
    to_pascal_case(reference_stem(reference))
}

} // verus!

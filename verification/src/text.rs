//! Small operations on strings that the rest of the library shares.

use vstd::prelude::*;
use vstd::string::{StrSliceExecFns, StringExecFns};
use vstd::utf8::*;

verus! {

/// Whether two strings hold the same characters.
pub fn str_eq(a: &str, b: &str) -> (r: bool)
    ensures
        r == (a@ == b@),
{
    let x = a.as_bytes();
    let y = b.as_bytes();
    proof {
        encode_utf8_decode_utf8(a@);
        encode_utf8_decode_utf8(b@);
    }
    if x.len() != y.len() {
        return false;
    }
    let n: usize = x.len();
    let mut i: usize = 0;
    while i < n
        invariant
            n == x@.len(),
            n == y@.len(),
            i <= n,
            forall|k: int| 0 <= k < i ==> x@[k] == y@[k],
            a@ == b@ ==> x@ == y@,
        decreases n - i,
    {
        if x[i] != y[i] {
            return false;
        }
        i = i + 1;
    }
    assert(x@ =~= y@);
    true
}

/// The characters that `char::to_uppercase` gives for a character.
pub uninterp spec fn uppercase_of(c: char) -> Seq<char>;

/// Calls `char::to_uppercase` and collects what it yields. The result
/// depends on the character alone.
#[verifier::external_body]
fn char_to_uppercase(c: char) -> (r: String)
    ensures
        r@ == uppercase_of(c),
{
    c.to_uppercase().collect()
}

/// Whether a character parts the segments of a name.
pub open spec fn is_separator(c: char) -> bool {
    c == '/' || c == '_'
}

/// The name `s` without its separators, where the first character of `s`
/// (if `at_start`) and each character behind a separator is replaced by its
/// upper case.
pub open spec fn camel_case_from(s: Seq<char>, at_start: bool) -> Seq<char>
    decreases s.len(),
{
    if s.len() == 0 {
        Seq::empty()
    } else if is_separator(s[0]) {
        camel_case_from(s.drop_first(), true)
    } else if at_start {
        uppercase_of(s[0]) + camel_case_from(s.drop_first(), false)
    } else {
        seq![s[0]] + camel_case_from(s.drop_first(), false)
    }
}

/// The name in Pascal case: split at `/` and `_`, each segment with its
/// first character in upper case, the segments joined.
pub open spec fn camel_case(s: Seq<char>) -> Seq<char> {
    camel_case_from(s, true)
}

/// Puts a name in Pascal case.
pub fn camel_case_names(name: &str) -> (r: String)
    ensures
        r@ == camel_case(name@),
{
    let n: usize = name.unicode_len();
    let mut out = String::new();
    let mut at_start = true;
    let mut i: usize = 0;
    assert(name@.subrange(0, n as int) =~= name@);
    assert(out@ + camel_case(name@) =~= camel_case(name@));
    while i < n
        invariant
            n == name@.len(),
            i <= n,
            camel_case(name@) == out@ + camel_case_from(name@.subrange(i as int, n as int), at_start),
        decreases n - i,
    {
        let c = name.get_char(i);
        let ghost rest = name@.subrange(i as int, n as int);
        assert(rest[0] == c);
        assert(rest.drop_first() =~= name@.subrange(i + 1, n as int));
        let ghost before = out@;
        if c == '/' || c == '_' {
            at_start = true;
        } else if at_start {
            let up = char_to_uppercase(c);
            out.append(up.as_str());
            at_start = false;
            assert(out@ + camel_case_from(rest.drop_first(), false) =~= before + (uppercase_of(c)
                + camel_case_from(rest.drop_first(), false)));
        } else {
            let one = name.substring_char(i, i + 1);
            assert(one@ =~= seq![c]);
            out.append(one);
            assert(out@ + camel_case_from(rest.drop_first(), false) =~= before + (seq![c]
                + camel_case_from(rest.drop_first(), false)));
        }
        i = i + 1;
    }
    assert(out@ + Seq::<char>::empty() =~= out@);
    out
}

/// Whether a name begins with `@`, as the names of annotations do.
pub fn is_annotation(name: &str) -> (r: bool)
    ensures
        r == spec_is_annotation(name@),
{
    !name.is_empty() && name.get_char(0) == '@'
}

pub open spec fn spec_is_annotation(name: Seq<char>) -> bool {
    name.len() > 0 && name[0] == '@'
}

/// The pieces written one behind the other, with `sep` between each two.
pub open spec fn join(parts: Seq<Seq<char>>, sep: Seq<char>) -> Seq<char>
    decreases parts.len(),
{
    if parts.len() == 0 {
        Seq::empty()
    } else if parts.len() == 1 {
        parts[0]
    } else {
        join(parts.drop_last(), sep) + sep + parts.last()
    }
}

/// The characters of each string.
pub open spec fn strings_view(v: Seq<String>) -> Seq<Seq<char>> {
    Seq::new(v.len(), |i: int| v[i]@)
}

/// Joins strings with a separator between each two.
pub fn join_strings(parts: &Vec<String>, sep: &str) -> (r: String)
    ensures
        r@ == join(strings_view(parts@), sep@),
{
    let mut out = String::new();
    let n: usize = parts.len();
    let mut i: usize = 0;
    while i < n
        invariant
            n == parts@.len(),
            i <= n,
            out@ == join(strings_view(parts@).take(i as int), sep@),
        decreases n - i,
    {
        let ghost done = strings_view(parts@).take(i as int);
        let ghost next = strings_view(parts@).take(i + 1);
        assert(next.drop_last() =~= done);
        assert(next.last() == parts@[i as int]@);
        if i > 0 {
            out.append(sep);
        }
        out.append(parts[i].as_str());
        assert(out@ =~= join(next, sep@));
        i = i + 1;
    }
    assert(strings_view(parts@).take(n as int) =~= strings_view(parts@));
    out
}

/// A copy of a list of strings.
pub fn clone_strings(v: &Vec<String>) -> (r: Vec<String>)
    ensures
        strings_view(r@) == strings_view(v@),
{
    let mut out: Vec<String> = Vec::new();
    let n: usize = v.len();
    let mut i: usize = 0;
    while i < n
        invariant
            n == v@.len(),
            i <= n,
            out@.len() == i,
            forall|k: int| 0 <= k < i ==> out@[k]@ == v@[k]@,
        decreases n - i,
    {
        out.push(v[i].clone());
        i = i + 1;
    }
    assert(strings_view(out@) =~= strings_view(v@));
    out
}

} // verus!

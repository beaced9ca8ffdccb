//! Text helpers: decimal and hexadecimal numerals, Unicode white space and
//! Unix path joining, each with the specification it is proved against.

use vstd::prelude::*;
use vstd::string::*;
use vstd::std_specs::iter::IteratorSpec;

verus! {

/// Appends one character to a string (std `String::push`).
#[verifier::external_body]
pub(crate) fn push_char(s: &mut String, c: char)
    ensures
        final(s)@ == old(s)@.push(c),
{
    s.push(c);
}

/// The character of a hexadecimal digit (lower case), `d < 16`.
pub open spec fn digit_char(d: int) -> char {
    if d == 0 {
        '0'
    } else if d == 1 {
        '1'
    } else if d == 2 {
        '2'
    } else if d == 3 {
        '3'
    } else if d == 4 {
        '4'
    } else if d == 5 {
        '5'
    } else if d == 6 {
        '6'
    } else if d == 7 {
        '7'
    } else if d == 8 {
        '8'
    } else if d == 9 {
        '9'
    } else if d == 10 {
        'a'
    } else if d == 11 {
        'b'
    } else if d == 12 {
        'c'
    } else if d == 13 {
        'd'
    } else if d == 14 {
        'e'
    } else {
        'f'
    }
}

/// Executable form of `digit_char`.
pub fn digit_to_char(d: u64) -> (c: char)
    requires
        d < 16,
    ensures
        c == digit_char(d as int),
{
    if d == 0 {
        '0'
    } else if d == 1 {
        '1'
    } else if d == 2 {
        '2'
    } else if d == 3 {
        '3'
    } else if d == 4 {
        '4'
    } else if d == 5 {
        '5'
    } else if d == 6 {
        '6'
    } else if d == 7 {
        '7'
    } else if d == 8 {
        '8'
    } else if d == 9 {
        '9'
    } else if d == 10 {
        'a'
    } else if d == 11 {
        'b'
    } else if d == 12 {
        'c'
    } else if d == 13 {
        'd'
    } else if d == 14 {
        'e'
    } else {
        'f'
    }
}

/// The numeral of `n` in base `base` (10 or 16), without leading zeros, as
/// `{}` and `{:x}` print it.
pub open spec fn numeral(n: nat, base: nat) -> Seq<char>
    decreases n,
{
    if base < 2 || n < base {
        seq![digit_char(n as int)]
    } else {
        proof {
            assert(n / base < n) by (nonlinear_arith)
                requires
                    base >= 2,
                    n >= base,
            ;
        }
        numeral(n / base, base).push(digit_char((n % base) as int))
    }
}

/// The decimal numeral of `n`.
pub open spec fn decimal(n: nat) -> Seq<char> {
    numeral(n, 10)
}

/// Appends the numeral of `n` in base `base`.
pub fn push_numeral(s: &mut String, n: u64, base: u64)
    requires
        base == 10 || base == 16,
    ensures
        final(s)@ == old(s)@ + numeral(n as nat, base as nat),
    decreases n,
{
    if n >= base {
        push_numeral(s, n / base, base);
    }
    let ghost mid = s@;
    push_char(s, digit_to_char(n % base));
    proof {
        if n >= base {
            assert(s@ =~= old(s)@ + numeral(n as nat, base as nat));
        } else {
            assert(s@ =~= old(s)@ + numeral(n as nat, base as nat));
        }
    }
}

/// The decimal numeral of `n`, as `n.to_string()` gives it.
pub fn decimal_string(n: u64) -> (s: String)
    ensures
        s@ == decimal(n as nat),
{
    let mut s = String::new();
    push_numeral(&mut s, n, 10);
    proof {
        assert(s@ =~= decimal(n as nat));
    }
    s
}

/// Appends a string slice.
pub fn push_str(s: &mut String, t: &str)
    ensures
        final(s)@ == old(s)@ + t@,
{
    s.append(t);
}

/// A copy of a string slice as a `String`.
pub fn to_owned_string(t: &str) -> (s: String)
    ensures
        s@ == t@,
{
    let mut s = String::new();
    push_str(&mut s, t);
    proof {
        assert(s@ =~= t@);
    }
    s
}

/// Unix path joining, as `Path::join` does it: an absolute component
/// replaces the path, otherwise a `/` is put between them unless the path is
/// empty or already ends with one.
pub open spec fn path_join(dir: Seq<char>, comp: Seq<char>) -> Seq<char> {
    if comp.len() > 0 && comp[0] == '/' {
        comp
    } else if dir.len() == 0 || dir.last() == '/' {
        dir + comp
    } else {
        dir + seq!['/'] + comp
    }
}

/// Executable form of `path_join`.
pub fn join_path(dir: &str, comp: &str) -> (p: String)
    ensures
        p@ == path_join(dir@, comp@),
{
    let comp_len = comp.unicode_len();
    let dir_len = dir.unicode_len();
    let mut p = String::new();
    if comp_len > 0 && comp.get_char(0) == '/' {
        push_str(&mut p, comp);
    } else {
        push_str(&mut p, dir);
        if dir_len > 0 && dir.get_char(dir_len - 1) != '/' {
            push_char(&mut p, '/');
        }
        push_str(&mut p, comp);
    }
    proof {
        assert(p@ =~= path_join(dir@, comp@));
    }
    p
}

/// The Unicode `White_Space` property, which `char::is_whitespace` tests.
pub open spec fn is_white_space(c: char) -> bool {
    let u = c as u32;
    ||| 0x9 <= u <= 0xd
    ||| u == 0x20
    ||| u == 0x85
    ||| u == 0xa0
    ||| u == 0x1680
    ||| 0x2000 <= u <= 0x200a
    ||| u == 0x2028
    ||| u == 0x2029
    ||| u == 0x202f
    ||| u == 0x205f
    ||| u == 0x3000
}

/// Executable form of `is_white_space`.
pub fn is_whitespace(c: char) -> (b: bool)
    ensures
        b == is_white_space(c),
{
    let u = c as u32;
    (0x9 <= u && u <= 0xd) || u == 0x20 || u == 0x85 || u == 0xa0 || u == 0x1680 || (0x2000 <= u
        && u <= 0x200a) || u == 0x2028 || u == 0x2029 || u == 0x202f || u == 0x205f || u == 0x3000
}

} // verus!

verus! {

/// The characters of a string slice.
pub fn chars_of(s: &str) -> (v: Vec<char>)
    ensures
        v@ == s@,
{
    broadcast use vstd::string::group_string_axioms;

    let mut v: Vec<char> = Vec::new();
    let mut it = s.chars();
    loop
        invariant
            it.remaining() == s@.skip(v@.len() as int),
            v@.len() <= s@.len(),
            v@ == s@.take(v@.len() as int),
        ensures
            v@ == s@,
        decreases s@.len() - v@.len(),
    {
        let ghost before = it.remaining();
        match it.next() {
            Some(c) => {
                proof {
                    assert(before.len() > 0);
                    assert(c == s@[v@.len() as int]);
                    assert(s@.skip(v@.len() as int).drop_first() =~= s@.skip(v@.len() + 1int));
                    assert(s@.take(v@.len() + 1int) =~= s@.take(v@.len() as int).push(c));
                }
                v.push(c);
            },
            None => {
                proof {
                    assert(before.len() == 0);
                    assert(v@ =~= s@);
                }
                break;
            },
        }
    }
    v
}

} // verus!

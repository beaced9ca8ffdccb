//! Unix path comparison the way `Path`'s `==` does it: by components, so
//! that repeated separators, a trailing separator and `.` components (but
//! a leading one) make no difference.

use vstd::prelude::*;
use vstd::string::*;
use crate::text::push_char;

verus! {

/// The text between separators, in order; `p` has one more part than it
/// has `/` characters.
pub open spec fn split_parts(p: Seq<char>) -> Seq<Seq<char>>
    decreases p.len(),
{
    if p.len() == 0 {
        seq![Seq::empty()]
    } else {
        let s = split_parts(p.drop_last());
        if p.last() == '/' {
            s.push(Seq::empty())
        } else {
            s.update(s.len() - 1, s.last().push(p.last()))
        }
    }
}

/// The path starts at the root.
pub open spec fn has_root(p: Seq<char>) -> bool {
    p.len() > 0 && p[0] == '/'
}

/// Part `i` is a component: empty parts and `.` are dropped, except a `.`
/// that starts a relative path.
pub open spec fn keeps_part(i: int, part: Seq<char>, rooted: bool) -> bool {
    part.len() > 0 && (part != seq!['.'] || (i == 0 && !rooted))
}

/// The components among the first `n` parts.
pub open spec fn kept_parts(parts: Seq<Seq<char>>, n: int, rooted: bool) -> Seq<Seq<char>>
    decreases n,
{
    if n <= 0 {
        Seq::empty()
    } else {
        let rest = kept_parts(parts, n - 1, rooted);
        if keeps_part(n - 1, parts[n - 1], rooted) {
            rest.push(parts[n - 1])
        } else {
            rest
        }
    }
}

/// The components of a path: whether it has a root, and the names of the
/// other components (`.` for a leading current directory, `..` for a
/// parent).
pub open spec fn path_components(p: Seq<char>) -> (bool, Seq<Seq<char>>) {
    (has_root(p), kept_parts(split_parts(p), split_parts(p).len() as int, has_root(p)))
}

/// Two paths are equal as `Path`s.
pub open spec fn same_path(a: Seq<char>, b: Seq<char>) -> bool {
    path_components(a) == path_components(b)
}

proof fn lemma_split_parts_len(p: Seq<char>)
    ensures
        split_parts(p).len() >= 1,
    decreases p.len(),
{
    if p.len() > 0 {
        lemma_split_parts_len(p.drop_last());
    }
}

/// The components of `p`, as strings.
pub fn components(p: &str) -> (r: (bool, Vec<String>))
    ensures
        r.0 == path_components(p@).0,
        r.1.deep_view() == path_components(p@).1,
{
    let len = p.unicode_len();
    let rooted = len > 0 && p.get_char(0) == '/';
    let mut kept: Vec<String> = Vec::new();
    let mut part = String::new();
    let mut index: usize = 0;
    let mut i: usize = 0;
    proof {
        assert(p@.take(0) =~= Seq::<char>::empty());
    }
    while i < len
        invariant
            i <= len,
            len == p@.len(),
            rooted == has_root(p@),
            index + 1 == split_parts(p@.take(i as int)).len(),
            part@ == split_parts(p@.take(i as int)).last(),
            kept.deep_view() == kept_parts(split_parts(p@.take(i as int)), index as int, rooted),
            index <= i,
        decreases len - i,
    {
        let c = p.get_char(i);
        let ghost before = p@.take(i as int);
        proof {
            lemma_split_parts_len(before);
            assert(p@.take(i + 1).drop_last() =~= before);
            assert(p@.take(i + 1).last() == c);
        }
        if c == '/' {
            let ghost sp = split_parts(before);
            let ghost sp2 = split_parts(p@.take(i + 1));
            proof {
                assert(sp2 == sp.push(Seq::empty()));
                assert forall|n: int| 0 <= n <= index implies kept_parts(sp2, n, rooted) == kept_parts(sp, n, rooted) by {
                    lemma_kept_parts_prefix(sp, sp2, n, rooted);
                }
            }
            let is_dot = part.as_str().unicode_len() == 1 && part.as_str().get_char(0) == '.';
            let keep = part.as_str().unicode_len() > 0 && (!is_dot || (index == 0 && !rooted));
            proof {
                assert(is_dot == (part@ == seq!['.'])) by {
                    if part@.len() == 1 && part@[0] == '.' {
                        assert(part@ =~= seq!['.']);
                    }
                }
                assert(keep == keeps_part(index as int, sp2[index as int], rooted));
            }
            if keep {
                kept.push(part);
            }
            part = String::new();
            index += 1;
            proof {
                assert(kept.deep_view() =~= kept_parts(sp2, index as int, rooted));
            }
        } else {
            push_char(&mut part, c);
            proof {
                let sp = split_parts(before);
                let sp2 = split_parts(p@.take(i + 1));
                assert(sp2 == sp.update(sp.len() - 1, sp.last().push(c)));
                assert forall|n: int| 0 <= n <= index implies kept_parts(sp2, n, rooted) == kept_parts(sp, n, rooted) by {
                    lemma_kept_parts_prefix(sp, sp2, n, rooted);
                }
            }
        }
        i += 1;
    }
    proof {
        assert(p@.take(len as int) =~= p@);
    }
    let ghost sp = split_parts(p@);
    let is_dot = part.as_str().unicode_len() == 1 && part.as_str().get_char(0) == '.';
    let keep = part.as_str().unicode_len() > 0 && (!is_dot || (index == 0 && !rooted));
    proof {
        assert(is_dot == (part@ == seq!['.'])) by {
            if part@.len() == 1 && part@[0] == '.' {
                assert(part@ =~= seq!['.']);
            }
        }
    }
    if keep {
        kept.push(part);
    }
    proof {
        assert(kept.deep_view() =~= kept_parts(sp, sp.len() as int, rooted));
    }
    (rooted, kept)
}

/// `kept_parts` only looks at the first `n` parts.
proof fn lemma_kept_parts_prefix(a: Seq<Seq<char>>, b: Seq<Seq<char>>, n: int, rooted: bool)
    requires
        0 <= n <= a.len(),
        n <= b.len(),
        forall|j: int| 0 <= j < n ==> a[j] == b[j],
    ensures
        kept_parts(a, n, rooted) == kept_parts(b, n, rooted),
    decreases n,
{
    if n > 0 {
        lemma_kept_parts_prefix(a, b, n - 1, rooted);
    }
}

/// Whether two lists of strings are equal.
pub fn strings_eq(a: &Vec<String>, b: &Vec<String>) -> (r: bool)
    ensures
        r == (a.deep_view() == b.deep_view()),
{
    if a.len() != b.len() {
        proof {
            assert(a.deep_view().len() != b.deep_view().len());
        }
        return false;
    }
    let mut i: usize = 0;
    while i < a.len()
        invariant
            i <= a@.len(),
            a@.len() == b@.len(),
            forall|j: int| 0 <= j < i ==> a@[j]@ == b@[j]@,
        decreases a@.len() - i,
    {
        if !a[i].eq(&b[i]) {
            proof {
                assert(a.deep_view()[i as int] != b.deep_view()[i as int]);
            }
            return false;
        }
        i += 1;
    }
    proof {
        assert(a.deep_view() =~= b.deep_view());
    }
    true
}

/// Whether two paths are equal as `Path`s are.
pub fn paths_equal(a: &str, b: &str) -> (r: bool)
    ensures
        r == same_path(a@, b@),
{
    let (ra, ca) = components(a);
    let (rb, cb) = components(b);
    ra == rb && strings_eq(&ca, &cb)
}

} // verus!

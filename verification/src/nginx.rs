//! Rewriting of the upstream block of an nginx configuration: server lines
//! of removed addresses are dropped and server lines of added addresses are
//! inserted after the line that opens the upstream block, which a regular
//! expression recognises.

use vstd::prelude::*;
use crate::text::{chars_of, decimal, is_white_space, is_whitespace, push_char, push_numeral, push_str};

verus! {

/// Pieces of a text, each ending just after a line feed (the last piece
/// may end without one).
pub open spec fn line_pieces(s: Seq<char>) -> Seq<Seq<char>>
    decreases s.len(),
{
    if s.len() == 0 {
        Seq::empty()
    } else {
        let p = line_pieces(s.drop_last());
        if p.len() == 0 || p.last().last() == '\n' {
            p.push(seq![s.last()])
        } else {
            p.update(p.len() - 1, p.last().push(s.last()))
        }
    }
}

/// A piece without its line ending (`\n` or `\r\n`).
pub open spec fn strip_line_end(piece: Seq<char>) -> Seq<char> {
    if piece.len() > 0 && piece.last() == '\n' {
        let q = piece.drop_last();
        if q.len() > 0 && q.last() == '\r' {
            q.drop_last()
        } else {
            q
        }
    } else {
        piece
    }
}

/// The lines of a text, as `str::lines` gives them.
pub open spec fn text_lines(s: Seq<char>) -> Seq<Seq<char>> {
    line_pieces(s).map_values(|p: Seq<char>| strip_line_end(p))
}

/// `l` without leading white space.
pub open spec fn trim_start(l: Seq<char>) -> Seq<char>
    decreases l.len(),
{
    if l.len() > 0 && is_white_space(l[0]) {
        trim_start(l.skip(1))
    } else {
        l
    }
}

/// `l` without trailing white space.
pub open spec fn trim_end(l: Seq<char>) -> Seq<char>
    decreases l.len(),
{
    if l.len() > 0 && is_white_space(l.last()) {
        trim_end(l.drop_last())
    } else {
        l
    }
}

/// `l` without white space at either end, as `str::trim` gives it.
pub open spec fn trim(l: Seq<char>) -> Seq<char> {
    trim_end(trim_start(l))
}

/// The white space that indents `l`; nothing for a line of white space
/// only.
pub open spec fn indentation(l: Seq<char>) -> Seq<char> {
    if trim_start(l).len() > 0 {
        l.take(l.len() - trim_start(l).len())
    } else {
        Seq::empty()
    }
}

/// The text after `server ` on a server line.
pub open spec fn server_addr(l: Seq<char>) -> Option<Seq<char>> {
    let t = trim(l);
    if t.len() >= 7 && t.take(7) == seq!['s', 'e', 'r', 'v', 'e', 'r', ' '] {
        Some(t.skip(7))
    } else {
        None
    }
}

/// The line is a server line whose address (before the final `;`; an
/// empty text when there is no final `;`) is to be removed.
pub open spec fn is_removed(l: Seq<char>, remove: Seq<Seq<char>>) -> bool {
    match server_addr(l) {
        Some(a) => remove.contains(
            if a.len() > 0 && a.last() == ';' {
                a.drop_last()
            } else {
                Seq::empty()
            },
        ),
        None => false,
    }
}

/// `needle` occurs in `hay`.
pub open spec fn occurs_in(hay: Seq<char>, needle: Seq<char>) -> bool {
    exists|i: int| 0 <= i <= hay.len() - needle.len() && #[trigger] hay.subrange(i, i + needle.len()) == needle
}

/// The server lines inserted after a matching line `l`: one per address
/// that does not already occur in the configuration.
pub open spec fn additions(l: Seq<char>, add: Seq<Seq<char>>, conf: Seq<char>) -> Seq<char>
    decreases add.len(),
{
    if add.len() == 0 {
        Seq::empty()
    } else {
        let a = add.last();
        additions(l, add.drop_last(), conf) + if occurs_in(conf, a) {
            Seq::empty()
        } else {
            indentation(l) + "\tserver "@ + a + seq![';', '\n']
        }
    }
}

/// The notes printed while inserting.
pub open spec fn addition_notes(add: Seq<Seq<char>>, conf: Seq<char>) -> Seq<Seq<char>>
    decreases add.len(),
{
    if add.len() == 0 {
        Seq::empty()
    } else {
        let a = add.last();
        addition_notes(add.drop_last(), conf) + if occurs_in(conf, a) {
            Seq::empty()
        } else {
            seq!["Add "@ + a]
        }
    }
}

/// The output for the first `n` lines: each line is kept (with a line
/// feed) unless it is removed, and after each matching line the additions
/// follow.
pub open spec fn rewritten(
    lines: Seq<Seq<char>>,
    matches: Seq<bool>,
    n: int,
    add: Seq<Seq<char>>,
    remove: Seq<Seq<char>>,
    conf: Seq<char>,
) -> Seq<char>
    decreases n,
{
    if n <= 0 {
        Seq::empty()
    } else {
        let l = lines[n - 1];
        rewritten(lines, matches, n - 1, add, remove, conf) + (if is_removed(l, remove) {
            Seq::empty()
        } else {
            l.push('\n')
        }) + (if matches[n - 1] {
            additions(l, add, conf)
        } else {
            Seq::empty()
        })
    }
}

/// The notes for the first `n` lines: each removed line, each matching line
/// (by its position, from 0) and each added address.
pub open spec fn rewrite_notes(
    lines: Seq<Seq<char>>,
    matches: Seq<bool>,
    n: int,
    add: Seq<Seq<char>>,
    remove: Seq<Seq<char>>,
    conf: Seq<char>,
) -> Seq<Seq<char>>
    decreases n,
{
    if n <= 0 {
        Seq::empty()
    } else {
        let l = lines[n - 1];
        rewrite_notes(lines, matches, n - 1, add, remove, conf) + (if is_removed(l, remove) {
            seq!["Remove old: "@ + l]
        } else {
            Seq::empty()
        }) + (if matches[n - 1] {
            seq!["Found match on "@ + decimal((n - 1) as nat) + " line."@] + addition_notes(
                add,
                conf,
            )
        } else {
            Seq::empty()
        })
    }
}

} // verus!

verus! {

/// The character sequences of a list of character vectors.
pub open spec fn chars_view(v: Seq<Vec<char>>) -> Seq<Seq<char>> {
    v.map_values(|x: Vec<char>| x@)
}

/// The lines of the text `c` (see `text_lines`).
pub fn lines_of(c: &Vec<char>) -> (r: Vec<Vec<char>>)
    ensures
        chars_view(r@) == text_lines(c@),
{
    let mut done: Vec<Vec<char>> = Vec::new();
    let mut cur: Vec<char> = Vec::new();
    let mut i: usize = 0;
    proof {
        assert(c@.take(0) =~= Seq::<char>::empty());
        assert(chars_view(done@) =~= Seq::<Seq<char>>::empty());
    }
    while i < c.len()
        invariant
            i <= c@.len(),
            forall|k: int| 0 <= k < done@.len() ==> #[trigger] done@[k]@.len() > 0 && done@[k]@.last() == '\n',
            cur@.len() == 0 || cur@.last() != '\n',
            line_pieces(c@.take(i as int)) == chars_view(done@) + (if cur@.len() > 0 {
                seq![cur@]
            } else {
                Seq::empty()
            }),
        decreases c@.len() - i,
    {
        let ch = c[i];
        let ghost p = line_pieces(c@.take(i as int));
        proof {
            assert(c@.take(i + 1).drop_last() =~= c@.take(i as int));
            assert(c@.take(i + 1).last() == ch);
        }
        if cur.len() == 0 {
            proof {
                assert(p =~= chars_view(done@));
                if p.len() > 0 {
                    assert(p.last() == done@[done@.len() - 1]@);
                }
                assert(p.len() == 0 || p.last().last() == '\n');
            }
            cur.push(ch);
            proof {
                assert(cur@ =~= seq![ch]);
                assert(line_pieces(c@.take(i + 1)) == p.push(seq![ch]));
                assert(line_pieces(c@.take(i + 1)) =~= chars_view(done@) + seq![cur@]);
            }
        } else {
            let ghost old_cur = cur@;
            proof {
                assert(p =~= chars_view(done@) + seq![old_cur]);
                assert(p.last() == old_cur);
                assert(p.last().last() != '\n');
            }
            cur.push(ch);
            proof {
                assert(cur@ == old_cur.push(ch));
                assert(line_pieces(c@.take(i + 1)) == p.update(p.len() - 1, old_cur.push(ch)));
                assert(p.update(p.len() - 1, old_cur.push(ch)) =~= chars_view(done@) + seq![cur@]);
            }
        }
        if ch == '\n' {
            let ghost before = chars_view(done@);
            let piece = cur;
            cur = Vec::new();
            done.push(piece);
            proof {
                assert(chars_view(done@) =~= before.push(piece@));
                assert(line_pieces(c@.take(i + 1)) =~= chars_view(done@) + Seq::<Seq<char>>::empty());
            }
        }
        i += 1;
    }
    if cur.len() > 0 {
        let ghost before = chars_view(done@);
        done.push(cur);
        proof {
            assert(chars_view(done@) =~= before.push(cur@));
        }
    }
    proof {
        assert(c@.take(i as int) =~= c@);
        assert(line_pieces(c@) =~= chars_view(done@));
    }
    let mut lines: Vec<Vec<char>> = Vec::new();
    let mut k: usize = 0;
    while k < done.len()
        invariant
            k <= done@.len(),
            chars_view(done@) == line_pieces(c@),
            lines@.len() == k,
            forall|j: int| 0 <= j < k ==> #[trigger] lines@[j]@ == strip_line_end(done@[j]@),
        decreases done@.len() - k,
    {
        lines.push(strip_line_end_of(&done[k]));
        k += 1;
    }
    proof {
        assert(chars_view(lines@) =~= text_lines(c@));
    }
    lines
}

/// Copies `v[from..to]`.
pub fn slice_chars(v: &Vec<char>, from: usize, to: usize) -> (r: Vec<char>)
    requires
        from <= to <= v@.len(),
    ensures
        r@ == v@.subrange(from as int, to as int),
{
    let mut r: Vec<char> = Vec::new();
    let mut i = from;
    while i < to
        invariant
            from <= i <= to,
            to <= v@.len(),
            r@ == v@.subrange(from as int, i as int),
        decreases to - i,
    {
        r.push(v[i]);
        proof {
            assert(r@ =~= v@.subrange(from as int, i + 1));
        }
        i += 1;
    }
    r
}

fn strip_line_end_of(p: &Vec<char>) -> (r: Vec<char>)
    ensures
        r@ == strip_line_end(p@),
{
    let n = p.len();
    if n > 0 && p[n - 1] == '\n' {
        if n > 1 && p[n - 2] == '\r' {
            let r = slice_chars(p, 0, n - 2);
            proof {
                assert(p@.drop_last().drop_last() =~= p@.subrange(0, n - 2));
            }
            r
        } else {
            let r = slice_chars(p, 0, n - 1);
            proof {
                assert(p@.drop_last() =~= p@.subrange(0, n - 1));
            }
            r
        }
    } else {
        let r = slice_chars(p, 0, n);
        proof {
            assert(p@ =~= p@.subrange(0, n as int));
        }
        r
    }
}

proof fn lemma_trim_start_skip(l: Seq<char>, k: int)
    requires
        0 <= k <= l.len(),
        forall|j: int| 0 <= j < k ==> is_white_space(#[trigger] l[j]),
    ensures
        trim_start(l) == trim_start(l.skip(k)),
    decreases k,
{
    if k > 0 {
        assert(l.skip(1).skip(k - 1) =~= l.skip(k));
        lemma_trim_start_skip(l.skip(1), k - 1);
    } else {
        assert(l.skip(0) =~= l);
    }
}

proof fn lemma_trim_end_take(l: Seq<char>, e: int)
    requires
        0 <= e <= l.len(),
        forall|j: int| e <= j < l.len() ==> is_white_space(#[trigger] l[j]),
    ensures
        trim_end(l) == trim_end(l.take(e)),
    decreases l.len() - e,
{
    if e < l.len() {
        assert(l.drop_last().take(e) =~= l.take(e));
        lemma_trim_end_take(l.drop_last(), e);
    } else {
        assert(l.take(e) =~= l);
    }
}

/// The position of the first character that is not white space (the
/// length, if there is none).
pub fn trim_start_index(l: &Vec<char>) -> (k: usize)
    ensures
        k <= l@.len(),
        trim_start(l@) == l@.skip(k as int),
{
    let mut k: usize = 0;
    while k < l.len() && is_whitespace(l[k])
        invariant
            k <= l@.len(),
            forall|j: int| 0 <= j < k ==> is_white_space(#[trigger] l@[j]),
        decreases l@.len() - k,
    {
        k += 1;
    }
    proof {
        lemma_trim_start_skip(l@, k as int);
    }
    k
}

/// The trimmed part of `l` is `l[start..end]`.
pub fn trim_bounds(l: &Vec<char>) -> (r: (usize, usize))
    ensures
        r.0 <= r.1 <= l@.len(),
        trim(l@) == l@.subrange(r.0 as int, r.1 as int),
{
    let start = trim_start_index(l);
    let mut end = l.len();
    while end > start && is_whitespace(l[end - 1])
        invariant
            start <= end <= l@.len(),
            forall|j: int| end <= j < l@.len() ==> is_white_space(#[trigger] l@[j]),
        decreases end,
    {
        end -= 1;
    }
    proof {
        let s = l@.skip(start as int);
        let e = end - start;
        assert forall|j: int| e <= j < s.len() implies is_white_space(#[trigger] s[j]) by {
            assert(s[j] == l@[start + j]);
        }
        lemma_trim_end_take(s, e);
        assert(s.take(e) =~= l@.subrange(start as int, end as int));
    }
    (start, end)
}

/// Whether `needle` occurs in `hay`.
pub fn occurs(hay: &Vec<char>, needle: &Vec<char>) -> (b: bool)
    ensures
        b == occurs_in(hay@, needle@),
{
    if needle.len() > hay.len() {
        return false;
    }
    let n = hay.len();
    let last = n - needle.len();
    let mut i: usize = 0;
    while i <= last
        invariant
            last == hay@.len() - needle@.len(),
            needle@.len() <= hay@.len(),
            n == hay@.len(),
            i <= last + 1,
            forall|j: int| 0 <= j < i ==> #[trigger] hay@.subrange(j, j + needle@.len()) != needle@,
        decreases last + 1 - i,
    {
        let mut k: usize = 0;
        let mut matching = true;
        while matching && k < needle.len()
            invariant
                k <= needle@.len(),
                needle@.len() <= hay@.len(),
                n == hay@.len(),
                i <= last,
                last == hay@.len() - needle@.len(),
                forall|j: int| 0 <= j < k ==> hay@[i + j] == needle@[j],
                !matching ==> k < needle@.len() && hay@[i + k] != needle@[k as int],
            decreases needle@.len() - k + (if matching { 1int } else { 0int }),
        {
            assert(i + k < hay@.len());
            if hay[i + k] == needle[k] {
                k += 1;
            } else {
                matching = false;
            }
        }
        if k == needle.len() {
            proof {
                assert(hay@.subrange(i as int, i + needle@.len()) =~= needle@);
            }
            return true;
        }
        proof {
            assert(hay@.subrange(i as int, i + needle@.len())[k as int] != needle@[k as int]);
        }
        if i == last {
            return false;
        }
        i += 1;
    }
    false
}

/// Appends the characters.
pub fn push_chars(s: &mut String, v: &Vec<char>)
    ensures
        final(s)@ == old(s)@ + v@,
{
    let mut i: usize = 0;
    while i < v.len()
        invariant
            i <= v@.len(),
            s@ == old(s)@ + v@.take(i as int),
        decreases v@.len() - i,
    {
        push_char(s, v[i]);
        proof {
            assert(v@.take(i + 1) =~= v@.take(i as int).push(v@[i as int]));
            assert(s@ =~= old(s)@ + v@.take(i + 1));
        }
        i += 1;
    }
    proof {
        assert(v@.take(i as int) =~= v@);
    }
}

/// The string of the characters.
pub fn string_of(v: &Vec<char>) -> (s: String)
    ensures
        s@ == v@,
{
    let mut s = String::new();
    push_chars(&mut s, v);
    proof {
        assert(s@ =~= v@);
    }
    s
}

} // verus!

verus! {

/// Whether `list` holds `key`.
fn contains_chars(list: &Vec<Vec<char>>, key: &Vec<char>) -> (b: bool)
    ensures
        b == chars_view(list@).contains(key@),
{
    let mut i: usize = 0;
    while i < list.len()
        invariant
            i <= list@.len(),
            forall|j: int| 0 <= j < i ==> list@[j]@ != key@,
        decreases list@.len() - i,
    {
        if chars_eq(&list[i], key) {
            proof {
                assert(chars_view(list@)[i as int] == key@);
            }
            return true;
        }
        i += 1;
    }
    proof {
        if chars_view(list@).contains(key@) {
            let k = choose|k: int| 0 <= k < chars_view(list@).len() && chars_view(list@)[k] == key@;
            assert(list@[k]@ == key@);
        }
    }
    false
}

fn chars_eq(a: &Vec<char>, b: &Vec<char>) -> (r: bool)
    ensures
        r == (a@ == b@),
{
    if a.len() != b.len() {
        return false;
    }
    let mut i: usize = 0;
    while i < a.len()
        invariant
            i <= a@.len(),
            a@.len() == b@.len(),
            forall|j: int| 0 <= j < i ==> a@[j] == b@[j],
        decreases a@.len() - i,
    {
        if a[i] != b[i] {
            return false;
        }
        i += 1;
    }
    proof {
        assert(a@ =~= b@);
    }
    true
}

/// The characters of each string.
fn chars_of_all(v: &Vec<String>) -> (r: Vec<Vec<char>>)
    ensures
        chars_view(r@) == v.deep_view(),
{
    let mut r: Vec<Vec<char>> = Vec::new();
    let mut i: usize = 0;
    while i < v.len()
        invariant
            i <= v@.len(),
            r@.len() == i,
            forall|j: int| 0 <= j < i ==> #[trigger] r@[j]@ == v@[j]@,
        decreases v@.len() - i,
    {
        r.push(chars_of(v[i].as_str()));
        i += 1;
    }
    proof {
        assert(chars_view(r@) =~= v.deep_view());
    }
    r
}

/// Whether the line is a server line whose address is to be removed.
fn line_is_removed(line: &Vec<char>, remove: &Vec<Vec<char>>) -> (b: bool)
    ensures
        b == is_removed(line@, chars_view(remove@)),
{
    let (start, end) = trim_bounds(line);
    let t = slice_chars(line, start, end);
    if t.len() >= 7 && t[0] == 's' && t[1] == 'e' && t[2] == 'r' && t[3] == 'v' && t[4] == 'e'
        && t[5] == 'r' && t[6] == ' ' {
        proof {
            assert(t@.take(7) =~= seq!['s', 'e', 'r', 'v', 'e', 'r', ' ']);
        }
        let a = slice_chars(&t, 7, t.len());
        let key = if a.len() > 0 && a[a.len() - 1] == ';' {
            let k = slice_chars(&a, 0, a.len() - 1);
            proof {
                assert(k@ =~= a@.drop_last());
            }
            k
        } else {
            let k: Vec<char> = Vec::new();
            proof {
                assert(k@ =~= Seq::<char>::empty());
            }
            k
        };
        proof {
            assert(a@ =~= t@.skip(7));
        }
        contains_chars(remove, &key)
    } else {
        proof {
            if t@.len() >= 7 && t@.take(7) == seq!['s', 'e', 'r', 'v', 'e', 'r', ' '] {
                assert(t@[0] == t@.take(7)[0]);
                assert(t@[1] == t@.take(7)[1]);
                assert(t@[2] == t@.take(7)[2]);
                assert(t@[3] == t@.take(7)[3]);
                assert(t@[4] == t@.take(7)[4]);
                assert(t@[5] == t@.take(7)[5]);
                assert(t@[6] == t@.take(7)[6]);
            }
        }
        false
    }
}

/// The indentation of the line.
fn indentation_of(line: &Vec<char>) -> (r: Vec<char>)
    ensures
        r@ == indentation(line@),
{
    let k = trim_start_index(line);
    if k < line.len() {
        let r = slice_chars(line, 0, k);
        proof {
            assert(r@ =~= line@.take(k as int));
        }
        r
    } else {
        let r: Vec<char> = Vec::new();
        proof {
            assert(r@ =~= Seq::<char>::empty());
        }
        r
    }
}

/// Appends the additions after a matching line, and their notes.
fn push_additions(
    out: &mut String,
    notes: &mut Vec<String>,
    line: &Vec<char>,
    add: &Vec<Vec<char>>,
    conf: &Vec<char>,
)
    ensures
        final(out)@ == old(out)@ + additions(line@, chars_view(add@), conf@),
        final(notes).deep_view() == old(notes).deep_view() + addition_notes(chars_view(add@), conf@),
{
    let ws = indentation_of(line);
    let mut i: usize = 0;
    proof {
        assert(chars_view(add@).take(0) =~= Seq::<Seq<char>>::empty());
        assert(old(out)@ + Seq::<char>::empty() =~= old(out)@);
        assert(old(notes).deep_view() + Seq::<Seq<char>>::empty() =~= old(notes).deep_view());
    }
    while i < add.len()
        invariant
            i <= add@.len(),
            ws@ == indentation(line@),
            out@ == old(out)@ + additions(line@, chars_view(add@).take(i as int), conf@),
            notes.deep_view() == old(notes).deep_view() + addition_notes(
                chars_view(add@).take(i as int),
                conf@,
            ),
        decreases add@.len() - i,
    {
        let ghost pre = chars_view(add@).take(i as int);
        let ghost cur = chars_view(add@).take(i + 1);
        proof {
            assert(cur.drop_last() =~= pre);
            assert(cur.last() == add@[i as int]@);
        }
        let ghost out_before = out@;
        let ghost notes_before = notes.deep_view();
        if !occurs(conf, &add[i]) {
            push_chars(out, &ws);
            push_str(out, "\tserver ");
            push_chars(out, &add[i]);
            push_char(out, ';');
            push_char(out, '\n');
            let mut note = String::new();
            push_str(&mut note, "Add ");
            push_chars(&mut note, &add[i]);
            notes.push(note);
            proof {
                assert(out@ =~= out_before + (ws@ + "\tserver "@ + add@[i as int]@ + seq![';', '\n']));
                assert(out@ =~= old(out)@ + additions(line@, cur, conf@));
                assert(notes.deep_view() =~= notes_before + seq!["Add "@ + add@[i as int]@]);
                assert(notes.deep_view() =~= old(notes).deep_view() + addition_notes(cur, conf@));
            }
        } else {
            proof {
                assert(out@ =~= old(out)@ + additions(line@, cur, conf@));
                assert(notes.deep_view() =~= old(notes).deep_view() + addition_notes(cur, conf@));
            }
        }
        i += 1;
    }
    proof {
        assert(chars_view(add@).take(i as int) =~= chars_view(add@));
    }
}

/// The rewritten configuration, and the notes printed while rewriting.
pub struct ConfRewrite {
    pub output: String,
    pub notes: Vec<String>,
}

/// Rewrites the configuration `conf`, given which of its lines open the
/// upstream block (`line_matches`, one flag per line): every server line
/// whose address is in `remove` is dropped, every other line is kept, and
/// after each opening line a server line is inserted for each address of
/// `add` that does not occur anywhere in the configuration yet, indented
/// like the opening line plus a tab.
pub fn rewrite_upstream(conf: &str, add: &Vec<String>, remove: &Vec<String>, line_matches: &Vec<bool>) -> (r: ConfRewrite)
    requires
        line_matches@.len() == text_lines(conf@).len(),
    ensures
        r.output@ == rewritten(
            text_lines(conf@),
            line_matches@,
            text_lines(conf@).len() as int,
            add.deep_view(),
            remove.deep_view(),
            conf@,
        ),
        r.notes.deep_view() == rewrite_notes(
            text_lines(conf@),
            line_matches@,
            text_lines(conf@).len() as int,
            add.deep_view(),
            remove.deep_view(),
            conf@,
        ),
{
    let c = chars_of(conf);
    let lines = lines_of(&c);
    let add_chars = chars_of_all(add);
    let remove_chars = chars_of_all(remove);
    let ghost ls = text_lines(conf@);
    let mut output = String::new();
    let mut notes: Vec<String> = Vec::new();
    let mut i: usize = 0;
    proof {
        assert(output@ =~= Seq::<char>::empty());
        assert(notes.deep_view() =~= Seq::<Seq<char>>::empty());
    }
    while i < lines.len()
        invariant
            i <= lines@.len(),
            chars_view(lines@) == ls,
            ls == text_lines(conf@),
            c@ == conf@,
            line_matches@.len() == ls.len(),
            chars_view(add_chars@) == add.deep_view(),
            chars_view(remove_chars@) == remove.deep_view(),
            output@ == rewritten(ls, line_matches@, i as int, add.deep_view(), remove.deep_view(), conf@),
            notes.deep_view() == rewrite_notes(
                ls,
                line_matches@,
                i as int,
                add.deep_view(),
                remove.deep_view(),
                conf@,
            ),
        decreases lines@.len() - i,
    {
        let line = &lines[i];
        proof {
            assert(line@ == ls[i as int]);
        }
        let ghost out0 = output@;
        let ghost notes0 = notes.deep_view();
        if line_is_removed(line, &remove_chars) {
            let mut note = String::new();
            push_str(&mut note, "Remove old: ");
            push_chars(&mut note, line);
            notes.push(note);
            proof {
                assert(notes.deep_view() =~= notes0 + seq!["Remove old: "@ + line@]);
            }
        } else {
            push_chars(&mut output, line);
            push_char(&mut output, '\n');
            proof {
                assert(output@ =~= out0 + line@.push('\n'));
            }
        }
        let ghost out1 = output@;
        let ghost notes1 = notes.deep_view();
        if line_matches[i] {
            let mut note = String::new();
            push_str(&mut note, "Found match on ");
            push_numeral(&mut note, i as u64, 10);
            push_str(&mut note, " line.");
            notes.push(note);
            push_additions(&mut output, &mut notes, line, &add_chars, &c);
            proof {
                assert(notes.deep_view() =~= notes1 + (seq!["Found match on "@ + decimal(i as nat) + " line."@] + addition_notes(add.deep_view(), conf@)));
            }
        }
        proof {
            assert(output@ =~= rewritten(ls, line_matches@, i + 1, add.deep_view(), remove.deep_view(), conf@));
            assert(notes.deep_view() =~= rewrite_notes(ls, line_matches@, i + 1, add.deep_view(), remove.deep_view(), conf@));
        }
        i += 1;
    }
    ConfRewrite { output, notes }
}

} // verus!

verus! {

/// A server line is removed exactly when its address is anywhere in the
/// removal list: for every address of the list, a line that reads
/// `server <address>;` (with any white space around it) is removed, and a
/// removed line always names an address of the list.
pub proof fn lemma_every_listed_address_is_removed(l: Seq<char>, remove: Seq<Seq<char>>, i: int)
    requires
        0 <= i < remove.len(),
        trim(l) == seq!['s', 'e', 'r', 'v', 'e', 'r', ' '] + remove[i] + seq![';'],
    ensures
        is_removed(l, remove),
{
    let t = trim(l);
    let a = remove[i] + seq![';'];
    assert(t.take(7) =~= seq!['s', 'e', 'r', 'v', 'e', 'r', ' ']);
    assert(t.skip(7) =~= a);
    assert(a.last() == ';');
    assert(a.drop_last() =~= remove[i]);
    assert(remove.contains(remove[i]));
}

/// A removed server line names an address of the removal list (the text
/// before its final `;`, or an empty text when it has none).
pub proof fn lemma_removed_lines_name_a_listed_address(l: Seq<char>, remove: Seq<Seq<char>>)
    requires
        is_removed(l, remove),
    ensures
        exists|i: int|
            0 <= i < remove.len() && (trim(l) == seq!['s', 'e', 'r', 'v', 'e', 'r', ' '] + remove[i]
                + seq![';'] || (trim(l).skip(7).len() == 0 || trim(l).last() != ';') && remove[i]
                == Seq::<char>::empty()),
{
    let t = trim(l);
    let a = t.skip(7);
    if a.len() > 0 && a.last() == ';' {
        let k = choose|k: int| 0 <= k < remove.len() && remove[k] == a.drop_last();
        assert(t =~= seq!['s', 'e', 'r', 'v', 'e', 'r', ' '] + remove[k] + seq![';']) by {
            assert(t =~= t.take(7) + a);
            assert(a =~= a.drop_last() + seq![';']);
        }
    } else {
        let k = choose|k: int| 0 <= k < remove.len() && remove[k] == Seq::<char>::empty();
        assert(a.len() > 0 ==> a.last() == t.last());
    }
}

} // verus!

verus! {

/// The lines up to `n`, each followed by a line feed.
pub open spec fn kept_lines(lines: Seq<Seq<char>>, n: int) -> Seq<char>
    decreases n,
{
    if n <= 0 {
        Seq::empty()
    } else {
        kept_lines(lines, n - 1) + lines[n - 1].push('\n')
    }
}

/// With nothing to add and nothing to remove, the rewrite keeps every line
/// as it is, whichever lines open the upstream block.
pub proof fn lemma_nothing_to_change_keeps_every_line(
    lines: Seq<Seq<char>>,
    matches: Seq<bool>,
    n: int,
    conf: Seq<char>,
)
    requires
        0 <= n <= lines.len(),
        matches.len() == lines.len(),
    ensures
        rewritten(lines, matches, n, Seq::empty(), Seq::empty(), conf) == kept_lines(lines, n),
    decreases n,
{
    if n > 0 {
        lemma_nothing_to_change_keeps_every_line(lines, matches, n - 1, conf);
        let l = lines[n - 1];
        assert(!is_removed(l, Seq::<Seq<char>>::empty()));
        assert(additions(l, Seq::<Seq<char>>::empty(), conf) == Seq::<char>::empty());
        assert(kept_lines(lines, n - 1) + l.push('\n') + Seq::<char>::empty() =~= kept_lines(lines, n));
        assert(kept_lines(lines, n - 1) + l.push('\n') =~= kept_lines(lines, n));
    }
}

} // verus!

verus! {

#[verifier::external_type_specification]
#[verifier::external_body]
pub struct ExRegex(regex::Regex);

#[verifier::external_type_specification]
#[verifier::external_body]
pub struct ExRegexError(regex::Error);

/// Whether `pattern` compiles with `regex::Regex::new` (it is valid and
/// within the default size limit).
pub uninterp spec fn regex_compiles(pattern: Seq<char>) -> bool;

/// Whether the regular expression `pattern` matches somewhere in
/// `haystack`, as `regex::Regex::is_match` answers.
pub uninterp spec fn regex_is_match(pattern: Seq<char>, haystack: Seq<char>) -> bool;

/// A compiled regular expression with the pattern it was compiled from.
pub struct UpstreamMatcher {
    pattern: String,
    compiled: regex::Regex,
}

impl View for UpstreamMatcher {
    type V = Seq<char>;

    closed spec fn view(&self) -> Seq<char> {
        self.pattern@
    }
}

/// Compiles `pattern` with `regex::Regex::new`. The contract claims that
/// the outcome depends on the pattern alone: `Ok` exactly when
/// `regex_compiles(pattern)`, and then a matcher for that pattern.
#[verifier::external_body]
fn compile_pattern(pattern: &str) -> (r: Result<UpstreamMatcher, regex::Error>)
    ensures
        r.is_ok() == regex_compiles(pattern@),
        r.is_ok() ==> r.unwrap()@ == pattern@,
{
    match regex::Regex::new(pattern) {
        Ok(compiled) => Ok(UpstreamMatcher { pattern: pattern.to_string(), compiled }),
        Err(e) => Err(e),
    }
}

/// Asks `regex::Regex::is_match` whether the matcher's regular expression
/// matches somewhere in `haystack`. The contract claims that the answer is
/// a function of the pattern the matcher was compiled from (only
/// `compile_pattern` builds one) and of the haystack.
#[verifier::external_body]
fn matcher_is_match(m: &UpstreamMatcher, haystack: &str) -> (b: bool)
    ensures
        b == regex_is_match(m@, haystack@),
{
    m.compiled.is_match(haystack)
}

/// The pattern of the line that opens the upstream block `name`:
/// `.*upstream <name> \{`.
pub open spec fn upstream_pattern_text(name: Seq<char>) -> Seq<char> {
    ".*upstream "@ + name + " \\{"@
}

/// The pattern of the line that opens the upstream block `name`.
pub fn upstream_pattern(name: &str) -> (p: String)
    ensures
        p@ == upstream_pattern_text(name@),
{
    let mut p = String::new();
    push_str(&mut p, ".*upstream ");
    push_str(&mut p, name);
    push_str(&mut p, " \\{");
    proof {
        assert(p@ =~= upstream_pattern_text(name@));
    }
    p
}

/// A matcher for the line that opens the upstream block `name`; an error
/// when the pattern does not compile.
pub fn upstream_matcher(name: &str) -> (r: Result<UpstreamMatcher, regex::Error>)
    ensures
        r.is_ok() == regex_compiles(upstream_pattern_text(name@)),
        r.is_ok() ==> r.unwrap()@ == upstream_pattern_text(name@),
{
    let p = upstream_pattern(name);
    compile_pattern(p.as_str())
}

/// Which lines the matcher's expression matches.
pub open spec fn match_flags(pattern: Seq<char>, lines: Seq<Seq<char>>) -> Seq<bool> {
    lines.map_values(|l: Seq<char>| regex_is_match(pattern, l))
}

/// Rewrites the configuration `conf`: server lines of the addresses in
/// `remove` are dropped, and server lines of the addresses in `add` are
/// inserted after each line the matcher matches (see `rewrite_upstream`).
pub fn update_upstream(conf: &str, add: &Vec<String>, remove: &Vec<String>, matcher: &UpstreamMatcher) -> (r: ConfRewrite)
    ensures
        r.output@ == rewritten(
            text_lines(conf@),
            match_flags(matcher@, text_lines(conf@)),
            text_lines(conf@).len() as int,
            add.deep_view(),
            remove.deep_view(),
            conf@,
        ),
        r.notes.deep_view() == rewrite_notes(
            text_lines(conf@),
            match_flags(matcher@, text_lines(conf@)),
            text_lines(conf@).len() as int,
            add.deep_view(),
            remove.deep_view(),
            conf@,
        ),
{
    let c = chars_of(conf);
    let lines = lines_of(&c);
    let ghost ls = text_lines(conf@);
    let mut flags: Vec<bool> = Vec::new();
    let mut i: usize = 0;
    while i < lines.len()
        invariant
            i <= lines@.len(),
            chars_view(lines@) == ls,
            flags@.len() == i,
            forall|j: int| 0 <= j < i ==> #[trigger] flags@[j] == regex_is_match(matcher@, ls[j]),
        decreases lines@.len() - i,
    {
        let line = string_of(&lines[i]);
        flags.push(matcher_is_match(matcher, line.as_str()));
        i += 1;
    }
    proof {
        assert(flags@ =~= match_flags(matcher@, ls));
    }
    rewrite_upstream(conf, add, remove, &flags)
}

} // verus!

verus! {

/// The shell command that deletes the server line of `addr` from `conf`.
pub open spec fn removal_command(addr: Seq<char>, conf: Seq<char>) -> Seq<char> {
    "sed -i '/^server "@ + addr + ";/d' "@ + conf
}

/// The shell command that inserts a server line for `addr` after the line
/// that opens upstream block `upstream` in `conf`.
pub open spec fn addition_command(upstream: Seq<char>, addr: Seq<char>, conf: Seq<char>) -> Seq<char> {
    "awk '/^upstream "@ + upstream + " {/ { print; print \"\\tserver "@ + addr + ";\"; next };1' "@
        + conf
}

/// The removal commands, one per address, in order.
pub fn removal_commands(remove: &Vec<String>, conf: &str) -> (r: Vec<String>)
    ensures
        r@.len() == remove@.len(),
        forall|i: int| 0 <= i < r@.len() ==> #[trigger] r@[i]@ == removal_command(remove@[i]@, conf@),
{
    let mut r: Vec<String> = Vec::new();
    let mut i: usize = 0;
    while i < remove.len()
        invariant
            i <= remove@.len(),
            r@.len() == i,
            forall|j: int| 0 <= j < i ==> #[trigger] r@[j]@ == removal_command(remove@[j]@, conf@),
        decreases remove@.len() - i,
    {
        let mut s = String::new();
        push_str(&mut s, "sed -i '/^server ");
        push_str(&mut s, remove[i].as_str());
        push_str(&mut s, ";/d' ");
        push_str(&mut s, conf);
        proof {
            assert(s@ =~= removal_command(remove@[i as int]@, conf@));
        }
        r.push(s);
        i += 1;
    }
    r
}

/// The addition commands, one per address, in order.
pub fn addition_commands(add: &Vec<String>, upstream: &str, conf: &str) -> (r: Vec<String>)
    ensures
        r@.len() == add@.len(),
        forall|i: int|
            0 <= i < r@.len() ==> #[trigger] r@[i]@ == addition_command(upstream@, add@[i]@, conf@),
{
    let mut r: Vec<String> = Vec::new();
    let mut i: usize = 0;
    while i < add.len()
        invariant
            i <= add@.len(),
            r@.len() == i,
            forall|j: int|
                0 <= j < i ==> #[trigger] r@[j]@ == addition_command(upstream@, add@[j]@, conf@),
        decreases add@.len() - i,
    {
        let mut s = String::new();
        push_str(&mut s, "awk '/^upstream ");
        push_str(&mut s, upstream);
        push_str(&mut s, " {/ { print; print \"\\tserver ");
        push_str(&mut s, add[i].as_str());
        push_str(&mut s, ";\"; next };1' ");
        push_str(&mut s, conf);
        proof {
            assert(s@ =~= addition_command(upstream@, add@[i as int]@, conf@));
        }
        r.push(s);
        i += 1;
    }
    r
}

} // verus!

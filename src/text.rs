//! Character and byte level helpers over `String` values.

use vstd::prelude::*;

verus! {

/// Number of bytes that the UTF-8 encoding of `c` occupies.
pub open spec fn char_len_bytes(c: char) -> nat {
    if (c as u32) < 0x80 {
        1
    } else if (c as u32) < 0x800 {
        2
    } else if (c as u32) < 0x10000 {
        3
    } else {
        4
    }
}

/// Number of bytes that the UTF-8 encoding of `s` occupies.
pub open spec fn text_len_bytes(s: Seq<char>) -> nat
    decreases s.len(),
{
    if s.len() == 0 {
        0
    } else {
        text_len_bytes(s.drop_last()) + char_len_bytes(s.last())
    }
}

/// Byte width of one character in UTF-8.
pub fn utf8_width(c: char) -> (r: usize)
    ensures
        r == char_len_bytes(c),
{
    let v = c as u32;
    if v < 0x80 {
        1
    } else if v < 0x800 {
        2
    } else if v < 0x10000 {
        3
    } else {
        4
    }
}

/// Relies on `String::push`: the character is appended at the end.
#[verifier::external_body]
pub(crate) fn push_char(s: &mut String, c: char)
    ensures
        final(s)@ == old(s)@.push(c),
{
    s.push(c);
}

/// The characters of `s`, in order.
pub fn chars_of(s: &str) -> (r: Vec<char>)
    ensures
        r@ == s@,
{
    let mut out: Vec<char> = Vec::new();
    for c in it: s.chars()
        invariant
            out@ == it.seq().take(it.index() as int),
    {
        out.push(c);
    }
    out
}

/// Character `i` of `v`.
pub fn char_at(v: &Vec<char>, i: usize) -> (r: char)
    requires
        i < v@.len(),
    ensures
        r == v@[i as int],
{
    v[i]
}

/// A string holding exactly the characters `cs[lo..hi]`.
pub fn string_from_chars(cs: &Vec<char>, lo: usize, hi: usize) -> (r: String)
    requires
        lo <= hi <= cs@.len(),
    ensures
        r@ == cs@.subrange(lo as int, hi as int),
{
    let mut out = String::new();
    let mut i: usize = lo;
    while i < hi
        invariant
            lo <= i <= hi <= cs@.len(),
            out@ == cs@.subrange(lo as int, i as int),
        decreases hi - i,
    {
        push_char(&mut out, cs[i]);
        proof {
            assert(cs@.subrange(lo as int, i + 1) =~= cs@.subrange(lo as int, i as int).push(cs@[i as int]));
        }
        i = i + 1;
    }
    out
}

/// The view of each string of `v`.
pub open spec fn string_views(v: Seq<String>) -> Seq<Seq<char>> {
    v.map_values(|s: String| s@)
}

/// Pieces of `s` between newline characters, one more than there are newlines.
pub open spec fn newline_pieces(s: Seq<char>) -> Seq<Seq<char>>
    decreases s.len(),
{
    if s.len() == 0 {
        seq![Seq::empty()]
    } else {
        let p = newline_pieces(s.drop_last());
        if s.last() == '\n' {
            p.push(Seq::empty())
        } else {
            p.update(p.len() - 1, p.last().push(s.last()))
        }
    }
}

/// `l` without one trailing carriage return.
pub open spec fn strip_cr(l: Seq<char>) -> Seq<char> {
    if l.len() > 0 && l.last() == '\r' {
        l.drop_last()
    } else {
        l
    }
}

/// The lines of `s`: split at each newline, a line ended by `"\r\n"` loses the
/// carriage return too, and a final line ending adds no empty line after it.
pub open spec fn text_lines(s: Seq<char>) -> Seq<Seq<char>> {
    let p = newline_pieces(s);
    let body = p.drop_last().map_values(|l: Seq<char>| strip_cr(l));
    if p.last().len() == 0 {
        body
    } else {
        body.push(p.last())
    }
}

/// The lines of a buffer made from `s`: its text lines, or one empty line
/// where `s` is empty.
pub open spec fn content_lines(s: Seq<char>) -> Seq<Seq<char>> {
    if s.len() == 0 {
        seq![Seq::empty()]
    } else {
        text_lines(s)
    }
}

/// Splitting at newlines gives at least one piece.
pub proof fn lemma_newline_pieces_nonempty(s: Seq<char>)
    ensures
        newline_pieces(s).len() >= 1,
    decreases s.len(),
{
    if s.len() > 0 {
        lemma_newline_pieces_nonempty(s.drop_last());
    }
}

/// A nonempty text has at least one line.
pub proof fn lemma_content_lines_nonempty(s: Seq<char>)
    ensures
        content_lines(s).len() >= 1,
{
    if s.len() > 0 {
        lemma_newline_pieces_nonempty(s);
        lemma_newline_pieces_nonempty(s.drop_last());
        let p = newline_pieces(s);
        if p.last().len() == 0 {
            // the last piece is empty only after a newline, which ends an earlier piece
            if s.last() != '\n' {
                let q = newline_pieces(s.drop_last());
                assert(p.last() == q.last().push(s.last()));
            }
            assert(p.len() >= 2);
        }
    }
}

/// Splits `s` into its lines, as `text_lines` states.
pub fn split_lines(s: &str) -> (r: Vec<String>)
    ensures
        string_views(r@) == text_lines(s@),
{
    let cs = chars_of(s);
    let n = cs.len();
    let mut out: Vec<String> = Vec::new();
    let mut start: usize = 0;
    let mut i: usize = 0;
    proof {
        assert(cs@.take(0) =~= Seq::<char>::empty());
    }
    while i < n
        invariant
            n == cs@.len(),
            cs@ == s@,
            start <= i <= n,
            newline_pieces(cs@.take(i as int)).len() >= 1,
            string_views(out@) =~= newline_pieces(cs@.take(i as int)).drop_last().map_values(
                |l: Seq<char>| strip_cr(l),
            ),
            newline_pieces(cs@.take(i as int)).last() =~= cs@.subrange(start as int, i as int),
        decreases n - i,
    {
        let ghost prev = cs@.take(i as int);
        let ghost next = cs@.take(i + 1);
        proof {
            assert(next.drop_last() =~= prev);
            assert(next.last() == cs@[i as int]);
            lemma_newline_pieces_nonempty(next);
        }
        if cs[i] == '\n' {
            let mut end = i;
            if end > start && cs[end - 1] == '\r' {
                end = end - 1;
            }
            let line = string_from_chars(&cs, start, end);
            proof {
                let piece = cs@.subrange(start as int, i as int);
                assert(line@ =~= strip_cr(piece));
                let p = newline_pieces(prev);
                assert(newline_pieces(next) == p.push(Seq::<char>::empty()));
                assert(newline_pieces(next).drop_last() =~= p);
                assert(p =~= p.drop_last().push(p.last()));
            }
            let ghost before = out@;
            let ghost lv = line@;
            out.push(line);
            proof {
                let p = newline_pieces(prev);
                assert(string_views(out@) =~= string_views(before).push(lv));
                assert(p.map_values(|l: Seq<char>| strip_cr(l)) =~= p.drop_last().map_values(
                    |l: Seq<char>| strip_cr(l),
                ).push(strip_cr(p.last())));
            }
            start = i + 1;
        } else {
            proof {
                assert(cs@.subrange(start as int, i + 1) =~= cs@.subrange(start as int, i as int).push(
                    cs@[i as int],
                ));
                let p = newline_pieces(prev);
                assert(newline_pieces(next).drop_last() =~= p.drop_last());
            }
        }
        i = i + 1;
    }
    proof {
        assert(cs@.take(n as int) =~= cs@);
    }
    if start < n {
        let last = string_from_chars(&cs, start, n);
        out.push(last);
    }
    out
}

} // verus!

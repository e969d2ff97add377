//! The line-oriented editor buffer that the replay mutates.

use vstd::prelude::*;

use crate::highlight::HighlightSpan;
use crate::text::{content_lines, lemma_content_lines_nonempty, push_char, split_lines, string_from_chars, string_views, chars_of};

verus! {

/// `ls` extended with empty lines up to length `n`, or `ls` itself where it is
/// already that long.
pub open spec fn pad_lines(ls: Seq<Seq<char>>, n: nat) -> Seq<Seq<char>> {
    if ls.len() >= n {
        ls
    } else {
        ls + Seq::new((n - ls.len()) as nat, |i: int| Seq::<char>::empty())
    }
}

/// `l` with `ch` inserted before character `col`, or at the end where `col`
/// is past it.
pub open spec fn insert_char_at(l: Seq<char>, col: nat, ch: char) -> Seq<char> {
    let k = if col <= l.len() { col as int } else { l.len() as int };
    l.take(k).push(ch) + l.skip(k)
}

/// The lines after `insert_char(line, col, ch)`.
pub open spec fn lines_after_insert_char(ls: Seq<Seq<char>>, line: nat, col: nat, ch: char) -> Seq<Seq<char>> {
    let p = pad_lines(ls, line + 1);
    p.update(line as int, insert_char_at(p[line as int], col, ch))
}

/// The lines after `insert_line(line, content)`.
pub open spec fn lines_after_insert_line(ls: Seq<Seq<char>>, line: nat, content: Seq<char>) -> Seq<Seq<char>> {
    pad_lines(ls, line).insert(line as int, content)
}

/// The lines after `delete_line(line)`.
pub open spec fn lines_after_delete_line(ls: Seq<Seq<char>>, line: nat) -> Seq<Seq<char>> {
    let r = if line < ls.len() {
        ls.remove(line as int)
    } else {
        ls
    };
    if r.len() == 0 {
        seq![Seq::<char>::empty()]
    } else {
        r
    }
}

/// State of the editor: its lines, cursor, scroll position and the token
/// spans of the file being replayed.
#[derive(Debug, Clone)]
pub struct EditorBuffer {
    pub lines: Vec<String>,
    pub cursor_line: usize,
    pub cursor_col: usize,
    pub scroll_offset: usize,
    /// Spans ready for rendering.
    pub cached_highlights: Vec<HighlightSpan>,
    /// Spans of the file before and after the commit.
    pub old_highlights: Vec<HighlightSpan>,
    pub new_highlights: Vec<HighlightSpan>,
    /// Lines of the file before and after the commit.
    pub old_content_lines: Vec<String>,
    pub new_content_lines: Vec<String>,
    /// Byte offset at which each line of the two snapshots starts.
    pub old_content_line_offsets: Vec<usize>,
    pub new_content_line_offsets: Vec<usize>,
}

impl EditorBuffer {
    /// The lines, as character sequences.
    pub open spec fn line_views(&self) -> Seq<Seq<char>> {
        string_views(self.lines@)
    }

    /// A buffer is never empty.
    pub open spec fn wf(&self) -> bool {
        self.lines@.len() >= 1
    }

    /// `other` differs from `self` in its lines at most.
    pub open spec fn same_but_lines(&self, other: &EditorBuffer) -> bool {
        &&& other.cursor_line == self.cursor_line
        &&& other.cursor_col == self.cursor_col
        &&& other.scroll_offset == self.scroll_offset
        &&& other.cached_highlights == self.cached_highlights
        &&& other.old_highlights == self.old_highlights
        &&& other.new_highlights == self.new_highlights
        &&& other.old_content_lines == self.old_content_lines
        &&& other.new_content_lines == self.new_content_lines
        &&& other.old_content_line_offsets == self.old_content_line_offsets
        &&& other.new_content_line_offsets == self.new_content_line_offsets
    }

    /// `other` holds the same spans, snapshots and offset tables as `self`.
    pub open spec fn same_highlights(&self, other: &EditorBuffer) -> bool {
        &&& other.cached_highlights == self.cached_highlights
        &&& other.old_highlights == self.old_highlights
        &&& other.new_highlights == self.new_highlights
        &&& other.old_content_lines == self.old_content_lines
        &&& other.new_content_lines == self.new_content_lines
        &&& other.old_content_line_offsets == self.old_content_line_offsets
        &&& other.new_content_line_offsets == self.new_content_line_offsets
    }

    /// The state that every fresh buffer starts from, apart from its lines.
    pub open spec fn is_fresh(&self) -> bool {
        &&& self.cursor_line == 0
        &&& self.cursor_col == 0
        &&& self.scroll_offset == 0
        &&& self.cached_highlights@.len() == 0
        &&& self.old_highlights@.len() == 0
        &&& self.new_highlights@.len() == 0
        &&& self.old_content_lines@.len() == 0
        &&& self.new_content_lines@.len() == 0
        &&& self.old_content_line_offsets@.len() == 0
        &&& self.new_content_line_offsets@.len() == 0
    }

    /// A buffer holding one empty line.
    pub fn new() -> (r: EditorBuffer)
        ensures
            r.line_views() == seq![Seq::<char>::empty()],
            r.is_fresh(),
            r.wf(),
    {
        let lines = vec![String::new()];
        proof {
            assert(string_views(lines@) =~= seq![Seq::<char>::empty()]);
        }
        EditorBuffer {
            lines,
            cursor_line: 0,
            cursor_col: 0,
            scroll_offset: 0,
            cached_highlights: Vec::new(),
            old_highlights: Vec::new(),
            new_highlights: Vec::new(),
            old_content_lines: Vec::new(),
            new_content_lines: Vec::new(),
            old_content_line_offsets: Vec::new(),
            new_content_line_offsets: Vec::new(),
        }
    }

    /// A buffer holding the lines of `content`.
    pub fn from_content(content: &str) -> (r: EditorBuffer)
        ensures
            r.line_views() == content_lines(content@),
            r.is_fresh(),
            r.wf(),
    {
        let lines = if content.is_empty() {
            let v = vec![String::new()];
            proof {
                assert(string_views(v@) =~= seq![Seq::<char>::empty()]);
            }
            v
        } else {
            split_lines(content)
        };
        proof {
            lemma_content_lines_nonempty(content@);
        }
        EditorBuffer {
            lines,
            cursor_line: 0,
            cursor_col: 0,
            scroll_offset: 0,
            cached_highlights: Vec::new(),
            old_highlights: Vec::new(),
            new_highlights: Vec::new(),
            old_content_lines: Vec::new(),
            new_content_lines: Vec::new(),
            old_content_line_offsets: Vec::new(),
            new_content_line_offsets: Vec::new(),
        }
    }

    /// Appends empty lines until there are at least `n`.
    fn pad_to(&mut self, n: usize)
        ensures
            final(self).line_views() == pad_lines(old(self).line_views(), n as nat),
            final(self).lines@.len() == if old(self).lines@.len() >= n {
                old(self).lines@.len()
            } else {
                n as nat
            },
            old(self).same_but_lines(final(self)),
    {
        let ghost start = self.line_views();
        while self.lines.len() < n
            invariant
                old(self).same_but_lines(self),
                start == old(self).line_views(),
                start.len() <= self.lines@.len(),
                start.len() >= n ==> self.lines@.len() == start.len(),
                start.len() < n ==> self.lines@.len() <= n,
                self.line_views() =~= start + Seq::new(
                    (self.lines@.len() - start.len()) as nat,
                    |i: int| Seq::<char>::empty(),
                ),
            decreases n - self.lines@.len(),
        {
            let ghost before = self.lines@;
            let e = String::new();
            assert(e@ == Seq::<char>::empty());
            self.lines.push(e);
            proof {
                assert(self.lines@ == before.push(e));
                assert(string_views(self.lines@) =~= string_views(before).push(Seq::<char>::empty()));
            }
        }
        proof {
            assert(self.lines@.len() >= n);
            if start.len() >= n {
                assert(self.lines@.len() == start.len());
                assert(self.line_views() =~= start);
            } else {
                assert(self.lines@.len() == n);
            }
        }
    }

    /// Inserts `ch` before character `col` of line `line` (at its end where
    /// `col` is past it), first adding empty lines up to `line`.
    pub fn insert_char(&mut self, line: usize, col: usize, ch: char)
        requires
            line < usize::MAX,
        ensures
            final(self).line_views() == lines_after_insert_char(
                old(self).line_views(),
                line as nat,
                col as nat,
                ch,
            ),
            old(self).same_but_lines(final(self)),
            old(self).wf() ==> final(self).wf(),
    {
        self.pad_to(line + 1);
        let cs = chars_of(self.lines[line].as_str());
        let k = if col <= cs.len() {
            col
        } else {
            cs.len()
        };
        let mut s = string_from_chars(&cs, 0, k);
        push_char(&mut s, ch);
        let tail = string_from_chars(&cs, k, cs.len());
        let tcs = chars_of(tail.as_str());
        let mut j: usize = 0;
        let ghost head = s@;
        while j < tcs.len()
            invariant
                tcs@ == cs@.skip(k as int),
                j <= tcs@.len(),
                s@ == head + tcs@.take(j as int),
            decreases tcs@.len() - j,
        {
            push_char(&mut s, tcs[j]);
            proof {
                assert(tcs@.take(j + 1) =~= tcs@.take(j as int).push(tcs@[j as int]));
            }
            j = j + 1;
        }
        proof {
            assert(tcs@.take(j as int) =~= tcs@);
            assert(cs@.subrange(0, k as int) =~= cs@.take(k as int));
            assert(cs@.subrange(k as int, cs@.len() as int) =~= cs@.skip(k as int));
        }
        let ghost sv = s@;
        self.lines.set(line, s);
        proof {
            assert(self.line_views() =~= lines_after_insert_char(
                old(self).line_views(),
                line as nat,
                col as nat,
                ch,
            ));
        }
    }

    /// Inserts a line holding `content` at index `line`, first adding empty
    /// lines up to `line`; later lines move down.
    pub fn insert_line(&mut self, line: usize, content: String)
        ensures
            final(self).line_views() == lines_after_insert_line(
                old(self).line_views(),
                line as nat,
                content@,
            ),
            old(self).same_but_lines(final(self)),
            final(self).wf(),
    {
        self.pad_to(line);
        let ghost cv = content@;
        self.lines.insert(line, content);
        proof {
            assert(self.line_views() =~= lines_after_insert_line(
                old(self).line_views(),
                line as nat,
                cv,
            ));
        }
    }

    /// Removes line `line` where it exists; a buffer left without lines gets
    /// one empty line.
    pub fn delete_line(&mut self, line: usize)
        ensures
            final(self).line_views() == lines_after_delete_line(old(self).line_views(), line as nat),
            old(self).same_but_lines(final(self)),
            final(self).wf(),
            old(self).lines@.len() == 1 && line == 0 ==> final(self).line_views() == seq![Seq::<char>::empty()],
    {
        if line < self.lines.len() {
            self.lines.remove(line);
        }
        proof {
            if line < old(self).lines@.len() {
                assert(self.line_views() =~= old(self).line_views().remove(line as int));
            }
        }
        if self.lines.len() == 0 {
            self.lines.push(String::new());
            proof {
                assert(self.line_views() =~= seq![Seq::<char>::empty()]);
            }
        }
    }
}

} // verus!

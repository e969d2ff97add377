//! Token spans and the offset tracker that keeps them aligned with the
//! buffer while it is edited, without tokenizing the text again.

use vstd::prelude::*;

use crate::text::{char_at, char_len_bytes, chars_of, text_len_bytes, utf8_width};

verus! {

/// Lexical category of a token, which selects its display colour.
#[derive(Debug, Clone, Copy, PartialEq, Eq, Structural)]
pub enum TokenType {
    Keyword,
    Type,
    Function,
    Variable,
    String,
    Number,
    Comment,
    Operator,
    Punctuation,
    Constant,
    Parameter,
    Property,
    Label,
}

/// A half-open byte range `[start, end)` of a text snapshot with its category.
#[derive(Debug, Clone, Copy, PartialEq, Eq, Structural)]
pub struct HighlightSpan {
    pub start: usize,
    pub end: usize,
    pub token_type: TokenType,
}

/// The edit in progress, by which spans of the snapshot are moved onto the
/// live buffer.
#[derive(Debug, Clone, Copy, PartialEq, Eq, Structural)]
pub struct EditState {
    /// The line being typed, if any.
    pub editing_line: Option<usize>,
    /// Byte position within the editing line where typing started.
    pub insert_byte: usize,
    /// Bytes typed into the editing line so far.
    pub typed_bytes: usize,
    /// Net bytes inserted before the lines after the edit point.
    pub byte_shift: isize,
}

/// `x` moved by `delta`, kept within `0..=usize::MAX`.
pub open spec fn shifted(x: int, delta: int) -> int {
    if x + delta < 0 {
        0
    } else if x + delta > usize::MAX {
        usize::MAX as int
    } else {
        x + delta
    }
}

/// Where span `[start, end)` goes when buffer line `line`, starting at byte
/// `line_start`, is rendered during edit `e`: lines after the edited one move
/// by the edit's net bytes; on the edited line only positions at or after
/// the insertion point move, by the bytes typed so far; other lines stay.
pub open spec fn remapped(start: int, end: int, line: nat, line_start: nat, e: EditState) -> (int, int) {
    match e.editing_line {
        Some(el) => if el == line {
            let at = line_start + e.insert_byte;
            (
                if start >= at {
                    shifted(start, e.typed_bytes as int)
                } else {
                    start
                },
                if end > at {
                    shifted(end, e.typed_bytes as int)
                } else {
                    end
                },
            )
        } else if el < line {
            (shifted(start, e.byte_shift as int), shifted(end, e.byte_shift as int))
        } else {
            (start, end)
        },
        None => (start, end),
    }
}

/// `x + delta`, not below zero and not above the largest `usize`.
fn shift_position(x: usize, delta: isize) -> (r: usize)
    ensures
        r as int == shifted(x as int, delta as int),
{
    if delta >= 0 {
        let d = delta as usize;
        if x > usize::MAX - d {
            usize::MAX
        } else {
            x + d
        }
    } else {
        let d: usize = if delta == isize::MIN {
            (isize::MAX as usize) + 1
        } else {
            (-delta) as usize
        };
        if x < d {
            0
        } else {
            x - d
        }
    }
}

/// Span `span` as it is rendered on buffer line `line`, which starts at byte
/// `line_start`, during edit `e`.
pub fn remap_span(span: &HighlightSpan, line: usize, line_start: usize, e: &EditState) -> (r: HighlightSpan)
    ensures
        r.token_type == span.token_type,
        (r.start as int, r.end as int) == remapped(span.start as int, span.end as int, line as nat, line_start as nat, *e),
{
    let (start, end) = match e.editing_line {
        Some(el) => if el == line {
            let at: u128 = line_start as u128 + e.insert_byte as u128;
            let s = if span.start as u128 >= at {
                span.start.saturating_add(e.typed_bytes)
            } else {
                span.start
            };
            let t = if span.end as u128 > at {
                span.end.saturating_add(e.typed_bytes)
            } else {
                span.end
            };
            (s, t)
        } else if el < line {
            (shift_position(span.start, e.byte_shift), shift_position(span.end, e.byte_shift))
        } else {
            (span.start, span.end)
        },
        None => (span.start, span.end),
    };
    HighlightSpan { start, end, token_type: span.token_type }
}

/// Byte offset at which each line of `s` starts: 0, then one past each newline.
pub open spec fn line_start_table(s: Seq<char>) -> Seq<nat>
    decreases s.len(),
{
    if s.len() == 0 {
        seq![0nat]
    } else if s.last() == '\n' {
        line_start_table(s.drop_last()).push(
            if text_len_bytes(s) > usize::MAX {
                usize::MAX as nat
            } else {
                text_len_bytes(s)
            },
        )
    } else {
        line_start_table(s.drop_last())
    }
}

/// The start offsets of the lines of `content`, as `line_start_table` states.
pub fn line_start_offsets(content: &str) -> (r: Vec<usize>)
    ensures
        r@.map_values(|x: usize| x as nat) == line_start_table(content@),
{
    let cs = chars_of(content);
    let mut out: Vec<usize> = vec![0];
    let mut bytes: usize = 0;
    let mut i: usize = 0;
    proof {
        assert(cs@.take(0) =~= Seq::<char>::empty());
        assert(out@.map_values(|x: usize| x as nat) =~= seq![0nat]);
    }
    while i < cs.len()
        invariant
            cs@ == content@,
            i <= cs@.len(),
            bytes == (if text_len_bytes(cs@.take(i as int)) > usize::MAX {
                usize::MAX as nat
            } else {
                text_len_bytes(cs@.take(i as int))
            }),
            out@.map_values(|x: usize| x as nat) == line_start_table(cs@.take(i as int)),
        decreases cs@.len() - i,
    {
        let c = char_at(&cs, i);
        proof {
            assert(cs@.take(i + 1).drop_last() =~= cs@.take(i as int));
        }
        bytes = bytes.saturating_add(utf8_width(c));
        if c == '\n' {
            let ghost before = out@;
            out.push(bytes);
            proof {
                assert(out@.map_values(|x: usize| x as nat) =~= before.map_values(|x: usize| x as nat).push(bytes as nat));
            }
        }
        i = i + 1;
    }
    proof {
        assert(cs@.take(i as int) =~= cs@);
    }
    out
}

/// Spans a snapshot span lands on, with its category: the remapped spans of
/// `spans`, in order, that overlap buffer line `line`, which starts at byte
/// `line_start` and is `line_bytes` bytes long.
pub open spec fn spans_on_line(
    spans: Seq<HighlightSpan>,
    line: nat,
    line_start: nat,
    line_bytes: nat,
    e: EditState,
) -> Seq<(int, int, TokenType)>
    decreases spans.len(),
{
    if spans.len() == 0 {
        Seq::empty()
    } else {
        let prev = spans_on_line(spans.drop_last(), line, line_start, line_bytes, e);
        let h = spans.last();
        let r = remapped(h.start as int, h.end as int, line, line_start, e);
        if r.0 < line_start + line_bytes && r.1 > line_start {
            prev.push((r.0, r.1, h.token_type))
        } else {
            prev
        }
    }
}

/// Positions and category of each span of `v`.
pub open spec fn span_triples(v: Seq<HighlightSpan>) -> Seq<(int, int, TokenType)>
    decreases v.len(),
{
    if v.len() == 0 {
        Seq::empty()
    } else {
        span_triples(v.drop_last()).push((v.last().start as int, v.last().end as int, v.last().token_type))
    }
}

/// The spans to colour buffer line `line` with, as `spans_on_line` states.
pub fn visible_spans(
    spans: &Vec<HighlightSpan>,
    line: usize,
    line_start: usize,
    line_bytes: usize,
    e: &EditState,
) -> (r: Vec<HighlightSpan>)
    ensures
        span_triples(r@) == spans_on_line(spans@, line as nat, line_start as nat, line_bytes as nat, *e),
{
    let mut out: Vec<HighlightSpan> = Vec::new();
    let mut k: usize = 0;
    let line_end: u128 = line_start as u128 + line_bytes as u128;
    while k < spans.len()
        invariant
            k <= spans@.len(),
            line_end == line_start + line_bytes,
            span_triples(out@) == spans_on_line(spans@.take(k as int), line as nat, line_start as nat, line_bytes as nat, *e),
        decreases spans@.len() - k,
    {
        proof {
            assert(spans@.take(k + 1).drop_last() =~= spans@.take(k as int));
        }
        let h = remap_span(&spans[k], line, line_start, e);
        if (h.start as u128) < line_end && h.end > line_start {
            let ghost before = out@;
            out.push(h);
            proof {
                assert(out@.drop_last() =~= before);
            }
        }
        k = k + 1;
    }
    proof {
        assert(spans@.take(k as int) =~= spans@);
    }
    out
}

/// Category of the first span of `spans` that holds the bytes `[bs, be)`.
pub open spec fn token_at(spans: Seq<HighlightSpan>, bs: int, be: int) -> Option<TokenType>
    decreases spans.len(),
{
    if spans.len() == 0 {
        None
    } else if spans[0].start <= bs && be <= spans[0].end {
        Some(spans[0].token_type)
    } else {
        token_at(spans.drop_first(), bs, be)
    }
}

/// Category of each character of a line that starts at byte `line_start`:
/// the first span of `spans` that holds all of the character's bytes.
pub open spec fn char_tokens(chars: Seq<char>, line_start: nat, spans: Seq<HighlightSpan>) -> Seq<Option<TokenType>>
    decreases chars.len(),
{
    if chars.len() == 0 {
        Seq::empty()
    } else {
        let init = chars.drop_last();
        let bs = (line_start + text_len_bytes(init)) as int;
        char_tokens(init, line_start, spans).push(
            token_at(spans, bs, bs + char_len_bytes(chars.last()) as int),
        )
    }
}

fn find_token(spans: &Vec<HighlightSpan>, bs: u128, be: u128) -> (r: Option<TokenType>)
    ensures
        r == token_at(spans@, bs as int, be as int),
{
    let mut j: usize = 0;
    proof {
        assert(spans@.skip(0) =~= spans@);
    }
    while j < spans.len()
        invariant
            j <= spans@.len(),
            token_at(spans@, bs as int, be as int) == token_at(spans@.skip(j as int), bs as int, be as int),
        decreases spans@.len() - j,
    {
        let h = spans[j];
        proof {
            assert(spans@.skip(j as int)[0] == h);
            assert(spans@.skip(j as int).drop_first() =~= spans@.skip(j + 1));
        }
        if h.start as u128 <= bs && be <= h.end as u128 {
            return Some(h.token_type);
        }
        j = j + 1;
    }
    None
}

/// The category of each character of `line`, which starts at byte
/// `line_start`, as `char_tokens` states.
pub fn char_token_types(line: &str, line_start: usize, spans: &Vec<HighlightSpan>) -> (r: Vec<Option<TokenType>>)
    ensures
        r@ == char_tokens(line@, line_start as nat, spans@),
{
    let cs = chars_of(line);
    let mut out: Vec<Option<TokenType>> = Vec::new();
    let mut bytes: u128 = 0;
    let mut i: usize = 0;
    proof {
        assert(cs@.take(0) =~= Seq::<char>::empty());
    }
    while i < cs.len()
        invariant
            cs@ == line@,
            i <= cs@.len(),
            bytes == text_len_bytes(cs@.take(i as int)),
            bytes <= 4 * i,
            out@ == char_tokens(cs@.take(i as int), line_start as nat, spans@),
        decreases cs@.len() - i,
    {
        let c = char_at(&cs, i);
        proof {
            assert(cs@.take(i + 1).drop_last() =~= cs@.take(i as int));
        }
        let w = utf8_width(c) as u128;
        let bs: u128 = line_start as u128 + bytes;
        let t = find_token(spans, bs, bs + w);
        out.push(t);
        bytes = bytes + w;
        i = i + 1;
    }
    proof {
        assert(cs@.take(i as int) =~= cs@);
    }
    out
}

/// Where line `n` of `lines` starts in their joined text: the bytes of the
/// lines before it with one separator byte each, capped at the largest
/// `usize`.
pub open spec fn line_start_of(lines: Seq<Seq<char>>, n: nat) -> nat
    decreases n,
{
    if n == 0 || lines.len() == 0 {
        0
    } else {
        let k = (n - 1) as nat;
        let prev = line_start_of(lines, k);
        let add = if k < lines.len() {
            text_len_bytes(lines[k as int]) + 1
        } else {
            0
        };
        if prev + add > usize::MAX {
            usize::MAX as nat
        } else {
            prev + add
        }
    }
}

/// Byte length of `s`, capped at the largest `usize`.
pub fn byte_len(s: &str) -> (r: usize)
    ensures
        r == (if text_len_bytes(s@) > usize::MAX {
            usize::MAX as nat
        } else {
            text_len_bytes(s@)
        }),
{
    let cs = chars_of(s);
    let mut n: usize = 0;
    let mut i: usize = 0;
    proof {
        assert(cs@.take(0) =~= Seq::<char>::empty());
    }
    while i < cs.len()
        invariant
            cs@ == s@,
            i <= cs@.len(),
            n == (if text_len_bytes(cs@.take(i as int)) > usize::MAX {
                usize::MAX as nat
            } else {
                text_len_bytes(cs@.take(i as int))
            }),
        decreases cs@.len() - i,
    {
        let c = char_at(&cs, i);
        proof {
            assert(cs@.take(i + 1).drop_last() =~= cs@.take(i as int));
        }
        n = n.saturating_add(utf8_width(c));
        i = i + 1;
    }
    proof {
        assert(cs@.take(i as int) =~= cs@);
    }
    n
}

/// Where line `n` of `lines` starts, as `line_start_of` states.
pub fn line_start_in(lines: &Vec<String>, n: usize) -> (r: usize)
    ensures
        r == line_start_of(crate::text::string_views(lines@), n as nat),
{
    let ghost views = crate::text::string_views(lines@);
    let mut acc: usize = 0;
    let mut k: usize = 0;
    if lines.len() == 0 {
        return 0;
    }
    while k < n
        invariant
            k <= n,
            lines@.len() > 0,
            views == crate::text::string_views(lines@),
            acc == line_start_of(views, k as nat),
        decreases n - k,
    {
        if k < lines.len() {
            let b = byte_len(lines[k].as_str());
            acc = acc.saturating_add(b).saturating_add(1);
        }
        k = k + 1;
    }
    acc
}

/// How the edit moves spans: a span on a line before the edited one stays
/// where it was, however many lines were inserted below it; a span on a later
/// line moves by exactly the bytes that the edit added or removed; and on the
/// edited line a span at or after the insertion point moves by exactly the
/// bytes typed there.
pub proof fn lemma_remap_shifts(start: nat, end: nat, line: nat, line_start: nat, e: EditState)
    requires
        e.editing_line is Some,
    ensures
        line < e.editing_line->0 ==> remapped(start as int, end as int, line, line_start, e) == (
            start as int,
            end as int,
        ),
        e.editing_line->0 < line && 0 <= start + e.byte_shift <= usize::MAX && 0 <= end + e.byte_shift
            <= usize::MAX ==> remapped(start as int, end as int, line, line_start, e) == (
            start + e.byte_shift,
            end + e.byte_shift,
        ),
        e.editing_line->0 == line && start >= line_start + e.insert_byte && start + e.typed_bytes
            <= usize::MAX ==> remapped(start as int, end as int, line, line_start, e).0 == start
            + e.typed_bytes,
{
}

} // verus!

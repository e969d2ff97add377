//! The commit and diff data that the replay is compiled from, and the rule
//! that leaves lock files and generated files out of the replay.

use vstd::prelude::*;

use crate::text::{char_at, chars_of, string_from_chars};

verus! {

/// How a file changed in a commit.
#[derive(Debug, Clone, Copy, PartialEq, Eq, Structural)]
pub enum FileStatus {
    Added,
    Deleted,
    Modified,
    Renamed,
    Copied,
    Unmodified,
}

impl FileStatus {
    /// The one-letter code of the status.
    pub open spec fn code(self) -> Seq<char> {
        match self {
            FileStatus::Added => seq!['A'],
            FileStatus::Deleted => seq!['D'],
            FileStatus::Modified => seq!['M'],
            FileStatus::Renamed => seq!['R'],
            FileStatus::Copied => seq!['C'],
            FileStatus::Unmodified => seq!['U'],
        }
    }

    /// The status written as its one-letter code.
    pub fn as_str(&self) -> (r: &str)
        ensures
            r@ == self.code(),
    {
        proof {
            reveal_strlit("A");
            reveal_strlit("D");
            reveal_strlit("M");
            reveal_strlit("R");
            reveal_strlit("C");
            reveal_strlit("U");
        }
        match self {
            FileStatus::Added => "A",
            FileStatus::Deleted => "D",
            FileStatus::Modified => "M",
            FileStatus::Renamed => "R",
            FileStatus::Copied => "C",
            FileStatus::Unmodified => "U",
        }
    }
}

/// Kind of one line of a hunk.
#[derive(Debug, Clone, Copy, PartialEq, Eq, Structural)]
pub enum LineChangeType {
    Addition,
    Deletion,
    Context,
}

/// One line of a hunk with its text.
#[derive(Debug, Clone)]
pub struct LineChange {
    pub change_type: LineChangeType,
    pub content: String,
    pub old_line_no: Option<usize>,
    pub new_line_no: Option<usize>,
}

/// A contiguous run of changed and context lines; `old_start` is the
/// 1-based line of the old file where it begins.
#[derive(Debug, Clone)]
pub struct DiffHunk {
    pub old_start: usize,
    pub old_lines: usize,
    pub new_start: usize,
    pub new_lines: usize,
    pub lines: Vec<LineChange>,
}

/// One file of a commit.
#[derive(Debug, Clone)]
pub struct FileChange {
    pub path: String,
    pub old_path: Option<String>,
    pub status: FileStatus,
    pub is_binary: bool,
    pub is_excluded: bool,
    pub exclusion_reason: Option<String>,
    pub old_content: Option<String>,
    pub new_content: Option<String>,
    pub hunks: Vec<DiffHunk>,
    pub diff: String,
}

/// A commit with its changes; `date` is the author time in seconds since the
/// Unix epoch, UTC.
#[derive(Debug, Clone)]
pub struct CommitMetadata {
    pub hash: String,
    pub author: String,
    pub date: i64,
    pub message: String,
    pub changes: Vec<FileChange>,
}

/// The part of `p` after its last `/`, or all of `p` where it has none.
pub open spec fn file_name(p: Seq<char>) -> Seq<char>
    decreases p.len(),
{
    if p.len() == 0 {
        p
    } else if p.last() == '/' {
        Seq::empty()
    } else {
        file_name(p.drop_last()).push(p.last())
    }
}

/// `s` ends with `pat`.
pub open spec fn is_suffix(pat: Seq<char>, s: Seq<char>) -> bool {
    pat.len() <= s.len() && s.skip(s.len() - pat.len()) == pat
}

/// `pat` occurs in `s` at position `i`.
pub open spec fn occurs_at(pat: Seq<char>, s: Seq<char>, i: int) -> bool {
    0 <= i && i + pat.len() <= s.len() && s.subrange(i, i + pat.len()) == pat
}

/// `pat` occurs somewhere in `s`.
pub open spec fn occurs_in(pat: Seq<char>, s: Seq<char>) -> bool {
    exists|i: int| occurs_at(pat, s, i)
}

/// File names of lock files and other generated files.
pub open spec fn excluded_names() -> Seq<Seq<char>> {
    seq![
        "yarn.lock"@, "package-lock.json"@, "pnpm-lock.yaml"@, "bun.lock"@, "bun.lockb"@,
        "Cargo.lock"@, "Gemfile.lock"@, "poetry.lock"@, "Pipfile.lock"@, "composer.lock"@,
        "go.sum"@, "Package.resolved"@, "pubspec.lock"@, "packages.lock.json"@,
        "project.assets.json"@, "mix.lock"@, "gradle.lockfile"@, "buildscript-gradle.lockfile"@,
        "build.sbt.lock"@, "MODULE.bazel.lock"@,
    ]
}

/// Name endings and path parts of minified, bundled, source map and snapshot
/// files.
pub open spec fn excluded_patterns() -> Seq<Seq<char>> {
    seq![
        ".min.js"@, ".min.css"@, ".bundle.js"@, ".bundle.css"@, ".js.map"@, ".css.map"@,
        ".d.ts.map"@, ".snap"@, "__snapshots__"@,
    ]
}

/// A path is left out of the replay where its file name is one of
/// `excluded_names`, or a pattern ends its file name or occurs in the path.
pub open spec fn is_excluded_path(p: Seq<char>) -> bool {
    ||| excluded_names().contains(file_name(p))
    ||| exists|k: int|
        0 <= k < excluded_patterns().len() && (is_suffix(excluded_patterns()[k], file_name(p))
            || occurs_in(excluded_patterns()[k], p))
}

fn excluded_name_list() -> (r: Vec<&'static str>)
    ensures
        r@.map_values(|s: &str| s@) == excluded_names(),
{
    let r = vec![
        "yarn.lock", "package-lock.json", "pnpm-lock.yaml", "bun.lock", "bun.lockb",
        "Cargo.lock", "Gemfile.lock", "poetry.lock", "Pipfile.lock", "composer.lock",
        "go.sum", "Package.resolved", "pubspec.lock", "packages.lock.json",
        "project.assets.json", "mix.lock", "gradle.lockfile", "buildscript-gradle.lockfile",
        "build.sbt.lock", "MODULE.bazel.lock",
    ];
    assert(r@.map_values(|s: &str| s@) =~= excluded_names());
    r
}

fn excluded_pattern_list() -> (r: Vec<&'static str>)
    ensures
        r@.map_values(|s: &str| s@) == excluded_patterns(),
{
    let r = vec![
        ".min.js", ".min.css", ".bundle.js", ".bundle.css", ".js.map", ".css.map",
        ".d.ts.map", ".snap", "__snapshots__",
    ];
    assert(r@.map_values(|s: &str| s@) =~= excluded_patterns());
    r
}

/// The characters of `p` after its last `/`.
fn file_name_chars(p: &Vec<char>) -> (r: Vec<char>)
    ensures
        r@ == file_name(p@),
{
    let mut start: usize = 0;
    let mut i: usize = 0;
    while i < p.len()
        invariant
            start <= i <= p@.len(),
            file_name(p@.take(i as int)) == p@.subrange(start as int, i as int),
        decreases p@.len() - i,
    {
        proof {
            assert(p@.take(i + 1).drop_last() =~= p@.take(i as int));
        }
        if p[i] == '/' {
            start = i + 1;
            proof {
                assert(p@.subrange(start as int, i + 1) =~= Seq::<char>::empty());
            }
        } else {
            proof {
                assert(p@.subrange(start as int, i + 1) =~= p@.subrange(start as int, i as int).push(p@[i as int]));
            }
        }
        i = i + 1;
    }
    proof {
        assert(p@.take(i as int) =~= p@);
    }
    let mut r: Vec<char> = Vec::new();
    let mut j: usize = start;
    while j < p.len()
        invariant
            start <= j <= p@.len(),
            r@ == p@.subrange(start as int, j as int),
        decreases p@.len() - j,
    {
        r.push(p[j]);
        proof {
            assert(p@.subrange(start as int, j + 1) =~= p@.subrange(start as int, j as int).push(p@[j as int]));
        }
        j = j + 1;
    }
    r
}

/// Whether `pat` occurs in `s` at position `i`.
fn matches_at(pat: &Vec<char>, s: &Vec<char>, i: usize) -> (r: bool)
    ensures
        r == occurs_at(pat@, s@, i as int),
{
    if pat.len() > s.len() || i > s.len() - pat.len() {
        return false;
    }
    let mut k: usize = 0;
    while k < pat.len()
        invariant
            i + pat@.len() <= s@.len(),
            s@.len() <= usize::MAX,
            k <= pat@.len(),
            forall|m: int| 0 <= m < k ==> s@[i + m] == pat@[m],
        decreases pat@.len() - k,
    {
        if s[i + k] != pat[k] {
            proof {
                assert(s@.subrange(i as int, i + pat@.len())[k as int] != pat@[k as int]);
            }
            return false;
        }
        k = k + 1;
    }
    proof {
        assert(s@.subrange(i as int, i + pat@.len()) =~= pat@);
    }
    true
}

/// Whether `pat` occurs anywhere in `s`.
fn occurs(pat: &Vec<char>, s: &Vec<char>) -> (r: bool)
    ensures
        r == occurs_in(pat@, s@),
{
    if pat.len() > s.len() {
        return false;
    }
    let last = s.len() - pat.len();
    let mut i: usize = 0;
    loop
        invariant
            last == s@.len() - pat@.len(),
            i <= last,
            forall|m: int| 0 <= m < i ==> !occurs_at(pat@, s@, m),
        decreases last - i,
    {
        if matches_at(pat, s, i) {
            return true;
        }
        if i == last {
            proof {
                assert forall|m: int| occurs_at(pat@, s@, m) implies false by {
                    assert(0 <= m < i || m == i);
                }
            }
            return false;
        }
        i = i + 1;
    }
}

/// Whether `s` ends with `pat`.
fn ends_with(pat: &Vec<char>, s: &Vec<char>) -> (r: bool)
    ensures
        r == is_suffix(pat@, s@),
{
    if pat.len() > s.len() {
        return false;
    }
    let r = matches_at(pat, s, s.len() - pat.len());
    proof {
        assert(s@.skip(s@.len() - pat@.len()) =~= s@.subrange(s@.len() - pat@.len(), s@.len() as int));
    }
    r
}

/// Whether a file is left out of the replay: a lock file or a generated file
/// (minified, bundled, source map or test snapshot).
#[verifier::rlimit(50)]
pub fn should_exclude_file(path: &str) -> (r: bool)
    ensures
        r == is_excluded_path(path@),
{
    let p = chars_of(path);
    let name = file_name_chars(&p);
    let names = excluded_name_list();
    let mut i: usize = 0;
    while i < names.len()
        invariant
            names@.map_values(|s: &str| s@) == excluded_names(),
            name@ == file_name(path@),
            i <= names@.len(),
            forall|m: int| 0 <= m < i ==> excluded_names()[m] != name@,
        decreases names@.len() - i,
    {
        let cand = chars_of(names[i]);
        if cand.len() == name.len() && matches_at(&cand, &name, 0) {
            proof {
                assert(names@.map_values(|s: &str| s@)[i as int] == names@[i as int]@);
                assert(name@.subrange(0, cand@.len() as int) =~= name@);
                assert(excluded_names()[i as int] == name@);
                assert(excluded_names().contains(file_name(path@)));
            }
            return true;
        }
        proof {
            assert(names@.map_values(|s: &str| s@)[i as int] == names@[i as int]@);
            if excluded_names()[i as int] == name@ {
                assert(name@.subrange(0, cand@.len() as int) =~= name@);
            }
        }
        i = i + 1;
    }
    let patterns = excluded_pattern_list();
    let mut k: usize = 0;
    while k < patterns.len()
        invariant
            patterns@.map_values(|s: &str| s@) == excluded_patterns(),
            name@ == file_name(path@),
            p@ == path@,
            k <= patterns@.len(),
            !excluded_names().contains(file_name(path@)),
            forall|m: int|
                0 <= m < k ==> !(is_suffix(excluded_patterns()[m], file_name(path@)) || occurs_in(
                    excluded_patterns()[m],
                    path@,
                )),
        decreases patterns@.len() - k,
    {
        let pat = chars_of(patterns[k]);
        proof {
            assert(patterns@.map_values(|s: &str| s@)[k as int] == patterns@[k as int]@);
        }
        if ends_with(&pat, &name) || occurs(&pat, &p) {
            return true;
        }
        k = k + 1;
    }
    false
}

/// Files with more changed lines than this are not replayed.
pub const MAX_CHANGE_LINES: usize = 2000;

/// Why a file is left out of the replay.
#[derive(Debug, Clone, Copy, PartialEq, Eq, Structural)]
pub enum Exclusion {
    /// A lock file or a generated file.
    Generated,
    /// More than `MAX_CHANGE_LINES` added and deleted lines, with their count.
    TooManyChanges(usize),
}

/// Number of lines of `hunks` that are not context.
pub open spec fn changed_line_total(hunks: Seq<DiffHunk>) -> nat
    decreases hunks.len(),
{
    if hunks.len() == 0 {
        0
    } else {
        changed_line_total(hunks.drop_last()) + changed_in(hunks.last().lines@)
    }
}

/// Number of `lines` that are not context.
pub open spec fn changed_in(lines: Seq<LineChange>) -> nat
    decreases lines.len(),
{
    if lines.len() == 0 {
        0
    } else {
        changed_in(lines.drop_last()) + if lines.last().change_type == LineChangeType::Context {
            0nat
        } else {
            1nat
        }
    }
}

/// Counts the lines of `hunks` that are not context, up to the largest
/// `usize`.
pub fn count_changed_lines(hunks: &Vec<DiffHunk>) -> (r: usize)
    ensures
        r == (if changed_line_total(hunks@) > usize::MAX {
            usize::MAX as nat
        } else {
            changed_line_total(hunks@)
        }),
{
    let mut total: usize = 0;
    let mut k: usize = 0;
    while k < hunks.len()
        invariant
            k <= hunks@.len(),
            total == (if changed_line_total(hunks@.take(k as int)) > usize::MAX {
                usize::MAX as nat
            } else {
                changed_line_total(hunks@.take(k as int))
            }),
        decreases hunks@.len() - k,
    {
        proof {
            assert(hunks@.take(k + 1).drop_last() =~= hunks@.take(k as int));
        }
        let lines = &hunks[k].lines;
        let mut j: usize = 0;
        let mut n: usize = 0;
        while j < lines.len()
            invariant
                j <= lines@.len(),
                n == changed_in(lines@.take(j as int)),
                n <= j,
            decreases lines@.len() - j,
        {
            proof {
                assert(lines@.take(j + 1).drop_last() =~= lines@.take(j as int));
            }
            if lines[j].change_type != LineChangeType::Context {
                n = n + 1;
            }
            j = j + 1;
        }
        proof {
            assert(lines@.take(j as int) =~= lines@);
        }
        total = total.saturating_add(n);
        k = k + 1;
    }
    proof {
        assert(hunks@.take(k as int) =~= hunks@);
    }
    total
}

/// Whether and why a file at `path` with `hunks` is left out of the replay:
/// generated files first, then files with too many changed lines.
pub fn exclusion_for(path: &str, hunks: &Vec<DiffHunk>) -> (r: Option<Exclusion>)
    ensures
        is_excluded_path(path@) ==> r == Some(Exclusion::Generated),
        !is_excluded_path(path@) && changed_line_total(hunks@) > MAX_CHANGE_LINES ==> r == Some(
            Exclusion::TooManyChanges(
                (if changed_line_total(hunks@) > usize::MAX {
                    usize::MAX as nat
                } else {
                    changed_line_total(hunks@)
                }) as usize,
            ),
        ),
        !is_excluded_path(path@) && changed_line_total(hunks@) <= MAX_CHANGE_LINES ==> r is None,
{
    if should_exclude_file(path) {
        return Some(Exclusion::Generated);
    }
    let n = count_changed_lines(hunks);
    if n > MAX_CHANGE_LINES {
        Some(Exclusion::TooManyChanges(n))
    } else {
        None
    }
}

/// One line of a hunk from its origin marker (`+` added, `-` deleted,
/// anything else context), numbered with the old and new line counters,
/// which advance past it.
pub fn number_line(origin: char, content: String, old_no: &mut usize, new_no: &mut usize) -> (r: LineChange)
    requires
        *old(old_no) < usize::MAX,
        *old(new_no) < usize::MAX,
    ensures
        r.content == content,
        origin == '+' ==> r.change_type == LineChangeType::Addition && r.old_line_no is None
            && r.new_line_no == Some(*old(new_no)) && *final(new_no) == *old(new_no) + 1
            && *final(old_no) == *old(old_no),
        origin == '-' ==> r.change_type == LineChangeType::Deletion && r.old_line_no == Some(*old(old_no))
            && r.new_line_no is None && *final(old_no) == *old(old_no) + 1
            && *final(new_no) == *old(new_no),
        origin != '+' && origin != '-' ==> r.change_type == LineChangeType::Context && r.old_line_no
            == Some(*old(old_no)) && r.new_line_no == Some(*old(new_no)) && *final(old_no)
            == *old(old_no) + 1 && *final(new_no) == *old(new_no) + 1,
{
    if origin == '+' {
        let n = *new_no;
        *new_no = n + 1;
        LineChange { change_type: LineChangeType::Addition, content, old_line_no: None, new_line_no: Some(n) }
    } else if origin == '-' {
        let o = *old_no;
        *old_no = o + 1;
        LineChange { change_type: LineChangeType::Deletion, content, old_line_no: Some(o), new_line_no: None }
    } else {
        let o = *old_no;
        let n = *new_no;
        *old_no = o + 1;
        *new_no = n + 1;
        LineChange { change_type: LineChangeType::Context, content, old_line_no: Some(o), new_line_no: Some(n) }
    }
}

/// Why a commit range is refused.
#[derive(Debug, Clone, Copy, PartialEq, Eq, Structural)]
pub enum RangeError {
    /// The range uses `...`.
    SymmetricDifference,
    /// The range has no `..`.
    MissingDots,
    /// The range has more than one `..`.
    TooManyParts,
}

/// Splits a commit range `start..end` at its `..`: either side may be empty.
#[verifier::rlimit(50)]
pub fn split_commit_range(range: &str) -> (r: Result<(String, String), RangeError>)
    ensures
        occurs_in("..."@, range@) ==> r == Err::<(String, String), RangeError>(RangeError::SymmetricDifference),
        !occurs_in("..."@, range@) && !occurs_in(".."@, range@) ==> r == Err::<(String, String), RangeError>(
            RangeError::MissingDots,
        ),
        r is Ok ==> {
            let (a, b) = r->Ok_0;
            &&& range@ == a@ + ".."@ + b@
            &&& !occurs_in(".."@, a@)
            &&& !occurs_in(".."@, b@)
        },
        !occurs_in("..."@, range@) && occurs_in(".."@, range@) && !(r is Ok) ==> r == Err::<
            (String, String),
            RangeError,
        >(RangeError::TooManyParts),
{
    let cs = chars_of(range);
    let dots3 = chars_of("...");
    let dots2 = chars_of("..");
    proof {
        reveal_strlit("...");
        reveal_strlit("..");
    }
    if occurs(&dots3, &cs) {
        return Err(RangeError::SymmetricDifference);
    }
    if !occurs(&dots2, &cs) {
        return Err(RangeError::MissingDots);
    }
    let ghost s = cs@;
    let n = cs.len();
    assert(".."@.len() == 2);
    let ghost w = choose|m: int| occurs_at(".."@, s, m);
    let mut i: usize = 0;
    loop
        invariant_except_break
            s == cs@,
            s == range@,
            dots2@ == ".."@,
            occurs_at(".."@, s, w),
            ".."@.len() == 2,
            s.len() <= usize::MAX,
            0 <= i <= w,
            forall|m: int| 0 <= m < i ==> !occurs_at(".."@, s, m),
        ensures
            s == cs@,
            s == range@,
            ".."@.len() == 2,
            s.len() <= usize::MAX,
            occurs_at(".."@, s, i as int),
            forall|m: int| 0 <= m < i ==> !occurs_at(".."@, s, m),
        decreases w - i,
    {
        if matches_at(&dots2, &cs, i) {
            break;
        }
        assert(i != w);
        i = i + 1;
    }
    let a = string_from_chars(&cs, 0, i);
    let b = string_from_chars(&cs, i + 2, cs.len());
    let bc = chars_of(b.as_str());
    let ac = chars_of(a.as_str());
    proof {
        assert(s =~= a@ + ".."@ + b@) by {
            assert(s.subrange(i as int, i + 2) == ".."@);
        }
        assert forall|m: int| !occurs_at(".."@, a@, m) by {
            if occurs_at(".."@, a@, m) {
                assert(a@.subrange(m, m + 2) =~= s.subrange(m, m + 2));
                assert(occurs_at(".."@, s, m));
            }
        }
    }
    if occurs(&dots2, &bc) {
        return Err(RangeError::TooManyParts);
    }
    Ok((a, b))
}

/// The part of `p` before its last `/`, or nothing where it has none.
pub open spec fn dir_part(p: Seq<char>) -> Seq<char>
    decreases p.len(),
{
    if p.len() == 0 {
        p
    } else if p.last() == '/' {
        p.drop_last()
    } else {
        dir_part(p.drop_last())
    }
}

/// `a` comes before `b` in the order of character codes, a prefix first.
pub open spec fn text_lt(a: Seq<char>, b: Seq<char>) -> bool
    decreases a.len(),
{
    if a.len() == 0 {
        b.len() > 0
    } else if b.len() == 0 {
        false
    } else if head(a) != head(b) {
        (head(a) as u32) < (head(b) as u32)
    } else {
        text_lt(a.drop_first(), b.drop_first())
    }
}

/// The first character of `a`.
pub open spec fn head(a: Seq<char>) -> char {
    a[0]
}

/// File `i` of `paths` is listed before file `j`: by directory, then by file
/// name, then by position.
pub open spec fn listed_before(paths: Seq<Seq<char>>, i: int, j: int) -> bool {
    let (p, q) = (paths[i], paths[j]);
    ||| text_lt(dir_part(p), dir_part(q))
    ||| (dir_part(p) == dir_part(q) && text_lt(file_name(p), file_name(q)))
    ||| (dir_part(p) == dir_part(q) && file_name(p) == file_name(q) && i < j)
}

proof fn lemma_text_lt_irrefl(a: Seq<char>)
    ensures
        !text_lt(a, a),
    decreases a.len(),
{
    if a.len() > 0 {
        lemma_text_lt_irrefl(a.drop_first());
    }
}

proof fn lemma_text_lt_asym_total(a: Seq<char>, b: Seq<char>)
    ensures
        text_lt(a, b) ==> !text_lt(b, a),
        a != b ==> text_lt(a, b) || text_lt(b, a),
    decreases a.len(),
{
    if a.len() > 0 && b.len() > 0 {
        lemma_text_lt_asym_total(a.drop_first(), b.drop_first());
        if head(a) != head(b) {
            assert((head(a) as u32) != (head(b) as u32));
        }
        if a != b && head(a) == head(b) {
            assert(a =~= seq![head(a)] + a.drop_first());
            assert(b =~= seq![head(b)] + b.drop_first());
        }
    }
    if a.len() == 0 && b.len() == 0 {
        assert(a =~= b);
    }
}

proof fn lemma_text_lt_trans(a: Seq<char>, b: Seq<char>, c: Seq<char>)
    ensures
        text_lt(a, b) && text_lt(b, c) ==> text_lt(a, c),
    decreases a.len(),
{
    if a.len() > 0 && b.len() > 0 && c.len() > 0 {
        lemma_text_lt_trans(a.drop_first(), b.drop_first(), c.drop_first());
    }
}

proof fn lemma_text_lt_order(a: Seq<char>, b: Seq<char>, c: Seq<char>)
    ensures
        !text_lt(a, a),
        text_lt(a, b) ==> !text_lt(b, a),
        a != b ==> text_lt(a, b) || text_lt(b, a),
        text_lt(a, b) && text_lt(b, c) ==> text_lt(a, c),
{
    lemma_text_lt_irrefl(a);
    lemma_text_lt_asym_total(a, b);
    lemma_text_lt_trans(a, b, c);
}

/// `listed_before` is a strict total order on the positions of `paths`.
proof fn lemma_listed_before_order(paths: Seq<Seq<char>>, i: int, j: int, k: int)
    ensures
        !listed_before(paths, i, i),
        i != j ==> (listed_before(paths, i, j) <==> !listed_before(paths, j, i)),
        listed_before(paths, i, j) && listed_before(paths, j, k) ==> listed_before(paths, i, k),
{
    let (p, q, r) = (paths[i], paths[j], paths[k]);
    lemma_text_lt_order(dir_part(p), dir_part(q), dir_part(r));
    lemma_text_lt_order(dir_part(q), dir_part(p), dir_part(r));
    lemma_text_lt_order(dir_part(p), dir_part(r), dir_part(q));
    lemma_text_lt_order(dir_part(q), dir_part(r), dir_part(p));
    lemma_text_lt_order(file_name(p), file_name(q), file_name(r));
    lemma_text_lt_order(file_name(q), file_name(p), file_name(r));
    lemma_text_lt_order(file_name(p), file_name(r), file_name(q));
    lemma_text_lt_order(file_name(q), file_name(r), file_name(p));
    lemma_text_lt_order(dir_part(r), dir_part(p), dir_part(q));
    lemma_text_lt_order(file_name(r), file_name(p), file_name(q));
}

/// Whether `a` comes before `b`, as `text_lt` states.
fn chars_lt(a: &Vec<char>, b: &Vec<char>) -> (r: bool)
    ensures
        r == text_lt(a@, b@),
{
    let mut i: usize = 0;
    proof {
        assert(a@.skip(0) =~= a@);
        assert(b@.skip(0) =~= b@);
    }
    while i < a.len() && i < b.len()
        invariant
            i <= a@.len(),
            i <= b@.len(),
            text_lt(a@, b@) == text_lt(a@.skip(i as int), b@.skip(i as int)),
        decreases a@.len() - i,
    {
        let x = char_at(a, i);
        let y = char_at(b, i);
        if x != y {
            return (x as u32) < (y as u32);
        }
        proof {
            assert(a@.skip(i as int).drop_first() =~= a@.skip(i + 1));
            assert(b@.skip(i as int).drop_first() =~= b@.skip(i + 1));
        }
        i = i + 1;
    }
    i == a.len() && i < b.len()
}

/// The directory part and the file name of `p`.
pub(crate) fn split_path(p: &str) -> (r: (Vec<char>, Vec<char>))
    ensures
        r.0@ == dir_part(p@),
        r.1@ == file_name(p@),
{
    let cs = chars_of(p);
    let mut last: usize = 0;
    let mut found = false;
    let mut i: usize = 0;
    while i < cs.len()
        invariant
            i <= cs@.len(),
            found ==> last < i && cs@[last as int] == '/' && dir_part(cs@.take(i as int)) == cs@.take(last as int)
                && file_name(cs@.take(i as int)) == cs@.subrange(last + 1, i as int),
            !found ==> dir_part(cs@.take(i as int)) == Seq::<char>::empty() && file_name(cs@.take(i as int))
                == cs@.take(i as int),
        decreases cs@.len() - i,
    {
        proof {
            assert(cs@.take(i + 1).drop_last() =~= cs@.take(i as int));
        }
        if cs[i] == '/' {
            last = i;
            found = true;
            proof {
                assert(cs@.take(i + 1).drop_last() =~= cs@.take(i as int));
                assert(cs@.subrange(last + 1, i + 1) =~= Seq::<char>::empty());
            }
        } else {
            proof {
                if found {
                    assert(cs@.subrange(last + 1, i + 1) =~= cs@.subrange(last + 1, i as int).push(cs@[i as int]));
                } else {
                    assert(cs@.take(i + 1) =~= cs@.take(i as int).push(cs@[i as int]));
                }
            }
        }
        i = i + 1;
    }
    proof {
        assert(cs@.take(i as int) =~= cs@);
    }
    if found {
        let mut d: Vec<char> = Vec::new();
        let mut j: usize = 0;
        while j < last
            invariant
                j <= last < cs@.len(),
                d@ == cs@.take(j as int),
            decreases last - j,
        {
            d.push(cs[j]);
            proof {
                assert(cs@.take(j + 1) =~= cs@.take(j as int).push(cs@[j as int]));
            }
            j = j + 1;
        }
        let mut f: Vec<char> = Vec::new();
        let mut k: usize = last + 1;
        while k < cs.len()
            invariant
                last + 1 <= k <= cs@.len(),
                f@ == cs@.subrange(last + 1, k as int),
            decreases cs@.len() - k,
        {
            f.push(cs[k]);
            proof {
                assert(cs@.subrange(last + 1, k + 1) =~= cs@.subrange(last + 1, k as int).push(cs@[k as int]));
            }
            k = k + 1;
        }
        (d, f)
    } else {
        (Vec::new(), cs)
    }
}

/// Whether `a` and `b` hold the same characters.
pub(crate) fn same_chars(a: &Vec<char>, b: &Vec<char>) -> (r: bool)
    requires
        a@.len() == b@.len(),
    ensures
        r == (a@ == b@),
{
    let r = matches_at(a, b, 0);
    proof {
        assert(b@.subrange(0, a@.len() as int) =~= b@);
    }
    r
}

/// Whether file `i` is listed before file `j`, as `listed_before` states.
fn listed_before_exec(keys: &Vec<(Vec<char>, Vec<char>)>, i: usize, j: usize, paths: Ghost<Seq<Seq<char>>>) -> (r: bool)
    requires
        keys@.len() == paths@.len(),
        i < keys@.len(),
        j < keys@.len(),
        forall|m: int| 0 <= m < keys@.len() ==> #[trigger] keys@[m].0@ == dir_part(paths@[m]) && keys@[m].1@
            == file_name(paths@[m]),
    ensures
        r == listed_before(paths@, i as int, j as int),
{
    let (di, ni) = (&keys[i].0, &keys[i].1);
    let (dj, nj) = (&keys[j].0, &keys[j].1);
    if chars_lt(di, dj) {
        return true;
    }
    if chars_lt(dj, di) {
        proof {
            lemma_text_lt_order(dj@, di@, dj@);
        }
        return false;
    }
    proof {
        lemma_text_lt_order(di@, dj@, di@);
    }
    if chars_lt(ni, nj) {
        return true;
    }
    if chars_lt(nj, ni) {
        proof {
            lemma_text_lt_order(nj@, ni@, nj@);
        }
        return false;
    }
    proof {
        lemma_text_lt_order(ni@, nj@, ni@);
    }
    i < j
}

impl CommitMetadata {
    /// The paths of the changed files.
    pub open spec fn paths(&self) -> Seq<Seq<char>> {
        self.changes@.map_values(|c: FileChange| c.path@)
    }

    /// Indices of the changed files in the order the file list shows them:
    /// by directory, then by file name, files in the same place keeping
    /// their order.
    #[verifier::rlimit(50)]
    pub fn sorted_file_indices(&self) -> (r: Vec<usize>)
        ensures
            r@.len() == self.changes@.len(),
            forall|k: int| 0 <= k < r@.len() ==> r@[k] < self.changes@.len(),
            forall|a: int, b: int|
                0 <= a < b < r@.len() ==> listed_before(self.paths(), r@[a] as int, r@[b] as int),
    {
        let ghost paths = self.paths();
        let n = self.changes.len();
        let mut keys: Vec<(Vec<char>, Vec<char>)> = Vec::new();
        let mut m: usize = 0;
        while m < n
            invariant
                n == self.changes@.len(),
                paths == self.paths(),
                m <= n,
                keys@.len() == m,
                forall|q: int| 0 <= q < m ==> #[trigger] keys@[q].0@ == dir_part(paths[q]) && keys@[q].1@
                    == file_name(paths[q]),
            decreases n - m,
        {
            let key = split_path(self.changes[m].path.as_str());
            proof {
                assert(paths[m as int] == self.changes@[m as int].path@);
            }
            let ghost before = keys@;
            let ghost kd = key.0@;
            let ghost kn = key.1@;
            keys.push(key);
            proof {
                assert(kd == dir_part(paths[m as int]));
                assert(kn == file_name(paths[m as int]));
                assert(keys@[m as int].0@ == kd);
                assert forall|q: int| 0 <= q < m + 1 implies #[trigger] keys@[q].0@ == dir_part(paths[q])
                    && keys@[q].1@ == file_name(paths[q]) by {
                    if q < m {
                        assert(keys@[q] == before[q]);
                    }
                }
            }
            m = m + 1;
        }
        let mut out: Vec<usize> = Vec::new();
        let mut i: usize = 0;
        while i < n
            invariant
                n == self.changes@.len(),
                paths == self.paths(),
                keys@.len() == n,
                forall|q: int| 0 <= q < n ==> #[trigger] keys@[q].0@ == dir_part(paths[q]) && keys@[q].1@
                    == file_name(paths[q]),
                i <= n,
                out@.len() == i,
                forall|k: int| 0 <= k < out@.len() ==> out@[k] < i,
                forall|a: int, b: int|
                    0 <= a < b < out@.len() ==> listed_before(paths, out@[a] as int, out@[b] as int),
            decreases n - i,
        {
            let mut pos: usize = 0;
            while pos < out.len() && listed_before_exec(&keys, out[pos], i, Ghost(paths))
                invariant
                    n == self.changes@.len(),
                    keys@.len() == n,
                    paths.len() == n,
                    forall|q: int| 0 <= q < n ==> #[trigger] keys@[q].0@ == dir_part(paths[q]) && keys@[q].1@
                        == file_name(paths[q]),
                    i < n,
                    pos <= out@.len(),
                    forall|k: int| 0 <= k < out@.len() ==> out@[k] < i,
                    forall|k: int| 0 <= k < pos ==> listed_before(paths, out@[k] as int, i as int),
                decreases out@.len() - pos,
            {
                pos = pos + 1;
            }
            proof {
                if pos < out@.len() {
                    assert(!listed_before(paths, out@[pos as int] as int, i as int));
                    lemma_listed_before_order(paths, out@[pos as int] as int, i as int, 0);
                    assert forall|k: int| pos <= k < out@.len() implies listed_before(paths, i as int, out@[k] as int) by {
                        if k > pos {
                            lemma_listed_before_order(paths, i as int, out@[pos as int] as int, out@[k] as int);
                        }
                    }
                }
            }
            let ghost before = out@;
            out.insert(pos, i);
            proof {
                assert forall|a: int, b: int| 0 <= a < b < out@.len() implies listed_before(paths, out@[a] as int, out@[b] as int) by {
                    if b == pos {
                        assert(out@[a] == before[a]);
                    } else if a == pos {
                        assert(out@[b] == before[b - 1]);
                    } else if a < pos && b > pos {
                        assert(out@[a] == before[a]);
                        assert(out@[b] == before[b - 1]);
                    } else if b < pos {
                        assert(out@[a] == before[a] && out@[b] == before[b]);
                    } else {
                        assert(out@[a] == before[a - 1] && out@[b] == before[b - 1]);
                    }
                }
            }
            i = i + 1;
        }
        out
    }
}

} // verus!

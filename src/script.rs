//! The whole replay of a commit: the terminal narrative around it and the
//! editing of each file.

use vstd::prelude::*;

use crate::compile::{file_steps, fits_limits, hunks_fit, push_file_steps};
use crate::diff::{CommitMetadata, FileChange, FileStatus};
use crate::step::{AnimationStep, StepView, scale_ms, scaled_ms, step_views};
use crate::text::{char_at, chars_of, push_char, split_lines, string_views, text_lines};

verus! {

broadcast use crate::step::lemma_step_views_push;

/// Pauses of the narrative, in hundredths of the base speed.
pub const CHECKOUT_PAUSE: u64 = 1670;
pub const CHECKOUT_OUTPUT_PAUSE: u64 = 3330;
pub const CHECKOUT_OUTPUT_HALF_PAUSE: u64 = 1665;
pub const OPEN_FILE_FIRST_PAUSE: u64 = 3330;
pub const OPEN_FILE_PAUSE: u64 = 5000;
pub const OPEN_DIALOG_PAUSE: u64 = 500;
pub const OPEN_CMD_PAUSE: u64 = 1670;
pub const FILE_SWITCH_PAUSE: u64 = 2670;
pub const GIT_ADD_PAUSE: u64 = 3330;
pub const GIT_ADD_CMD_PAUSE: u64 = 1670;
pub const GIT_COMMIT_PAUSE: u64 = 2670;
pub const COMMIT_OUTPUT_PAUSE: u64 = 3330;
pub const GIT_PUSH_PAUSE: u64 = 1670;
pub const PUSH_OUTPUT_PAUSE: u64 = 1000;
pub const PUSH_FINAL_PAUSE: u64 = 6670;

/// The author time `secs` (seconds since the Unix epoch) written as UTC in
/// the form `YYYY-MM-DD HH:MM:SS`.
pub uninterp spec fn utc_datetime_text(secs: int) -> Seq<char>;

/// Relies on chrono's `DateTime::<Utc>::from_timestamp` and its `format`
/// with `"%Y-%m-%d %H:%M:%S"`; a time that chrono cannot represent gives an
/// empty text.
#[verifier::external_body]
fn utc_datetime_string(secs: i64) -> (r: String)
    ensures
        r@ == utc_datetime_text(secs as int),
{
    chrono::DateTime::<chrono::Utc>::from_timestamp(secs, 0).map(|d| d.format("%Y-%m-%d %H:%M:%S").to_string()).unwrap_or_default()
}

/// The last character of `text`.
pub open spec fn final_char(text: Seq<char>) -> char {
    text.last()
}

/// A prompt, then one step per character typed on it.
pub open spec fn command_steps(cmd: Seq<char>) -> Seq<StepView>
    decreases cmd.len(),
{
    if cmd.len() == 0 {
        seq![StepView::TerminalPrompt]
    } else {
        command_steps(cmd.drop_last()).push(StepView::TerminalTypeChar { ch: final_char(cmd) })
    }
}

/// One dialog-typing step per character of `text`.
pub open spec fn dialog_steps(text: Seq<char>) -> Seq<StepView>
    decreases text.len(),
{
    if text.len() == 0 {
        Seq::empty()
    } else {
        dialog_steps(text.drop_last()).push(StepView::DialogTypeChar { ch: final_char(text) })
    }
}

/// The digit that stands for `d`.
pub open spec fn digit_char(d: nat) -> char {
    if d == 0 {
        '0'
    } else if d == 1 {
        '1'
    } else if d == 2 {
        '2'
    } else if d == 3 {
        '3'
    } else if d == 4 {
        '4'
    } else if d == 5 {
        '5'
    } else if d == 6 {
        '6'
    } else if d == 7 {
        '7'
    } else if d == 8 {
        '8'
    } else {
        '9'
    }
}

/// `n` in decimal.
pub open spec fn decimal(n: nat) -> Seq<char>
    decreases n,
{
    if n < 10 {
        seq![digit_char(n)]
    } else {
        decimal(n / 10).push(digit_char(n % 10))
    }
}

/// The first seven characters of a hash, or all of a shorter one.
pub open spec fn short_hash(h: Seq<char>) -> Seq<char> {
    if h.len() <= 7 {
        h
    } else {
        h.take(7)
    }
}

/// The subject of a commit message: its first line, or `Update` where it has
/// none.
pub open spec fn subject(message: Seq<char>) -> Seq<char> {
    if text_lines(message).len() > 0 {
        text_lines(message)[0]
    } else {
        "Update"@
    }
}

/// The text of an optional string, empty where there is none.
pub open spec fn text_or_empty(s: Option<String>) -> Seq<char> {
    match s {
        Some(t) => t@,
        None => Seq::empty(),
    }
}

/// A pause of `hundredths` of the base speed.
pub open spec fn pause(speed_ms: nat, hundredths: nat) -> StepView {
    StepView::Pause { duration_ms: scaled_ms(speed_ms, hundredths) }
}

/// Whether a file is replayed in the editor: it is not excluded, its hunks
/// fit the compiler's limits, and it was neither deleted nor renamed.
pub open spec fn is_edited(c: FileChange) -> bool {
    !c.is_excluded && hunks_fit(c.hunks@) && c.status != FileStatus::Deleted && c.status
        != FileStatus::Renamed
}

/// Steps for file `c`, the `index`-th of its commit: skipped files are only
/// named in the terminal; deleted and renamed files are removed or moved and
/// staged; other files are opened through the dialog, edited and staged.
pub open spec fn file_script(c: FileChange, index: nat, speed_ms: nat) -> Seq<StepView> {
    let path = c.path@;
    let stage = command_steps("git add "@ + path) + seq![pause(speed_ms, GIT_ADD_CMD_PAUSE as nat)];
    if c.is_excluded || !hunks_fit(c.hunks@) {
        seq![
            pause(speed_ms, OPEN_FILE_PAUSE as nat),
            StepView::TerminalOutput {
                text: "📦 "@ + path + if c.is_excluded {
                    " (skipped - generated file)"@
                } else {
                    " (skipped - too large to replay)"@
                },
            },
            pause(speed_ms, OPEN_CMD_PAUSE as nat),
        ]
    } else if c.status == FileStatus::Deleted {
        seq![pause(speed_ms, GIT_ADD_PAUSE as nat)] + command_steps("rm "@ + path) + seq![
            pause(speed_ms, GIT_ADD_CMD_PAUSE as nat),
        ] + stage
    } else if c.status == FileStatus::Renamed {
        seq![pause(speed_ms, GIT_ADD_PAUSE as nat)] + (match c.old_path {
            Some(o) => command_steps("mv "@ + o@ + " "@ + path) + seq![
                pause(speed_ms, GIT_ADD_CMD_PAUSE as nat),
            ],
            None => Seq::empty(),
        }) + stage
    } else {
        seq![
            pause(speed_ms, if index == 0 { OPEN_FILE_FIRST_PAUSE as nat } else { OPEN_FILE_PAUSE as nat }),
            StepView::OpenFileDialogStart,
            pause(speed_ms, OPEN_DIALOG_PAUSE as nat),
        ] + dialog_steps(path) + seq![
            pause(speed_ms, OPEN_CMD_PAUSE as nat),
            StepView::SwitchFile {
                file_index: index,
                old_content: text_or_empty(c.old_content),
                new_content: text_or_empty(c.new_content),
                path,
            },
            pause(speed_ms, FILE_SWITCH_PAUSE as nat),
        ] + file_steps(c.hunks@, speed_ms) + seq![pause(speed_ms, GIT_ADD_PAUSE as nat)] + stage
    }
}

/// Steps for all of `changes`, in order.
pub open spec fn files_script(changes: Seq<FileChange>, speed_ms: nat) -> Seq<StepView>
    decreases changes.len(),
{
    if changes.len() == 0 {
        Seq::empty()
    } else {
        files_script(changes.drop_last(), speed_ms) + file_script(
            changes.last(),
            (changes.len() - 1) as nat,
            speed_ms,
        )
    }
}

/// The narrative before the files: travelling to the commit's date, then
/// taking over the commit's metadata.
pub open spec fn preamble_script(hash: Seq<char>, author: Seq<char>, date: Seq<char>, speed_ms: nat) -> Seq<StepView> {
    command_steps("time-travel "@ + date) + seq![
        pause(speed_ms, CHECKOUT_PAUSE as nat),
        StepView::TerminalOutput { text: "⚡ Initializing temporal displacement field..."@ },
        pause(speed_ms, CHECKOUT_OUTPUT_HALF_PAUSE as nat),
        StepView::TerminalOutput { text: "✨ Warping through spacetime..."@ },
        pause(speed_ms, CHECKOUT_OUTPUT_HALF_PAUSE as nat),
        StepView::TerminalOutput { text: "🕰️  Arrived at "@ + date },
        StepView::TerminalOutput {
            text: "📍 Location: commit "@ + short_hash(hash) + " by "@ + author,
        },
        pause(speed_ms, CHECKOUT_OUTPUT_PAUSE as nat),
        StepView::ResetState,
    ]
}

/// Committing: the command, its output and the file count.
pub open spec fn commit_part(hash: Seq<char>, message: Seq<char>, file_count: nat, speed_ms: nat) -> Seq<StepView> {
    let h = short_hash(hash);
    let msg = subject(message);
    command_steps("git commit -m \""@ + msg + "\""@) + seq![
        pause(speed_ms, GIT_COMMIT_PAUSE as nat),
        StepView::TerminalOutput { text: "💾 [main "@ + h + "] "@ + msg },
        StepView::TerminalOutput {
            text: "📝 "@ + decimal(file_count) + " file"@ + (if file_count == 1 {
                ""@
            } else {
                "s"@
            }) + " changed - immortalized forever!"@,
        },
        pause(speed_ms, COMMIT_OUTPUT_PAUSE as nat),
    ]
}

/// Pushing: the command and its output.
pub open spec fn push_part(hash: Seq<char>, speed_ms: nat) -> Seq<StepView> {
    let h = short_hash(hash);
    command_steps("git push origin main"@) + seq![
        pause(speed_ms, GIT_PUSH_PAUSE as nat),
        StepView::TerminalOutput { text: "🚀 Launching code into the cloud..."@ },
        pause(speed_ms, PUSH_OUTPUT_PAUSE as nat),
        StepView::TerminalOutput { text: "📦 Compressing digital dreams: 100% (5/5)"@ },
        pause(speed_ms, PUSH_OUTPUT_PAUSE as nat),
        StepView::TerminalOutput { text: "✍️  Signing with invisible ink: done."@ },
        pause(speed_ms, GIT_PUSH_PAUSE as nat),
        StepView::TerminalOutput { text: "📡 Beaming to origin/main via satellite..."@ },
        pause(speed_ms, PUSH_OUTPUT_PAUSE as nat),
        StepView::TerminalOutput { text: "   "@ + h + ".."@ + h + " ✨ SUCCESS"@ },
        pause(speed_ms, PUSH_FINAL_PAUSE as nat),
    ]
}

/// The narrative after the files: committing and pushing.
pub open spec fn closing_script(hash: Seq<char>, message: Seq<char>, file_count: nat, speed_ms: nat) -> Seq<StepView> {
    commit_part(hash, message, file_count, speed_ms) + push_part(hash, speed_ms)
}

/// The whole replay of commit `m` at base speed `speed_ms`, its date written
/// as `date`.
pub open spec fn commit_script(m: CommitMetadata, speed_ms: nat, date: Seq<char>) -> Seq<StepView> {
    preamble_script(m.hash@, m.author@, date, speed_ms) + files_script(m.changes@, speed_ms)
        + closing_script(m.hash@, m.message@, m.changes@.len(), speed_ms)
}

/// Appends the characters of `t` to `s`.
pub fn append(s: &mut String, t: &str)
    ensures
        final(s)@ == old(s)@ + t@,
{
    let cs = chars_of(t);
    let ghost start = s@;
    let mut i: usize = 0;
    while i < cs.len()
        invariant
            i <= cs@.len(),
            cs@ == t@,
            s@ == start + cs@.take(i as int),
        decreases cs@.len() - i,
    {
        let c = char_at(&cs, i);
        push_char(s, c);
        proof {
            assert(cs@.take(i + 1) =~= cs@.take(i as int).push(c));
        }
        i = i + 1;
    }
    proof {
        assert(cs@.take(i as int) =~= cs@);
    }
}

/// A string of the characters of `a` then of `b`.
fn join2(a: &str, b: &str) -> (r: String)
    ensures
        r@ == a@ + b@,
{
    let mut s = String::new();
    append(&mut s, a);
    append(&mut s, b);
    proof {
        assert(Seq::<char>::empty() + a@ + b@ =~= a@ + b@);
    }
    s
}

proof fn lemma_command_steps_push(cmd: Seq<char>, c: char)
    requires
        cmd.len() > 0,
        cmd.last() == c,
    ensures
        command_steps(cmd) == command_steps(cmd.drop_last()).push(StepView::TerminalTypeChar { ch: c }),
{
}

proof fn lemma_dialog_steps_push(text: Seq<char>, c: char)
    requires
        text.len() > 0,
        text.last() == c,
    ensures
        dialog_steps(text) == dialog_steps(text.drop_last()).push(StepView::DialogTypeChar { ch: c }),
{
}

/// Appends a prompt and the typing of `cmd` on it.
fn push_command(steps: &mut Vec<AnimationStep>, cmd: &str)
    ensures
        step_views(final(steps)@) == step_views(old(steps)@) + command_steps(cmd@),
{
    let ghost start = step_views(steps@);
    steps.push(AnimationStep::TerminalPrompt);
    let cs = chars_of(cmd);
    let mut i: usize = 0;
    proof {
        assert(cs@.take(0) =~= Seq::<char>::empty());
        assert(step_views(steps@) =~= start + command_steps(cs@.take(0)));
    }
    while i < cs.len()
        invariant
            i <= cs@.len(),
            cs@ == cmd@,
            step_views(steps@) == start + command_steps(cs@.take(i as int)),
        decreases cs@.len() - i,
    {
        let c = char_at(&cs, i);
        steps.push(AnimationStep::TerminalTypeChar { ch: c });
        proof {
            assert(cs@.take(i + 1).drop_last() =~= cs@.take(i as int));
            lemma_command_steps_push(cs@.take(i + 1), c);
            assert(step_views(steps@) =~= start + command_steps(cs@.take(i + 1)));
        }
        i = i + 1;
    }
    proof {
        assert(cs@.take(i as int) =~= cs@);
    }
}

/// Appends the typing of `text` into the dialog.
fn push_dialog_typing(steps: &mut Vec<AnimationStep>, text: &str)
    ensures
        step_views(final(steps)@) == step_views(old(steps)@) + dialog_steps(text@),
{
    let ghost start = step_views(steps@);
    let cs = chars_of(text);
    let mut i: usize = 0;
    proof {
        assert(cs@.take(0) =~= Seq::<char>::empty());
        assert(step_views(steps@) =~= start + dialog_steps(cs@.take(0)));
    }
    while i < cs.len()
        invariant
            i <= cs@.len(),
            cs@ == text@,
            step_views(steps@) == start + dialog_steps(cs@.take(i as int)),
        decreases cs@.len() - i,
    {
        let c = char_at(&cs, i);
        steps.push(AnimationStep::DialogTypeChar { ch: c });
        proof {
            assert(cs@.take(i + 1).drop_last() =~= cs@.take(i as int));
            lemma_dialog_steps_push(cs@.take(i + 1), c);
            assert(step_views(steps@) =~= start + dialog_steps(cs@.take(i + 1)));
        }
        i = i + 1;
    }
    proof {
        assert(cs@.take(i as int) =~= cs@);
    }
}

/// Appends a pause of `hundredths` of the base speed.
fn push_pause(steps: &mut Vec<AnimationStep>, speed_ms: u64, hundredths: u64)
    ensures
        step_views(final(steps)@) == step_views(old(steps)@).push(pause(speed_ms as nat, hundredths as nat)),
{
    steps.push(AnimationStep::Pause { duration_ms: scale_ms(speed_ms, hundredths) });
}

/// Appends a line of terminal output.
fn push_output(steps: &mut Vec<AnimationStep>, text: String)
    ensures
        step_views(final(steps)@) == step_views(old(steps)@).push(StepView::TerminalOutput { text: text@ }),
{
    steps.push(AnimationStep::TerminalOutput { text });
}

/// The digit that stands for `d`.
fn digit(d: usize) -> (r: char)
    requires
        d < 10,
    ensures
        r == digit_char(d as nat),
{
    if d == 0 {
        '0'
    } else if d == 1 {
        '1'
    } else if d == 2 {
        '2'
    } else if d == 3 {
        '3'
    } else if d == 4 {
        '4'
    } else if d == 5 {
        '5'
    } else if d == 6 {
        '6'
    } else if d == 7 {
        '7'
    } else if d == 8 {
        '8'
    } else {
        '9'
    }
}

/// `n` in decimal.
pub fn decimal_string(n: usize) -> (r: String)
    ensures
        r@ == decimal(n as nat),
    decreases n,
{
    if n < 10 {
        let mut s = String::new();
        push_char(&mut s, digit(n));
        proof {
            assert(s@ =~= seq![digit_char(n as nat)]);
        }
        s
    } else {
        let mut s = decimal_string(n / 10);
        push_char(&mut s, digit(n % 10));
        s
    }
}

/// The first seven characters of `h`, or all of a shorter one.
fn short_hash_string(h: &str) -> (r: String)
    ensures
        r@ == short_hash(h@),
{
    let cs = chars_of(h);
    let n = if cs.len() <= 7 {
        cs.len()
    } else {
        7
    };
    let r = crate::text::string_from_chars(&cs, 0, n);
    proof {
        assert(cs@.subrange(0, n as int) =~= short_hash(h@));
    }
    r
}

/// The subject of `message`, as `subject` states.
fn subject_string(message: &str) -> (r: String)
    ensures
        r@ == subject(message@),
{
    let lines = split_lines(message);
    if lines.len() > 0 {
        proof {
            assert(string_views(lines@)[0] == lines@[0]@);
        }
        lines[0].clone()
    } else {
        String::from_str("Update")
    }
}

/// The text of `s`, or an empty text.
fn text_or_empty_string(s: &Option<String>) -> (r: String)
    ensures
        r@ == text_or_empty(*s),
{
    match s {
        Some(t) => t.clone(),
        None => String::new(),
    }
}

/// Appends the steps of file `c`, the `index`-th of its commit.
#[verifier::rlimit(50)]
fn push_file_script(steps: &mut Vec<AnimationStep>, c: &FileChange, index: usize, speed_ms: u64)
    ensures
        step_views(final(steps)@) == step_views(old(steps)@) + file_script(*c, index as nat, speed_ms as nat),
{
    let ghost start = step_views(steps@);
    let ghost path = c.path@;
    let fits = fits_limits(&c.hunks);
    if c.is_excluded || !fits {
        push_pause(steps, speed_ms, OPEN_FILE_PAUSE);
        let reason = if c.is_excluded {
            " (skipped - generated file)"
        } else {
            " (skipped - too large to replay)"
        };
        let text = join2(join2("📦 ", c.path.as_str()).as_str(), reason);
        push_output(steps, text);
        push_pause(steps, speed_ms, OPEN_CMD_PAUSE);
        proof {
            assert(step_views(steps@) =~= start + file_script(*c, index as nat, speed_ms as nat));
        }
        return;
    }
    if c.status == FileStatus::Deleted {
        push_pause(steps, speed_ms, GIT_ADD_PAUSE);
        let ghost s1 = step_views(steps@);
        push_command(steps, join2("rm ", c.path.as_str()).as_str());
        push_pause(steps, speed_ms, GIT_ADD_CMD_PAUSE);
        let ghost s2 = step_views(steps@);
        push_command(steps, join2("git add ", c.path.as_str()).as_str());
        push_pause(steps, speed_ms, GIT_ADD_CMD_PAUSE);
        proof {
            assert(step_views(steps@) =~= start + file_script(*c, index as nat, speed_ms as nat));
        }
        return;
    }
    if c.status == FileStatus::Renamed {
        push_pause(steps, speed_ms, GIT_ADD_PAUSE);
        let ghost s1 = step_views(steps@);
        match &c.old_path {
            Some(o) => {
                let cmd = join2(join2(join2("mv ", o.as_str()).as_str(), " ").as_str(), c.path.as_str());
                push_command(steps, cmd.as_str());
                push_pause(steps, speed_ms, GIT_ADD_CMD_PAUSE);
            },
            None => {},
        }
        let ghost s2 = step_views(steps@);
        push_command(steps, join2("git add ", c.path.as_str()).as_str());
        push_pause(steps, speed_ms, GIT_ADD_CMD_PAUSE);
        proof {
            assert(step_views(steps@) =~= start + file_script(*c, index as nat, speed_ms as nat));
        }
        return;
    }
    if index == 0 {
        push_pause(steps, speed_ms, OPEN_FILE_FIRST_PAUSE);
    } else {
        push_pause(steps, speed_ms, OPEN_FILE_PAUSE);
    }
    steps.push(AnimationStep::OpenFileDialogStart);
    push_pause(steps, speed_ms, OPEN_DIALOG_PAUSE);
    let ghost s1 = step_views(steps@);
    push_dialog_typing(steps, c.path.as_str());
    let ghost s2 = step_views(steps@);
    push_pause(steps, speed_ms, OPEN_CMD_PAUSE);
    steps.push(
        AnimationStep::SwitchFile {
            file_index: index,
            old_content: text_or_empty_string(&c.old_content),
            new_content: text_or_empty_string(&c.new_content),
            path: c.path.clone(),
        },
    );
    push_pause(steps, speed_ms, FILE_SWITCH_PAUSE);
    let ghost s3 = step_views(steps@);
    push_file_steps(steps, &c.hunks, speed_ms);
    let ghost s4 = step_views(steps@);
    push_pause(steps, speed_ms, GIT_ADD_PAUSE);
    let ghost s5 = step_views(steps@);
    push_command(steps, join2("git add ", c.path.as_str()).as_str());
    push_pause(steps, speed_ms, GIT_ADD_CMD_PAUSE);
    proof {
        assert(step_views(steps@) =~= start + file_script(*c, index as nat, speed_ms as nat));
    }
}

#[verifier::rlimit(50)]
fn push_preamble(steps: &mut Vec<AnimationStep>, hash: &str, author: &str, date: &str, speed_ms: u64)
    ensures
        step_views(final(steps)@) == step_views(old(steps)@) + preamble_script(hash@, author@, date@, speed_ms as nat),
{
    let ghost start = step_views(steps@);
    let short = short_hash_string(hash);
    push_command(steps, join2("time-travel ", date).as_str());
    push_pause(steps, speed_ms, CHECKOUT_PAUSE);
    push_output(steps, String::from_str("⚡ Initializing temporal displacement field..."));
    push_pause(steps, speed_ms, CHECKOUT_OUTPUT_HALF_PAUSE);
    push_output(steps, String::from_str("✨ Warping through spacetime..."));
    push_pause(steps, speed_ms, CHECKOUT_OUTPUT_HALF_PAUSE);
    push_output(steps, join2("🕰️  Arrived at ", date));
    let location = join2(join2(join2("📍 Location: commit ", short.as_str()).as_str(), " by ").as_str(), author);
    push_output(steps, location);
    push_pause(steps, speed_ms, CHECKOUT_OUTPUT_PAUSE);
    steps.push(AnimationStep::ResetState);
    proof {
        assert(step_views(steps@) =~= start + preamble_script(hash@, author@, date@, speed_ms as nat));
    }
}

fn push_files(steps: &mut Vec<AnimationStep>, changes: &Vec<FileChange>, speed_ms: u64)
    ensures
        step_views(final(steps)@) == step_views(old(steps)@) + files_script(changes@, speed_ms as nat),
{
    let ghost start = step_views(steps@);
    let mut k: usize = 0;
    proof {
        assert(changes@.take(0) =~= Seq::<FileChange>::empty());
        assert(step_views(steps@) =~= start + files_script(changes@.take(0), speed_ms as nat));
    }
    while k < changes.len()
        invariant
            k <= changes@.len(),
            step_views(steps@) == start + files_script(changes@.take(k as int), speed_ms as nat),
        decreases changes@.len() - k,
    {
        proof {
            assert(changes@.take(k + 1).drop_last() =~= changes@.take(k as int));
            assert(changes@.take(k + 1).last() == changes@[k as int]);
        }
        push_file_script(steps, &changes[k], k, speed_ms);
        proof {
            assert(step_views(steps@) =~= start + files_script(changes@.take(k + 1), speed_ms as nat));
        }
        k = k + 1;
    }
    proof {
        assert(changes@.take(k as int) =~= changes@);
    }
}

#[verifier::rlimit(50)]
fn push_commit_part(steps: &mut Vec<AnimationStep>, hash: &str, message: &str, file_count: usize, speed_ms: u64)
    ensures
        step_views(final(steps)@) == step_views(old(steps)@) + commit_part(hash@, message@, file_count as nat, speed_ms as nat),
{
    let ghost start = step_views(steps@);
    let short = short_hash_string(hash);
    let msg = subject_string(message);
    let commit_cmd = join2(join2("git commit -m \"", msg.as_str()).as_str(), "\"");
    push_command(steps, commit_cmd.as_str());
    push_pause(steps, speed_ms, GIT_COMMIT_PAUSE);
    push_output(steps, join2(join2(join2("💾 [main ", short.as_str()).as_str(), "] ").as_str(), msg.as_str()));
    let count = decimal_string(file_count);
    let plural = if file_count == 1 {
        ""
    } else {
        "s"
    };
    let summary = join2(
        join2(join2(join2("📝 ", count.as_str()).as_str(), " file").as_str(), plural).as_str(),
        " changed - immortalized forever!",
    );
    push_output(steps, summary);
    push_pause(steps, speed_ms, COMMIT_OUTPUT_PAUSE);
    proof {
        assert(step_views(steps@) =~= start + commit_part(hash@, message@, file_count as nat, speed_ms as nat));
    }
}

#[verifier::rlimit(50)]
fn push_push_part(steps: &mut Vec<AnimationStep>, hash: &str, speed_ms: u64)
    ensures
        step_views(final(steps)@) == step_views(old(steps)@) + push_part(hash@, speed_ms as nat),
{
    let ghost start = step_views(steps@);
    let short = short_hash_string(hash);
    push_command(steps, "git push origin main");
    push_pause(steps, speed_ms, GIT_PUSH_PAUSE);
    push_output(steps, String::from_str("🚀 Launching code into the cloud..."));
    push_pause(steps, speed_ms, PUSH_OUTPUT_PAUSE);
    push_output(steps, String::from_str("📦 Compressing digital dreams: 100% (5/5)"));
    push_pause(steps, speed_ms, PUSH_OUTPUT_PAUSE);
    push_output(steps, String::from_str("✍️  Signing with invisible ink: done."));
    push_pause(steps, speed_ms, GIT_PUSH_PAUSE);
    push_output(steps, String::from_str("📡 Beaming to origin/main via satellite..."));
    push_pause(steps, speed_ms, PUSH_OUTPUT_PAUSE);
    let success = join2(join2(join2(join2("   ", short.as_str()).as_str(), "..").as_str(), short.as_str()).as_str(), " ✨ SUCCESS");
    push_output(steps, success);
    push_pause(steps, speed_ms, PUSH_FINAL_PAUSE);
    proof {
        assert(step_views(steps@) =~= start + push_part(hash@, speed_ms as nat));
    }
}

/// Appends the whole replay of commit `m` at base speed `speed_ms`.
#[verifier::rlimit(50)]
pub fn push_commit_script(steps: &mut Vec<AnimationStep>, m: &CommitMetadata, speed_ms: u64)
    ensures
        step_views(final(steps)@) == step_views(old(steps)@) + commit_script(
            *m,
            speed_ms as nat,
            utc_datetime_text(m.date as int),
        ),
{
    let ghost start = step_views(steps@);
    let date = utc_datetime_string(m.date);
    push_preamble(steps, m.hash.as_str(), m.author.as_str(), date.as_str(), speed_ms);
    let ghost s1 = step_views(steps@);
    push_files(steps, &m.changes, speed_ms);
    let ghost s2 = step_views(steps@);
    push_commit_part(steps, m.hash.as_str(), m.message.as_str(), m.changes.len(), speed_ms);
    push_push_part(steps, m.hash.as_str(), speed_ms);
    proof {
        assert(step_views(steps@) =~= start + commit_script(*m, speed_ms as nat, utc_datetime_text(m.date as int)));
    }
}

} // verus!

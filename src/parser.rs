//! The task ledger: task counts read line by line from a task list, and two
//! small readers of markdown headings.

use vstd::prelude::*;
use vstd::string::*;
use crate::model::TaskSummary;
use crate::text::{
    chars_of, contains, contains_exec, occurs_at, occurs_at_exec, slice_of, starts_with,
    starts_with_exec, trim, trim_chars, trim_range,
};

verus! {

// ----- lines, as `str::lines` splits them -----

/// The pieces of `s` between line feeds, in order; there is always one more
/// piece than there are line feeds.
pub open spec fn pieces(s: Seq<char>) -> Seq<Seq<char>>
    decreases s.len(),
{
    if s.len() == 0 {
        seq![Seq::<char>::empty()]
    } else {
        let p = pieces(s.drop_last());
        if s.last() == '\n' {
            p.push(Seq::<char>::empty())
        } else {
            p.update(p.len() - 1, p.last().push(s.last()))
        }
    }
}

/// A line ended by a line feed loses one carriage return before it.
pub open spec fn strip_cr(l: Seq<char>) -> Seq<char> {
    if l.len() > 0 && l.last() == '\r' {
        l.drop_last()
    } else {
        l
    }
}

/// The lines of `s`: the pieces between line feeds, where a final empty piece
/// is no line.
pub open spec fn lines_of(s: Seq<char>) -> Seq<Seq<char>> {
    let p = pieces(s);
    let ended = Seq::new((p.len() - 1) as nat, |k: int| strip_cr(p[k]));
    if p.last().len() > 0 {
        ended.push(p.last())
    } else {
        ended
    }
}

proof fn lemma_pieces_len(s: Seq<char>)
    ensures
        pieces(s).len() >= 1,
    decreases s.len(),
{
    if s.len() > 0 {
        lemma_pieces_len(s.drop_last());
    }
}

/// Start and end of each line of `s`.
pub fn line_bounds(s: &Vec<char>) -> (r: Vec<(usize, usize)>)
    ensures
        r@.len() == lines_of(s@).len(),
        forall|k: int|
            #![trigger r@[k]]
            0 <= k < r@.len() ==> r@[k].0 <= r@[k].1 <= s@.len() && s@.subrange(
                r@[k].0 as int,
                r@[k].1 as int,
            ) == lines_of(s@)[k],
{
    let n = s.len();
    let mut r: Vec<(usize, usize)> = Vec::new();
    let mut start: usize = 0;
    let mut i: usize = 0;
    proof {
        assert(s@.subrange(0, 0) =~= Seq::<char>::empty());
    }
    while i < n
        invariant
            n == s.len(),
            start <= i <= n,
            pieces(s@.subrange(0, i as int)).len() == r@.len() + 1,
            pieces(s@.subrange(0, i as int)).last() == s@.subrange(start as int, i as int),
            forall|k: int|
                #![trigger r@[k]]
                0 <= k < r@.len() ==> r@[k].0 <= r@[k].1 <= i && s@.subrange(
                    r@[k].0 as int,
                    r@[k].1 as int,
                ) == strip_cr(pieces(s@.subrange(0, i as int))[k]),
        decreases n - i,
    {
        let ghost prev = s@.subrange(0, i as int);
        let ghost cur = s@.subrange(0, i + 1);
        let ghost old_r = r@;
        proof {
            assert(cur.drop_last() =~= prev);
            assert(cur.last() == s@[i as int]);
            lemma_pieces_len(prev);
        }
        if s[i] == '\n' {
            proof {
                assert(pieces(cur) == pieces(prev).push(Seq::<char>::empty()));
            }
            let end = if i > start && s[i - 1] == '\r' {
                i - 1
            } else {
                i
            };
            proof {
                let l = s@.subrange(start as int, i as int);
                if i > start && s@[i - 1] == '\r' {
                    assert(l.drop_last() =~= s@.subrange(start as int, end as int));
                } else {
                    assert(l =~= s@.subrange(start as int, end as int));
                }
            }
            r.push((start, end));
            proof {
                assert forall|k: int| 0 <= k < r@.len() implies r@[k].0 <= r@[k].1 <= i + 1
                    && s@.subrange(r@[k].0 as int, r@[k].1 as int) == strip_cr(
                    #[trigger] pieces(cur)[k],
                ) by {
                    if k < old_r.len() {
                        assert(r@[k] == old_r[k]);
                    }
                }
            }
            start = i + 1;
            proof {
                assert(s@.subrange(start as int, i + 1) =~= Seq::<char>::empty());
            }
        } else {
            proof {
                let p = pieces(prev);
                assert(pieces(cur) == p.update(p.len() - 1, p.last().push(s@[i as int])));
                assert forall|k: int| 0 <= k < r@.len() implies r@[k].0 <= r@[k].1 <= i + 1
                    && s@.subrange(r@[k].0 as int, r@[k].1 as int) == strip_cr(
                    #[trigger] pieces(cur)[k],
                ) by {
                    assert(pieces(cur)[k] == p[k]);
                }
                assert(s@.subrange(start as int, i as int).push(s@[i as int]) =~= s@.subrange(
                    start as int,
                    i + 1,
                ));
            }
        }
        i += 1;
        assert(s@.subrange(0, i as int) == cur);
    }
    proof {
        assert(s@.subrange(0, n as int) =~= s@);
        let p = pieces(s@);
        let ended = Seq::new((p.len() - 1) as nat, |k: int| strip_cr(p[k]));
        if start < n {
            assert(p.last().len() > 0);
            assert(lines_of(s@) == ended.push(p.last()));
        } else {
            assert(p.last().len() == 0);
            assert(lines_of(s@) == ended);
        }
        assert forall|k: int| 0 <= k < ended.len() implies #[trigger] lines_of(s@)[k] == strip_cr(
            p[k],
        ) by {}
    }
    if start < n {
        r.push((start, n));
    }
    r
}

// ----- the task-identifier pattern -----

/// A capital T, three or four digits, and a colon, anywhere in the text.
pub const TASK_ID_PATTERN: &'static str = "T\\d{3,4}:";

/// Whether `pattern` compiles as a regular expression that finds a match
/// anywhere in `text`.
pub uninterp spec fn regex_finds(pattern: Seq<char>, text: Seq<char>) -> bool;

/// Relies on `regex::Regex::new` and `regex::Regex::is_match`: whether the
/// pattern compiles and matches somewhere in the text; a pattern that does
/// not compile finds nothing.
#[verifier::external_body]
fn pattern_found(pattern: &str, text: &Vec<char>) -> (r: bool)
    ensures
        r == regex_finds(pattern@, text@),
{
    let text: String = text.iter().collect();
    match regex::Regex::new(pattern) {
        Ok(re) => re.is_match(&text),
        Err(_) => false,
    }
}

// ----- one line -----

/// What a line adds to the ledger: each flag adds one to its counter.
#[derive(Debug, Clone, Copy, PartialEq, Eq, Structural)]
pub struct LineMarks {
    pub counted: bool,
    pub completed: bool,
    pub parallel: bool,
    pub blocked: bool,
}

pub open spec fn marks(counted: bool, completed: bool, parallel: bool, blocked: bool) -> LineMarks {
    LineMarks { counted, completed, parallel, blocked }
}

pub open spec fn open_box(t: Seq<char>) -> bool {
    starts_with(t, "- [ ]"@) || starts_with(t, "* [ ]"@)
}

pub open spec fn checked_box(t: Seq<char>) -> bool {
    starts_with(t, "- [x]"@) || starts_with(t, "- [X]"@) || starts_with(t, "* [x]"@)
        || starts_with(t, "* [X]"@)
}

/// A line that may carry a task identifier: it has a colon and does not
/// open like a checkbox.
pub open spec fn id_candidate(t: Seq<char>) -> bool {
    contains(t, ":"@) && !starts_with(t, "- ["@) && !starts_with(t, "* ["@)
}

pub open spec fn parallel_mark(l: Seq<char>) -> bool {
    contains(l, "[P]"@) || contains(l, "(P)"@) || contains(l, "||"@)
}

pub open spec fn blocked_mark(l: Seq<char>) -> bool {
    contains(l, "[BLOCKED]"@) || contains(l, "\u{1F6AB}"@) || contains(l, "\u{26D4}"@)
}

pub open spec fn id_done_mark(l: Seq<char>) -> bool {
    contains(l, "\u{2705}"@) || contains(l, "DONE"@) || contains(l, "[COMPLETE]"@) || contains(
        l,
        "[x]"@,
    ) || contains(l, "[X]"@)
}

pub open spec fn id_parallel_mark(l: Seq<char>) -> bool {
    contains(l, "[P]"@) || contains(l, "||"@)
}

pub open spec fn id_blocked_mark(l: Seq<char>) -> bool {
    contains(l, "[BLOCKED]"@) || contains(l, "\u{1F6AB}"@)
}

pub open spec fn done_glyph(t: Seq<char>) -> bool {
    starts_with(t, "\u{2705}"@) || starts_with(t, "\u{2611}"@)
}

pub open spec fn open_glyph(t: Seq<char>) -> bool {
    starts_with(t, "\u{2B1C}"@) || starts_with(t, "\u{2610}"@) || starts_with(t, "\u{274C}"@)
        || starts_with(t, "\u{1F504}"@)
}

pub open spec fn todo_word(t: Seq<char>) -> bool {
    starts_with(t, "TODO:"@) || starts_with(t, "- TODO:"@)
}

pub open spec fn done_word(t: Seq<char>) -> bool {
    starts_with(t, "DONE:"@) || starts_with(t, "- DONE:"@)
}

/// The first category that a line falls in decides what it adds;
/// `task_id` says whether its trimmed text holds a task identifier.
pub open spec fn line_marks(line: Seq<char>, task_id: bool) -> LineMarks {
    let t = trim(line);
    if open_box(t) {
        marks(true, false, parallel_mark(line), blocked_mark(line))
    } else if checked_box(t) {
        marks(true, true, parallel_mark(line), false)
    } else if id_candidate(t) && task_id {
        marks(true, id_done_mark(line), id_parallel_mark(line), id_blocked_mark(line))
    } else if done_glyph(t) {
        marks(true, true, false, false)
    } else if open_glyph(t) {
        marks(true, false, false, false)
    } else if todo_word(t) {
        marks(true, false, false, false)
    } else if done_word(t) {
        marks(true, true, false, false)
    } else {
        marks(false, false, false, false)
    }
}

/// What a line adds, with the task-identifier pattern searched in its
/// trimmed text.
pub open spec fn line_marks_found(line: Seq<char>) -> LineMarks {
    line_marks(line, regex_finds(TASK_ID_PATTERN@, trim(line)))
}

fn marks_given(line: &Vec<char>, t: &Vec<char>, task_id: bool) -> (r: LineMarks)
    requires
        t@ == trim(line@),
    ensures
        r == line_marks(line@, task_id),
{
    if starts_with_exec(t, "- [ ]") || starts_with_exec(t, "* [ ]") {
        let parallel = contains_exec(line, "[P]") || contains_exec(line, "(P)") || contains_exec(
            line,
            "||",
        );
        let blocked = contains_exec(line, "[BLOCKED]") || contains_exec(line, "\u{1F6AB}")
            || contains_exec(line, "\u{26D4}");
        LineMarks { counted: true, completed: false, parallel, blocked }
    } else if starts_with_exec(t, "- [x]") || starts_with_exec(t, "- [X]") || starts_with_exec(
        t,
        "* [x]",
    ) || starts_with_exec(t, "* [X]") {
        let parallel = contains_exec(line, "[P]") || contains_exec(line, "(P)") || contains_exec(
            line,
            "||",
        );
        LineMarks { counted: true, completed: true, parallel, blocked: false }
    } else if contains_exec(t, ":") && !starts_with_exec(t, "- [") && !starts_with_exec(t, "* [")
        && task_id {
        let completed = contains_exec(line, "\u{2705}") || contains_exec(line, "DONE")
            || contains_exec(line, "[COMPLETE]") || contains_exec(line, "[x]") || contains_exec(
            line,
            "[X]",
        );
        let parallel = contains_exec(line, "[P]") || contains_exec(line, "||");
        let blocked = contains_exec(line, "[BLOCKED]") || contains_exec(line, "\u{1F6AB}");
        LineMarks { counted: true, completed, parallel, blocked }
    } else if starts_with_exec(t, "\u{2705}") || starts_with_exec(t, "\u{2611}") {
        LineMarks { counted: true, completed: true, parallel: false, blocked: false }
    } else if starts_with_exec(t, "\u{2B1C}") || starts_with_exec(t, "\u{2610}")
        || starts_with_exec(t, "\u{274C}") || starts_with_exec(t, "\u{1F504}") {
        LineMarks { counted: true, completed: false, parallel: false, blocked: false }
    } else if starts_with_exec(t, "TODO:") || starts_with_exec(t, "- TODO:") {
        LineMarks { counted: true, completed: false, parallel: false, blocked: false }
    } else if starts_with_exec(t, "DONE:") || starts_with_exec(t, "- DONE:") {
        LineMarks { counted: true, completed: true, parallel: false, blocked: false }
    } else {
        LineMarks { counted: false, completed: false, parallel: false, blocked: false }
    }
}

/// What one line of a task list adds to the ledger, given whether its
/// trimmed text holds a task identifier.
pub fn classify_task_line(line: &str, task_id: bool) -> (r: LineMarks)
    ensures
        r == line_marks(line@, task_id),
{
    let chars = chars_of(line);
    let t = trim_chars(&chars);
    marks_given(&chars, &t, task_id)
}

fn marks_of_line(line: &Vec<char>) -> (r: LineMarks)
    ensures
        r == line_marks_found(line@),
{
    let t = trim_chars(line);
    let task_id = if contains_exec(&t, ":") && !starts_with_exec(&t, "- [") && !starts_with_exec(
        &t,
        "* [",
    ) {
        pattern_found(TASK_ID_PATTERN, &t)
    } else {
        false
    };
    marks_given(line, &t, task_id)
}

// ----- the whole list -----

/// Counters over a sequence of lines, unbounded.
pub struct Tally {
    pub total: nat,
    pub completed: nat,
    pub parallel: nat,
    pub blocked: nat,
}

pub open spec fn bump(n: nat, flag: bool) -> nat {
    if flag {
        n + 1
    } else {
        n
    }
}

pub open spec fn tally(lines: Seq<Seq<char>>) -> Tally
    decreases lines.len(),
{
    if lines.len() == 0 {
        Tally { total: 0, completed: 0, parallel: 0, blocked: 0 }
    } else {
        let t = tally(lines.drop_last());
        let m = line_marks_found(lines.last());
        Tally {
            total: bump(t.total, m.counted),
            completed: bump(t.completed, m.completed),
            parallel: bump(t.parallel, m.parallel),
            blocked: bump(t.blocked, m.blocked),
        }
    }
}

/// A count as a `u32`, held at `u32::MAX` if larger.
pub open spec fn clamp_u32(n: nat) -> u32 {
    if n > u32::MAX {
        u32::MAX
    } else {
        n as u32
    }
}

fn to_u32(n: u64) -> (r: u32)
    ensures
        r == clamp_u32(n as nat),
{
    if n > u32::MAX as u64 {
        u32::MAX
    } else {
        n as u32
    }
}

/// The ledger of a task list whose file was last modified at `modified`.
pub open spec fn ledger_of(content: Seq<char>, modified: i64) -> TaskSummary {
    let t = tally(lines_of(content));
    TaskSummary {
        total: clamp_u32(t.total),
        completed: clamp_u32(t.completed),
        parallel_marked: clamp_u32(t.parallel),
        blocked: clamp_u32(t.blocked),
        last_activity: Some(modified),
    }
}

/// Parse the text of a task list into a task summary; `modified` is the
/// file's modification time and becomes the last activity.
pub fn parse_tasks(content: &str, modified: i64) -> (r: TaskSummary)
    ensures
        r == ledger_of(content@, modified),
{
    let chars = chars_of(content);
    let bounds = line_bounds(&chars);
    let ghost lines = lines_of(content@);
    let mut total: u64 = 0;
    let mut completed: u64 = 0;
    let mut parallel: u64 = 0;
    let mut blocked: u64 = 0;
    let mut k: usize = 0;
    while k < bounds.len()
        invariant
            chars@ == content@,
            lines == lines_of(content@),
            bounds@.len() == lines.len(),
            forall|j: int|
                #![trigger bounds@[j]]
                0 <= j < bounds@.len() ==> bounds@[j].0 <= bounds@[j].1 <= chars@.len()
                    && chars@.subrange(bounds@[j].0 as int, bounds@[j].1 as int) == lines[j],
            k <= bounds.len(),
            total <= k && completed <= k && parallel <= k && blocked <= k,
            tally(lines.take(k as int)) == (Tally {
                total: total as nat,
                completed: completed as nat,
                parallel: parallel as nat,
                blocked: blocked as nat,
            }),
        decreases bounds.len() - k,
    {
        let (lo, hi) = bounds[k];
        let line = slice_of(&chars, lo, hi);
        let m = marks_of_line(&line);
        proof {
            assert(lines.take(k + 1).drop_last() =~= lines.take(k as int));
        }
        if m.counted {
            total += 1;
        }
        if m.completed {
            completed += 1;
        }
        if m.parallel {
            parallel += 1;
        }
        if m.blocked {
            blocked += 1;
        }
        k += 1;
    }
    proof {
        assert(lines.take(k as int) =~= lines);
    }
    TaskSummary {
        total: to_u32(total),
        completed: to_u32(completed),
        parallel_marked: to_u32(parallel),
        blocked: to_u32(blocked),
        last_activity: Some(modified),
    }
}

// ----- headings -----

/// Whether the part `s[lo..hi]` starts with `p`.
fn range_starts_with(s: &Vec<char>, lo: usize, hi: usize, p: &str) -> (r: bool)
    requires
        lo <= hi <= s.len(),
    ensures
        r == starts_with(s@.subrange(lo as int, hi as int), p@),
{
    let m = p.unicode_len();
    if m > hi - lo {
        return false;
    }
    let r = occurs_at_exec(s, p, lo);
    assert(s@.subrange(lo as int, hi as int).subrange(0, m as int) =~= s@.subrange(
        lo as int,
        lo + m,
    ));
    r
}

/// `s` with every leading copy of `p` removed, as `str::trim_start_matches`
/// removes them.
pub open spec fn strip_leading(s: Seq<char>, p: Seq<char>) -> Seq<char>
    decreases s.len(),
{
    if p.len() > 0 && starts_with(s, p) {
        strip_leading(s.subrange(p.len() as int, s.len() as int), p)
    } else {
        s
    }
}

/// The text of a level-one heading line.
pub open spec fn heading_text(line: Seq<char>) -> Seq<char> {
    trim(strip_leading(line, "# "@))
}

pub open spec fn is_title_line(line: Seq<char>) -> bool {
    starts_with(line, "# "@)
}

/// Extract the title from a markdown text: the text of its first line that
/// starts with `# `.
pub fn extract_title(content: &str) -> (r: Option<String>)
    ensures
        r is None <==> forall|k: int|
            0 <= k < lines_of(content@).len() ==> !is_title_line(#[trigger] lines_of(content@)[k]),
        r matches Some(t) ==> exists|k: int|
            0 <= k < lines_of(content@).len() && is_title_line(lines_of(content@)[k]) && (forall|
                j: int,
            |
                0 <= j < k ==> !is_title_line(#[trigger] lines_of(content@)[j])) && t@
                == heading_text(lines_of(content@)[k]),
{
    let chars = chars_of(content);
    let bounds = line_bounds(&chars);
    let ghost lines = lines_of(content@);
    let mut k: usize = 0;
    while k < bounds.len()
        invariant
            chars@ == content@,
            lines == lines_of(content@),
            bounds@.len() == lines.len(),
            forall|j: int|
                #![trigger bounds@[j]]
                0 <= j < bounds@.len() ==> bounds@[j].0 <= bounds@[j].1 <= chars@.len()
                    && chars@.subrange(bounds@[j].0 as int, bounds@[j].1 as int) == lines[j],
            k <= bounds.len(),
            forall|j: int| 0 <= j < k ==> !is_title_line(#[trigger] lines[j]),
        decreases bounds.len() - k,
    {
        let (lo, hi) = bounds[k];
        proof {
            assert(bounds@[k as int] == (lo, hi));
        }
        if range_starts_with(&chars, lo, hi, "# ") {
            let m = "# ".unicode_len();
            let mut a: usize = lo;
            assert(k < lines.len());
            assert(chars@.subrange(lo as int, hi as int) == lines[k as int]);
            while m > 0 && range_starts_with(&chars, a, hi, "# ")
                invariant
                    lo <= a <= hi <= chars.len(),
                    k < lines.len(),
                    lines == lines_of(content@),
                    chars@ == content@,
                    m == "# "@.len(),
                    strip_leading(lines[k as int], "# "@) == strip_leading(
                        chars@.subrange(a as int, hi as int),
                        "# "@,
                    ),
                decreases hi - a,
            {
                assert(chars@.subrange(a as int, hi as int).subrange(m as int, (hi - a) as int)
                    =~= chars@.subrange(a + m, hi as int));
                a = a + m;
            }
            let (x, y) = trim_range(&chars, a, hi);
            let t = String::from_str(content.substring_char(x, y));
            proof {
                assert(strip_leading(chars@.subrange(a as int, hi as int), "# "@)
                    == chars@.subrange(a as int, hi as int));
                assert(is_title_line(lines[k as int]));
                assert(t@ == heading_text(lines[k as int]));
                let kk = k as int;
                assert(0 <= kk < lines_of(content@).len() && is_title_line(lines_of(content@)[kk])
                    && (forall|j: int|
                    0 <= j < kk ==> !is_title_line(#[trigger] lines_of(content@)[j])) && t@
                    == heading_text(lines_of(content@)[kk]));
            }
            return Some(t);
        }
        k += 1;
    }
    None
}

pub open spec fn is_section_line(line: Seq<char>) -> bool {
    starts_with(line, "## "@)
}

/// How many of `lines` start a level-two section.
pub open spec fn section_count(lines: Seq<Seq<char>>) -> nat
    decreases lines.len(),
{
    if lines.len() == 0 {
        0
    } else {
        section_count(lines.drop_last()) + if is_section_line(lines.last()) {
            1nat
        } else {
            0nat
        }
    }
}

/// Count sections in a markdown text: the lines that start with `## `.
pub fn count_sections(content: &str) -> (r: usize)
    ensures
        r == section_count(lines_of(content@)),
{
    let chars = chars_of(content);
    let bounds = line_bounds(&chars);
    let ghost lines = lines_of(content@);
    let mut n: usize = 0;
    let mut k: usize = 0;
    while k < bounds.len()
        invariant
            chars@ == content@,
            lines == lines_of(content@),
            bounds@.len() == lines.len(),
            forall|j: int|
                #![trigger bounds@[j]]
                0 <= j < bounds@.len() ==> bounds@[j].0 <= bounds@[j].1 <= chars@.len()
                    && chars@.subrange(bounds@[j].0 as int, bounds@[j].1 as int) == lines[j],
            k <= bounds.len(),
            n <= k,
            n == section_count(lines.take(k as int)),
        decreases bounds.len() - k,
    {
        let (lo, hi) = bounds[k];
        proof {
            assert(bounds@[k as int] == (lo, hi));
            assert(lines.take(k + 1).drop_last() =~= lines.take(k as int));
        }
        if range_starts_with(&chars, lo, hi, "## ") {
            n += 1;
        }
        k += 1;
    }
    proof {
        assert(lines.take(k as int) =~= lines);
    }
    n
}

} // verus!

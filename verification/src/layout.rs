//! The two layouts of a list as text, from values that are already at hand:
//! the heading, and the lines of one task.
//!
//! In the verbose layout a task takes two lines and a third that either
//! continues the frame or, after the last task, closes it. In the compact
//! layout a task takes one line, which begins with a corner for the last
//! task and with a bar for any other.

use crate::task::{Task, TaskView};
use crate::text::{decimal, integer, push_decimal, push_integer};
use vstd::prelude::*;
use vstd::string::*;

verus! {

/// The first line of a list, with the list's title in brackets.
pub open spec fn heading(title: Seq<char>, compact: bool) -> Seq<char> {
    if compact {
        "  ┌─["@ + title + "]\n"@
    } else {
        "  ┌──────────●["@ + title + "]\n"@
    }
}

/// What stands in the box of a task: a cross when it is done.
pub open spec fn mark(done: bool) -> Seq<char> {
    if done {
        "x"@
    } else {
        " "@
    }
}

/// The note of a due date: the label, then the date as it is to be shown.
pub open spec fn due_label(shown: Seq<char>) -> Seq<char> {
    "| due: "@ + shown
}

/// The line under a task in the verbose layout: the frame's last line after
/// the last task, a bar of the frame after any other.
pub open spec fn verbose_tail(last: bool) -> Seq<char> {
    if last {
        "  └──────────●\n"@
    } else {
        "  │"@
    }
}

/// What a line of the compact layout begins with, after its indent: a
/// corner for the last task, a bar for any other.
pub open spec fn compact_glyph(last: bool) -> Seq<char> {
    if last {
        "└"@
    } else {
        "│"@
    }
}

/// A task in the verbose layout: its number in the list, its box and its
/// name; under them its id and then its note, if it has one.
pub open spec fn verbose_entry(
    task: TaskView,
    local_id: nat,
    total: nat,
    note: Option<Seq<char>>,
) -> Seq<char> {
    let first = "  │ "@ + decimal(local_id) + " ─ ["@ + mark(task.done) + "] "@ + task.name
        + " \n  │         └─[id: "@ + integer(task.id) + "] "@;
    let second = match note {
        Some(text) => first + text,
        None => first,
    };
    second + " \n"@ + verbose_tail(local_id == total) + "\n"@
}

/// A task in the compact layout: in brackets its id and, after a blank, its
/// note, if it has one; then its box and its name. An empty line follows the
/// last task.
pub open spec fn compact_entry(
    task: TaskView,
    local_id: nat,
    total: nat,
    note: Option<Seq<char>>,
) -> Seq<char> {
    let first = "  "@ + compact_glyph(local_id == total) + " ["@ + integer(task.id);
    let second = match note {
        Some(text) => first + " "@ + text,
        None => first,
    };
    let third = second + "] ─ ["@ + mark(task.done) + "] "@ + task.name + "\n"@;
    if local_id == total {
        third + "\n"@
    } else {
        third
    }
}

/// A task in the layout asked for.
pub open spec fn entry(
    task: TaskView,
    local_id: nat,
    total: nat,
    note: Option<Seq<char>>,
    compact: bool,
) -> Seq<char> {
    if compact {
        compact_entry(task, local_id, total, note)
    } else {
        verbose_entry(task, local_id, total, note)
    }
}

/// The view of a note that may be missing.
pub open spec fn note_view(note: Option<&str>) -> Option<Seq<char>> {
    match note {
        Some(text) => Some(text@),
        None => None,
    }
}

/// The first line of a list in a layout.
pub fn heading_line(title: &str, compact: bool) -> (r: String)
    ensures
        r@ == heading(title@, compact),
{
    let mut out = if compact {
        "  ┌─[".to_owned()
    } else {
        "  ┌──────────●[".to_owned()
    };
    out.append(title);
    out.append("]\n");
    out
}

fn push_mark(out: &mut String, done: bool)
    ensures
        final(out)@ == old(out)@ + mark(done),
{
    if done {
        out.append("x");
    } else {
        out.append(" ");
    }
}

/// The note of a due date: the label, then the date as it is to be shown.
pub fn due_text(shown: &str) -> (r: String)
    ensures
        r@ == due_label(shown@),
{
    let mut out = "| due: ".to_owned();
    out.append(shown);
    out
}

/// The lines of a task in the verbose layout. The task is the last of its
/// list where `local_id` equals `tasks_len`.
pub fn verbose_lines(task: &Task, local_id: usize, tasks_len: usize, note: Option<&str>) -> (r:
    String)
    ensures
        r@ == verbose_entry(task@, local_id as nat, tasks_len as nat, note_view(note)),
{
    let mut out = "  │ ".to_owned();
    push_decimal(&mut out, local_id as u64);
    out.append(" ─ [");
    push_mark(&mut out, task.done);
    out.append("] ");
    out.append(task.name.as_str());
    out.append(" \n  │         └─[id: ");
    push_integer(&mut out, task.id);
    out.append("] ");
    match note {
        Some(text) => {
            out.append(text);
        },
        None => {},
    }
    out.append(" \n");
    if local_id == tasks_len {
        out.append("  └──────────●\n");
    } else {
        out.append("  │");
    }
    out.append("\n");
    out
}

/// The line of a task in the compact layout. The task is the last of its
/// list where `local_id` equals `tasks_len`.
pub fn compact_line(task: &Task, local_id: usize, tasks_len: usize, note: Option<&str>) -> (r:
    String)
    ensures
        r@ == compact_entry(task@, local_id as nat, tasks_len as nat, note_view(note)),
{
    let mut out = "  ".to_owned();
    if local_id == tasks_len {
        out.append("└");
    } else {
        out.append("│");
    }
    out.append(" [");
    push_integer(&mut out, task.id);
    match note {
        Some(text) => {
            out.append(" ");
            out.append(text);
        },
        None => {},
    }
    out.append("] ─ [");
    push_mark(&mut out, task.done);
    out.append("] ");
    out.append(task.name.as_str());
    out.append("\n");
    if local_id == tasks_len {
        out.append("\n");
    }
    out
}

/// Whether `s` ends with `suffix`.
pub open spec fn ends_with(s: Seq<char>, suffix: Seq<char>) -> bool {
    s.len() >= suffix.len() && s.skip(s.len() - suffix.len()) == suffix
}

/// Whether `s` begins with `prefix`.
pub open spec fn starts_with(s: Seq<char>, prefix: Seq<char>) -> bool {
    s.len() >= prefix.len() && s.take(prefix.len() as int) == prefix
}

/// The closing mark stands with the last task of a list and with no other.
/// In the verbose layout the lines of a task end with the frame's last line
/// if the task is the last, and with a bar of the frame if it is not. In
/// the compact layout the line of a task begins with the corner if the task
/// is the last, and with the bar if it is not.
pub proof fn lemma_closing_mark_only_last(
    task: TaskView,
    local_id: nat,
    total: nat,
    note: Option<Seq<char>>,
)
    ensures
        ends_with(verbose_entry(task, local_id, total, note), "  └──────────●\n\n"@) <==> local_id
            == total,
        ends_with(verbose_entry(task, local_id, total, note), "  │\n"@) <==> local_id != total,
        starts_with(compact_entry(task, local_id, total, note), "  └"@) <==> local_id == total,
        starts_with(compact_entry(task, local_id, total, note), "  │"@) <==> local_id != total,
{
    reveal_strlit("  └──────────●\n\n");
    reveal_strlit("  └──────────●\n");
    reveal_strlit("  │\n");
    reveal_strlit("  │");
    reveal_strlit("  └");
    reveal_strlit("  ");
    reveal_strlit("└");
    reveal_strlit("│");
    reveal_strlit("\n");
    let verbose = verbose_entry(task, local_id, total, note);
    if local_id == total {
        let closing = "  └──────────●\n\n"@;
        assert(verbose.skip(verbose.len() - closing.len()) =~= closing);
        let bar = "  │\n"@;
        assert(bar[2] == '│');
    } else {
        let bar = "  │\n"@;
        assert(verbose.skip(verbose.len() - bar.len()) =~= bar);
        let closing = "  └──────────●\n\n"@;
        if verbose.len() >= closing.len() {
            assert(closing[14] == '\n');
        }
    }
    let compact = compact_entry(task, local_id, total, note);
    let begin = "  "@ + compact_glyph(local_id == total);
    let open = begin + " ["@ + integer(task.id);
    let middle = match note {
        Some(text) => open + " "@ + text,
        None => open,
    };
    let third = middle + "] ─ ["@ + mark(task.done) + "] "@ + task.name + "\n"@;
    assert(compact == if local_id == total {
        third + "\n"@
    } else {
        third
    });
    assert(compact.take(3) =~= begin);
    if local_id == total {
        assert(begin =~= "  └"@);
        assert("  │"@[2] != begin[2]);
    } else {
        assert(begin =~= "  │"@);
        assert("  └"@[2] != begin[2]);
    }
}

} // verus!

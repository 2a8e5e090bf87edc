//! Lists of tasks as text.
//!
//! A due date is shown in the configured format, after a label, and, where
//! colours are on, in the colour of its status. The colouring and the bold
//! type of a list's title are the work of `colored`, which decides by the
//! terminal and the environment whether it writes escape codes at all. So
//! what comes out is fixed only up to that decision, call by call: a `Styled`
//! records the decisions, and the texts are stated for each such record.

use crate::calendar::{display_date, recast, storage_format, text_view, Day};
use crate::config::{Config, ConfigView};
use crate::layout::{
    compact_entry, compact_line, due_label, due_text, entry, heading, heading_line, verbose_entry,
    verbose_lines,
};
use crate::status::{check_date, status_of_date, Status};
use crate::task::{task_views, Task, TaskError, TaskErrorView, TaskView};
use crate::text::{same_text, texts};
use colored::{Color, Colorize};
use vstd::prelude::*;
use vstd::string::*;

verus! {

/// The colours of the statuses.
#[derive(Clone, Copy, Debug, PartialEq, Eq)]
pub enum Tint {
    Red,
    Yellow,
    Green,
    Cyan,
}

/// A text as `colored` displays it in a colour when it does colour: the
/// text between escape codes, by the rules of `ColoredString`'s `Display`.
pub uninterp spec fn tinted(text: Seq<char>, tint: Tint) -> Seq<char>;

/// A text as `colored` displays it in bold type when it does style: the
/// text between escape codes, by the rules of `ColoredString`'s `Display`.
pub uninterp spec fn emboldened(text: Seq<char>) -> Seq<char>;

/// `Colorize::color` on a text, and the `Display` of the `ColoredString`
/// that it gives. `colored` decides by the terminal, the environment and
/// its own switch whether it colours at all. So the result is the text as
/// it is, or the text in the colour; which of the two, nothing here says.
/// This holds as long as nobody throws the switch in the middle of the call.
#[verifier::external_body]
fn paint(text: &str, tint: Tint) -> (r: String)
    ensures
        r@ == text@ || r@ == tinted(text@, tint),
{
    let color = match tint {
        Tint::Red => Color::Red,
        Tint::Yellow => Color::Yellow,
        Tint::Green => Color::Green,
        Tint::Cyan => Color::Cyan,
    };
    text.color(color).to_string()
}

/// `Colorize::bold` on a text, and the `Display` of the `ColoredString`
/// that it gives. The result is the text as it is, or the text in bold
/// type, as for `paint`, and under the same condition.
#[verifier::external_body]
fn embolden(text: &str) -> (r: String)
    ensures
        r@ == text@ || r@ == emboldened(text@),
{
    text.bold().to_string()
}

/// The colour of a status. A date that is not yet due soon has none.
pub open spec fn tint_of(status: Status) -> Option<Tint> {
    match status {
        Status::Late => Some(Tint::Red),
        Status::Yesterday => Some(Tint::Yellow),
        Status::Today => Some(Tint::Green),
        Status::Tomorrow => Some(Tint::Cyan),
        Status::Future => None,
    }
}

/// The colour of a status, if it has one.
pub fn status_tint(status: Status) -> (r: Option<Tint>)
    ensures
        r == tint_of(status),
{
    match status {
        Status::Late => Some(Tint::Red),
        Status::Yesterday => Some(Tint::Yellow),
        Status::Today => Some(Tint::Green),
        Status::Tomorrow => Some(Tint::Cyan),
        Status::Future => None,
    }
}

/// A date as it is shown for a status: in the status's colour where colours
/// are on, the status has one and escape codes are written (`ansi`); as it
/// is otherwise.
pub open spec fn shown_in(shown: Seq<char>, status: Status, colors: bool, ansi: bool) -> Seq<
    char,
> {
    match tint_of(status) {
        Some(tint) => if colors && ansi {
            tinted(shown, tint)
        } else {
            shown
        },
        None => shown,
    }
}

/// The note of a due date of the store: the label, then the date in the
/// configured format. The status is that of the date as shown, read back
/// in the configured format.
pub open spec fn due_note(stored: Seq<char>, config: ConfigView, today: Day, ansi: bool) -> Result<
    Seq<char>,
    TaskErrorView,
> {
    match recast(stored, storage_format(), config.format) {
        Ok(shown) => match status_of_date(shown, config, today) {
            Ok(status) => Ok(due_label(shown_in(shown, status, config.colors, ansi))),
            Err(e) => Err(e),
        },
        Err(e) => Err(e),
    }
}

/// No two statuses share a colour.
pub proof fn lemma_tints_differ(a: Status, b: Status)
    requires
        a != b,
        tint_of(a) is Some,
    ensures
        tint_of(a) != tint_of(b),
{
}

/// A date that is not yet due soon is shown without colour, whether colours
/// are on or not.
pub proof fn lemma_future_has_no_colour(shown: Seq<char>, colors: bool, ansi: bool)
    ensures
        shown_in(shown, Status::Future, colors, ansi) == shown,
{
}

/// With colours off every date is shown as it is.
pub proof fn lemma_colours_off(shown: Seq<char>, status: Status, ansi: bool)
    ensures
        shown_in(shown, status, false, ansi) == shown,
{
}

/// The note of a due date of the store.
pub fn format_date(config: &Config, date: &str, today: Day) -> (r: Result<String, TaskError>)
    ensures
        text_view(r) == due_note(date@, config@, today, false) || text_view(r) == due_note(
            date@,
            config@,
            today,
            true,
        ),
{
    let shown = match display_date(date, config.date.format.as_str()) {
        Ok(text) => text,
        Err(e) => {
            return Err(e);
        },
    };
    let status = match check_date(shown.as_str(), config, today) {
        Ok(status) => status,
        Err(e) => {
            return Err(e);
        },
    };
    if config.ui.colors {
        match status_tint(status) {
            Some(tint) => {
                let painted = paint(shown.as_str(), tint);
                Ok(due_text(painted.as_str()))
            },
            None => Ok(due_text(shown.as_str())),
        }
    } else {
        Ok(due_text(shown.as_str()))
    }
}

/// The note of a task: that of its due date, if it has one.
pub open spec fn note_of(task: TaskView, config: ConfigView, today: Day, ansi: bool) -> Result<
    Option<Seq<char>>,
    TaskErrorView,
> {
    match task.date {
        Some(stored) => match due_note(stored, config, today, ansi) {
            Ok(note) => Ok(Some(note)),
            Err(e) => Err(e),
        },
        None => Ok(None),
    }
}

/// A task with its note in a layout.
pub open spec fn entry_of(
    task: TaskView,
    local_id: nat,
    total: nat,
    config: ConfigView,
    today: Day,
    compact: bool,
    ansi: bool,
) -> Result<Seq<char>, TaskErrorView> {
    match note_of(task, config, today, ansi) {
        Ok(note) => Ok(entry(task, local_id, total, note, compact)),
        Err(e) => Err(e),
    }
}

/// The note of a task, if it has a due date.
fn task_note(config: &Config, task: &Task, today: Day) -> (r: Result<Option<String>, TaskError>)
    ensures
        note_result(r) == note_of(task@, config@, today, false) || note_result(r) == note_of(
            task@,
            config@,
            today,
            true,
        ),
{
    match &task.date {
        Some(stored) => match format_date(config, stored.as_str(), today) {
            Ok(note) => Ok(Some(note)),
            Err(e) => Err(e),
        },
        None => Ok(None),
    }
}

/// How an attempt to get a note came out, as plain values.
pub open spec fn note_result(r: Result<Option<String>, TaskError>) -> Result<
    Option<Seq<char>>,
    TaskErrorView,
> {
    match r {
        Ok(Some(note)) => Ok(Some(note@)),
        Ok(None) => Ok(None),
        Err(e) => Err(e@),
    }
}

/// The lines of a task in the verbose layout, with the note of its due date.
pub fn format_task(
    config: &Config,
    task: &Task,
    local_id: usize,
    tasks_len: usize,
    today: Day,
) -> (r: Result<String, TaskError>)
    ensures
        text_view(r) == entry_of(
            task@,
            local_id as nat,
            tasks_len as nat,
            config@,
            today,
            false,
            false,
        ) || text_view(r) == entry_of(
            task@,
            local_id as nat,
            tasks_len as nat,
            config@,
            today,
            false,
            true,
        ),
{
    match task_note(config, task, today) {
        Ok(Some(note)) => Ok(verbose_lines(task, local_id, tasks_len, Some(note.as_str()))),
        Ok(None) => Ok(verbose_lines(task, local_id, tasks_len, None)),
        Err(e) => Err(e),
    }
}

/// The line of a task in the compact layout, with the note of its due date.
pub fn format_compact(
    config: &Config,
    task: &Task,
    local_id: usize,
    tasks_len: usize,
    today: Day,
) -> (r: Result<String, TaskError>)
    ensures
        text_view(r) == entry_of(
            task@,
            local_id as nat,
            tasks_len as nat,
            config@,
            today,
            true,
            false,
        ) || text_view(r) == entry_of(
            task@,
            local_id as nat,
            tasks_len as nat,
            config@,
            today,
            true,
            true,
        ),
{
    match task_note(config, task, today) {
        Ok(Some(note)) => Ok(compact_line(task, local_id, tasks_len, Some(note.as_str()))),
        Ok(None) => Ok(compact_line(task, local_id, tasks_len, None)),
        Err(e) => Err(e),
    }
}

/// Which of the texts of a list came back from `colored` with escape codes:
/// the title, and the due date of each task, by the task's place.
pub struct Styled {
    pub title: bool,
    pub dates: Seq<bool>,
}

/// The title of a list as it is shown.
pub open spec fn title_of(list: Seq<char>, ansi: bool) -> Seq<char> {
    if ansi {
        emboldened(list)
    } else {
        list
    }
}

/// The heading of a list and its first `upto` tasks, in the order given,
/// numbered from 1; or the error of the first task whose due date cannot be
/// shown.
pub open spec fn rendered_upto(
    list: Seq<char>,
    tasks: Seq<TaskView>,
    config: ConfigView,
    today: Day,
    styled: Styled,
    upto: nat,
) -> Result<Seq<char>, TaskErrorView>
    decreases upto,
{
    if upto == 0 {
        Ok(heading(title_of(list, styled.title), config.compact))
    } else {
        let before = (upto - 1) as nat;
        match rendered_upto(list, tasks, config, today, styled, before) {
            Ok(text) => match entry_of(
                tasks[before as int],
                upto,
                tasks.len(),
                config,
                today,
                config.compact,
                styled.dates[before as int],
            ) {
                Ok(lines) => Ok(text + lines),
                Err(e) => Err(e),
            },
            Err(e) => Err(e),
        }
    }
}

/// A list as text: its heading and all its tasks.
pub open spec fn rendered(
    list: Seq<char>,
    tasks: Seq<TaskView>,
    config: ConfigView,
    today: Day,
    styled: Styled,
) -> Result<Seq<char>, TaskErrorView> {
    rendered_upto(list, tasks, config, today, styled, tasks.len())
}

/// Only the decisions on the tasks that are shown count.
proof fn lemma_rendered_agrees(
    list: Seq<char>,
    tasks: Seq<TaskView>,
    config: ConfigView,
    today: Day,
    a: Styled,
    b: Styled,
    upto: nat,
)
    requires
        a.title == b.title,
        forall|j: int| 0 <= j < upto ==> a.dates[j] == b.dates[j],
    ensures
        rendered_upto(list, tasks, config, today, a, upto) == rendered_upto(
            list,
            tasks,
            config,
            today,
            b,
            upto,
        ),
    decreases upto,
{
    if upto > 0 {
        lemma_rendered_agrees(list, tasks, config, today, a, b, (upto - 1) as nat);
    }
}

/// Once a task is in error, later tasks change nothing.
proof fn lemma_rendered_stops(
    list: Seq<char>,
    tasks: Seq<TaskView>,
    config: ConfigView,
    today: Day,
    styled: Styled,
    from: nat,
    upto: nat,
)
    requires
        from <= upto,
        rendered_upto(list, tasks, config, today, styled, from) is Err,
    ensures
        rendered_upto(list, tasks, config, today, styled, upto) == rendered_upto(
            list,
            tasks,
            config,
            today,
            styled,
            from,
        ),
    decreases upto,
{
    if from < upto {
        lemma_rendered_stops(list, tasks, config, today, styled, from, (upto - 1) as nat);
    }
}

/// Whether the due date of a task can be shown: the task has none, or the
/// store's text is a date in the storage format, the configured format can
/// write that date, and reads it back.
pub open spec fn shows(task: TaskView, config: ConfigView, today: Day) -> bool {
    note_of(task, config, today, false) is Ok
}

/// A list is rendered exactly if the due date of each of its tasks can be
/// shown; colouring has no part in that.
pub proof fn lemma_rendered_where_all_show(
    list: Seq<char>,
    tasks: Seq<TaskView>,
    config: ConfigView,
    today: Day,
    styled: Styled,
    upto: nat,
)
    requires
        upto <= tasks.len(),
    ensures
        rendered_upto(list, tasks, config, today, styled, upto) is Ok <==> forall|i: int|
            0 <= i < upto ==> shows(#[trigger] tasks[i], config, today),
    decreases upto,
{
    if upto > 0 {
        lemma_rendered_where_all_show(list, tasks, config, today, styled, (upto - 1) as nat);
        let last = tasks[upto - 1];
        assert(note_of(last, config, today, styled.dates[upto - 1]) is Ok <==> shows(
            last,
            config,
            today,
        ));
    }
}

/// The two layouts fail on the same tasks.
proof fn lemma_layouts_fail_alike(
    list: Seq<char>,
    tasks: Seq<TaskView>,
    verbose: ConfigView,
    compact: ConfigView,
    today: Day,
    styled: Styled,
    upto: nat,
)
    requires
        same_but_layout(verbose, compact),
    ensures
        rendered_upto(list, tasks, verbose, today, styled, upto) is Ok <==> rendered_upto(
            list,
            tasks,
            compact,
            today,
            styled,
            upto,
        ) is Ok,
    decreases upto,
{
    if upto > 0 {
        lemma_layouts_fail_alike(list, tasks, verbose, compact, today, styled, (upto - 1) as nat);
    }
}

/// Two configurations that differ in the layout at most: the first asks for
/// the verbose one, the second for the compact one.
pub open spec fn same_but_layout(verbose: ConfigView, compact: ConfigView) -> bool {
    &&& !verbose.compact
    &&& compact.compact
    &&& verbose.colors == compact.colors
    &&& verbose.format == compact.format
    &&& verbose.warn_days_before == compact.warn_days_before
}

/// Both layouts show the same tasks in the same order. Whatever stands at a
/// place of the list, each layout adds the lines of that task to what it has
/// shown of the tasks before it, under the same number and with the same
/// note; and where one layout fails, so does the other.
pub proof fn lemma_layouts_keep_order(
    list: Seq<char>,
    tasks: Seq<TaskView>,
    verbose: ConfigView,
    compact: ConfigView,
    today: Day,
    styled: Styled,
    place: nat,
)
    requires
        same_but_layout(verbose, compact),
        place < tasks.len(),
    ensures
        rendered_upto(list, tasks, verbose, today, styled, place + 1) is Ok <==> rendered_upto(
            list,
            tasks,
            compact,
            today,
            styled,
            place + 1,
        ) is Ok,
        rendered_upto(list, tasks, verbose, today, styled, place + 1) matches Ok(v) ==> {
            &&& note_of(tasks[place as int], verbose, today, styled.dates[place as int]) matches Ok(
                note,
            )
            &&& rendered_upto(list, tasks, verbose, today, styled, place) matches Ok(v_before)
            &&& rendered_upto(list, tasks, compact, today, styled, place) matches Ok(c_before)
            &&& rendered_upto(list, tasks, compact, today, styled, place + 1) matches Ok(c)
            &&& v == v_before + verbose_entry(tasks[place as int], place + 1, tasks.len(), note)
            &&& c == c_before + compact_entry(tasks[place as int], place + 1, tasks.len(), note)
        },
{
    lemma_layouts_fail_alike(list, tasks, verbose, compact, today, styled, place);
    lemma_layouts_fail_alike(list, tasks, verbose, compact, today, styled, place + 1);
    assert(note_of(tasks[place as int], verbose, today, styled.dates[place as int]) == note_of(
        tasks[place as int],
        compact,
        today,
        styled.dates[place as int],
    ));
}

/// Renders the tasks of a list under the list's name: the heading, then the
/// tasks in the order given, in the layout that the configuration asks for.
/// It fails where a task's due date cannot be shown, with the error of the
/// first such task.
pub fn display(list: &str, tasks: &Vec<Task>, config: &Config, today: Day) -> (r: Result<
    String,
    TaskError,
>)
    ensures
        exists|styled: Styled|
            styled.dates.len() == tasks.len() && text_view(r) == #[trigger] rendered(
                list@,
                task_views(tasks@),
                config@,
                today,
                styled,
            ),
{
    let n: usize = tasks.len();
    let title = embolden(list);
    let ghost views = task_views(tasks@);
    let ghost mut styled = Styled {
        title: title@ != list@,
        dates: Seq::new(n as nat, |j: int| false),
    };
    let mut out = heading_line(title.as_str(), config.ui.compact);
    let mut i: usize = 0;
    while i < n
        invariant
            i <= n == tasks.len(),
            views == task_views(tasks@),
            styled.dates.len() == n,
            rendered_upto(list@, views, config@, today, styled, i as nat) == Ok::<
                Seq<char>,
                TaskErrorView,
            >(out@),
        decreases n - i,
    {
        let task = &tasks[i];
        let lines = if config.ui.compact {
            format_compact(config, task, i + 1, n, today)
        } else {
            format_task(config, task, i + 1, n, today)
        };
        proof {
            let ansi = text_view(lines) != entry_of(
                task@,
                (i + 1) as nat,
                n as nat,
                config@,
                today,
                config@.compact,
                false,
            );
            let next = Styled { title: styled.title, dates: styled.dates.update(i as int, ansi) };
            lemma_rendered_agrees(list@, views, config@, today, styled, next, i as nat);
            styled = next;
        }
        match lines {
            Ok(text) => {
                out.append(text.as_str());
            },
            Err(e) => {
                proof {
                    lemma_rendered_stops(
                        list@,
                        views,
                        config@,
                        today,
                        styled,
                        (i + 1) as nat,
                        n as nat,
                    );
                    assert(rendered(list@, views, config@, today, styled) == Err::<
                        Seq<char>,
                        TaskErrorView,
                    >(e@));
                }
                return Err(e);
            },
        }
        i += 1;
    }
    assert(rendered(list@, views, config@, today, styled) == Ok::<Seq<char>, TaskErrorView>(out@));
    Ok(out)
}

/// The names of the lists that the tasks belong to, task by task.
pub open spec fn list_names(tasks: Seq<TaskView>) -> Seq<Seq<char>> {
    Seq::new(tasks.len(), |i: int| tasks[i].list)
}

/// The names without repetition, each where it first occurs.
pub open spec fn first_seen(names: Seq<Seq<char>>) -> Seq<Seq<char>>
    decreases names.len(),
{
    if names.len() == 0 {
        Seq::empty()
    } else {
        let before = first_seen(names.drop_last());
        if before.contains(names.last()) {
            before
        } else {
            before.push(names.last())
        }
    }
}

/// The names that were seen first hold every name once: a name is among
/// them exactly if it is among the names, and none stands there twice.
pub proof fn lemma_first_seen_once(names: Seq<Seq<char>>)
    ensures
        forall|name: Seq<char>| first_seen(names).contains(name) <==> names.contains(name),
        forall|i: int, j: int|
            0 <= i < j < first_seen(names).len() ==> first_seen(names)[i] != first_seen(names)[j],
    decreases names.len(),
{
    if names.len() > 0 {
        let init = names.drop_last();
        let before = first_seen(init);
        let all = first_seen(names);
        lemma_first_seen_once(init);
        assert forall|name: Seq<char>| all.contains(name) <==> names.contains(name) by {
            assert(before.contains(name) <==> init.contains(name));
            if all.contains(name) {
                let i = choose|i: int| 0 <= i < all.len() && all[i] == name;
                if i < before.len() {
                    assert(before[i] == name);
                    assert(before.contains(name));
                    let k = choose|k: int| 0 <= k < init.len() && init[k] == name;
                    assert(names[k] == name);
                } else {
                    assert(names[names.len() - 1] == name);
                }
            }
            if names.contains(name) {
                let k = choose|k: int| 0 <= k < names.len() && names[k] == name;
                if k < init.len() {
                    assert(init[k] == name);
                    assert(init.contains(name));
                    let i = choose|i: int| 0 <= i < before.len() && before[i] == name;
                    assert(all[i] == name);
                } else if !before.contains(name) {
                    assert(all[all.len() - 1] == name);
                }
            }
        }
        assert forall|i: int, j: int| 0 <= i < j < all.len() implies all[i] != all[j] by {
            if j == before.len() {
                assert(!before.contains(names.last()));
                assert(before[i] == all[i]);
            }
        }
    }
}

/// The names that were seen first stand in the order in which they were
/// seen: those of the first `k` names come first, and further names are put
/// behind them.
pub proof fn lemma_first_seen_in_order(names: Seq<Seq<char>>, k: int)
    requires
        0 <= k <= names.len(),
    ensures
        first_seen(names.take(k)).len() <= first_seen(names).len(),
        first_seen(names.take(k)) == first_seen(names).take(first_seen(names.take(k)).len() as int),
    decreases names.len() - k,
{
    if k == names.len() {
        assert(names.take(k) =~= names);
    } else {
        lemma_first_seen_in_order(names, k + 1);
        assert(names.take(k + 1).drop_last() =~= names.take(k));
        let shorter = first_seen(names.take(k));
        let longer = first_seen(names.take(k + 1));
        assert(shorter =~= longer.take(shorter.len() as int));
        assert(shorter =~= first_seen(names).take(shorter.len() as int));
    }
}

/// The tasks of one list, in the order of the whole.
pub open spec fn of_list(tasks: Seq<TaskView>, list: Seq<char>) -> Seq<TaskView>
    decreases tasks.len(),
{
    if tasks.len() == 0 {
        Seq::empty()
    } else {
        let before = of_list(tasks.drop_last(), list);
        if tasks.last().list == list {
            before.push(tasks.last())
        } else {
            before
        }
    }
}

/// The first `upto` lists of the tasks, each rendered with its own tasks,
/// one after the other; or the error of the first list that has one.
pub open spec fn all_rendered_upto(
    tasks: Seq<TaskView>,
    config: ConfigView,
    today: Day,
    styles: Seq<Styled>,
    upto: nat,
) -> Result<Seq<char>, TaskErrorView>
    decreases upto,
{
    if upto == 0 {
        Ok(Seq::empty())
    } else {
        let before = (upto - 1) as nat;
        let list = first_seen(list_names(tasks))[before as int];
        match all_rendered_upto(tasks, config, today, styles, before) {
            Ok(text) => match rendered(
                list,
                of_list(tasks, list),
                config,
                today,
                styles[before as int],
            ) {
                Ok(part) => Ok(text + part),
                Err(e) => Err(e),
            },
            Err(e) => Err(e),
        }
    }
}

/// All lists of the tasks as text, in the order in which the lists first
/// occur among the tasks. Without tasks there is nothing to show, which is
/// an error.
pub open spec fn all_rendered(
    tasks: Seq<TaskView>,
    config: ConfigView,
    today: Day,
    styles: Seq<Styled>,
) -> Result<Seq<char>, TaskErrorView> {
    if tasks.len() == 0 {
        Err(TaskErrorView::NoTaskAvailable)
    } else {
        all_rendered_upto(tasks, config, today, styles, first_seen(list_names(tasks)).len())
    }
}

/// Whether there is one `Styled` for each list, with one decision for each
/// of the list's tasks.
pub open spec fn styles_fit(tasks: Seq<TaskView>, styles: Seq<Styled>) -> bool {
    let lists = first_seen(list_names(tasks));
    &&& styles.len() == lists.len()
    &&& forall|k: int|
        0 <= k < lists.len() ==> (#[trigger] styles[k]).dates.len() == of_list(
            tasks,
            lists[k],
        ).len()
}

/// Whether `name` is among `names`.
fn holds(names: &Vec<String>, name: &String) -> (r: bool)
    ensures
        r == texts(names@).contains(name@),
{
    let mut i: usize = 0;
    while i < names.len()
        invariant
            i <= names.len(),
            forall|j: int| 0 <= j < i ==> texts(names@)[j] != name@,
        decreases names.len() - i,
    {
        if names[i] == *name {
            assert(texts(names@)[i as int] == name@);
            return true;
        }
        i += 1;
    }
    false
}

/// The names of the lists of the tasks, each once, in the order in which
/// they first occur.
pub fn unique_lists(tasks: &Vec<Task>) -> (r: Vec<String>)
    ensures
        texts(r@) == first_seen(list_names(task_views(tasks@))),
{
    let ghost names = list_names(task_views(tasks@));
    let mut unique: Vec<String> = Vec::new();
    let mut i: usize = 0;
    while i < tasks.len()
        invariant
            i <= tasks.len(),
            names == list_names(task_views(tasks@)),
            texts(unique@) == first_seen(names.take(i as int)),
        decreases tasks.len() - i,
    {
        assert(names.take(i + 1).drop_last() =~= names.take(i as int));
        if !holds(&unique, &tasks[i].list) {
            unique.push(tasks[i].list.clone());
        }
        i += 1;
    }
    assert(names.take(tasks.len() as int) =~= names);
    unique
}

/// A task with the same values.
fn copy_task(task: &Task) -> (r: Task)
    ensures
        r@ == task@,
{
    Task {
        id: task.id,
        name: task.name.clone(),
        done: task.done,
        list: task.list.clone(),
        date: match &task.date {
            Some(text) => Some(text.clone()),
            None => None,
        },
    }
}

/// The tasks that belong to the list, in the order given.
pub fn tasks_of_list(tasks: &Vec<Task>, list: &str) -> (r: Vec<Task>)
    ensures
        task_views(r@) == of_list(task_views(tasks@), list@),
{
    let ghost views = task_views(tasks@);
    let mut chosen: Vec<Task> = Vec::new();
    let mut i: usize = 0;
    while i < tasks.len()
        invariant
            i <= tasks.len(),
            views == task_views(tasks@),
            task_views(chosen@) == of_list(views.take(i as int), list@),
        decreases tasks.len() - i,
    {
        assert(views.take(i + 1).drop_last() =~= views.take(i as int));
        if same_text(tasks[i].list.as_str(), list) {
            chosen.push(copy_task(&tasks[i]));
        }
        i += 1;
    }
    assert(views.take(tasks.len() as int) =~= views);
    chosen
}

/// Only the decisions on the lists that are shown count.
proof fn lemma_all_rendered_agrees(
    tasks: Seq<TaskView>,
    config: ConfigView,
    today: Day,
    a: Seq<Styled>,
    b: Seq<Styled>,
    upto: nat,
)
    requires
        forall|k: int| 0 <= k < upto ==> a[k] == b[k],
    ensures
        all_rendered_upto(tasks, config, today, a, upto) == all_rendered_upto(
            tasks,
            config,
            today,
            b,
            upto,
        ),
    decreases upto,
{
    if upto > 0 {
        lemma_all_rendered_agrees(tasks, config, today, a, b, (upto - 1) as nat);
    }
}

/// Once a list is in error, later lists change nothing.
proof fn lemma_all_rendered_stops(
    tasks: Seq<TaskView>,
    config: ConfigView,
    today: Day,
    styles: Seq<Styled>,
    from: nat,
    upto: nat,
)
    requires
        from <= upto,
        all_rendered_upto(tasks, config, today, styles, from) is Err,
    ensures
        all_rendered_upto(tasks, config, today, styles, upto) == all_rendered_upto(
            tasks,
            config,
            today,
            styles,
            from,
        ),
    decreases upto,
{
    if from < upto {
        lemma_all_rendered_stops(tasks, config, today, styles, from, (upto - 1) as nat);
    }
}

/// Renders every list of the tasks: the lists in the order in which they
/// first occur among the tasks, each with its own tasks. It fails where
/// there is no task at all, and where a due date cannot be shown.
pub fn display_all(tasks: &Vec<Task>, config: &Config, today: Day) -> (r: Result<String, TaskError>)
    ensures
        exists|styles: Seq<Styled>|
            styles_fit(task_views(tasks@), styles) && text_view(r) == #[trigger] all_rendered(
                task_views(tasks@),
                config@,
                today,
                styles,
            ),
{
    let ghost views = task_views(tasks@);
    let ghost names = first_seen(list_names(views));
    let ghost mut styles = Seq::new(
        names.len(),
        |k: int|
            Styled {
                title: false,
                dates: Seq::new(of_list(views, names[k]).len(), |j: int| false),
            },
    );
    if tasks.len() == 0 {
        assert(all_rendered(views, config@, today, styles) == Err::<Seq<char>, TaskErrorView>(
            TaskErrorView::NoTaskAvailable,
        ));
        return Err(TaskError::NoTaskAvailable);
    }
    let lists = unique_lists(tasks);
    let mut out = String::new();
    let mut k: usize = 0;
    while k < lists.len()
        invariant
            k <= lists.len() == names.len(),
            views == task_views(tasks@),
            views.len() > 0,
            names == first_seen(list_names(views)),
            texts(lists@) == names,
            styles_fit(views, styles),
            all_rendered_upto(views, config@, today, styles, k as nat) == Ok::<
                Seq<char>,
                TaskErrorView,
            >(out@),
        decreases lists.len() - k,
    {
        let list = lists[k].as_str();
        let selected = tasks_of_list(tasks, list);
        let part = display(list, &selected, config, today);
        proof {
            let one = choose|styled: Styled|
                styled.dates.len() == selected.len() && text_view(part) == #[trigger] rendered(
                    list@,
                    task_views(selected@),
                    config@,
                    today,
                    styled,
                );
            let next = styles.update(k as int, one);
            lemma_all_rendered_agrees(views, config@, today, styles, next, k as nat);
            styles = next;
        }
        match part {
            Ok(text) => {
                out.append(text.as_str());
            },
            Err(e) => {
                proof {
                    lemma_all_rendered_stops(
                        views,
                        config@,
                        today,
                        styles,
                        (k + 1) as nat,
                        names.len(),
                    );
                    assert(all_rendered(views, config@, today, styles) == Err::<
                        Seq<char>,
                        TaskErrorView,
                    >(e@));
                }
                return Err(e);
            },
        }
        k += 1;
    }
    assert(all_rendered(views, config@, today, styles) == Ok::<Seq<char>, TaskErrorView>(out@));
    Ok(out)
}

} // verus!

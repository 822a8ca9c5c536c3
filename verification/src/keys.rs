//! What each key is for, key by key.

use crate::action;
use crate::app;
use crate::app::{
    AppView, EffectView, EnterAct, Key, PagerView, Panel, RowCaps, SelView,
};
use crate::model::{Model, Scope};
use crate::registry;
use crate::registry::{AgentSnapshot, InFlight};
use crate::rows;
use crate::rows::Row;
use crate::text;
use vstd::prelude::*;

verus! {

/// Whether nothing lies over the panels and nothing is being typed.
pub open spec fn bare(a: AppView) -> bool {
    &&& a.confirm is None
    &&& a.evict_prompt is None
    &&& a.pager is None
    &&& a.info is None
    &&& a.peek is None
    &&& !a.help
    &&& !a.filter_input
}

/// Whether a state is another in which only the keys of the selection may differ.
pub open spec fn same_but_keys(b: AppView, a: AppView) -> bool {
    b == (AppView { row_key: b.row_key, task_key: b.task_key, ..a })
}

/// While the question before an eviction is open, `y` and Enter evict the generation that was
/// shown, `n` and Esc close the question and nothing is evicted, and every other key does
/// nothing at all.
pub proof fn the_question_before_an_eviction(
    a: AppView,
    m: Model,
    key: Key,
    p: action::EvictPromptView,
)
    requires
        a.confirm is None,
        a.evict_prompt == Some(p),
    ensures
        ({
            let b = app::pressed(a, m, key).0;
            let e = app::pressed(a, m, key).1;
            if key == Key::Char('y') || key == Key::Enter {
                &&& e == (EffectView::Evict { shown: p.shown })
                &&& same_but_keys(b, AppView { evict_prompt: None, ..a })
            } else if key == Key::Char('n') || key == Key::Esc {
                &&& e == EffectView::Nothing
                &&& same_but_keys(b, AppView { evict_prompt: None, message: "evict aborted"@, ..a })
            } else {
                &&& e == EffectView::Nothing
                &&& same_but_keys(b, a)
            }
        }),
{
}

/// While the question before a cancellation is open, `y` and Enter cancel the task that it is
/// about, `n` and Esc close it and nothing is cancelled, and every other key does nothing.
pub proof fn the_question_before_a_cancellation(a: AppView, m: Model, key: Key, id: Seq<char>)
    requires
        a.confirm == Some(id),
    ensures
        ({
            let b = app::pressed(a, m, key).0;
            let e = app::pressed(a, m, key).1;
            if key == Key::Char('y') || key == Key::Enter {
                &&& e == (EffectView::Cancel { id })
                &&& same_but_keys(b, AppView { confirm: None, ..a })
            } else if key == Key::Char('n') || key == Key::Esc {
                &&& e == EffectView::Nothing
                &&& same_but_keys(b, AppView { confirm: None, message: "cancel aborted"@, ..a })
            } else {
                &&& e == EffectView::Nothing
                &&& same_but_keys(b, a)
            }
        }),
{
}

/// The full text of a task is closed by Esc and `q`. Every other key leaves the same text open,
/// and moves it at most: by a line, by a page, or to one of its ends, and never so far that less
/// than a page of it is left, as long as it has a page.
pub proof fn the_keys_of_the_pager(a: AppView, m: Model, key: Key, p: PagerView)
    requires
        a.confirm is None,
        a.evict_prompt is None,
        a.pager == Some(p),
        p.scroll >= 0,
    ensures
        ({
            let b = app::pressed(a, m, key).0;
            let lines = action::pager_text(p).len() as int;
            let page = if a.pages.pager == 0 {
                1
            } else {
                a.pages.pager as int
            };
            let end = if lines > page {
                lines - page
            } else {
                0
            };
            &&& app::pressed(a, m, key).1 == EffectView::Nothing
            &&& if key == Key::Esc || key == Key::Char('q') {
                same_but_keys(b, AppView { pager: None, ..a })
            } else {
                &&& b.pager is Some
                &&& b.pager->0 == (PagerView { scroll: (b.pager->0).scroll, ..p })
                &&& same_but_keys(b, AppView { pager: b.pager, ..a })
                &&& (key == Key::Down || key == Key::Char('j')) && p.scroll <= end ==> (
                b.pager->0).scroll == (if p.scroll < end {
                    p.scroll + 1
                } else {
                    end
                })
                &&& (key == Key::Up || key == Key::Char('k')) ==> (b.pager->0).scroll == (
                if p.scroll > 0 {
                    p.scroll - 1
                } else {
                    0
                })
                &&& key == Key::PageDown && p.scroll <= end ==> (b.pager->0).scroll == (
                if p.scroll + page <= end {
                    p.scroll + page
                } else {
                    end
                })
                &&& key == Key::PageUp ==> (b.pager->0).scroll == (if p.scroll >= page {
                    p.scroll - page
                } else {
                    0
                })
                &&& key == Key::Home ==> (b.pager->0).scroll == 0
                &&& key == Key::End ==> (b.pager->0).scroll == end
            }
        }),
{
}

/// Any key closes a worker's page, a preview or the list of the keys, and does nothing else.
pub proof fn any_key_closes_a_page(a: AppView, m: Model, key: Key)
    requires
        a.confirm is None,
        a.evict_prompt is None,
        a.pager is None,
    ensures
        a.info is Some ==> app::pressed(a, m, key).1 == EffectView::Nothing && same_but_keys(
            app::pressed(a, m, key).0,
            AppView { info: None, ..a },
        ),
        a.info is None && a.peek is Some ==> app::pressed(a, m, key).1 == EffectView::Nothing
            && same_but_keys(app::pressed(a, m, key).0, AppView { peek: None, ..a }),
        a.info is None && a.peek is None && a.help ==> app::pressed(a, m, key).1
            == EffectView::Nothing && same_but_keys(
            app::pressed(a, m, key).0,
            AppView { help: false, ..a },
        ),
{
}

/// While the filter is typed, a letter is added to it and Backspace takes the last one away,
/// Enter keeps it and Esc clears it. No other key does anything, and none has an effect outside.
pub proof fn typing_a_filter(a: AppView, m: Model, key: Key)
    requires
        a.filter_input,
        a.confirm is None,
        a.evict_prompt is None,
        a.pager is None,
        a.info is None,
        a.peek is None,
        !a.help,
    ensures
        ({
            let b = app::pressed(a, m, key).0;
            &&& app::pressed(a, m, key).1 == EffectView::Nothing
            &&& b.scope == a.scope && b.panel == a.panel && b.confirm is None && b.evict_prompt is None
            &&& b.warnings == a.warnings
            &&& match key {
                Key::Char(c) => b.filter == a.filter.push(c) && b.filter_input,
                Key::Backspace => b.filter_input && (if a.filter.len() == 0 {
                    same_but_keys(b, a)
                } else {
                    b.filter == a.filter.take(a.filter.len() - 1)
                }),
                Key::Enter => same_but_keys(b, AppView { filter_input: false, ..a }),
                Key::Esc => b.filter.len() == 0 && !b.filter_input,
                _ => same_but_keys(b, a),
            }
        }),
{
    if a.filter.len() > 0 {
        assert(a.filter.drop_last() =~= a.filter.take(a.filter.len() - 1));
    }
}

/// What is selected is what the focused panel lists at the selected place: in the worker list the
/// worker of the row, or its task with that worker; in the task list the recent task, with the
/// worker that alone can claim it.
pub proof fn the_selection_is_what_is_listed(a: AppView, m: Model)
    ensures
        a.panel == Panel::Workers && 0 <= a.row_idx < rows::rows_in(
            rows::walk(m, a.filter),
        ).len() ==> match rows::rows_in(rows::walk(m, a.filter))[a.row_idx] {
            Row::Worker(wi) => app::selection_of(a, m) == SelView::Worker(m.workers@[wi as int]),
            Row::Task { worker, task } => app::selection_of(a, m) == (SelView::Task {
                task: m.tasks@[task as int],
                worker: Some(m.workers@[worker as int]),
            }),
        },
        a.panel == Panel::Workers && !(0 <= a.row_idx < rows::rows_in(
            rows::walk(m, a.filter),
        ).len()) ==> app::selection_of(a, m) == SelView::Nothing,
        a.panel == Panel::Tasks && 0 <= a.task_idx < rows::task_rows_of(
            m,
            a.filter,
            a.scope,
        ).len() ==> ({
            let t = m.recent@[rows::task_rows_of(m, a.filter, a.scope)[a.task_idx]];
            &&& app::selection_of(a, m) matches SelView::Task { task, worker } && task == t
            &&& forall|i: int|
                #![trigger m.workers@[i]]
                0 <= i < m.workers@.len() && registry::belongs(t, m.workers@[i]) && (forall|j: int|
                    0 <= j < m.workers@.len() && #[trigger] registry::belongs(t, m.workers@[j])
                        ==> j == i) ==> app::selection_of(a, m)->worker == Some(m.workers@[i])
            &&& app::selection_of(a, m)->worker matches Some(w) ==> m.workers@.contains(w)
                && registry::belongs(t, w)
        }),
        a.panel == Panel::Tasks && !(0 <= a.task_idx < rows::task_rows_of(
            m,
            a.filter,
            a.scope,
        ).len()) ==> app::selection_of(a, m) == SelView::Nothing,
{
    if a.panel == Panel::Tasks && 0 <= a.task_idx < rows::task_rows_of(m, a.filter, a.scope).len() {
        let t = m.recent@[rows::task_rows_of(m, a.filter, a.scope)[a.task_idx]];
        assert forall|i: int|
            #![trigger m.workers@[i]]
            0 <= i < m.workers@.len() && registry::belongs(t, m.workers@[i]) && (forall|j: int|
                0 <= j < m.workers@.len() && #[trigger] registry::belongs(t, m.workers@[j])
                    ==> j == i) implies app::selection_of(a, m)->worker == Some(m.workers@[i]) by {
            assert(crate::model::sole_claim(m.workers@, t, i));
        }
    }
}

/// Enter brings the selected worker's pane to the front and opens the selected task's text; `r`
/// opens a task's text and says why it does nothing elsewhere.
pub proof fn enter_and_r(a: AppView, m: Model)
    requires
        bare(a),
    ensures
        match app::selection_of(a, m) {
            SelView::Worker(w) => app::pressed(a, m, Key::Enter).1 == (EffectView::Focus {
                pane: w.pane@,
                label: w.name@,
            }) && same_but_keys(app::pressed(a, m, Key::Enter).0, a),
            SelView::Task { task, .. } => app::pressed(a, m, Key::Enter).1 == (EffectView::Read {
                id: task.id@,
            }) && app::pressed(a, m, Key::Char('r')).1 == (EffectView::Read { id: task.id@ })
                && same_but_keys(app::pressed(a, m, Key::Enter).0, a) && same_but_keys(
                app::pressed(a, m, Key::Char('r')).0,
                a,
            ),
            SelView::Nothing => app::pressed(a, m, Key::Enter).1 == EffectView::Nothing
                && same_but_keys(app::pressed(a, m, Key::Enter).0, a),
        },
        !(app::selection_of(a, m) is Task) ==> app::pressed(a, m, Key::Char('r')).1
            == EffectView::Nothing && same_but_keys(
            app::pressed(a, m, Key::Char('r')).0,
            AppView { message: "r only acts on task rows (read needs a unique task id)"@, ..a },
        ),
{
}

/// `x` asks about the selected task, by its id, unless the task is finished: completed, failed or
/// cancelled. Nothing is cancelled by the key itself.
pub proof fn x_asks_about_the_selected_task(a: AppView, m: Model)
    requires
        bare(a),
    ensures
        app::pressed(a, m, Key::Char('x')).1 == EffectView::Nothing,
        match app::selection_of(a, m) {
            SelView::Task { task, .. } => if task.status@ == "completed"@ || task.status@ == "failed"@
                || task.status@ == "cancelled"@ {
                same_but_keys(
                    app::pressed(a, m, Key::Char('x')).0,
                    AppView {
                        message: "task "@ + task.id@ + " is already terminal ("@ + task.status@
                            + "); nothing to cancel"@,
                        ..a
                    },
                )
            } else {
                same_but_keys(
                    app::pressed(a, m, Key::Char('x')).0,
                    AppView { confirm: Some(task.id@), ..a },
                )
            },
            _ => same_but_keys(
                app::pressed(a, m, Key::Char('x')).0,
                AppView {
                    message: "x only acts on task rows (cancel needs a unique task id)"@,
                    ..a
                },
            ),
        },
{
}

/// `i` asks for the page of the selected worker, and on a task for the page of the worker that the
/// task belongs to; of a task that belongs to nobody there is none.
pub proof fn i_shows_the_worker_of_the_selection(a: AppView, m: Model)
    requires
        bare(a),
    ensures
        match app::selection_of(a, m) {
            SelView::Worker(w) => app::pressed(a, m, Key::Char('i')).1 == (EffectView::Info {
                worker: w.name@,
            }) && same_but_keys(app::pressed(a, m, Key::Char('i')).0, a),
            SelView::Task { task, worker: Some(w) } => app::pressed(a, m, Key::Char('i')).1 == (
            EffectView::Info { worker: w.name@ }) && same_but_keys(
                app::pressed(a, m, Key::Char('i')).0,
                a,
            ),
            SelView::Task { task, worker: None } => app::pressed(a, m, Key::Char('i')).1
                == EffectView::Nothing && same_but_keys(
                app::pressed(a, m, Key::Char('i')).0,
                AppView {
                    message: "'"@ + task.to@ + "' is gone from the registry; no info to show"@,
                    ..a
                },
            ),
            SelView::Nothing => app::pressed(a, m, Key::Char('i')).1 == EffectView::Nothing
                && same_but_keys(
                app::pressed(a, m, Key::Char('i')).0,
                AppView { message: "i only acts on worker / task rows"@, ..a },
            ),
        },
{
}

/// Each row of the list is a row of the walk.
pub proof fn lemma_rows_are_in_the_walk(ev: Seq<rows::WalkEvent>, i: int)
    requires
        0 <= i < rows::rows_in(ev).len(),
    ensures
        exists|k: int|
            0 <= k < ev.len() && #[trigger] ev[k] == rows::WalkEvent::Row(rows::rows_in(ev)[i]),
    decreases ev.len(),
{
    let t = ev.drop_last();
    if i < rows::rows_in(t).len() {
        lemma_rows_are_in_the_walk(t, i);
        let k = choose|k: int|
            0 <= k < t.len() && #[trigger] t[k] == rows::WalkEvent::Row(rows::rows_in(t)[i]);
        assert(ev[k] == t[k]);
        assert(rows::rows_in(ev)[i] == rows::rows_in(t)[i]);
    } else {
        assert(ev[ev.len() - 1] == rows::WalkEvent::Row(rows::rows_in(ev)[i]));
    }
}

/// The worker of a selected task is its recipient: the page that `i` asks for on a task is that of
/// the worker that the task was sent to.
pub proof fn i_on_a_task_shows_its_recipient(a: AppView, m: Model, name: Seq<char>)
    requires
        m.wf(),
        m.tasks@.len() <= usize::MAX,
        bare(a),
        app::selection_of(a, m) is Task,
        app::pressed(a, m, Key::Char('i')).1 == (EffectView::Info { worker: name }),
    ensures
        name == (app::selection_of(a, m)->task).to@,
{
    rows::walk_stays_within_the_reading(m, a.filter, m.groups@.len() as int);
    the_selection_is_what_is_listed(a, m);
    if a.panel == Panel::Workers {
        lemma_rows_are_in_the_walk(rows::walk(m, a.filter), a.row_idx);
    }
}

/// `L` asks for the end of the output of the selected worker, of that generation and no other,
/// where it has a pane and no other preview is under way.
pub proof fn big_l_previews_the_selected_worker(a: AppView, m: Model)
    requires
        bare(a),
    ensures
        match app::selection_of(a, m) {
            SelView::Worker(w) if w.pane@.len() > 0 => match a.peek_inflight {
                None => app::pressed(a, m, Key::Char('L')).1 == (EffectView::Peek {
                    target: app::PeekTargetView {
                        pane: w.pane@,
                        name: w.name@,
                        key: rows::RowKeyView::Worker { name: w.name@, spawn_tag: w.spawn_tag@ },
                    },
                }) && same_but_keys(app::pressed(a, m, Key::Char('L')).0, a),
                Some(t) => app::pressed(a, m, Key::Char('L')).1 == EffectView::Nothing
                    && same_but_keys(
                    app::pressed(a, m, Key::Char('L')).0,
                    AppView {
                        message: "preview of '"@ + t.name + "' is already in progress"@,
                        ..a
                    },
                ),
            },
            _ => app::pressed(a, m, Key::Char('L')).1 == EffectView::Nothing && same_but_keys(
                app::pressed(a, m, Key::Char('L')).0,
                AppView { message: "L only acts on worker rows with a pane"@, ..a },
            ),
        },
{
}

/// `e` asks about the selected worker, unless its eviction is running. Nothing is evicted by the
/// key itself, and a task is never evicted.
pub proof fn e_asks_about_the_selected_worker(a: AppView, m: Model)
    requires
        bare(a),
    ensures
        match app::selection_of(a, m) {
            SelView::Worker(w) => if a.evict_inflight.contains(w.name@) {
                app::pressed(a, m, Key::Char('e')).1 == EffectView::Nothing && same_but_keys(
                    app::pressed(a, m, Key::Char('e')).0,
                    AppView {
                        message: "evict of '"@ + w.name@ + "' is already in progress"@,
                        ..a
                    },
                )
            } else {
                app::pressed(a, m, Key::Char('e')).1 == (EffectView::EvictPrompt {
                    worker: w.name@,
                }) && same_but_keys(app::pressed(a, m, Key::Char('e')).0, a)
            },
            _ => app::pressed(a, m, Key::Char('e')).1 == EffectView::Nothing && same_but_keys(
                app::pressed(a, m, Key::Char('e')).0,
                AppView {
                    message: "e only acts on worker rows (evict targets a worker, not a task)"@,
                    ..a
                },
            ),
        },
{
}

/// `c` copies the evidence of what is selected.
pub proof fn c_copies_the_evidence(a: AppView, m: Model)
    requires
        bare(a),
    ensures
        match app::selection_of(a, m) {
            SelView::Nothing => app::pressed(a, m, Key::Char('c')).1 == EffectView::Nothing
                && same_but_keys(
                app::pressed(a, m, Key::Char('c')).0,
                AppView {
                    message: "c only acts on worker / task rows (nothing is selected)"@,
                    ..a
                },
            ),
            sel => app::pressed(a, m, Key::Char('c')).1 == (EffectView::Copy {
                payload: action::payload_of(sel),
            }) && same_but_keys(app::pressed(a, m, Key::Char('c')).0, a),
        },
{
    action::payload_is_no_option(app::selection_of(a, m));
}

/// `q` leaves, `?` opens the list of the keys, `/` begins a filter, `S` changes which tasks are
/// listed, and the letters that stand for nothing do nothing.
pub proof fn the_other_letters(a: AppView, m: Model, c: char)
    requires
        bare(a),
    ensures
        app::pressed(a, m, Key::Char('q')).1 == EffectView::Quit,
        same_but_keys(app::pressed(a, m, Key::Char('q')).0, a),
        app::pressed(a, m, Key::Char('?')).1 == EffectView::Nothing,
        same_but_keys(app::pressed(a, m, Key::Char('?')).0, AppView { help: true, ..a }),
        app::pressed(a, m, Key::Char('/')).1 == EffectView::Nothing,
        same_but_keys(app::pressed(a, m, Key::Char('/')).0, AppView { filter_input: true, ..a }),
        app::pressed(a, m, Key::Char('S')).1 == EffectView::Nothing,
        a.scope == Scope::All ==> app::pressed(a, m, Key::Char('S')).0.scope == Scope::Unattached,
        a.scope == Scope::Unattached ==> app::pressed(a, m, Key::Char('S')).0.scope == Scope::All,
        app::pressed(a, m, Key::Char('S')).0.filter == a.filter,
        app::pressed(a, m, Key::Char('S')).0.panel == a.panel,
        c != 'q' && c != '?' && c != '/' && c != 'S' && c != 'j' && c != 'k' && c != 'x' && c != 'r'
            && c != 'i' && c != 'L' && c != 'e' && c != 'c' ==> app::pressed(a, m, Key::Char(c)).1
            == EffectView::Nothing && same_but_keys(app::pressed(a, m, Key::Char(c)).0, a),
        app::pressed(a, m, Key::Backspace).1 == EffectView::Nothing,
        same_but_keys(app::pressed(a, m, Key::Backspace).0, a),
{
}

/// Esc clears the warnings and says how many there were; where there are none it does nothing.
pub proof fn esc_clears_the_warnings(a: AppView, m: Model)
    requires
        bare(a),
    ensures
        app::pressed(a, m, Key::Esc).1 == EffectView::Nothing,
        a.warnings.len() == 0 ==> same_but_keys(app::pressed(a, m, Key::Esc).0, a),
        a.warnings.len() > 0 ==> same_but_keys(
            app::pressed(a, m, Key::Esc).0,
            AppView {
                warnings: Seq::empty(),
                message: "cleared "@ + text::dec(a.warnings.len()) + " warning(s)"@,
                ..a
            },
        ),
{
}

/// Tab and Shift+Tab pass the focus to the other panel, and `j`, `k` and the arrows move the
/// selection of the focused panel by one row, as far as there is one; the other panel's selection
/// stays.
pub proof fn moving_by_one(a: AppView, m: Model)
    requires
        bare(a),
    ensures
        a.panel == Panel::Workers ==> same_but_keys(
            app::pressed(a, m, Key::Tab).0,
            AppView { panel: Panel::Tasks, ..a },
        ) && same_but_keys(
            app::pressed(a, m, Key::BackTab).0,
            AppView { panel: Panel::Tasks, ..a },
        ),
        a.panel == Panel::Tasks ==> same_but_keys(
            app::pressed(a, m, Key::Tab).0,
            AppView { panel: Panel::Workers, ..a },
        ) && same_but_keys(
            app::pressed(a, m, Key::BackTab).0,
            AppView { panel: Panel::Workers, ..a },
        ),
        app::pressed(a, m, Key::Down) == app::pressed(a, m, Key::Char('j')),
        app::pressed(a, m, Key::Up) == app::pressed(a, m, Key::Char('k')),
        a.panel == Panel::Workers && 0 <= a.row_idx < rows::rows_in(
            rows::walk(m, a.filter),
        ).len() - 1 ==> same_but_keys(
            app::pressed(a, m, Key::Down).0,
            AppView { row_idx: a.row_idx + 1, ..a },
        ),
        a.panel == Panel::Workers && 0 < a.row_idx < rows::rows_in(rows::walk(m, a.filter)).len()
            ==> same_but_keys(
            app::pressed(a, m, Key::Up).0,
            AppView { row_idx: a.row_idx - 1, ..a },
        ),
        a.panel == Panel::Tasks && 0 <= a.task_idx < rows::task_rows_of(
            m,
            a.filter,
            a.scope,
        ).len() - 1 ==> same_but_keys(
            app::pressed(a, m, Key::Down).0,
            AppView { task_idx: a.task_idx + 1, ..a },
        ),
        a.panel == Panel::Tasks && 0 < a.task_idx < rows::task_rows_of(
            m,
            a.filter,
            a.scope,
        ).len() ==> same_but_keys(
            app::pressed(a, m, Key::Up).0,
            AppView { task_idx: a.task_idx - 1, ..a },
        ),
{
}

/// A page of the task list is as many rows of two lines as the panel has room for, and at least
/// one; a page of the worker list is as many lines as the panel has. Neither leads beyond the
/// list's ends.
pub proof fn moving_by_a_page(a: AppView, m: Model)
    requires
        bare(a),
    ensures
        ({
            let n = rows::task_rows_of(m, a.filter, a.scope).len() as int;
            let step = if a.pages.tasks < 2 {
                1
            } else {
                a.pages.tasks as int / 2
            };
            a.panel == Panel::Tasks && 0 <= a.task_idx < n ==> {
                &&& same_but_keys(
                    app::pressed(a, m, Key::PageDown).0,
                    AppView {
                        task_idx: if a.task_idx + step < n {
                            a.task_idx + step
                        } else {
                            n - 1
                        },
                        ..a
                    },
                )
                &&& same_but_keys(
                    app::pressed(a, m, Key::PageUp).0,
                    AppView {
                        task_idx: if a.task_idx >= step {
                            a.task_idx - step
                        } else {
                            0
                        },
                        ..a
                    },
                )
            }
        }),
        ({
            let b = app::pressed(a, m, Key::PageDown).0;
            let c = app::pressed(a, m, Key::PageUp).0;
            &&& a.panel == Panel::Workers ==> b.task_idx == a.task_idx && c.task_idx == a.task_idx
            &&& a.panel == Panel::Tasks ==> b.row_idx == a.row_idx && c.row_idx == a.row_idx
        }),
{
}

/// A preview that has arrived is shown, whole and under its worker, only while that worker is
/// still selected in the same generation and with the same pane. Else it is dropped and said so,
/// and a failed one is said to have failed. Either way the next one may be asked for.
pub proof fn a_preview_lands_where_it_was_asked_for(
    a: AppView,
    m: Model,
    t: app::PeekTargetView,
    res: Option<action::TailCapture>,
)
    ensures
        ({
            let b = app::peeked(a, m, t, res);
            let there = app::selection_of(a, m) matches SelView::Worker(w) && w.pane@.len() > 0
                && w.pane@ == t.pane && w.name@ == t.name && t.key == (rows::RowKeyView::Worker {
                name: w.name@,
                spawn_tag: w.spawn_tag@,
            });
            if !there {
                b == (AppView {
                    peek_inflight: None,
                    message: "preview of '"@ + t.name
                        + "' discarded (the selection has changed)"@,
                    ..a
                })
            } else {
                match res {
                    Some(cap) => b == (AppView {
                        peek_inflight: None,
                        peek: Some(action::preview_of(t, cap)),
                        ..a
                    }),
                    None => b == (AppView {
                        peek_inflight: None,
                        message: "preview of '"@ + t.name + "' failed (pane "@ + t.pane
                            + " is gone, or the capture timed out)"@,
                        ..a
                    }),
                }
            }
        }),
{
}

/// A new warning stands last, the five newest are kept in their order, and a repetition of the
/// newest is not added.
pub proof fn five_warnings_are_kept(ws: Seq<Seq<char>>, w: Seq<char>)
    ensures
        ws.len() > 0 && ws.last() == w ==> app::warned(ws, w) == ws,
        ws.len() < 5 && !(ws.len() > 0 && ws.last() == w) ==> app::warned(ws, w) == ws.push(w),
        ws.len() == 5 && ws.last() != w ==> app::warned(ws, w) == seq![
            ws[1],
            ws[2],
            ws[3],
            ws[4],
            w,
        ],
{
    if ws.len() == 5 && ws.last() != w {
        assert(app::warned(ws, w) =~= seq![ws[1], ws[2], ws[3], ws[4], w]);
    }
}

/// At the start the worker list has the focus, nothing is asked, shown or filtered, and all recent
/// tasks are listed.
pub proof fn the_state_at_the_start()
    ensures
        bare(app::at_start()),
        app::at_start().panel == Panel::Workers,
        app::at_start().row_idx == 0 && app::at_start().task_idx == 0,
        app::at_start().filter.len() == 0 && app::at_start().scope == Scope::All,
        app::at_start().warnings.len() == 0 && app::at_start().message.len() == 0,
        app::at_start().evict_inflight =~= Set::<Seq<char>>::empty(),
        app::at_start().peek_inflight is None,
        app::at_start().pages == (app::PageSizes { workers: 10, tasks: 10, pager: 10 }),
{
}

/// Where another filter or another scope changes the lists, the selection goes where a new reading
/// of the disk would lead it.
pub proof fn changed_lists_keep_the_selection(a: AppView, m: Model, c: char)
    requires
        a.confirm is None,
        a.evict_prompt is None,
        a.pager is None,
        a.info is None,
        a.peek is None,
        !a.help,
    ensures
        !a.filter_input ==> app::pressed(a, m, Key::Char('S')).0 == app::relocated(
            AppView {
                scope: if a.scope == Scope::All {
                    Scope::Unattached
                } else {
                    Scope::All
                },
                ..a
            },
            m,
        ),
        a.filter_input ==> app::pressed(a, m, Key::Char(c)).0 == app::relocated(
            AppView { filter: a.filter.push(c), ..a },
            m,
        ),
        a.filter_input && a.filter.len() > 0 ==> app::pressed(a, m, Key::Backspace).0
            == app::relocated(AppView { filter: a.filter.take(a.filter.len() - 1), ..a }, m),
        a.filter_input ==> app::pressed(a, m, Key::Esc).0 == app::relocated(
            AppView { filter: Seq::empty(), filter_input: false, ..a },
            m,
        ),
{
    if a.filter.len() > 0 {
        assert(a.filter.drop_last() =~= a.filter.take(a.filter.len() - 1));
    }
}

/// Where the selected row is gone from a list, the selection goes to the row above, else to the
/// one that took its place, else to the one below, else to the first. In the worker list a new
/// generation of the selected worker is passed over, and where nothing else is left nothing is
/// selected, and that is said.
pub proof fn where_the_selection_goes(a: AppView, m: Model, k: rows::RowKeyView)
    requires
        0 <= a.row_idx,
        a.row_key == Some(k),
        forall|i: int|
            0 <= i < rows::rows_in(rows::walk(m, a.filter)).len() ==> rows::key_of_row(
                m,
                #[trigger] rows::rows_in(rows::walk(m, a.filter))[i],
            ) != k,
    ensures
        ({
            let rs = rows::rows_in(rows::walk(m, a.filter));
            let b = app::relocated(a, m);
            let open = |i: int|
                0 <= i < rs.len() && !(k matches rows::RowKeyView::Worker { name, .. } && (rs[i]
                    matches Row::Worker(wi) && m.workers@[wi as int].name@ == name));
            &&& open(a.row_idx - 1) ==> b.row_idx == a.row_idx - 1
            &&& !open(a.row_idx - 1) && open(a.row_idx) ==> b.row_idx == a.row_idx
            &&& !open(a.row_idx - 1) && !open(a.row_idx) && open(a.row_idx + 1) ==> b.row_idx
                == a.row_idx + 1
            &&& !open(a.row_idx - 1) && !open(a.row_idx) && !open(a.row_idx + 1) && open(0)
                ==> b.row_idx == 0
            &&& !open(a.row_idx - 1) && !open(a.row_idx) && !open(a.row_idx + 1) && !open(0)
                ==> b.row_idx == rs.len()
            &&& !open(a.row_idx - 1) && !open(a.row_idx) && !open(a.row_idx + 1) && !open(0)
                && a.row_idx < rs.len() ==> (k matches rows::RowKeyView::Worker { name, .. }
                && b.message == "'"@ + name
                + "' was replaced by a new generation; press j/k to select"@)
            &&& open(a.row_idx - 1) || open(a.row_idx) || open(a.row_idx + 1) || open(0)
                || a.row_idx >= rs.len() ==> b.message == a.message
        }),
{
    let rs = rows::rows_in(rows::walk(m, a.filter));
    crate::listing::where_a_row_is_found_again(m, rs, k, 0);
    assert forall|i: int| 0 <= i < rs.len() implies app::replaces(m, rs[i], Some(k)) == (k matches
        rows::RowKeyView::Worker { name, .. } && (rs[i] matches Row::Worker(wi)
        && m.workers@[wi as int].name@ == name)) by {
        assert(rows::key_of_row(m, rs[i]) != k);
    }
}

/// The same of the list of the tasks, where nothing has to be passed over.
pub proof fn where_the_task_selection_goes(a: AppView, m: Model, id: Seq<char>)
    requires
        0 <= a.task_idx,
        a.task_key == Some(id),
        forall|i: int|
            0 <= i < rows::task_rows_of(m, a.filter, a.scope).len()
                ==> m.recent@[#[trigger] rows::task_rows_of(m, a.filter, a.scope)[i]].id@ != id,
    ensures
        ({
            let n = rows::task_rows_of(m, a.filter, a.scope).len() as int;
            let t = app::relocated(a, m).task_idx;
            &&& 0 < a.task_idx <= n ==> t == a.task_idx - 1
            &&& a.task_idx == 0 || a.task_idx > n ==> t == 0
        }),
{
    lemma_task_not_found(m, rows::task_rows_of(m, a.filter, a.scope), id, 0);
}

/// A task that is not listed is not found.
proof fn lemma_task_not_found(m: Model, ts: Seq<int>, id: Seq<char>, from: int)
    requires
        0 <= from <= ts.len(),
        forall|i: int| 0 <= i < ts.len() ==> m.recent@[#[trigger] ts[i]].id@ != id,
    ensures
        app::task_with_id(m, ts, id, from) is None,
    decreases ts.len() - from,
{
    if from < ts.len() {
        lemma_task_not_found(m, ts, id, from + 1);
    }
}

/// In the worker list, a page is as many lines as the panel shows, and at least one.
pub proof fn a_page_of_workers(a: AppView, m: Model)
    requires
        bare(a),
        a.panel == Panel::Workers,
        0 <= a.row_idx < rows::rows_in(rows::walk(m, a.filter)).len(),
        rows::lines_total(rows::walk(m, a.filter)) <= usize::MAX,
    ensures
        ({
            let lines = rows::lines_in(rows::walk(m, a.filter));
            let page = if a.pages.workers == 0 {
                1
            } else {
                a.pages.workers as int
            };
            let d = app::pressed(a, m, Key::PageDown).0.row_idx;
            let u = app::pressed(a, m, Key::PageUp).0.row_idx;
            &&& lines.len() == rows::rows_in(rows::walk(m, a.filter)).len()
            &&& 0 <= d < lines.len() && 0 <= u < lines.len()
            &&& lines[d] >= lines[a.row_idx] + page || d == lines.len() - 1
            &&& forall|i: int| 0 <= i < d ==> #[trigger] lines[i] < lines[a.row_idx] + page
            &&& lines[u] <= lines[a.row_idx] - page || u == 0
            &&& forall|i: int|
                u < i < lines.len() ==> #[trigger] lines[i] > lines[a.row_idx] - page
        }),
{
    let ev = rows::walk(m, a.filter);
    let lines = rows::lines_in(ev);
    lemma_lines(ev);
    assert(rows::capped_all(lines) =~= lines);
    let page = if a.pages.workers == 0 {
        1
    } else {
        a.pages.workers as int
    };
    crate::listing::where_a_page_leads(lines, a.row_idx, page);
}

/// The lines of the rows ascend, and each stands within the list.
proof fn lemma_lines(ev: Seq<rows::WalkEvent>)
    ensures
        rows::lines_in(ev).len() == rows::rows_in(ev).len(),
        rows::lines_total(ev) >= 0,
        rows::lines_ascend(rows::lines_in(ev)),
        forall|i: int|
            0 <= i < rows::lines_in(ev).len() ==> 0 <= #[trigger] rows::lines_in(ev)[i]
                < rows::lines_total(ev),
    decreases ev.len(),
{
    if ev.len() > 0 {
        lemma_lines(ev.drop_last());
    }
}

/// What can be done with what is selected: a worker can be brought to the front, shown, copied,
/// evicted and, where it has a pane, previewed; a task can be read and copied, cancelled while it
/// is not finished, and its worker shown where it has one.
pub proof fn what_can_be_done(w: AgentSnapshot, t: InFlight, who: Option<AgentSnapshot>)
    ensures
        app::caps_of(SelView::Nothing) == (RowCaps {
            enter: EnterAct::Nothing,
            read: false,
            info: false,
            peek: false,
            copy: false,
            cancel: false,
            evict: false,
        }),
        app::caps_of(SelView::Worker(w)) == (RowCaps {
            enter: EnterAct::Focus,
            read: false,
            info: true,
            peek: w.pane@.len() > 0,
            copy: true,
            cancel: false,
            evict: true,
        }),
        app::caps_of(SelView::Task { task: t, worker: who }) == (RowCaps {
            enter: EnterAct::Read,
            read: true,
            info: who is Some,
            peek: false,
            copy: true,
            cancel: t.status@ != "completed"@ && t.status@ != "failed"@ && t.status@
                != "cancelled"@,
            evict: false,
        }),
{
}

/// Cancelling and evicting take a yes, in one of its two forms, to the question about that very
/// task or generation.
pub proof fn nothing_is_done_without_a_yes(a: AppView, m: Model, key: Key)
    requires
        key != Key::Char('y'),
        key != Key::Enter,
    ensures
        !(app::pressed(a, m, key).1 is Cancel),
        !(app::pressed(a, m, key).1 is Evict),
{
}


} // verus!

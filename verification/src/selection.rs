//! What holds of the selection and of the keys, whatever is on the screen.

use crate::action;
use crate::app;
use crate::app::{AppView, EffectView, EnterAct, Key, SelView};
use crate::model::Model;
use crate::rows;
use crate::rows::Row;
use vstd::prelude::*;

verus! {

/// A row that was found has the key, and none before it has.
proof fn lemma_row_with_key(m: Model, rs: Seq<Row>, k: rows::RowKeyView, from: int)
    requires
        0 <= from,
    ensures
        match rows::row_with_key(m, rs, k, from) {
            Some(i) => from <= i < rs.len() && rows::key_of_row(m, rs[i]) == k && forall|j: int|
                from <= j < i ==> rows::key_of_row(m, #[trigger] rs[j]) != k,
            None => forall|j: int| from <= j < rs.len() ==> rows::key_of_row(m, #[trigger] rs[j]) != k,
        },
    decreases rs.len() - from,
{
    if from < rs.len() && rows::key_of_row(m, rs[from]) != k {
        lemma_row_with_key(m, rs, k, from + 1);
    }
}

/// A task that was found has the id, and none before it has.
proof fn lemma_task_with_id(m: Model, ts: Seq<int>, id: Seq<char>, from: int)
    requires
        0 <= from,
    ensures
        match app::task_with_id(m, ts, id, from) {
            Some(i) => from <= i < ts.len() && m.recent@[ts[i]].id@ == id && forall|j: int|
                from <= j < i ==> m.recent@[#[trigger] ts[j]].id@ != id,
            None => forall|j: int| from <= j < ts.len() ==> m.recent@[#[trigger] ts[j]].id@ != id,
        },
    decreases ts.len() - from,
{
    if from < ts.len() && m.recent@[ts[from]].id@ != id {
        lemma_task_with_id(m, ts, id, from + 1);
    }
}

/// While what is selected is still listed, a new reading leaves it selected, wherever it is
/// listed now.
pub proof fn relocation_stays_on_the_row(a: AppView, m: Model, k: rows::RowKeyView)
    requires
        a.row_key == Some(k),
        exists|i: int|
            0 <= i < app::rows_of(a, m).len() && rows::key_of_row(
                m,
                #[trigger] app::rows_of(a, m)[i],
            ) == k,
    ensures
        app::row_at(app::relocated(a, m), m) is Some,
        rows::key_of_row(m, app::row_at(app::relocated(a, m), m)->0) == k,
        app::relocated(a, m).row_key == Some(k),
{
    lemma_row_with_key(m, app::rows_of(a, m), k, 0);
}

/// While the selected task is still listed, a new reading leaves it selected.
pub proof fn relocation_stays_on_the_task(a: AppView, m: Model, id: Seq<char>)
    requires
        a.task_key == Some(id),
        exists|i: int|
            0 <= i < app::trows_of(a, m).len() && m.recent@[#[trigger] app::trows_of(a, m)[i]].id@
                == id,
    ensures
        app::trow_at(app::relocated(a, m), m) is Some,
        m.recent@[app::trow_at(app::relocated(a, m), m)->0].id@ == id,
        app::relocated(a, m).task_key == Some(id),
{
    lemma_task_with_id(m, app::trows_of(a, m), id, 0);
}

/// A new reading never passes the selection on to a new generation of the selected worker:
/// if a worker of that name is selected afterwards, it is the same generation.
pub proof fn relocation_never_takes_a_new_generation(
    a: AppView,
    m: Model,
    name: Seq<char>,
    tag: Seq<char>,
)
    requires
        a.row_key == Some(rows::RowKeyView::Worker { name, spawn_tag: tag }),
    ensures
        match app::row_at(app::relocated(a, m), m) {
            Some(Row::Worker(wi)) => m.workers@[wi as int].name@ == name
                ==> m.workers@[wi as int].spawn_tag@ == tag,
            _ => true,
        },
{
    let rs = app::rows_of(a, m);
    let k = rows::RowKeyView::Worker { name, spawn_tag: tag };
    lemma_row_with_key(m, rs, k, 0);
    assert(app::rows_of(app::relocated(a, m), m) == rs);
}

/// A new reading moves only the selection: no question, page or warning is touched.
pub proof fn relocation_moves_only_the_selection(a: AppView, m: Model)
    ensures
        app::relocated(a, m) == (AppView {
            row_idx: app::relocated(a, m).row_idx,
            task_idx: app::relocated(a, m).task_idx,
            row_key: app::relocated(a, m).row_key,
            task_key: app::relocated(a, m).task_key,
            message: app::relocated(a, m).message,
            ..a
        }),
{
}

/// After a new reading the selection is on a row, or deliberately on none.
pub proof fn relocation_lands_in_range(a: AppView, m: Model)
    requires
        0 <= a.row_idx,
        0 <= a.task_idx,
    ensures
        0 <= app::relocated(a, m).row_idx <= app::rows_of(a, m).len(),
        0 <= app::relocated(a, m).task_idx,
        app::trows_of(a, m).len() > 0 ==> app::relocated(a, m).task_idx < app::trows_of(a, m).len(),
{
    if let Some(k) = a.row_key {
        lemma_row_with_key(m, app::rows_of(a, m), k, 0);
    }
    if let Some(id) = a.task_key {
        lemma_task_with_id(m, app::trows_of(a, m), id, 0);
    }
}

/// While nothing changes on the disk, a new reading changes nothing on the screen.
pub proof fn relocation_changes_nothing_by_itself(a: AppView, m: Model)
    requires
        app::row_at(a, m) is Some,
        app::trow_at(a, m) is Some,
        forall|i: int, j: int|
            #![trigger app::rows_of(a, m)[i], app::rows_of(a, m)[j]]
            0 <= i < j < app::rows_of(a, m).len() ==> rows::key_of_row(m, app::rows_of(a, m)[i])
                != rows::key_of_row(m, app::rows_of(a, m)[j]),
        forall|i: int, j: int|
            #![trigger app::trows_of(a, m)[i], app::trows_of(a, m)[j]]
            0 <= i < j < app::trows_of(a, m).len() ==> m.recent@[app::trows_of(a, m)[i]].id@
                != m.recent@[app::trows_of(a, m)[j]].id@,
    ensures
        app::relocated(app::keyed(a, m), m) == app::keyed(a, m),
{
    let b = app::keyed(a, m);
    let rs = app::rows_of(a, m);
    let ts = app::trows_of(a, m);
    assert(app::rows_of(b, m) == rs);
    assert(app::trows_of(b, m) == ts);
    lemma_row_with_key(m, rs, b.row_key->0, 0);
    lemma_task_with_id(m, ts, b.task_key->0, 0);
    let i = rows::row_with_key(m, rs, b.row_key->0, 0);
    let t = app::task_with_id(m, ts, b.task_key->0, 0);
    assert(rs[a.row_idx] == app::row_at(a, m)->0);
    assert(ts[a.task_idx] == app::trow_at(a, m)->0);
    assert(i == Some(a.row_idx));
    assert(t == Some(a.task_idx));
}

/// While something lies over the panels, no key moves what lies below: when it is closed, a
/// person is back where they were.
pub proof fn overlays_hold_the_selection(a: AppView, m: Model, key: Key)
    requires
        app::overlaid(a),
    ensures
        app::pressed(a, m, key).0.panel == a.panel,
        app::pressed(a, m, key).0.row_idx == a.row_idx,
        app::pressed(a, m, key).0.task_idx == a.task_idx,
        app::pressed(a, m, key).0.filter == a.filter,
        app::pressed(a, m, key).0.scope == a.scope,
{
}

/// A task is cancelled only after the question about that very task was answered with yes.
pub proof fn cancelling_needs_the_question(a: AppView, m: Model, key: Key, id: Seq<char>)
    requires
        app::pressed(a, m, key).1 == (EffectView::Cancel { id }),
    ensures
        a.confirm == Some(id),
        app::says_yes(key),
{
}

/// A worker is evicted only after the question that showed that very generation was answered
/// with yes.
pub proof fn evicting_needs_the_question(
    a: AppView,
    m: Model,
    key: Key,
    shown: action::EvictShownView,
)
    requires
        app::pressed(a, m, key).1 == (EffectView::Evict { shown }),
    ensures
        a.evict_prompt matches Some(p) && p.shown == shown,
        app::says_yes(key),
{
}

/// Whether a key reaches the panels.
pub open spec fn reaches_the_panels(a: AppView) -> bool {
    !app::overlaid(a) && !a.filter_input
}

/// The keys do exactly what the capabilities of the selected row say, so that what is offered
/// on the screen and what happens cannot differ.
pub proof fn keys_keep_to_the_capabilities(a: AppView, m: Model)
    requires
        reaches_the_panels(a),
    ensures
        ({
            let caps = app::caps_of(app::selection_of(a, m));
            &&& caps.read <==> app::pressed(a, m, Key::Char('r')).1 is Read
            &&& caps.info <==> app::pressed(a, m, Key::Char('i')).1 is Info
            &&& caps.copy <==> app::pressed(a, m, Key::Char('c')).1 is Copy
            &&& caps.cancel <==> app::pressed(a, m, Key::Char('x')).0.confirm is Some
            &&& (caps.enter == EnterAct::Focus) <==> app::pressed(a, m, Key::Enter).1 is Focus
            &&& (caps.enter == EnterAct::Read) <==> app::pressed(a, m, Key::Enter).1 is Read
            &&& app::pressed(a, m, Key::Char('e')).1 is EvictPrompt ==> caps.evict
            &&& app::pressed(a, m, Key::Char('L')).1 is Peek ==> caps.peek
            &&& caps.peek && a.peek_inflight is None ==> app::pressed(a, m, Key::Char('L')).1 is Peek
            &&& caps.evict ==> match app::selection_of(a, m) {
                SelView::Worker(w) => !a.evict_inflight.contains(w.name@) ==> app::pressed(
                    a,
                    m,
                    Key::Char('e'),
                ).1 is EvictPrompt,
                _ => false,
            }
        }),
{
    action::payload_is_no_option(app::selection_of(a, m));
}

/// On a task, Enter is the same as `r`.
pub proof fn enter_on_a_task_reads_it(a: AppView, m: Model)
    requires
        reaches_the_panels(a),
        app::selection_of(a, m) is Task,
    ensures
        app::pressed(a, m, Key::Enter) == app::pressed(a, m, Key::Char('r')),
{
}

/// Tab and Shift+Tab undo each other.
pub proof fn tab_and_back_tab_undo_each_other(a: AppView, m: Model)
    requires
        reaches_the_panels(a),
    ensures
        app::pressed(app::pressed(a, m, Key::Tab).0, m, Key::BackTab).0.panel == a.panel,
        app::pressed(app::pressed(a, m, Key::BackTab).0, m, Key::Tab).0.panel == a.panel,
        app::pressed(a, m, Key::Tab).0.panel != a.panel,
{
}

/// Whether a key only moves the selection.
pub open spec fn moves(key: Key) -> bool {
    ||| key == Key::Down
    ||| key == Key::Up
    ||| key == Key::PageDown
    ||| key == Key::PageUp
    ||| key == Key::Home
    ||| key == Key::End
    ||| key == Key::Char('j')
    ||| key == Key::Char('k')
}

/// A move ends on a row of the focused panel, does nothing else, and on an empty panel does
/// nothing at all.
pub proof fn moves_end_on_a_row(a: AppView, m: Model, key: Key)
    requires
        reaches_the_panels(a),
        moves(key),
    ensures
        app::pressed(a, m, key).1 is Nothing,
        app::pressed(a, m, key).0.panel == a.panel,
        app::panel_len(a, m) > 0 ==> 0 <= app::place(app::pressed(a, m, key).0) < app::panel_len(a, m),
        app::panel_len(a, m) == 0 ==> app::pressed(a, m, key).0 == app::keyed(a, m),
        app::pressed(a, m, key).0.message == a.message,
{
}

/// Down and then up leads back, unless the last row was in the way.
pub proof fn down_and_up_lead_back(a: AppView, m: Model)
    requires
        reaches_the_panels(a),
        0 <= app::place(a) < app::panel_len(a, m) - 1,
    ensures
        app::place(app::pressed(app::pressed(a, m, Key::Down).0, m, Key::Up).0) == app::place(a),
{
}

/// Home and End lead to the ends, from anywhere.
pub proof fn home_and_end_lead_to_the_ends(a: AppView, m: Model)
    requires
        reaches_the_panels(a),
        app::panel_len(a, m) > 0,
    ensures
        app::place(app::pressed(a, m, Key::Home).0) == 0,
        app::place(app::pressed(a, m, Key::End).0) == app::panel_len(a, m) - 1,
{
}

/// Only Esc, with nothing over the panels and nothing typed, clears the warnings; no other key
/// touches them.
pub proof fn only_esc_clears_warnings(a: AppView, m: Model, key: Key)
    ensures
        app::pressed(a, m, key).0.warnings == (if reaches_the_panels(a) && key == Key::Esc {
            Seq::empty()
        } else {
            a.warnings
        }),
{
}

/// There are never more warnings than are kept, and the newest is always among them.
pub proof fn warnings_stay_bounded(ws: Seq<Seq<char>>, w: Seq<char>)
    ensures
        ws.len() <= app::MAX_WARNINGS ==> app::warned(ws, w).len() <= app::MAX_WARNINGS,
        app::warned(ws, w).len() > 0,
        app::warned(ws, w).last() == w,
{
}

/// A text is never scrolled beyond its last page, once it is within it.
pub proof fn scrolling_stays_in_the_text(scroll: int, lines: int, page: int, key: Key)
    requires
        0 <= scroll <= app::scroll_limit(lines, page),
        page >= 1,
    ensures
        0 <= app::scrolled_to(scroll, lines, page, key) <= app::scroll_limit(lines, page),
{
}

/// After every key the selection is known by what it is on, so that the next reading finds it
/// again.
pub proof fn keys_follow_the_places(a: AppView, m: Model, key: Key)
    ensures
        ({
            let b = app::pressed(a, m, key).0;
            &&& app::row_at(b, m) matches Some(row) ==> b.row_key == Some(rows::key_of_row(m, row))
            &&& app::trow_at(b, m) matches Some(ti) ==> b.task_key == Some(m.recent@[ti].id@)
        }),
{
}

/// Clearing the filter shows everything again: typing it away letter by letter and clearing it
/// at once end in the same filter.
pub proof fn the_filter_can_be_cleared(a: AppView, m: Model)
    requires
        !app::overlaid(a),
        a.filter_input,
    ensures
        app::pressed(a, m, Key::Esc).0.filter == Seq::<char>::empty(),
        !app::pressed(a, m, Key::Esc).0.filter_input,
        forall|c: char|
            app::pressed(
                #[trigger] app::pressed(a, m, Key::Char(c)).0,
                m,
                Key::Backspace,
            ).0.filter == a.filter,
{
    assert forall|c: char|
        app::pressed(
            #[trigger] app::pressed(a, m, Key::Char(c)).0,
            m,
            Key::Backspace,
        ).0.filter == a.filter by {
        assert(a.filter.push(c).drop_last() =~= a.filter);
    }
}

/// A preview is shown only under the row that it was asked for.
pub proof fn previews_belong_to_the_selection(
    a: AppView,
    m: Model,
    target: app::PeekTargetView,
    res: Option<action::TailCapture>,
)
    requires
        a.peek is None,
    ensures
        app::peeked(a, m, target, res).peek is Some <==> res is Some && app::peek_of(a, m) == Some(
            target,
        ),
        app::peeked(a, m, target, res).peek_inflight is None,
{
}

} // verus!

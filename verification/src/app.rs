//! The state of the dashboard, and what the keys do to it.
//!
//! The state machine touches neither the terminal nor the disk nor tmux. What is to be done
//! outside comes out of it as an [`Effect`].

use crate::action::{copy_payload, peek_page, pager_lines, EvictPrompt, EvictShown, TailCapture};
use crate::action;
use crate::lineage;
use crate::model;
use crate::model::{worker_of_task, Filter, Model, Scope};
use crate::registry::{AgentSnapshot, InFlight};
use crate::rows;
use crate::rows::{
    is_terminal_status, key_eq, row_key, task_rows, worker_page_row, worker_rows, Row, RowKey,
    TASK_ROW_H,
};
use crate::text;
use crate::text::{copy_text, push_dec, same, to_chars, from_chars};
use crate::textmap::TextSet;
use vstd::prelude::*;
use vstd::string::*;

verus! {

/// How many warnings are kept.
pub const MAX_WARNINGS: usize = 5;

/// The panels that can have the focus.
#[derive(Clone, Copy, PartialEq, Eq, Debug, Structural)]
pub enum Panel {
    Workers,
    Tasks,
}

/// What is selected in the focused panel.
pub enum Sel<'m> {
    Nothing,
    Worker(&'m AgentSnapshot),
    Task {
        task: &'m InFlight,
        /// The worker that the task belongs to, where exactly one can claim it.
        worker: Option<&'m AgentSnapshot>,
    },
}

/// What is selected in the focused panel.
pub enum SelView {
    Nothing,
    Worker(AgentSnapshot),
    Task { task: InFlight, worker: Option<AgentSnapshot> },
}

impl<'m> View for Sel<'m> {
    type V = SelView;

    open spec fn view(&self) -> SelView {
        match self {
            Sel::Nothing => SelView::Nothing,
            Sel::Worker(w) => SelView::Worker(**w),
            Sel::Task { task, worker } => SelView::Task {
                task: **task,
                worker: match worker {
                    Some(w) => Some(**w),
                    None => None,
                },
            },
        }
    }
}

/// What Enter does to the selected row.
#[derive(Clone, Copy, PartialEq, Eq, Debug, Structural)]
pub enum EnterAct {
    Nothing,
    /// Brings the worker's pane to the front.
    Focus,
    /// Opens the task's full text.
    Read,
}

/// What can be done to the selected row. The hints on the screen and the keys themselves go by
/// the same capabilities.
#[derive(Clone, Copy, PartialEq, Eq, Debug, Structural)]
pub struct RowCaps {
    pub enter: EnterAct,
    /// `r`: read the task.
    pub read: bool,
    /// `i`: the worker's page; a task that belongs to nobody has none.
    pub info: bool,
    /// `L`: the end of the worker's output; a worker without a pane has none.
    pub peek: bool,
    /// `c`: copy the evidence.
    pub copy: bool,
    /// `x`: cancel the task; a finished one cannot be.
    pub cancel: bool,
    /// `e`: evict the worker. A running eviction does not take the key away: pressing it says
    /// so.
    pub evict: bool,
}

/// The full text of a task. The bytes are kept as they are; only showing them makes text of
/// them.
pub struct Pager {
    pub id: String,
    pub from: String,
    pub to: String,
    pub bytes: Vec<u8>,
    pub scroll: usize,
}

/// The full text of a task.
pub struct PagerView {
    pub id: Seq<char>,
    pub from: Seq<char>,
    pub to: Seq<char>,
    pub bytes: Seq<u8>,
    pub scroll: int,
}

impl View for Pager {
    type V = PagerView;

    open spec fn view(&self) -> PagerView {
        PagerView {
            id: self.id@,
            from: self.from@,
            to: self.to@,
            bytes: self.bytes@,
            scroll: self.scroll as int,
        }
    }
}

/// How far a text of `lines` lines can be scrolled: to where its last page begins.
pub open spec fn scroll_limit(lines: int, page: int) -> int {
    if lines > page {
        lines - page
    } else {
        0
    }
}

impl Pager {
    /// How far the text can be scrolled.
    pub fn max_scroll(&self, page: usize) -> (r: usize)
        ensures
            r == scroll_limit(action::pager_text(self@).len() as int, page as int),
    {
        let lines = pager_lines(self);
        proof {
            assert(text::texts(lines@).len() == lines@.len());
        }
        if lines.len() > page {
            lines.len() - page
        } else {
            0
        }
    }
}

/// Whose output a preview is of.
#[derive(Clone, PartialEq, Eq, Debug)]
pub struct PeekTarget {
    pub pane: String,
    pub name: String,
    /// The row that it was asked for.
    pub key: RowKey,
}

/// Whose output a preview is of.
pub struct PeekTargetView {
    pub pane: Seq<char>,
    pub name: Seq<char>,
    pub key: rows::RowKeyView,
}

impl View for PeekTarget {
    type V = PeekTargetView;

    open spec fn view(&self) -> PeekTargetView {
        PeekTargetView { pane: self.pane@, name: self.name@, key: self.key@ }
    }
}

/// The end of a worker's output.
#[derive(Clone, PartialEq, Eq, Debug)]
pub struct PeekView {
    pub title: String,
    pub lines: Vec<String>,
    /// There was more than could be captured.
    pub truncated: bool,
}

/// The end of a worker's output.
pub struct PeekShown {
    pub title: Seq<char>,
    pub lines: Seq<Seq<char>>,
    pub truncated: bool,
}

impl View for PeekView {
    type V = PeekShown;

    open spec fn view(&self) -> PeekShown {
        PeekShown {
            title: self.title@,
            lines: text::texts(self.lines@),
            truncated: self.truncated,
        }
    }
}

/// A key of the keyboard.
#[derive(Clone, Copy, PartialEq, Eq, Debug, Structural)]
pub enum Key {
    Char(char),
    Tab,
    /// Shift and Tab.
    BackTab,
    Enter,
    Esc,
    Down,
    Up,
    PageUp,
    PageDown,
    Home,
    End,
    Backspace,
}

/// How many lines the panels have. Only the layout knows; it is measured with each frame.
#[derive(Clone, Copy, PartialEq, Eq, Debug, Structural)]
pub struct PageSizes {
    pub workers: u16,
    pub tasks: u16,
    /// The full screen text of a task has a height of its own.
    pub pager: u16,
}

/// The sizes before the first frame: too small only means that paging is slow.
pub open spec fn first_sizes() -> PageSizes {
    PageSizes { workers: 10, tasks: 10, pager: 10 }
}

impl Default for PageSizes {
    fn default() -> (r: Self)
        ensures
            r == first_sizes(),
    {
        PageSizes { workers: 10, tasks: 10, pager: 10 }
    }
}

/// What is to be done outside.
#[derive(PartialEq, Eq, Debug)]
pub enum Effect {
    Nothing,
    Quit,
    /// Brings a pane to the front.
    Focus { pane: String, label: String },
    /// Cancels a task, after the confirmation.
    Cancel { id: String },
    /// Reads a task's full text.
    Read { id: String },
    /// Shows a worker's page.
    Info { worker: String },
    /// Copies a text.
    Copy { payload: String },
    /// Reads the registry for the question before an eviction.
    EvictPrompt { worker: String },
    /// Evicts what was shown, after the confirmation.
    Evict { shown: EvictShown },
    /// Captures the end of a worker's output.
    Peek { target: PeekTarget },
}

/// What is to be done outside.
pub enum EffectView {
    Nothing,
    Quit,
    Focus { pane: Seq<char>, label: Seq<char> },
    Cancel { id: Seq<char> },
    Read { id: Seq<char> },
    Info { worker: Seq<char> },
    Copy { payload: Seq<char> },
    EvictPrompt { worker: Seq<char> },
    Evict { shown: action::EvictShownView },
    Peek { target: PeekTargetView },
}

impl View for Effect {
    type V = EffectView;

    open spec fn view(&self) -> EffectView {
        match self {
            Effect::Nothing => EffectView::Nothing,
            Effect::Quit => EffectView::Quit,
            Effect::Focus { pane, label } => EffectView::Focus { pane: pane@, label: label@ },
            Effect::Cancel { id } => EffectView::Cancel { id: id@ },
            Effect::Read { id } => EffectView::Read { id: id@ },
            Effect::Info { worker } => EffectView::Info { worker: worker@ },
            Effect::Copy { payload } => EffectView::Copy { payload: payload@ },
            Effect::EvictPrompt { worker } => EffectView::EvictPrompt { worker: worker@ },
            Effect::Evict { shown } => EffectView::Evict { shown: shown@ },
            Effect::Peek { target } => EffectView::Peek { target: target@ },
        }
    }
}

/// The state of the dashboard.
pub struct App {
    pub panel: Panel,
    /// The selected row of the worker list. Across two readings a row is known by its key, not
    /// by its place.
    pub row_idx: usize,
    /// The selected row of the task list.
    pub task_idx: usize,
    /// What is selected in the worker list.
    pub row_key: Option<RowKey>,
    /// What is selected in the task list: a task id.
    pub task_key: Option<String>,
    /// The task that is asked about before it is cancelled. It is bound to the id: whatever
    /// happens to the list meanwhile, no other task is cancelled.
    pub confirm: Option<String>,
    pub help: bool,
    pub pager: Option<Pager>,
    /// A worker's page.
    pub info: Option<Vec<String>>,
    /// The question before an eviction.
    pub evict_prompt: Option<EvictPrompt>,
    /// The workers whose eviction is running.
    pub evict_inflight: TextSet,
    /// Warnings stay until a person clears them; messages do not replace them.
    pub warnings: Vec<String>,
    pub message: String,
    pub pages: PageSizes,
    pub filter: Filter,
    /// The keys go to the filter.
    pub filter_input: bool,
    pub scope: Scope,
    /// The end of a worker's output.
    pub peek: Option<PeekView>,
    /// The preview that is being captured.
    pub peek_inflight: Option<PeekTarget>,
}

/// The state of the dashboard.
#[verifier::ext_equal]
pub struct AppView {
    pub panel: Panel,
    pub row_idx: int,
    pub task_idx: int,
    pub row_key: Option<rows::RowKeyView>,
    pub task_key: Option<Seq<char>>,
    pub confirm: Option<Seq<char>>,
    pub help: bool,
    pub pager: Option<PagerView>,
    pub info: Option<Seq<Seq<char>>>,
    pub evict_prompt: Option<action::EvictPromptView>,
    pub evict_inflight: Set<Seq<char>>,
    pub warnings: Seq<Seq<char>>,
    pub message: Seq<char>,
    pub pages: PageSizes,
    pub filter: Seq<char>,
    pub filter_input: bool,
    pub scope: Scope,
    pub peek: Option<PeekShown>,
    pub peek_inflight: Option<PeekTargetView>,
}

/// The view of an optional value.
pub open spec fn opt_view<T: View>(o: Option<T>) -> Option<T::V> {
    match o {
        Some(x) => Some(x@),
        None => None,
    }
}

/// The texts of an optional list.
pub open spec fn opt_texts(o: Option<Vec<String>>) -> Option<Seq<Seq<char>>> {
    match o {
        Some(v) => Some(text::texts(v@)),
        None => None,
    }
}

impl View for App {
    type V = AppView;

    open spec fn view(&self) -> AppView {
        AppView {
            panel: self.panel,
            row_idx: self.row_idx as int,
            task_idx: self.task_idx as int,
            row_key: opt_view(self.row_key),
            task_key: opt_view(self.task_key),
            confirm: opt_view(self.confirm),
            help: self.help,
            pager: opt_view(self.pager),
            info: opt_texts(self.info),
            evict_prompt: opt_view(self.evict_prompt),
            evict_inflight: self.evict_inflight@,
            warnings: text::texts(self.warnings@),
            message: self.message@,
            pages: self.pages,
            filter: self.filter.query@,
            filter_input: self.filter_input,
            scope: self.scope,
            peek: opt_view(self.peek),
            peek_inflight: opt_view(self.peek_inflight),
        }
    }
}

/// The state at the start.
pub open spec fn at_start() -> AppView {
    AppView {
        panel: Panel::Workers,
        row_idx: 0,
        task_idx: 0,
        row_key: None,
        task_key: None,
        confirm: None,
        help: false,
        pager: None,
        info: None,
        evict_prompt: None,
        evict_inflight: Set::empty(),
        warnings: Seq::empty(),
        message: Seq::empty(),
        pages: first_sizes(),
        filter: Seq::empty(),
        filter_input: false,
        scope: Scope::All,
        peek: None,
        peek_inflight: None,
    }
}

/// The warnings with one more: a repetition of the last one is not added, and the oldest ones
/// give way.
pub open spec fn warned(ws: Seq<Seq<char>>, w: Seq<char>) -> Seq<Seq<char>> {
    if ws.len() > 0 && ws.last() == w {
        ws
    } else if ws.len() < MAX_WARNINGS {
        ws.push(w)
    } else {
        ws.push(w).skip(ws.len() + 1 - MAX_WARNINGS)
    }
}

/// The rows of the worker list.
pub open spec fn rows_of(a: AppView, m: Model) -> Seq<Row> {
    rows::rows_in(rows::walk(m, a.filter))
}

/// The rows of the task list.
pub open spec fn trows_of(a: AppView, m: Model) -> Seq<int> {
    rows::task_rows_of(m, a.filter, a.scope)
}

/// The selected row of the worker list.
pub open spec fn row_at(a: AppView, m: Model) -> Option<Row> {
    if 0 <= a.row_idx < rows_of(a, m).len() {
        Some(rows_of(a, m)[a.row_idx])
    } else {
        None
    }
}

/// The selected task of the task list.
pub open spec fn trow_at(a: AppView, m: Model) -> Option<int> {
    if 0 <= a.task_idx < trows_of(a, m).len() {
        Some(trows_of(a, m)[a.task_idx])
    } else {
        None
    }
}

/// What is selected.
pub open spec fn selection_of(a: AppView, m: Model) -> SelView {
    match a.panel {
        Panel::Workers => match row_at(a, m) {
            Some(Row::Worker(wi)) => SelView::Worker(m.workers@[wi as int]),
            Some(Row::Task { worker, task }) => SelView::Task {
                task: m.tasks@[task as int],
                worker: Some(m.workers@[worker as int]),
            },
            None => SelView::Nothing,
        },
        Panel::Tasks => match trow_at(a, m) {
            Some(ti) => SelView::Task {
                task: m.recent@[ti],
                worker: match model::claimant(m.workers@, m.recent@[ti]) {
                    Some(wi) => Some(m.workers@[wi]),
                    None => None,
                },
            },
            None => SelView::Nothing,
        },
    }
}

/// What can be done to nothing.
pub open spec fn no_caps() -> RowCaps {
    RowCaps {
        enter: EnterAct::Nothing,
        read: false,
        info: false,
        peek: false,
        copy: false,
        cancel: false,
        evict: false,
    }
}

/// What can be done to what is selected.
pub open spec fn caps_of(sel: SelView) -> RowCaps {
    match sel {
        SelView::Nothing => no_caps(),
        SelView::Worker(w) => RowCaps {
            enter: EnterAct::Focus,
            info: true,
            peek: w.pane@.len() > 0,
            copy: true,
            evict: true,
            ..no_caps()
        },
        SelView::Task { task, worker } => RowCaps {
            enter: EnterAct::Read,
            read: true,
            info: worker is Some,
            copy: true,
            cancel: !rows::terminal(task.status@),
            ..no_caps()
        },
    }
}

/// The keys follow the places. Where nothing is selected they stay: else the next reading
/// would select again what was deliberately left.
pub open spec fn keyed(a: AppView, m: Model) -> AppView {
    AppView {
        row_key: match row_at(a, m) {
            Some(row) => Some(rows::key_of_row(m, row)),
            None => a.row_key,
        },
        task_key: match trow_at(a, m) {
            Some(ti) => Some(m.recent@[ti].id@),
            None => a.task_key,
        },
        ..a
    }
}

/// Whether a row is a new generation of the worker that was selected.
pub open spec fn replaces(m: Model, row: Row, old: Option<rows::RowKeyView>) -> bool {
    match (row, old) {
        (Row::Worker(wi), Some(rows::RowKeyView::Worker { name, spawn_tag })) =>
            m.workers@[wi as int].name@ == name && m.workers@[wi as int].spawn_tag@ != spawn_tag,
        _ => false,
    }
}

/// Whether the selection may land on a row.
pub open spec fn may_land(m: Model, rs: Seq<Row>, i: int, key: Option<rows::RowKeyView>) -> bool {
    0 <= i < rs.len() && !replaces(m, rs[i], key)
}

/// Where the selection lands when its row is gone: on the row before, on the place, on the row
/// after, or on the first, and never on a new generation of the same worker.
pub open spec fn landing(
    m: Model,
    rs: Seq<Row>,
    at: int,
    key: Option<rows::RowKeyView>,
) -> Option<int> {
    if may_land(m, rs, at - 1, key) {
        Some(at - 1)
    } else if may_land(m, rs, at, key) {
        Some(at)
    } else if may_land(m, rs, at + 1, key) {
        Some(at + 1)
    } else if may_land(m, rs, 0, key) {
        Some(0int)
    } else {
        None
    }
}

/// The row with the key, or where the selection lands.
pub open spec fn row_again(a: AppView, m: Model) -> Option<int> {
    let rs = rows_of(a, m);
    let found = match a.row_key {
        Some(k) => rows::row_with_key(m, rs, k, 0),
        None => None,
    };
    match found {
        Some(i) => Some(i),
        None => landing(m, rs, a.row_idx, a.row_key),
    }
}

/// The place next to one that is gone: before it, or in its place, or the first.
pub open spec fn beside(at: int, len: int) -> int {
    if len == 0 {
        0
    } else if at > 0 && at - 1 < len {
        at - 1
    } else if at < len {
        at
    } else {
        0
    }
}

/// The first row of the task list from `from` on with an id.
pub open spec fn task_with_id(m: Model, ts: Seq<int>, id: Seq<char>, from: int) -> Option<int>
    decreases ts.len() - from,
{
    if from < 0 || from >= ts.len() {
        None
    } else if m.recent@[ts[from]].id@ == id {
        Some(from)
    } else {
        task_with_id(m, ts, id, from + 1)
    }
}

/// The row of the task list with the key, or the one beside it.
pub open spec fn trow_again(a: AppView, m: Model) -> int {
    let ts = trows_of(a, m);
    let found = match a.task_key {
        Some(id) => task_with_id(m, ts, id, 0),
        None => None,
    };
    match found {
        Some(i) => i,
        None => beside(a.task_idx, ts.len() as int),
    }
}

/// What is said when a worker's row was taken by a new generation.
pub open spec fn replaced_message(a: AppView, m: Model) -> Seq<char> {
    match a.row_key {
        Some(rows::RowKeyView::Worker { name, .. }) => if a.row_idx < rows_of(a, m).len() {
            "'"@ + name + "' was replaced by a new generation; press j/k to select"@
        } else {
            a.message
        },
        _ => a.message,
    }
}

/// The places follow the keys.
pub open spec fn relocated(a: AppView, m: Model) -> AppView {
    let b = match row_again(a, m) {
        Some(i) => AppView { row_idx: i, ..a },
        None => AppView {
            row_idx: rows_of(a, m).len() as int,
            message: replaced_message(a, m),
            ..a
        },
    };
    keyed(AppView { task_idx: trow_again(a, m), ..b }, m)
}

impl App {
    /// The state at the start.
    pub fn new() -> (r: Self)
        ensures
            r@ == at_start(),
    {
        let r = App {
            panel: Panel::Workers,
            row_idx: 0,
            task_idx: 0,
            row_key: None,
            task_key: None,
            confirm: None,
            help: false,
            pager: None,
            info: None,
            evict_prompt: None,
            evict_inflight: TextSet::new(),
            warnings: Vec::new(),
            message: String::new(),
            pages: PageSizes { workers: 10, tasks: 10, pager: 10 },
            filter: Filter { query: String::new() },
            filter_input: false,
            scope: Scope::All,
            peek: None,
            peek_inflight: None,
        };
        proof {
            assert(text::texts(r.warnings@) =~= Seq::empty());
        }
        r
    }

    /// Adds a warning. The oldest ones give way: a new failure mostly follows from an old one.
    pub fn push_warning(&mut self, w: String)
        ensures
            final(self)@ == (AppView {
                warnings: warned(old(self)@.warnings, w@),
                ..old(self)@
            }),
    {
        let ghost ws = text::texts(self.warnings@);
        let n = self.warnings.len();
        if n > 0 && same(self.warnings[n - 1].as_str(), w.as_str()) {
            return;
        }
        proof {
            text::lemma_texts_push(self.warnings@, w);
        }
        self.warnings.push(w);
        let ghost all = ws.push(w@);
        let ghost rest = self@;
        proof {
            assert(all.skip(0) =~= all);
            assert(all.len() == self.warnings@.len());
        }
        let ghost mut gone: int = 0;
        while self.warnings.len() > MAX_WARNINGS
            invariant
                0 <= gone <= all.len(),
                all.len() > MAX_WARNINGS ==> gone <= all.len() - MAX_WARNINGS,
                all.len() <= MAX_WARNINGS ==> gone == 0,
                text::texts(self.warnings@) == all.skip(gone),
                self.warnings@.len() == all.len() - gone,
                self@ == (AppView { warnings: all.skip(gone), ..rest }),
            decreases self.warnings@.len(),
        {
            let ghost before = self.warnings@;
            let _oldest = self.warnings.remove(0);
            proof {
                assert(self.warnings@ =~= before.remove(0));
                assert(text::texts(self.warnings@) =~= all.skip(gone + 1)) by {
                    assert forall|i: int| 0 <= i < self.warnings@.len() implies #[trigger] text::texts(
                        self.warnings@,
                    )[i] == all.skip(gone + 1)[i] by {
                        assert(text::texts(before)[i + 1] == before[i + 1]@);
                    }
                }
                gone = gone + 1;
            }
        }
        proof {
            assert(self@.warnings =~= warned(ws, w@));
        }
    }

    /// The rows of the worker list.
    pub fn rows(&self, model: &Model) -> (r: Vec<Row>)
        requires
            model.wf(),
        ensures
            r@ == rows_of(self@, *model),
            forall|i: int| 0 <= i < r@.len() ==> rows::row_within(*model, #[trigger] r@[i]),
    {
        let n = model.tasks.len();
        proof {
            assert(n <= usize::MAX);
            rows::lemma_worker_rows_within(*model, self.filter.query@);
        }
        worker_rows(model, &self.filter)
    }

    /// The selected row of the worker list.
    pub fn selected_row(&self, model: &Model) -> (r: Option<Row>)
        requires
            model.wf(),
        ensures
            r == row_at(self@, *model),
            r matches Some(row) ==> rows::row_within(*model, row),
    {
        let rs = self.rows(model);
        if self.row_idx < rs.len() {
            Some(rs[self.row_idx])
        } else {
            None
        }
    }

    /// The rows of the task list, as indices into the recent tasks.
    pub fn task_rows(&self, model: &Model) -> (r: Vec<usize>)
        ensures
            lineage::ints(r@) == trows_of(self@, *model),
            forall|i: int| 0 <= i < r@.len() ==> #[trigger] r@[i] < model.recent@.len(),
    {
        task_rows(model, &self.filter, self.scope)
    }

    /// The selected task of the task list.
    fn selected_task(&self, model: &Model) -> (r: Option<usize>)
        ensures
            model::opt_index(r) == trow_at(self@, *model),
            r matches Some(ti) ==> ti < model.recent@.len(),
    {
        let ts = self.task_rows(model);
        proof {
            assert(lineage::ints(ts@).len() == ts@.len());
        }
        if self.task_idx < ts.len() {
            proof {
                assert(lineage::ints(ts@)[self.task_idx as int] == ts@[self.task_idx as int] as int);
            }
            Some(ts[self.task_idx])
        } else {
            None
        }
    }

    /// What is selected in the focused panel.
    pub fn selection<'m>(&self, model: &'m Model) -> (r: Sel<'m>)
        requires
            model.wf(),
        ensures
            r@ == selection_of(self@, *model),
    {
        match self.panel {
            Panel::Workers => match self.selected_row(model) {
                Some(Row::Worker(wi)) => Sel::Worker(&model.workers[wi]),
                Some(Row::Task { worker, task }) => Sel::Task {
                    task: &model.tasks[task],
                    worker: Some(&model.workers[worker]),
                },
                None => Sel::Nothing,
            },
            Panel::Tasks => match self.selected_task(model) {
                Some(ti) => {
                    let task = &model.recent[ti];
                    let worker = match worker_of_task(model, task) {
                        Some(wi) => Some(&model.workers[wi]),
                        None => None,
                    };
                    Sel::Task { task, worker }
                },
                None => Sel::Nothing,
            },
        }
    }

    /// The keys follow the places. After every key they do.
    pub fn sync_keys(&mut self, model: &Model)
        requires
            model.wf(),
        ensures
            final(self)@ == keyed(old(self)@, *model),
    {
        let row = self.selected_row(model);
        let task = self.selected_task(model);
        if let Some(row) = row {
            self.row_key = Some(row_key(model, row));
        }
        if let Some(ti) = task {
            self.task_key = Some(copy_text(model.recent[ti].id.as_str()));
        }
    }

    /// The places follow the keys. After every reading they do: while a person does not move
    /// the selection, it stays on what it is on. Where that is gone it lands beside it; where
    /// only a new generation of the worker could be landed on, nothing is selected, since an
    /// eviction would hit another worker than the one that was chosen.
    pub fn relocate(&mut self, model: &Model)
        requires
            model.wf(),
        ensures
            final(self)@ == relocated(old(self)@, *model),
    {
        let rs = self.rows(model);
        let ts = self.task_rows(model);
        proof {
            assert(lineage::ints(ts@).len() == ts@.len());
        }
        let at = self.row_idx;
        let found = match &self.row_key {
            Some(k) => find_key(model, &rs, k),
            None => None,
        };
        let again = match found {
            Some(i) => Some(i),
            None => fallback_row(model, &rs, at, &self.row_key),
        };
        let tfound = match &self.task_key {
            Some(id) => find_task(model, &ts, id.as_str()),
            None => None,
        };
        let tagain: usize = match tfound {
            Some(i) => i,
            None => neighbor(self.task_idx, ts.len()),
        };
        match again {
            Some(i) => {
                self.row_idx = i;
            },
            None => {
                if at < rs.len() {
                    if let Some(RowKey::Worker { name, .. }) = &self.row_key {
                        let mut s = copy_text("'");
                        s.append(name.as_str());
                        s.append("' was replaced by a new generation; press j/k to select");
                        self.message = s;
                    }
                }
                self.row_idx = rs.len();
            },
        }
        self.task_idx = tagain;
        self.sync_keys(model);
    }
}

impl Default for App {
    fn default() -> (r: Self)
        ensures
            r@ == at_start(),
    {
        App::new()
    }
}

/// The first row with a key.
fn find_key(model: &Model, rs: &Vec<Row>, k: &RowKey) -> (r: Option<usize>)
    requires
        forall|i: int| 0 <= i < rs@.len() ==> rows::row_within(*model, #[trigger] rs@[i]),
    ensures
        model::opt_index(r) == rows::row_with_key(*model, rs@, k@, 0),
{
    let mut i: usize = 0;
    while i < rs.len()
        invariant
            i <= rs@.len(),
            forall|i: int| 0 <= i < rs@.len() ==> rows::row_within(*model, #[trigger] rs@[i]),
            rows::row_with_key(*model, rs@, k@, 0) == rows::row_with_key(*model, rs@, k@, i as int),
        decreases rs@.len() - i,
    {
        if key_eq(&row_key(model, rs[i]), k) {
            return Some(i);
        }
        i += 1;
    }
    None
}

/// The first row of the task list with an id.
fn find_task(model: &Model, ts: &Vec<usize>, id: &str) -> (r: Option<usize>)
    requires
        forall|i: int| 0 <= i < ts@.len() ==> #[trigger] ts@[i] < model.recent@.len(),
    ensures
        model::opt_index(r) == task_with_id(*model, lineage::ints(ts@), id@, 0),
{
    let ghost ints = lineage::ints(ts@);
    let mut i: usize = 0;
    while i < ts.len()
        invariant
            i <= ts@.len(),
            ints == lineage::ints(ts@),
            forall|i: int| 0 <= i < ts@.len() ==> #[trigger] ts@[i] < model.recent@.len(),
            task_with_id(*model, ints, id@, 0) == task_with_id(*model, ints, id@, i as int),
        decreases ts@.len() - i,
    {
        proof {
            assert(ints[i as int] == ts@[i as int] as int);
        }
        if same(model.recent[ts[i]].id.as_str(), id) {
            return Some(i);
        }
        i += 1;
    }
    None
}

/// Whether a row is a new generation of the worker that was selected. It has the same name and
/// often the same place; the selection must not pass to it unseen.
fn is_replacement(model: &Model, row: Row, old_key: &Option<RowKey>) -> (r: bool)
    requires
        rows::row_within(*model, row),
    ensures
        r == replaces(*model, row, opt_view(*old_key)),
{
    match (row, old_key) {
        (Row::Worker(wi), Some(RowKey::Worker { name, spawn_tag })) => {
            let w = &model.workers[wi];
            same(w.name.as_str(), name.as_str()) && !same(w.spawn_tag.as_str(), spawn_tag.as_str())
        },
        _ => false,
    }
}

/// Where the selection lands when its row is gone.
fn fallback_row(model: &Model, rs: &Vec<Row>, at: usize, key: &Option<RowKey>) -> (r: Option<usize>)
    requires
        forall|i: int| 0 <= i < rs@.len() ==> rows::row_within(*model, #[trigger] rs@[i]),
    ensures
        model::opt_index(r) == landing(*model, rs@, at as int, opt_view(*key)),
{
    if at > 0 && at - 1 < rs.len() && !is_replacement(model, rs[at - 1], key) {
        Some(at - 1)
    } else if at < rs.len() && !is_replacement(model, rs[at], key) {
        Some(at)
    } else if at < rs.len() && at + 1 < rs.len() && !is_replacement(model, rs[at + 1], key) {
        Some(at + 1)
    } else if 0 < rs.len() && !is_replacement(model, rs[0], key) {
        Some(0)
    } else {
        None
    }
}

/// The place next to one that is gone.
fn neighbor(at: usize, len: usize) -> (r: usize)
    ensures
        r == beside(at as int, len as int),
{
    if len == 0 {
        0
    } else if at > 0 && at - 1 < len {
        at - 1
    } else if at < len {
        at
    } else {
        0
    }
}

/// What can be done to what is selected.
pub fn row_caps(app: &App, model: &Model) -> (r: RowCaps)
    requires
        model.wf(),
    ensures
        r == caps_of(selection_of(app@, *model)),
{
    match app.selection(model) {
        Sel::Nothing => RowCaps {
            enter: EnterAct::Nothing,
            read: false,
            info: false,
            peek: false,
            copy: false,
            cancel: false,
            evict: false,
        },
        Sel::Worker(w) => RowCaps {
            enter: EnterAct::Focus,
            read: false,
            info: true,
            peek: !w.pane.as_str().is_empty(),
            copy: true,
            cancel: false,
            evict: true,
        },
        Sel::Task { task, worker } => RowCaps {
            enter: EnterAct::Read,
            read: true,
            info: worker.is_some(),
            peek: false,
            copy: true,
            cancel: !is_terminal_status(task.status.as_str()),
            evict: false,
        },
    }
}

/// The other panel. There are two, so both directions lead to it.
pub open spec fn other_panel(p: Panel) -> Panel {
    match p {
        Panel::Workers => Panel::Tasks,
        Panel::Tasks => Panel::Workers,
    }
}

/// How the selection moves.
#[derive(Clone, Copy, PartialEq, Eq, Debug, Structural)]
enum Move {
    Down(usize),
    Up(usize),
    /// By lines of the worker list.
    Page { lines: usize, down: bool },
    First,
    Last,
}

/// A place within a list that is not empty.
pub open spec fn within(at: int, len: int) -> int {
    if at < 0 {
        0
    } else if at >= len {
        len - 1
    } else {
        at
    }
}

/// A value that is at least one.
pub open spec fn at_least_one(n: int) -> int {
    if n < 1 {
        1
    } else {
        n
    }
}

/// How many rows of the task list a page has.
pub open spec fn task_page(p: PageSizes) -> int {
    at_least_one(p.tasks as int / TASK_ROW_H as int)
}

/// The place of the selection in the focused panel.
pub open spec fn place(a: AppView) -> int {
    match a.panel {
        Panel::Workers => a.row_idx,
        Panel::Tasks => a.task_idx,
    }
}

/// How many rows the focused panel has.
pub open spec fn panel_len(a: AppView, m: Model) -> int {
    match a.panel {
        Panel::Workers => rows_of(a, m).len() as int,
        Panel::Tasks => trows_of(a, m).len() as int,
    }
}

/// The selection moved to a place, or to the end that lies in that direction. It never wraps
/// around.
pub open spec fn moved_to(a: AppView, m: Model, at: int) -> AppView {
    let len = panel_len(a, m);
    if len == 0 {
        a
    } else {
        match a.panel {
            Panel::Workers => AppView { row_idx: within(at, len), ..a },
            Panel::Tasks => AppView { task_idx: within(at, len), ..a },
        }
    }
}

/// The place a page further.
pub open spec fn page_place(a: AppView, m: Model, down: bool) -> int {
    match a.panel {
        Panel::Workers => rows::page_target(
            rows::capped_all(rows::lines_in(rows::walk(m, a.filter))),
            a.row_idx,
            at_least_one(a.pages.workers as int),
            down,
        ),
        Panel::Tasks => if down {
            a.task_idx + task_page(a.pages)
        } else {
            a.task_idx - task_page(a.pages)
        },
    }
}

/// The place that a move leads to.
spec fn target(a: AppView, m: Model, mv: Move) -> int {
    match mv {
        Move::Down(d) => place(a) + d,
        Move::Up(d) => place(a) - d,
        Move::Page { lines, down } => rows::page_target(
            rows::capped_all(rows::lines_in(rows::walk(m, a.filter))),
            place(a),
            lines as int,
            down,
        ),
        Move::First => 0,
        Move::Last => panel_len(a, m) - 1,
    }
}

/// The place that a move leads to, kept within the list.
fn clamped(at: usize, len: usize, model: &Model, filter: &Filter, mv: Move, Ghost(a): Ghost<AppView>) -> (r:
    usize)
    requires
        model.wf(),
        len > 0,
        len == panel_len(a, *model),
        at == place(a),
        a.filter == filter.query@,
    ensures
        r == within(target(a, *model, mv), len as int),
{
    let raw: usize = match mv {
        Move::Down(d) => if at >= len || d >= len - at {
            len - 1
        } else {
            at + d
        },
        Move::Up(d) => if d >= at {
            0
        } else {
            at - d
        },
        Move::Page { lines, down } => worker_page_row(model, filter, at, lines, down),
        Move::First => 0,
        Move::Last => len - 1,
    };
    if raw >= len {
        len - 1
    } else {
        raw
    }
}

/// How the selection moves by a page. A page has at least one row: on a screen that is too low
/// for one, the keys still move.
fn page_move(app: &App, down: bool) -> (r: Move)
    ensures
        forall|m: Model| #[trigger] target(app@, m, r) == page_place(app@, m, down),
{
    match app.panel {
        Panel::Workers => {
            let lines: usize = if app.pages.workers < 1 {
                1
            } else {
                app.pages.workers as usize
            };
            Move::Page { lines, down }
        },
        Panel::Tasks => {
            let n: usize = app.pages.tasks as usize / TASK_ROW_H;
            let d: usize = if n < 1 {
                1
            } else {
                n
            };
            if down {
                Move::Down(d)
            } else {
                Move::Up(d)
            }
        },
    }
}

/// Moves the selection of the focused panel.
fn move_sel(app: &mut App, model: &Model, mv: Move)
    requires
        model.wf(),
    ensures
        final(app)@ == moved_to(old(app)@, *model, target(old(app)@, *model, mv)),
{
    let ghost a = app@;
    match app.panel {
        Panel::Workers => {
            let n = app.rows(model).len();
            if n > 0 {
                app.row_idx = clamped(app.row_idx, n, model, &app.filter, mv, Ghost(a));
            }
        },
        Panel::Tasks => {
            let ts = app.task_rows(model);
            proof {
                assert(lineage::ints(ts@).len() == ts@.len());
            }
            let n = ts.len();
            if n > 0 {
                app.task_idx = clamped(app.task_idx, n, model, &app.filter, mv, Ghost(a));
            }
        },
    }
}

/// How far a text is scrolled after a key. It never goes beyond its last page.
pub open spec fn scrolled_to(scroll: int, lines: int, page: int, key: Key) -> int {
    let max = scroll_limit(lines, page);
    if key == Key::Char('j') || key == Key::Down {
        if scroll + 1 < max {
            scroll + 1
        } else {
            max
        }
    } else if key == Key::Char('k') || key == Key::Up {
        if scroll > 0 {
            scroll - 1
        } else {
            0
        }
    } else if key == Key::PageDown {
        if scroll + page < max {
            scroll + page
        } else {
            max
        }
    } else if key == Key::PageUp {
        if scroll > page {
            scroll - page
        } else {
            0
        }
    } else if key == Key::Home {
        0
    } else if key == Key::End {
        max
    } else {
        scroll
    }
}

/// How far a text of `lines` lines is scrolled after a key.
pub fn scrolled(scroll: usize, lines: usize, page: usize, key: Key) -> (r: usize)
    ensures
        r == scrolled_to(scroll as int, lines as int, page as int, key),
{
    let max: usize = if lines > page {
        lines - page
    } else {
        0
    };
    match key {
        Key::Char('j') | Key::Down => if scroll >= max {
            max
        } else {
            scroll + 1
        },
        Key::Char('k') | Key::Up => if scroll > 0 {
            scroll - 1
        } else {
            0
        },
        Key::PageDown => if scroll >= max || page >= max - scroll {
            max
        } else {
            scroll + page
        },
        Key::PageUp => if scroll > page {
            scroll - page
        } else {
            0
        },
        Key::Home => 0,
        Key::End => max,
        _ => scroll,
    }
}

/// Whether something lies over the panels.
pub open spec fn overlaid(a: AppView) -> bool {
    a.confirm is Some || a.evict_prompt is Some || a.pager is Some || a.info is Some || a.peek is Some
        || a.help
}

/// A key that says yes.
pub open spec fn says_yes(key: Key) -> bool {
    key == Key::Char('y') || key == Key::Enter
}

/// A key that says no.
pub open spec fn says_no(key: Key) -> bool {
    key == Key::Char('n') || key == Key::Esc
}

/// What a key does to what lies over the panels. A question takes yes and no and nothing else.
pub open spec fn overlay_step(a: AppView, key: Key) -> (AppView, EffectView) {
    if let Some(id) = a.confirm {
        if says_yes(key) {
            (AppView { confirm: None, ..a }, EffectView::Cancel { id })
        } else if says_no(key) {
            (
                AppView { confirm: None, message: "cancel aborted"@, ..a },
                EffectView::Nothing,
            )
        } else {
            (a, EffectView::Nothing)
        }
    } else if let Some(p) = a.evict_prompt {
        if says_yes(key) {
            (AppView { evict_prompt: None, ..a }, EffectView::Evict { shown: p.shown })
        } else if says_no(key) {
            (
                AppView { evict_prompt: None, message: "evict aborted"@, ..a },
                EffectView::Nothing,
            )
        } else {
            (a, EffectView::Nothing)
        }
    } else if let Some(p) = a.pager {
        if key == Key::Esc || key == Key::Char('q') {
            (AppView { pager: None, ..a }, EffectView::Nothing)
        } else {
            let scroll = scrolled_to(
                p.scroll,
                action::pager_text(p).len() as int,
                at_least_one(a.pages.pager as int),
                key,
            );
            (AppView { pager: Some(PagerView { scroll, ..p }), ..a }, EffectView::Nothing)
        }
    } else if a.info is Some {
        (AppView { info: None, ..a }, EffectView::Nothing)
    } else if a.peek is Some {
        (AppView { peek: None, ..a }, EffectView::Nothing)
    } else {
        (AppView { help: false, ..a }, EffectView::Nothing)
    }
}

/// What a key does to the filter while it is typed. The selection stays on what it is on, as
/// far as that is still listed.
pub open spec fn filter_step(a: AppView, m: Model, key: Key) -> AppView {
    match key {
        Key::Char(c) => relocated(AppView { filter: a.filter.push(c), ..a }, m),
        Key::Backspace => if a.filter.len() == 0 {
            a
        } else {
            relocated(AppView { filter: a.filter.drop_last(), ..a }, m)
        },
        Key::Enter => AppView { filter_input: false, ..a },
        Key::Esc => relocated(
            AppView { filter: Seq::empty(), filter_input: false, ..a },
            m,
        ),
        _ => a,
    }
}

/// A state with a message.
pub open spec fn says(a: AppView, message: Seq<char>) -> AppView {
    AppView { message, ..a }
}

/// Reads the selected task.
pub open spec fn read_step(a: AppView, m: Model) -> (AppView, EffectView) {
    match selection_of(a, m) {
        SelView::Task { task, .. } => (a, EffectView::Read { id: task.id@ }),
        _ => (
            says(a, "r only acts on task rows (read needs a unique task id)"@),
            EffectView::Nothing,
        ),
    }
}

/// What Enter does.
pub open spec fn enter_step(a: AppView, m: Model) -> (AppView, EffectView) {
    match selection_of(a, m) {
        SelView::Worker(w) => (a, EffectView::Focus { pane: w.pane@, label: w.name@ }),
        SelView::Task { .. } => read_step(a, m),
        SelView::Nothing => (a, EffectView::Nothing),
    }
}

/// What `x` does.
pub open spec fn cancel_step(a: AppView, m: Model) -> AppView {
    match selection_of(a, m) {
        SelView::Task { task, .. } => if rows::terminal(task.status@) {
            says(
                a,
                "task "@ + task.id@ + " is already terminal ("@ + task.status@
                    + "); nothing to cancel"@,
            )
        } else {
            AppView { confirm: Some(task.id@), ..a }
        },
        _ => says(a, "x only acts on task rows (cancel needs a unique task id)"@),
    }
}

/// What `i` does.
pub open spec fn info_step(a: AppView, m: Model) -> (AppView, EffectView) {
    match selection_of(a, m) {
        SelView::Worker(w) => (a, EffectView::Info { worker: w.name@ }),
        SelView::Task { task, worker } => match worker {
            Some(w) => (a, EffectView::Info { worker: w.name@ }),
            None => (
                says(a, "'"@ + task.to@ + "' is gone from the registry; no info to show"@),
                EffectView::Nothing,
            ),
        },
        SelView::Nothing => (says(a, "i only acts on worker / task rows"@), EffectView::Nothing),
    }
}

/// Whose output a preview would be of.
pub open spec fn peek_of(a: AppView, m: Model) -> Option<PeekTargetView> {
    match selection_of(a, m) {
        SelView::Worker(w) => if w.pane@.len() > 0 {
            Some(
                PeekTargetView {
                    pane: w.pane@,
                    name: w.name@,
                    key: rows::RowKeyView::Worker { name: w.name@, spawn_tag: w.spawn_tag@ },
                },
            )
        } else {
            None
        },
        _ => None,
    }
}

/// What `L` does. One preview is captured at a time.
pub open spec fn peek_step(a: AppView, m: Model) -> (AppView, EffectView) {
    match peek_of(a, m) {
        Some(target) => match a.peek_inflight {
            Some(t) => (
                says(a, "preview of '"@ + t.name + "' is already in progress"@),
                EffectView::Nothing,
            ),
            None => (a, EffectView::Peek { target }),
        },
        None => (
            says(a, "L only acts on worker rows with a pane"@),
            EffectView::Nothing,
        ),
    }
}

/// What `e` does.
pub open spec fn evict_step(a: AppView, m: Model) -> (AppView, EffectView) {
    match selection_of(a, m) {
        SelView::Worker(w) => if a.evict_inflight.contains(w.name@) {
            (
                says(a, "evict of '"@ + w.name@ + "' is already in progress"@),
                EffectView::Nothing,
            )
        } else {
            (a, EffectView::EvictPrompt { worker: w.name@ })
        },
        _ => (
            says(a, "e only acts on worker rows (evict targets a worker, not a task)"@),
            EffectView::Nothing,
        ),
    }
}

/// What `c` does.
pub open spec fn copy_step(a: AppView, m: Model) -> (AppView, EffectView) {
    let payload = action::payload_of(selection_of(a, m));
    if payload.len() == 0 {
        (
            says(a, "c only acts on worker / task rows (nothing is selected)"@),
            EffectView::Nothing,
        )
    } else {
        (a, EffectView::Copy { payload })
    }
}

/// What Esc does: a person has seen the warnings.
pub open spec fn clear_step(a: AppView) -> AppView {
    if a.warnings.len() == 0 {
        a
    } else {
        AppView {
            message: "cleared "@ + text::dec(a.warnings.len()) + " warning(s)"@,
            warnings: Seq::empty(),
            ..a
        }
    }
}

/// What a letter does.
pub open spec fn letter_step(a: AppView, m: Model, c: char) -> (AppView, EffectView) {
    if c == 'q' {
        (a, EffectView::Quit)
    } else if c == '?' {
        (AppView { help: true, ..a }, EffectView::Nothing)
    } else if c == 'j' {
        (moved_to(a, m, place(a) + 1), EffectView::Nothing)
    } else if c == 'k' {
        (moved_to(a, m, place(a) - 1), EffectView::Nothing)
    } else if c == '/' {
        (AppView { filter_input: true, ..a }, EffectView::Nothing)
    } else if c == 'S' {
        (relocated(AppView { scope: a.scope.other(), ..a }, m), EffectView::Nothing)
    } else if c == 'x' {
        (cancel_step(a, m), EffectView::Nothing)
    } else if c == 'r' {
        read_step(a, m)
    } else if c == 'i' {
        info_step(a, m)
    } else if c == 'L' {
        peek_step(a, m)
    } else if c == 'e' {
        evict_step(a, m)
    } else if c == 'c' {
        copy_step(a, m)
    } else {
        (a, EffectView::Nothing)
    }
}

/// What a key does to the panels.
pub open spec fn command_step(a: AppView, m: Model, key: Key) -> (AppView, EffectView) {
    match key {
        Key::Char(c) => letter_step(a, m, c),
        Key::Esc => (clear_step(a), EffectView::Nothing),
        Key::Tab => (AppView { panel: other_panel(a.panel), ..a }, EffectView::Nothing),
        Key::BackTab => (AppView { panel: other_panel(a.panel), ..a }, EffectView::Nothing),
        Key::Down => (moved_to(a, m, place(a) + 1), EffectView::Nothing),
        Key::Up => (moved_to(a, m, place(a) - 1), EffectView::Nothing),
        Key::PageDown => (moved_to(a, m, page_place(a, m, true)), EffectView::Nothing),
        Key::PageUp => (moved_to(a, m, page_place(a, m, false)), EffectView::Nothing),
        Key::Home => (moved_to(a, m, 0), EffectView::Nothing),
        Key::End => (moved_to(a, m, panel_len(a, m) - 1), EffectView::Nothing),
        Key::Enter => enter_step(a, m),
        Key::Backspace => (a, EffectView::Nothing),
    }
}

/// What a key does, before the keys of the selection follow.
pub open spec fn step(a: AppView, m: Model, key: Key) -> (AppView, EffectView) {
    if overlaid(a) {
        overlay_step(a, key)
    } else if a.filter_input {
        (filter_step(a, m, key), EffectView::Nothing)
    } else {
        command_step(a, m, key)
    }
}

/// What a key does.
pub open spec fn pressed(a: AppView, m: Model, key: Key) -> (AppView, EffectView) {
    (keyed(step(a, m, key).0, m), step(a, m, key).1)
}

/// Handles a key. Whatever it does to the places, the keys of the selection follow at once.
pub fn handle_key(app: &mut App, model: &Model, key: Key) -> (r: Effect)
    requires
        model.wf(),
    ensures
        final(app)@ == pressed(old(app)@, *model, key).0,
        r@ == pressed(old(app)@, *model, key).1,
{
    let eff = dispatch_key(app, model, key);
    app.sync_keys(model);
    eff
}

/// Handles a key, but for the keys of the selection.
fn dispatch_key(app: &mut App, model: &Model, key: Key) -> (r: Effect)
    requires
        model.wf(),
    ensures
        final(app)@ == step(old(app)@, *model, key).0,
        r@ == step(old(app)@, *model, key).1,
{
    if app.confirm.is_some() || app.evict_prompt.is_some() || app.pager.is_some()
        || app.info.is_some() || app.peek.is_some() || app.help {
        overlay_key(app, key)
    } else if app.filter_input {
        filter_key(app, model, key);
        Effect::Nothing
    } else {
        command_key(app, model, key)
    }
}

/// A copy of what was shown.
fn copy_shown(s: &EvictShown) -> (r: EvictShown)
    ensures
        r@ == s@,
{
    EvictShown {
        name: copy_text(s.name.as_str()),
        pane: copy_text(s.pane.as_str()),
        spawn_tag: copy_text(s.spawn_tag.as_str()),
    }
}

/// Handles a key for what lies over the panels.
fn overlay_key(app: &mut App, key: Key) -> (r: Effect)
    requires
        overlaid(old(app)@),
    ensures
        final(app)@ == overlay_step(old(app)@, key).0,
        r@ == overlay_step(old(app)@, key).1,
{
    let asked = match &app.confirm {
        Some(id) => Some(copy_text(id.as_str())),
        None => None,
    };
    if let Some(id) = asked {
        return match key {
            Key::Char('y') | Key::Enter => {
                app.confirm = None;
                Effect::Cancel { id }
            },
            Key::Char('n') | Key::Esc => {
                app.confirm = None;
                app.message = copy_text("cancel aborted");
                Effect::Nothing
            },
            _ => Effect::Nothing,
        };
    }
    let evicting = match &app.evict_prompt {
        Some(p) => Some(copy_shown(&p.shown)),
        None => None,
    };
    if let Some(shown) = evicting {
        return match key {
            Key::Char('y') | Key::Enter => {
                app.evict_prompt = None;
                Effect::Evict { shown }
            },
            Key::Char('n') | Key::Esc => {
                app.evict_prompt = None;
                app.message = copy_text("evict aborted");
                Effect::Nothing
            },
            _ => Effect::Nothing,
        };
    }
    let mut open: Option<Pager> = None;
    std::mem::swap(&mut open, &mut app.pager);
    if let Some(p) = open {
        match key {
            Key::Esc | Key::Char('q') => {},
            _ => {
                let page: usize = if app.pages.pager < 1 {
                    1
                } else {
                    app.pages.pager as usize
                };
                let lines = pager_lines(&p);
                proof {
                    assert(text::texts(lines@).len() == lines@.len());
                }
                let scroll = scrolled(p.scroll, lines.len(), page, key);
                app.pager = Some(
                    Pager { id: p.id, from: p.from, to: p.to, bytes: p.bytes, scroll },
                );
            },
        }
        return Effect::Nothing;
    }
    if app.info.is_some() {
        app.info = None;
        return Effect::Nothing;
    }
    if app.peek.is_some() {
        app.peek = None;
        return Effect::Nothing;
    }
    app.help = false;
    Effect::Nothing
}

/// Handles a key for the filter.
fn filter_key(app: &mut App, model: &Model, key: Key)
    requires
        model.wf(),
    ensures
        final(app)@ == filter_step(old(app)@, *model, key),
{
    match key {
        Key::Char(c) => {
            app.filter.query.push(c);
            app.relocate(model);
        },
        Key::Backspace => {
            let v = to_chars(app.filter.query.as_str());
            if v.len() > 0 {
                let q = from_chars(&v, 0, v.len() - 1);
                proof {
                    assert(q@ =~= app.filter.query@.drop_last());
                }
                app.filter.query = q;
                app.relocate(model);
            }
        },
        Key::Enter => {
            app.filter_input = false;
        },
        Key::Esc => {
            app.filter.query = String::new();
            app.filter_input = false;
            app.relocate(model);
        },
        _ => {},
    }
}

/// Handles a key for the panels.
fn command_key(app: &mut App, model: &Model, key: Key) -> (r: Effect)
    requires
        model.wf(),
    ensures
        final(app)@ == command_step(old(app)@, *model, key).0,
        r@ == command_step(old(app)@, *model, key).1,
{
    match key {
        Key::Char(c) => letter_key(app, model, c),
        Key::Esc => {
            let n = app.warnings.len();
            proof {
                assert(text::texts(app.warnings@).len() == app.warnings@.len());
            }
            if n > 0 {
                let mut s = copy_text("cleared ");
                push_dec(&mut s, n as u64);
                s.append(" warning(s)");
                app.warnings = Vec::new();
                app.message = s;
                proof {
                    assert(text::texts(app.warnings@) =~= Seq::empty());
                }
            }
            Effect::Nothing
        },
        Key::Tab | Key::BackTab => {
            app.panel = match app.panel {
                Panel::Workers => Panel::Tasks,
                Panel::Tasks => Panel::Workers,
            };
            Effect::Nothing
        },
        Key::Down => {
            move_sel(app, model, Move::Down(1));
            Effect::Nothing
        },
        Key::Up => {
            move_sel(app, model, Move::Up(1));
            Effect::Nothing
        },
        Key::PageDown => {
            let mv = page_move(app, true);
            move_sel(app, model, mv);
            Effect::Nothing
        },
        Key::PageUp => {
            let mv = page_move(app, false);
            move_sel(app, model, mv);
            Effect::Nothing
        },
        Key::Home => {
            move_sel(app, model, Move::First);
            Effect::Nothing
        },
        Key::End => {
            move_sel(app, model, Move::Last);
            Effect::Nothing
        },
        Key::Enter => match row_caps(app, model).enter {
            EnterAct::Focus => match app.selection(model) {
                Sel::Worker(w) => Effect::Focus {
                    pane: copy_text(w.pane.as_str()),
                    label: copy_text(w.name.as_str()),
                },
                _ => Effect::Nothing,
            },
            EnterAct::Read => read_effect(app, model),
            EnterAct::Nothing => Effect::Nothing,
        },
        Key::Backspace => Effect::Nothing,
    }
}

/// Reads the selected task. `r`, and Enter on a task, are the same.
fn read_effect(app: &mut App, model: &Model) -> (r: Effect)
    requires
        model.wf(),
    ensures
        final(app)@ == read_step(old(app)@, *model).0,
        r@ == read_step(old(app)@, *model).1,
{
    let read = row_caps(app, model).read;
    match app.selection(model) {
        Sel::Task { task, .. } if read => Effect::Read { id: copy_text(task.id.as_str()) },
        _ => {
            app.message = copy_text("r only acts on task rows (read needs a unique task id)");
            Effect::Nothing
        },
    }
}

/// Handles a letter for the panels. What the capabilities do not allow is answered by a
/// message.
fn letter_key(app: &mut App, model: &Model, c: char) -> (r: Effect)
    requires
        model.wf(),
    ensures
        final(app)@ == letter_step(old(app)@, *model, c).0,
        r@ == letter_step(old(app)@, *model, c).1,
{
    match c {
        'q' => Effect::Quit,
        '?' => {
            app.help = true;
            Effect::Nothing
        },
        'j' => {
            move_sel(app, model, Move::Down(1));
            Effect::Nothing
        },
        'k' => {
            move_sel(app, model, Move::Up(1));
            Effect::Nothing
        },
        '/' => {
            app.filter_input = true;
            Effect::Nothing
        },
        'S' => {
            app.scope = app.scope.toggled();
            app.relocate(model);
            Effect::Nothing
        },
        'x' => {
            cancel_key(app, model);
            Effect::Nothing
        },
        'r' => read_effect(app, model),
        'i' => info_key(app, model),
        'L' => peek_key(app, model),
        'e' => evict_key(app, model),
        'c' => copy_key(app, model),
        _ => Effect::Nothing,
    }
}

/// Asks before a task is cancelled. A finished one is not asked about.
fn cancel_key(app: &mut App, model: &Model)
    requires
        model.wf(),
    ensures
        final(app)@ == cancel_step(old(app)@, *model),
{
    let cancel = row_caps(app, model).cancel;
    match app.selection(model) {
        Sel::Task { task, .. } => {
            if cancel {
                app.confirm = Some(copy_text(task.id.as_str()));
            } else {
                let mut s = copy_text("task ");
                s.append(task.id.as_str());
                s.append(" is already terminal (");
                s.append(task.status.as_str());
                s.append("); nothing to cancel");
                app.message = s;
            }
        },
        _ => {
            app.message = copy_text("x only acts on task rows (cancel needs a unique task id)");
        },
    }
}

/// Shows the page of the selected worker, or of the selected task's.
fn info_key(app: &mut App, model: &Model) -> (r: Effect)
    requires
        model.wf(),
    ensures
        final(app)@ == info_step(old(app)@, *model).0,
        r@ == info_step(old(app)@, *model).1,
{
    match app.selection(model) {
        Sel::Worker(w) => Effect::Info { worker: copy_text(w.name.as_str()) },
        Sel::Task { worker: Some(w), .. } => Effect::Info { worker: copy_text(w.name.as_str()) },
        Sel::Task { task, worker: None } => {
            let mut s = copy_text("'");
            s.append(task.to.as_str());
            s.append("' is gone from the registry; no info to show");
            app.message = s;
            Effect::Nothing
        },
        Sel::Nothing => {
            app.message = copy_text("i only acts on worker / task rows");
            Effect::Nothing
        },
    }
}

/// Whose output a preview would be of: the selected worker's, if it has a pane.
pub fn peek_target(app: &App, model: &Model) -> (r: Option<PeekTarget>)
    requires
        model.wf(),
    ensures
        opt_view(r) == peek_of(app@, *model),
{
    match app.selection(model) {
        Sel::Worker(w) => {
            if w.pane.as_str().is_empty() {
                None
            } else {
                Some(
                    PeekTarget {
                        pane: copy_text(w.pane.as_str()),
                        name: copy_text(w.name.as_str()),
                        key: RowKey::Worker {
                            name: copy_text(w.name.as_str()),
                            spawn_tag: copy_text(w.spawn_tag.as_str()),
                        },
                    },
                )
            }
        },
        _ => None,
    }
}

/// Asks for a preview of the selected worker's output.
fn peek_key(app: &mut App, model: &Model) -> (r: Effect)
    requires
        model.wf(),
    ensures
        final(app)@ == peek_step(old(app)@, *model).0,
        r@ == peek_step(old(app)@, *model).1,
{
    match peek_target(app, model) {
        Some(target) => {
            if let Some(t) = &app.peek_inflight {
                let mut s = copy_text("preview of '");
                s.append(t.name.as_str());
                s.append("' is already in progress");
                app.message = s;
                Effect::Nothing
            } else {
                Effect::Peek { target }
            }
        },
        None => {
            app.message = copy_text("L only acts on worker rows with a pane");
            Effect::Nothing
        },
    }
}

/// Starts an eviction. Only a worker can be evicted, and none twice at a time.
fn evict_key(app: &mut App, model: &Model) -> (r: Effect)
    requires
        model.wf(),
    ensures
        final(app)@ == evict_step(old(app)@, *model).0,
        r@ == evict_step(old(app)@, *model).1,
{
    match app.selection(model) {
        Sel::Worker(w) => {
            if app.evict_inflight.contains(w.name.as_str()) {
                let mut s = copy_text("evict of '");
                s.append(w.name.as_str());
                s.append("' is already in progress");
                app.message = s;
                Effect::Nothing
            } else {
                Effect::EvictPrompt { worker: copy_text(w.name.as_str()) }
            }
        },
        _ => {
            app.message = copy_text(
                "e only acts on worker rows (evict targets a worker, not a task)",
            );
            Effect::Nothing
        },
    }
}

/// Copies the evidence of what is selected.
fn copy_key(app: &mut App, model: &Model) -> (r: Effect)
    requires
        model.wf(),
    ensures
        final(app)@ == copy_step(old(app)@, *model).0,
        r@ == copy_step(old(app)@, *model).1,
{
    let payload = copy_payload(&app.selection(model));
    if payload.as_str().is_empty() {
        app.message = copy_text("c only acts on worker / task rows (nothing is selected)");
        Effect::Nothing
    } else {
        Effect::Copy { payload }
    }
}

/// A preview that has arrived. It is shown only if what it was asked for is still what is
/// selected: the output of one generation must not appear under another.
pub open spec fn peeked(
    a: AppView,
    m: Model,
    target: PeekTargetView,
    res: Option<TailCapture>,
) -> AppView {
    let b = AppView { peek_inflight: None, ..a };
    if peek_of(a, m) != Some(target) {
        says(b, "preview of '"@ + target.name + "' discarded (the selection has changed)"@)
    } else {
        match res {
            Some(cap) => AppView { peek: Some(action::preview_of(target, cap)), ..b },
            None => says(
                b,
                "preview of '"@ + target.name + "' failed (pane "@ + target.pane
                    + " is gone, or the capture timed out)"@,
            ),
        }
    }
}

/// Whether two targets are the same.
fn same_target(a: &PeekTarget, b: &PeekTarget) -> (r: bool)
    ensures
        r == (a@ == b@),
{
    same(a.pane.as_str(), b.pane.as_str()) && same(a.name.as_str(), b.name.as_str()) && key_eq(
        &a.key,
        &b.key,
    )
}

/// Takes up a preview that has arrived.
pub fn peek_apply(app: &mut App, model: &Model, target: &PeekTarget, res: Option<TailCapture>)
    requires
        model.wf(),
    ensures
        final(app)@ == peeked(old(app)@, *model, target@, res),
{
    let still = match peek_target(app, model) {
        Some(t) => same_target(&t, target),
        None => false,
    };
    app.peek_inflight = None;
    if !still {
        let mut s = copy_text("preview of '");
        s.append(target.name.as_str());
        s.append("' discarded (the selection has changed)");
        app.message = s;
        return;
    }
    match res {
        Some(cap) => {
            app.peek = Some(peek_page(target, &cap));
        },
        None => {
            let mut s = copy_text("preview of '");
            s.append(target.name.as_str());
            s.append("' failed (pane ");
            s.append(target.pane.as_str());
            s.append(" is gone, or the capture timed out)");
            app.message = s;
        },
    }
}

} // verus!

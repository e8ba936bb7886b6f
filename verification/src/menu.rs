//! What the keys of the node menu do and how it is drawn.

use crate::dto::NodeDtoView;
use crate::probe::NodeProbeOutcome;
use crate::tui::{
    NodeRow, NodeRowView, ProbeState, ProbeStateView, TuiModel, TuiModelView,
};
use crate::queries;
use crate::text;
use crate::tui;
use vstd::prelude::*;

verus! {

/// A key of the menu.
#[derive(Debug, Clone, Copy, PartialEq, Eq, Structural)]
pub enum Key {
    Char(char),
    Enter,
    Esc,
    Backspace,
    Up,
    Down,
    Other,
}

/// A colour of the menu.
#[derive(Debug, Clone, Copy, PartialEq, Eq, Structural)]
pub enum Paint {
    Cyan,
    DarkGray,
    Gray,
    Blue,
    Green,
    Yellow,
    Red,
}

/// What the menu asks for.
#[derive(Debug)]
pub enum MenuAction {
    Nothing,
    Quit,
    CancelProbes,
    StartProbes,
    Select { id: String, name: String },
}

/// The mathematical value of a [`MenuAction`].
#[verifier::ext_equal]
pub enum MenuActionView {
    Nothing,
    Quit,
    CancelProbes,
    StartProbes,
    Select { id: Seq<char>, name: Seq<char> },
}

impl View for MenuAction {
    type V = MenuActionView;

    open spec fn view(&self) -> MenuActionView {
        match *self {
            MenuAction::Nothing => MenuActionView::Nothing,
            MenuAction::Quit => MenuActionView::Quit,
            MenuAction::CancelProbes => MenuActionView::CancelProbes,
            MenuAction::StartProbes => MenuActionView::StartProbes,
            MenuAction::Select { id, name } => MenuActionView::Select { id: id@, name: name@ },
        }
    }
}

/// A message in the status panel.
#[derive(Debug)]
pub struct Notice {
    pub paint: Paint,
    pub text: String,
}

/// The mathematical value of a [`Notice`].
#[verifier::ext_equal]
pub struct NoticeView {
    pub paint: Paint,
    pub text: Seq<char>,
}

impl View for Notice {
    type V = NoticeView;

    open spec fn view(&self) -> NoticeView {
        NoticeView {
            paint: self.paint,
            text: self.text@,
        }
    }
}

pub open spec fn opt_notice(o: Option<Notice>) -> Option<NoticeView> {
    match o {
        Some(x) => Some(x@),
        None => None,
    }
}

/// The menu while it is open.
#[derive(Debug)]
pub struct Menu {
    pub model: TuiModel,
    pub filter_mode: bool,
    pub notice: Option<Notice>,
    pub active_node: Option<String>,
    pub probing: bool,
}

/// The mathematical value of a [`Menu`].
#[verifier::ext_equal]
pub struct MenuView {
    pub model: TuiModelView,
    pub filter_mode: bool,
    pub notice: Option<NoticeView>,
    pub active_node: Option<Seq<char>>,
    pub probing: bool,
}

impl View for Menu {
    type V = MenuView;

    open spec fn view(&self) -> MenuView {
        MenuView {
            model: self.model@,
            filter_mode: self.filter_mode,
            notice: opt_notice(self.notice),
            active_node: text::opt_text(self.active_node),
            probing: self.probing,
        }
    }
}

/// A change to every row.
#[derive(Debug, Clone, Copy, PartialEq, Eq, Structural)]
pub enum Mark {
    Run,
    Cancel,
    Fail,
}

/// What is known of a node after a change to every row.
pub open spec fn marked_state(mark: Mark, id: Seq<char>, s: ProbeStateView) -> ProbeStateView {
    match mark {
        Mark::Run => if id.len() > 0 {
            ProbeStateView::Running
        } else {
            s
        },
        Mark::Cancel => if s is Pending || s is Running {
            ProbeStateView::Cancelled
        } else {
            s
        },
        Mark::Fail => if s is Running {
            ProbeStateView::Failed("probe unavailable"@)
        } else {
            s
        },
    }
}

pub open spec fn marked_row(mark: Mark, r: NodeRowView) -> NodeRowView {
    NodeRowView { state: marked_state(mark, r.id, r.state), ..r }
}

/// Every row after a change.
pub open spec fn marked_rows(mark: Mark, v: Seq<NodeRowView>) -> Seq<NodeRowView> {
    v.map_values(|r: NodeRowView| marked_row(mark, r))
}

fn mark_state(mark: Mark, id: &str, s: &ProbeState) -> (r: ProbeState)
    ensures
        r@ == marked_state(mark, id@, s@),
{
    match mark {
        Mark::Run => if text::chars_of(id).len() > 0 {
            ProbeState::Running
        } else {
            s.clone()
        },
        Mark::Cancel => match s {
            ProbeState::Pending | ProbeState::Running => ProbeState::Cancelled,
            _ => s.clone(),
        },
        Mark::Fail => match s {
            ProbeState::Running => ProbeState::Failed(text::owned("probe unavailable")),
            _ => s.clone(),
        },
    }
}

fn mark_rows(mark: Mark, v: &mut Vec<NodeRow>)
    ensures
        tui::node_row_views(final(v)@) == marked_rows(mark, tui::node_row_views(old(v)@)),
{
    let ghost before = tui::node_row_views(v@);
    let mut i: usize = 0;
    while i < v.len()
        invariant
            i <= v@.len(),
            before.len() == v@.len(),
            tui::node_row_views(v@) == marked_rows(mark, before.take(i as int)) + before.skip(i as int),
        decreases v@.len() - i,
    {
        let mut row = v[i].clone();
        row.state = mark_state(mark, v[i].id.as_str(), &v[i].state);
        proof {
            assert(tui::node_row_views(v@)[i as int] == before[i as int]);
            tui::lemma_row_set(v@, i as int, row);
            assert(tui::node_row_views(v@).update(i as int, row@) =~= marked_rows(
                mark,
                before.take(i + 1),
            ) + before.skip(i + 1));
        }
        v.set(i, row);
        i += 1;
    }
    assert(marked_rows(mark, before.take(before.len() as int)) + before.skip(before.len() as int)
        =~= marked_rows(mark, before));
}

/// The row that stands for an empty list.
pub open spec fn placeholder() -> NodeRowView {
    NodeRowView {
        id: Seq::empty(),
        subscription: "-"@,
        protocol: "-"@,
        name: "No nodes loaded"@,
        unsupported: false,
        state: ProbeStateView::Pending,
    }
}

/// The menu as it opens.
pub open spec fn opened(
    rows: Seq<NodeRowView>,
    active_node: Option<Seq<char>>,
    probe_on_open: bool,
) -> MenuView {
    let nodes = if rows.len() == 0 {
        seq![placeholder()]
    } else {
        rows
    };
    MenuView {
        model: TuiModelView {
            nodes: if probe_on_open {
                marked_rows(Mark::Run, nodes)
            } else {
                nodes
            },
            selected: 0,
            filter: Seq::empty(),
        },
        filter_mode: false,
        notice: None,
        active_node,
        probing: false,
    }
}

pub open spec fn with_notice(m: MenuView, paint: Paint, text: Seq<char>) -> MenuView {
    MenuView { notice: Some(NoticeView { paint, text }), ..m }
}

/// The menu after a key while the filter is typed.
pub open spec fn after_filter_key(m: MenuView, key: Key) -> MenuView {
    match key {
        Key::Enter | Key::Esc => MenuView { filter_mode: false, ..m },
        Key::Backspace => MenuView {
            model: tui::first_selected(
                TuiModelView {
                    filter: if m.model.filter.len() > 0 {
                        m.model.filter.drop_last()
                    } else {
                        m.model.filter
                    },
                    ..m.model
                },
            ),
            ..m
        },
        Key::Char(c) => MenuView {
            model: tui::first_selected(TuiModelView { filter: m.model.filter.push(c), ..m.model }),
            ..m
        },
        _ => m,
    }
}

/// The menu after Enter: the selected node is asked for where that is possible.
pub open spec fn after_enter(m: MenuView) -> (MenuView, MenuActionView) {
    if m.model.selected >= m.model.nodes.len() {
        (m, MenuActionView::Nothing)
    } else {
        let row = m.model.nodes[m.model.selected as int];
        if row.id.len() == 0 {
            (
                with_notice(m, Paint::Yellow, "No node is available to select"@),
                MenuActionView::Nothing,
            )
        } else if row.unsupported {
            (
                with_notice(
                    m,
                    Paint::Yellow,
                    row.name + " is not supported by the current Xray adapter"@,
                ),
                MenuActionView::Nothing,
            )
        } else {
            (m, MenuActionView::Select { id: row.id, name: row.name })
        }
    }
}

/// The menu after a key, and what it asks for.
pub open spec fn after_key(m: MenuView, key: Key) -> (MenuView, MenuActionView) {
    if m.filter_mode {
        (after_filter_key(m, key), MenuActionView::Nothing)
    } else {
        match key {
            Key::Char('q') => (m, MenuActionView::Quit),
            Key::Esc => if m.probing {
                (
                    MenuView {
                        model: TuiModelView {
                            nodes: marked_rows(Mark::Cancel, m.model.nodes),
                            ..m.model
                        },
                        probing: false,
                        ..m
                    },
                    MenuActionView::CancelProbes,
                )
            } else {
                (m, MenuActionView::Nothing)
            },
            Key::Char('s') => (
                MenuView { model: tui::sorted_model(m.model), ..m },
                MenuActionView::Nothing,
            ),
            Key::Char('/') => (
                with_notice(
                    MenuView { filter_mode: true, ..m },
                    Paint::Blue,
                    "Filter mode: type text, Enter to finish"@,
                ),
                MenuActionView::Nothing,
            ),
            Key::Char('r') => (
                MenuView {
                    model: TuiModelView {
                        nodes: marked_rows(Mark::Run, m.model.nodes),
                        ..m.model
                    },
                    probing: false,
                    ..m
                },
                MenuActionView::StartProbes,
            ),
            Key::Enter => after_enter(m),
            Key::Down => (MenuView { model: tui::moved(m.model, 1), ..m }, MenuActionView::Nothing),
            Key::Up => (MenuView { model: tui::moved(m.model, -1), ..m }, MenuActionView::Nothing),
            _ => (m, MenuActionView::Nothing),
        }
    }
}

/// The menu after probes were started, or could not be.
pub open spec fn after_start(m: MenuView, on_open: bool, error: Option<Seq<char>>) -> MenuView {
    match error {
        None => {
            let started = MenuView { probing: true, ..m };
            if on_open {
                started
            } else {
                with_notice(started, Paint::Blue, "Probing nodes…"@)
            }
        },
        Some(e) => {
            let nodes = if on_open {
                m.model.nodes
            } else {
                marked_rows(Mark::Fail, m.model.nodes)
            };
            with_notice(
                MenuView { model: TuiModelView { nodes, ..m.model }, probing: false, ..m },
                Paint::Red,
                "Could not start probes: "@ + tui::compacted(e),
            )
        },
    }
}

/// The menu after a node was activated, or could not be.
pub open spec fn after_select(
    m: MenuView,
    id: Seq<char>,
    name: Seq<char>,
    error: Option<Seq<char>>,
) -> MenuView {
    match error {
        None => with_notice(
            MenuView { active_node: Some(id), ..m },
            Paint::Green,
            "Activated "@ + name + " successfully"@,
        ),
        Some(e) => with_notice(m, Paint::Red, "Activation failed: "@ + tui::compacted(e)),
    }
}

fn notice(paint: Paint, text: String) -> (r: Option<Notice>)
    ensures
        opt_notice(r) == Some(NoticeView { paint, text: text@ }),
{
    Some(Notice { paint, text })
}

impl Menu {
    /// Opens the menu; where `probe_on_open` holds, probes are to be started.
    pub fn open(rows: Vec<NodeRow>, active_node: Option<String>, probe_on_open: bool) -> (r: Menu)
        ensures
            r@ == opened(tui::node_row_views(rows@), text::opt_text(active_node), probe_on_open),
    {
        let mut nodes: Vec<NodeRow> = rows;
        if nodes.len() == 0 {
            nodes = vec![
                NodeRow {
                    id: String::new(),
                    subscription: text::owned("-"),
                    protocol: text::owned("-"),
                    name: text::owned("No nodes loaded"),
                    unsupported: false,
                    state: ProbeState::Pending,
                },
            ];
            assert(nodes@[0].id@ =~= Seq::empty());
            assert(tui::node_row_views(nodes@) =~= seq![placeholder()]);
        }
        if probe_on_open {
            mark_rows(Mark::Run, &mut nodes);
        }
        let filter = String::new();
        assert(filter@ =~= Seq::empty());
        Menu {
            model: TuiModel { nodes, selected: 0, filter },
            filter_mode: false,
            notice: None,
            active_node,
            probing: false,
        }
    }

    fn filter_key(&mut self, key: Key)
        ensures
            final(self)@ == after_filter_key(old(self)@, key),
    {
        match key {
            Key::Enter | Key::Esc => {
                self.filter_mode = false;
            },
            Key::Backspace => {
                let chars = text::chars_of(self.model.filter.as_str());
                if chars.len() > 0 {
                    let shorter = text::text_between(&chars, 0, chars.len() - 1);
                    assert(shorter@ =~= self.model.filter@.drop_last());
                    self.model.filter = shorter;
                }
                self.model.select_first();
            },
            Key::Char(c) => {
                self.model.filter.push(c);
                self.model.select_first();
            },
            _ => {},
        }
    }

    fn enter(&mut self) -> (r: MenuAction)
        ensures
            (final(self)@, r@) == after_enter(old(self)@),
    {
        if self.model.selected >= self.model.nodes.len() {
            return MenuAction::Nothing;
        }
        let row = &self.model.nodes[self.model.selected];
        assert(self@.model.nodes[self.model.selected as int] == row@);
        if text::chars_of(row.id.as_str()).len() == 0 {
            self.notice = notice(Paint::Yellow, text::owned("No node is available to select"));
            MenuAction::Nothing
        } else if row.unsupported {
            let text = text::concat(
                row.name.as_str(),
                " is not supported by the current Xray adapter",
            );
            self.notice = notice(Paint::Yellow, text);
            MenuAction::Nothing
        } else {
            MenuAction::Select { id: row.id.clone(), name: row.name.clone() }
        }
    }

    /// Handles a key and says what it asks for. A running probe is to be
    /// cancelled before another one is started.
    pub fn key(&mut self, key: Key) -> (r: MenuAction)
        ensures
            (final(self)@, r@) == after_key(old(self)@, key),
    {
        if self.filter_mode {
            self.filter_key(key);
            return MenuAction::Nothing;
        }
        match key {
            Key::Char('q') => MenuAction::Quit,
            Key::Esc => if self.probing {
                mark_rows(Mark::Cancel, &mut self.model.nodes);
                self.probing = false;
                MenuAction::CancelProbes
            } else {
                MenuAction::Nothing
            },
            Key::Char('s') => {
                self.model.sort_by_latency();
                MenuAction::Nothing
            },
            Key::Char('/') => {
                self.filter_mode = true;
                self.notice = notice(
                    Paint::Blue,
                    text::owned("Filter mode: type text, Enter to finish"),
                );
                MenuAction::Nothing
            },
            Key::Char('r') => {
                mark_rows(Mark::Run, &mut self.model.nodes);
                self.probing = false;
                MenuAction::StartProbes
            },
            Key::Enter => self.enter(),
            Key::Down => {
                self.model.move_selection(1);
                MenuAction::Nothing
            },
            Key::Up => {
                self.model.move_selection(-1);
                MenuAction::Nothing
            },
            _ => MenuAction::Nothing,
        }
    }

    /// Notes that probes were started, or why they could not be.
    pub fn probes_started(&mut self, on_open: bool, error: Option<String>)
        ensures
            final(self)@ == after_start(old(self)@, on_open, text::opt_text(error)),
    {
        match error {
            None => {
                self.probing = true;
                if !on_open {
                    self.notice = notice(Paint::Blue, text::owned("Probing nodes…"));
                }
            },
            Some(e) => {
                self.probing = false;
                if !on_open {
                    mark_rows(Mark::Fail, &mut self.model.nodes);
                }
                self.notice = notice(
                    Paint::Red,
                    text::concat("Could not start probes: ", tui::compact_error(e.as_str()).as_str()),
                );
            },
        }
    }

    /// Notes that all probes have ended.
    pub fn probes_ended(&mut self)
        ensures
            final(self)@ == (MenuView { probing: false, ..old(self)@ }),
    {
        self.probing = false;
    }

    /// Notes the outcome of a probe.
    pub fn outcome(&mut self, outcome: NodeProbeOutcome)
        ensures
            final(self)@ == (MenuView {
                model: tui::applied(old(self)@.model, tui::outcome_event(outcome@)),
                ..old(self)@
            }),
    {
        tui::apply_probe_result(&mut self.model, outcome);
    }

    /// Notes that a node was activated, or why it could not be.
    pub fn node_selected(&mut self, id: String, name: &str, error: Option<String>)
        ensures
            final(self)@ == after_select(old(self)@, id@, name@, text::opt_text(error)),
    {
        match error {
            None => {
                self.active_node = Some(id);
                self.notice = notice(Paint::Green, text::concat3("Activated ", name, " successfully"));
            },
            Some(e) => {
                self.notice = notice(
                    Paint::Red,
                    text::concat("Activation failed: ", tui::compact_error(e.as_str()).as_str()),
                );
            },
        }
    }
}

/// Only `q` closes the menu, and not while a filter is typed.
pub proof fn law_only_q_quits(m: MenuView, key: Key)
    ensures
        after_key(m, key).1 is Quit <==> !m.filter_mode && key == Key::Char('q'),
{
}

/// Typing a filter asks for nothing and leaves every row as and where it is.
pub proof fn law_typing_a_filter_keeps_rows(m: MenuView, key: Key)
    requires
        m.filter_mode,
    ensures
        after_key(m, key).0.model.nodes == m.model.nodes,
        after_key(m, key).1 is Nothing,
{
}

/// Only sorting, by `s`, reorders the rows.
pub proof fn law_only_s_reorders(m: MenuView, key: Key)
    requires
        m.filter_mode || key != Key::Char('s'),
    ensures
        tui::row_ids(after_key(m, key).0.model.nodes) =~= tui::row_ids(m.model.nodes),
{
}

/// A failed activation is shown, and changes nothing else.
pub proof fn law_failed_activation_is_shown(
    m: MenuView,
    id: Seq<char>,
    name: Seq<char>,
    error: Seq<char>,
)
    ensures
        after_select(m, id, name, Some(error)) == (MenuView {
            notice: Some(
                NoticeView {
                    paint: Paint::Red,
                    text: "Activation failed: "@ + tui::compacted(error),
                },
            ),
            ..m
        }),
{
}

/// A probe that cannot be started is shown, and leaves no row waiting for it.
pub proof fn law_failed_start_is_shown(m: MenuView, error: Seq<char>)
    ensures
        after_start(m, false, Some(error)).notice == Some(
            NoticeView {
                paint: Paint::Red,
                text: "Could not start probes: "@ + tui::compacted(error),
            },
        ),
        forall|i: int|
            0 <= i < m.model.nodes.len() ==> !((#[trigger] after_start(
                m,
                false,
                Some(error),
            ).model.nodes[i]).state is Running),
        !after_start(m, false, Some(error)).probing,
{
}

/// Enter asks only for a node that can be activated.
pub proof fn law_only_supported_nodes_are_selected(m: MenuView)
    ensures
        after_enter(m).1 matches MenuActionView::Select { id, name } ==> m.model.selected
            < m.model.nodes.len() && id.len() > 0 && m.model.nodes[m.model.selected as int].id == id
            && !m.model.nodes[m.model.selected as int].unsupported,
{
}

/// Whether a row is that of the active node: one ID begins with the other.
pub open spec fn is_active_row(active: Option<Seq<char>>, id: Seq<char>) -> bool {
    match active {
        Some(a) => text::has_prefix(a, id) || text::has_prefix(id, a),
        None => false,
    }
}

/// The colour of a row.
pub open spec fn row_paint_of(
    r: NodeRowView,
    active: Option<Seq<char>>,
    green_ms: u64,
    yellow_ms: u64,
) -> Paint {
    if is_active_row(active, r.id) {
        Paint::Cyan
    } else if r.unsupported {
        Paint::DarkGray
    } else {
        match r.state {
            ProbeStateView::Pending => Paint::Gray,
            ProbeStateView::Running => Paint::Blue,
            ProbeStateView::Succeeded(ms) => if ms <= green_ms {
                Paint::Green
            } else if ms <= yellow_ms {
                Paint::Yellow
            } else {
                Paint::Red
            },
            ProbeStateView::Failed(_) => Paint::Red,
            ProbeStateView::Cancelled => Paint::DarkGray,
        }
    }
}

/// Chooses the colour of a row.
pub fn row_paint(row: &NodeRow, active: &Option<String>, green_ms: u64, yellow_ms: u64) -> (r:
    Paint)
    ensures
        r == row_paint_of(row@, text::opt_text(*active), green_ms, yellow_ms),
{
    let is_active = match active {
        Some(a) => text::starts_with(a.as_str(), row.id.as_str()) || text::starts_with(
            row.id.as_str(),
            a.as_str(),
        ),
        None => false,
    };
    if is_active {
        return Paint::Cyan;
    }
    if row.unsupported {
        return Paint::DarkGray;
    }
    match &row.state {
        ProbeState::Pending => Paint::Gray,
        ProbeState::Running => Paint::Blue,
        ProbeState::Succeeded(ms) => if *ms <= green_ms {
            Paint::Green
        } else if *ms <= yellow_ms {
            Paint::Yellow
        } else {
            Paint::Red
        },
        ProbeState::Failed(_) => Paint::Red,
        ProbeState::Cancelled => Paint::DarkGray,
    }
}

/// The text of a row.
pub fn row_text(row: &NodeRow) -> (r: String)
    ensures
        r@ == row@.subscription + "  "@ + row@.protocol + "  "@ + row@.name + "  "@ + tui::label_of(
            row@.state,
        ),
{
    let mut r = row.subscription.clone();
    r.append("  ");
    r.append(row.protocol.as_str());
    r.append("  ");
    r.append(row.name.as_str());
    r.append("  ");
    r.append(tui::probe_label(&row.state).as_str());
    r
}

/// The title of the list.
pub fn list_title(filter: &str) -> (r: String)
    ensures
        r@ == if filter@.len() == 0 {
            "Nodes"@
        } else {
            "Nodes — filter: "@ + filter@
        },
{
    if text::chars_of(filter).len() == 0 {
        text::owned("Nodes")
    } else {
        text::concat("Nodes — filter: ", filter)
    }
}

/// The line that names the active node.
pub fn active_line(active: &Option<String>) -> (r: String)
    ensures
        r@ == "Active node: "@ + text::text_or(text::opt_text(*active), "none"@),
{
    text::concat("Active node: ", text::unwrap_text(text::copy_opt(active), "none").as_str())
}

/// Where the menu says that the log of the manager is.
pub fn manager_log_hint(linux: bool) -> (r: &'static str)
    ensures
        r@ == if linux {
            "/var/log/xray-manager/xrayctl.log"@
        } else {
            ".xray-manager/logs/xrayctl.log"@
        },
{
    if linux {
        "/var/log/xray-manager/xrayctl.log"
    } else {
        ".xray-manager/logs/xrayctl.log"
    }
}

/// The row of a node that is shown.
pub open spec fn dto_row(x: NodeDtoView) -> NodeRowView {
    NodeRowView {
        id: x.id,
        subscription: x.subscription,
        protocol: queries::protocol_key(x.protocol),
        name: x.name,
        unsupported: x.support == "unsupported"@,
        state: ProbeStateView::Pending,
    }
}

proof fn lemma_dto_row(x: NodeDtoView)
    ensures
        tui::row_of(queries::node_json_view(x)) == Some(dto_row(x)),
{
    reveal_strlit("id");
    reveal_strlit("subscription");
    reveal_strlit("name");
    reveal_strlit("protocol");
    reveal_strlit("endpoint");
    reveal_strlit("support");
    reveal_strlit("warnings");
    assert("id"@.len() == 2 && "subscription"@.len() == 12 && "name"@.len() == 4);
    assert("support"@.len() == 7 && "protocol"@.len() == 8 && "endpoint"@.len() == 8
        && "warnings"@.len() == 8);
    assert("protocol"@[0] == 'p' && "endpoint"@[0] == 'e' && "warnings"@[0] == 'w');
}

proof fn lemma_dto_rows(v: Seq<NodeDtoView>)
    ensures
        tui::rows_in(v.map_values(|x: NodeDtoView| queries::node_json_view(x))) =~= v.map_values(
            |x: NodeDtoView| dto_row(x),
        ),
    decreases v.len(),
{
    let f = |x: NodeDtoView| queries::node_json_view(x);
    let g = |x: NodeDtoView| dto_row(x);
    if v.len() > 0 {
        let rest = v.drop_last();
        lemma_dto_rows(rest);
        lemma_dto_row(v.last());
        assert(v.map_values(f).drop_last() =~= rest.map_values(f));
        assert(v.map_values(f).last() == queries::node_json_view(v.last()));
        assert(v.map_values(g) =~= rest.map_values(g).push(dto_row(v.last())));
    }
}

/// The menu has one row for every node that is shown, in the same order.
pub proof fn law_rows_follow_nodes(v: Seq<NodeDtoView>)
    ensures
        tui::rows_of(queries::nodes_json_view(v)) =~= v.map_values(|x: NodeDtoView| dto_row(x)),
{
    lemma_dto_rows(v);
}

} // verus!

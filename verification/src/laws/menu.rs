//! What the menu of nodes shows and does: its keys, its order, its filter and
//! what becomes of a probe.

use crate::json::JsonView;
use crate::laws::reading::{member, text};
use crate::menu::{
    active_line, after_key, after_select, after_start, list_title, manager_log_hint,
    opened, row_paint_of, row_text, Key, MenuActionView, MenuView, NoticeView, Paint,
};
use crate::outside;
use crate::probe::NodeProbeOutcomeView;
use crate::text::{decimal, head, joined, words};
use crate::tui;
use crate::tui::{
    applied, compacted, label_of, outcome_event, rows_of, sorted_rows,
    visible_of, NodeRow, NodeRowView, ProbeStateView, TuiModelView,
};
use vstd::prelude::*;

verus! {

/// One text holds another from some place on.
pub open spec fn holds(s: Seq<char>, part: Seq<char>) -> bool {
    exists|i: int|
        0 <= i && i + part.len() <= s.len() && #[trigger] s.subrange(i, i + part.len()) == part
}

proof fn lemma_holds(s: Seq<char>, part: Seq<char>)
    ensures
        holds(s, part) <==> crate::text::has_infix(s, part),
{
    if holds(s, part) {
        let i = choose|i: int|
            0 <= i && i + part.len() <= s.len() && #[trigger] s.subrange(i, i + part.len()) == part;
        assert(crate::text::occurs_at(s, part, i));
    }
    if crate::text::has_infix(s, part) {
        let i = choose|i: int| crate::text::occurs_at(s, part, i);
        assert(s.subrange(i, i + part.len()) == part);
    }
}

/// The outcome of a probe reaches the first row that bears the first twelve
/// bytes of the node's ID: a latency is shown as a success, a cancelled probe as
/// cancelled, any other outcome as a failure with its error. No other row
/// changes.
pub proof fn law_outcome_is_shown(m: TuiModelView, o: NodeProbeOutcomeView, i: int)
    requires
        0 <= i < m.nodes.len(),
        head(o.node_id, 12) == Some(m.nodes[i].id),
        forall|j: int| 0 <= j < i ==> (#[trigger] m.nodes[j]).id != m.nodes[i].id,
    ensures
        ({
            let after = applied(m, outcome_event(o));
            &&& after.nodes.len() == m.nodes.len()
            &&& after.selected == m.selected
            &&& after.filter == m.filter
            &&& forall|j: int|
                0 <= j < m.nodes.len() && j != i ==> #[trigger] after.nodes[j] == m.nodes[j]
            &&& after.nodes[i].id == m.nodes[i].id
            &&& after.nodes[i].name == m.nodes[i].name
            &&& after.nodes[i].subscription == m.nodes[i].subscription
            &&& after.nodes[i].protocol == m.nodes[i].protocol
            &&& after.nodes[i].unsupported == m.nodes[i].unsupported
            &&& o.result.latency_ms is Some ==> after.nodes[i].state == ProbeStateView::Succeeded(
                o.result.latency_ms->0,
            )
            &&& o.result.latency_ms is None && o.result.error == Some("cancelled"@)
                ==> after.nodes[i].state == ProbeStateView::Cancelled
            &&& o.result.latency_ms is None && o.result.error is None ==> after.nodes[i].state
                == ProbeStateView::Failed("probe failed"@)
            &&& o.result.latency_ms is None && o.result.error is Some && o.result.error->0
                != "cancelled"@ ==> after.nodes[i].state == ProbeStateView::Failed(
                o.result.error->0,
            )
        }),
{
    let ids = tui::row_ids(m.nodes);
    let id = m.nodes[i].id;
    assert(tui::short_id(o.node_id) == id);
    assert(ids[i] == id);
    assert(ids.contains(id));
    ids.index_of_first_ensures(id);
    let k = ids.index_of_first(id)->0;
    assert(ids[k] == m.nodes[k].id);
    assert(k == i) by {
        if k < i {
            assert(m.nodes[k].id != id);
        }
    }
}

/// An outcome for a node that no row bears changes nothing.
pub proof fn law_stray_outcome_changes_nothing(m: TuiModelView, o: NodeProbeOutcomeView)
    requires
        head(o.node_id, 12) is Some,
        forall|j: int|
            0 <= j < m.nodes.len() ==> (#[trigger] m.nodes[j]).id != head(o.node_id, 12)->0,
    ensures
        applied(m, outcome_event(o)) == m,
{
    let ids = tui::row_ids(m.nodes);
    if ids.contains(tui::short_id(o.node_id)) {
        let k = choose|k: int| 0 <= k < ids.len() && ids[k] == tui::short_id(o.node_id);
        assert(m.nodes[k].id == ids[k]);
    }
}

/// Ordering by latency, on the key `s`: a row that answered stands behind no row
/// that did not answer and behind none that took longer; rows are neither lost
/// nor made; rows with equal latencies keep their order, as do those without
/// one; and the node that was selected stays selected.
pub proof fn law_latency_order(m: MenuView, i: int, j: int, ms: u64)
    requires
        !m.filter_mode,
        m.model.nodes.len() <= usize::MAX,
    ensures
        ({
            let before = m.model.nodes;
            let after = after_key(m, Key::Char('s')).0.model.nodes;
            &&& after_key(m, Key::Char('s')).1 is Nothing
            &&& after.to_multiset() == before.to_multiset()
            &&& 0 <= i < j < after.len() ==> match (after[i].state, after[j].state) {
                (ProbeStateView::Succeeded(a), ProbeStateView::Succeeded(b)) => a <= b,
                (_, ProbeStateView::Succeeded(b)) => b == u64::MAX,
                _ => true,
            }
            &&& ms < u64::MAX ==> after.filter(
                |r: NodeRowView| r.state == ProbeStateView::Succeeded(ms),
            ) == before.filter(|r: NodeRowView| r.state == ProbeStateView::Succeeded(ms))
            &&& m.model.selected < before.len() ==> after_key(
                m,
                Key::Char('s'),
            ).0.model.selected < after.len() && after[after_key(
                m,
                Key::Char('s'),
            ).0.model.selected as int].id == before[m.model.selected as int].id
            &&& after_key(m, Key::Char('s')).0.model.filter == m.model.filter
        }),
{
    let before = m.model.nodes;
    let after = sorted_rows(before);
    tui::law_sorting_keeps_rows(before);
    tui::law_sorting_orders_rows(before);
    if m.model.selected < before.len() {
        tui::law_sorting_keeps_selection(m.model);
    }
    if 0 <= i < j < after.len() {
        assert(tui::latency(after[i].state) <= tui::latency(after[j].state));
    }
    if ms < u64::MAX {
        tui::law_sorting_is_stable(before, ms);
        let f = |r: NodeRowView| tui::latency(r.state) == ms;
        let g = |r: NodeRowView| r.state == ProbeStateView::Succeeded(ms);
        assert(f =~= g);
    }
}

/// A row is shown exactly where the filter is empty or its name, subscription or
/// protocol holds the filter, letters taken in lower case; shown rows keep the
/// order of the list.
pub proof fn law_filter(m: TuiModelView, k: int, i: int, j: int)
    requires
        0 <= k < m.nodes.len() <= usize::MAX,
    ensures
        ({
            let f = outside::unicode_lower(m.filter);
            visible_of(m).contains(k as usize) <==> (f.len() == 0 || holds(
                outside::unicode_lower(m.nodes[k].name),
                f,
            ) || holds(outside::unicode_lower(m.nodes[k].subscription), f) || holds(
                outside::unicode_lower(m.nodes[k].protocol),
                f,
            ))
        }),
        0 <= i < j < visible_of(m).len() ==> visible_of(m)[i] < visible_of(m)[j] < m.nodes.len(),
{
    let f = outside::unicode_lower(m.filter);
    let row = m.nodes[k];
    lemma_holds(outside::unicode_lower(row.name), f);
    lemma_holds(outside::unicode_lower(row.subscription), f);
    lemma_holds(outside::unicode_lower(row.protocol), f);
    tui::law_filter_keeps_order(m);
    if visible_of(m).contains(k as usize) {
        let p = choose|p: int| 0 <= p < visible_of(m).len() && visible_of(m)[p] == k as usize;
        assert(visible_of(m)[p] < m.nodes.len());
    }
}

/// The arrow keys go to the next and the previous of the rows that are shown,
/// and stay at the last and the first. From a row that is not shown they go as
/// from the first one that is.
pub proof fn law_arrows(m: MenuView, p: int)
    requires
        !m.filter_mode,
        m.model.nodes.len() <= usize::MAX,
        0 <= p < visible_of(m.model).len(),
        visible_of(m.model)[p] == m.model.selected || p == 0 && !visible_of(m.model).contains(
            m.model.selected,
        ),
    ensures
        ({
            let shown = visible_of(m.model);
            let down = after_key(m, Key::Down);
            let up = after_key(m, Key::Up);
            &&& down.1 is Nothing && up.1 is Nothing
            &&& p + 1 < shown.len() ==> down.0.model.selected == shown[p + 1]
            &&& p + 1 == shown.len() ==> down.0.model.selected == shown[p]
            &&& p > 0 ==> up.0.model.selected == shown[p - 1]
            &&& p == 0 ==> up.0.model.selected == shown[0]
            &&& down.0 == (MenuView {
                model: TuiModelView { selected: down.0.model.selected, ..m.model },
                ..m
            })
            &&& up.0 == (MenuView {
                model: TuiModelView { selected: up.0.model.selected, ..m.model },
                ..m
            })
        }),
{
    let shown = visible_of(m.model);
    tui::law_filter_keeps_order(m.model);
    if shown.contains(m.model.selected) {
        assert(shown[p] == m.model.selected);
        shown.index_of_first_ensures(m.model.selected);
        let q = shown.index_of_first(m.model.selected)->0;
        assert(q == p) by {
            if q < p {
                assert(shown[q] < shown[p]);
            }
            if p < q {
                assert(shown[p] < shown[q]);
            }
        }
    }
}

/// Outside the filter: `q` quits; `/` opens the filter; `r` shows every row that
/// stands for a node as running and asks for probes; `Esc` stops probes that
/// run, and rows that wait for an answer are cancelled; other keys do nothing.
pub proof fn law_keys(m: MenuView, i: int, c: char)
    requires
        !m.filter_mode,
        0 <= i < m.model.nodes.len(),
        c != 'q' && c != '/' && c != 'r' && c != 's',
    ensures
        after_key(m, Key::Char('q')) == (m, MenuActionView::Quit),
        after_key(m, Key::Char(c)) == (m, MenuActionView::Nothing),
        after_key(m, Key::Backspace) == (m, MenuActionView::Nothing),
        after_key(m, Key::Other) == (m, MenuActionView::Nothing),
        ({
            let (after, action) = after_key(m, Key::Char('/'));
            action is Nothing && after == (MenuView {
                filter_mode: true,
                notice: Some(
                    NoticeView {
                        paint: Paint::Blue,
                        text: "Filter mode: type text, Enter to finish"@,
                    },
                ),
                ..m
            })
        }),
        ({
            let (after, action) = after_key(m, Key::Char('r'));
            let rows = after.model.nodes;
            &&& action is StartProbes
            &&& !after.probing
            &&& rows.len() == m.model.nodes.len()
            &&& rows[i] == (NodeRowView { state: rows[i].state, ..m.model.nodes[i] })
            &&& m.model.nodes[i].id.len() > 0 ==> rows[i].state is Running
            &&& m.model.nodes[i].id.len() == 0 ==> rows[i].state == m.model.nodes[i].state
            &&& after.model.selected == m.model.selected
            &&& after.model.filter == m.model.filter
            &&& after.notice == m.notice
            &&& after.active_node == m.active_node
            &&& !after.filter_mode
        }),
        ({
            let (after, action) = after_key(m, Key::Esc);
            let rows = after.model.nodes;
            let old_state = m.model.nodes[i].state;
            &&& !m.probing ==> after == m && action is Nothing
            &&& m.probing ==> {
                &&& action is CancelProbes
                &&& !after.probing
                &&& rows.len() == m.model.nodes.len()
                &&& rows[i] == (NodeRowView { state: rows[i].state, ..m.model.nodes[i] })
                &&& old_state is Pending || old_state is Running ==> rows[i].state is Cancelled
                &&& !(old_state is Pending || old_state is Running) ==> rows[i].state == old_state
                &&& after.model.selected == m.model.selected
                &&& after.model.filter == m.model.filter
                &&& after.notice == m.notice
                &&& after.active_node == m.active_node
                &&& !after.filter_mode
            }
        }),
{
}

/// `Enter` selects the row under the cursor where it stands for a node that is
/// supported, and says why not elsewhere.
pub proof fn law_enter(m: MenuView)
    requires
        !m.filter_mode,
        m.model.selected < m.model.nodes.len(),
    ensures
        ({
            let row = m.model.nodes[m.model.selected as int];
            let (after, action) = after_key(m, Key::Enter);
            &&& row.id.len() > 0 && !row.unsupported ==> after == m && action
                == (MenuActionView::Select { id: row.id, name: row.name })
            &&& row.id.len() == 0 ==> action is Nothing && after == (MenuView {
                notice: Some(
                    NoticeView {
                        paint: Paint::Yellow,
                        text: "No node is available to select"@,
                    },
                ),
                ..m
            })
            &&& row.id.len() > 0 && row.unsupported ==> action is Nothing && after == (MenuView {
                notice: Some(
                    NoticeView {
                        paint: Paint::Yellow,
                        text: row.name + " is not supported by the current Xray adapter"@,
                    },
                ),
                ..m
            })
        }),
{
}

/// While the filter is open, a typed character is put at its end and the
/// backspace takes its last one away, the first row that is then shown being
/// selected; `Enter` and `Esc` close it; the arrows do nothing.
pub proof fn law_filter_keys(m: MenuView, c: char)
    requires
        m.filter_mode,
    ensures
        after_key(m, Key::Enter).0 == (MenuView { filter_mode: false, ..m }),
        after_key(m, Key::Esc).0 == (MenuView { filter_mode: false, ..m }),
        after_key(m, Key::Up).0 == m,
        after_key(m, Key::Down).0 == m,
        ({
            let after = after_key(m, Key::Char(c)).0;
            &&& after.model.filter == m.model.filter.push(c)
            &&& after.filter_mode
            &&& after.model.nodes == m.model.nodes
            &&& visible_of(after.model).len() > 0 ==> after.model.selected == visible_of(
                after.model,
            )[0]
            &&& visible_of(after.model).len() == 0 ==> after.model.selected == 0
            &&& after == (MenuView { model: after.model, ..m })
        }),
        ({
            let after = after_key(m, Key::Backspace).0;
            &&& m.model.filter.len() > 0 ==> after.model.filter == m.model.filter.take(
                m.model.filter.len() - 1,
            )
            &&& m.model.filter.len() == 0 ==> after.model.filter.len() == 0
            &&& after.filter_mode
            &&& after.model.nodes == m.model.nodes
            &&& visible_of(after.model).len() > 0 ==> after.model.selected == visible_of(
                after.model,
            )[0]
            &&& visible_of(after.model).len() == 0 ==> after.model.selected == 0
            &&& after == (MenuView { model: after.model, ..m })
        }),
{
    if m.model.filter.len() > 0 {
        assert(m.model.filter.drop_last() =~= m.model.filter.take(m.model.filter.len() - 1));
    }
}

/// A menu opens on its first row, without a filter, with every node running
/// where it is to probe on opening; with no nodes it holds one row that says so.
pub proof fn law_opened(
    rows: Seq<NodeRowView>,
    active: Option<Seq<char>>,
    probe_on_open: bool,
    i: int,
)
    ensures
        ({
            let m = opened(rows, active, probe_on_open);
            &&& m.model.selected == 0
            &&& m.model.filter.len() == 0
            &&& !m.filter_mode && !m.probing && m.notice is None && m.active_node == active
            &&& rows.len() > 0 ==> m.model.nodes.len() == rows.len()
            &&& 0 <= i < rows.len() ==> {
                &&& m.model.nodes[i] == (NodeRowView { state: m.model.nodes[i].state, ..rows[i] })
                &&& probe_on_open && rows[i].id.len() > 0 ==> m.model.nodes[i].state is Running
                &&& !probe_on_open ==> m.model.nodes[i].state == rows[i].state
            }
            &&& rows.len() == 0 ==> m.model.nodes.len() == 1 && m.model.nodes[0]
                == (NodeRowView {
                id: Seq::empty(),
                subscription: "-"@,
                protocol: "-"@,
                name: "No nodes loaded"@,
                unsupported: false,
                state: ProbeStateView::Pending,
            })
        }),
{
}

/// Probes that began are marked as under way, with a notice unless they began
/// with the menu. Where they could not be started the notice says so in red, and
/// the rows that were shown as running fail unless the menu was just opened.
pub proof fn law_probes_started(m: MenuView, on_open: bool, e: Seq<char>, i: int)
    requires
        0 <= i < m.model.nodes.len(),
    ensures
        after_start(m, on_open, None).probing,
        after_start(m, on_open, None).model == m.model,
        after_start(m, on_open, None).active_node == m.active_node,
        after_start(m, true, None).notice == m.notice,
        after_start(m, false, None).notice == Some(
            NoticeView { paint: Paint::Blue, text: "Probing nodes…"@ },
        ),
        !after_start(m, on_open, Some(e)).probing,
        after_start(m, on_open, Some(e)).notice == Some(
            NoticeView { paint: Paint::Red, text: "Could not start probes: "@ + compacted(e) },
        ),
        after_start(m, true, Some(e)).model == m.model,
        ({
            let old_row = m.model.nodes[i];
            let row = after_start(m, false, Some(e)).model.nodes[i];
            row == (NodeRowView {
                state: if old_row.state is Running {
                    ProbeStateView::Failed("probe unavailable"@)
                } else {
                    old_row.state
                },
                ..old_row
            })
        }),
{
}

/// A node that was selected becomes the active one and is named in green; a
/// failure leaves the active node and names the error in red.
pub proof fn law_selected(m: MenuView, id: Seq<char>, name: Seq<char>, e: Seq<char>)
    ensures
        after_select(m, id, name, None) == (MenuView {
            active_node: Some(id),
            notice: Some(
                NoticeView {
                    paint: Paint::Green,
                    text: "Activated "@ + name + " successfully"@,
                },
            ),
            ..m
        }),
        after_select(m, id, name, Some(e)).active_node == m.active_node,
        after_select(m, id, name, Some(e)).notice == Some(
            NoticeView { paint: Paint::Red, text: "Activation failed: "@ + compacted(e) },
        ),
{
}

/// What a row says of its probe.
pub proof fn law_labels(ms: u64, e: Seq<char>)
    ensures
        label_of(ProbeStateView::Pending) == "not probed"@,
        label_of(ProbeStateView::Running) == "probing…"@,
        label_of(ProbeStateView::Succeeded(ms)) == decimal(ms as nat) + " ms"@,
        label_of(ProbeStateView::Failed(e)) == "failed"@,
        label_of(ProbeStateView::Cancelled) == "cancelled"@,
{
}

/// An error is shown on one line of at most 160 characters: its words with one
/// space between them, cut and ended by an ellipsis where that is longer.
pub proof fn law_compact_error(s: Seq<char>)
    ensures
        ({
            let line = joined(words(s), seq![' ']);
            &&& line.len() <= 160 ==> compacted(s) == line
            &&& line.len() > 160 ==> compacted(s).len() == 160 && compacted(s).last() == '…'
                && compacted(s).take(159) == line.take(159)
        }),
{
    reveal_strlit(" ");
    assert(" "@ =~= seq![' ']);
    let line = joined(words(s), " "@);
    if line.len() > 160 {
        assert(compacted(s).take(159) =~= line.take(159));
    }
}

/// The colours of a row: cyan for the active node, whichever of the two IDs is
/// the shorter form of the other; dark gray where it is unsupported; otherwise by
/// its probe, a latency being green up to the first bound, yellow up to the
/// second and red beyond.
pub proof fn law_row_colours(r: NodeRowView, a: Seq<char>, green: u64, yellow: u64)
    ensures
        ({
            let n = if a.len() < r.id.len() {
                a.len()
            } else {
                r.id.len()
            };
            let paint = row_paint_of(r, Some(a), green, yellow);
            &&& a.take(n as int) == r.id.take(n as int) ==> paint == Paint::Cyan
            &&& a.take(n as int) != r.id.take(n as int) ==> paint == row_paint_of(
                r,
                None,
                green,
                yellow,
            )
        }),
        ({
            let paint = row_paint_of(r, None, green, yellow);
            &&& r.unsupported ==> paint == Paint::DarkGray
            &&& !r.unsupported ==> match r.state {
                ProbeStateView::Pending => paint == Paint::Gray,
                ProbeStateView::Running => paint == Paint::Blue,
                ProbeStateView::Succeeded(ms) => {
                    &&& ms <= green ==> paint == Paint::Green
                    &&& green < ms && ms <= yellow ==> paint == Paint::Yellow
                    &&& green < ms && yellow < ms ==> paint == Paint::Red
                },
                ProbeStateView::Failed(_) => paint == Paint::Red,
                ProbeStateView::Cancelled => paint == Paint::DarkGray,
            }
        }),
{
    if a.len() < r.id.len() {
        assert(a.take(a.len() as int) =~= a);
        assert(r.id.take(a.len() as int) =~= r.id.subrange(0, a.len() as int));
    } else {
        assert(r.id.take(r.id.len() as int) =~= r.id);
        assert(a.take(r.id.len() as int) =~= a.subrange(0, r.id.len() as int));
        if a.len() == r.id.len() {
            assert(a.subrange(0, a.len() as int) =~= a);
            assert(r.id.subrange(0, a.len() as int) =~= r.id);
        }
    }
}

/// A row shows the node's subscription, protocol, name and probe, in that order;
/// the heading shows the filter, and a line the active node.
pub proof fn law_shown_lines(
    row: NodeRow,
    line: String,
    filter: &str,
    title: String,
    active: Option<String>,
    shown: String,
)
    requires
        call_ensures(row_text, (&row,), line),
        call_ensures(list_title, (filter,), title),
        call_ensures(active_line, (&active,), shown),
    ensures
        line@ == row@.subscription + "  "@ + row@.protocol + "  "@ + row@.name + "  "@ + label_of(
            row@.state,
        ),
        filter@.len() == 0 ==> title@ == "Nodes"@,
        filter@.len() > 0 ==> title@ == "Nodes — filter: "@ + filter@,
        active is None ==> shown@ == "Active node: "@ + "none"@,
        active is Some ==> shown@ == "Active node: "@ + active->0@,
{
}

/// Where the menu says that the log lies.
pub proof fn law_log_hint(linux: &'static str, elsewhere: &'static str)
    requires
        call_ensures(manager_log_hint, (true,), linux),
        call_ensures(manager_log_hint, (false,), elsewhere),
    ensures
        linux@ == "/var/log/xray-manager/xrayctl.log"@,
        elsewhere@ == ".xray-manager/logs/xrayctl.log"@,
{
}

/// A row of the menu takes the node's ID, subscription, protocol and name, and
/// that it is unsupported, from the member of that name; it waits to be probed.
/// An item without one of the four gives no row.
pub proof fn law_row_of_item(v: JsonView)
    ensures
        ({
            let o = Some(v);
            let rows = rows_of(JsonView::Array(seq![v]));
            let whole = member(o, "id"@) matches Some(JsonView::Text(_)) && (member(
                o,
                "subscription"@,
            ) matches Some(JsonView::Text(_))) && (member(o, "protocol"@) matches Some(
                JsonView::Text(_),
            )) && (member(o, "name"@) matches Some(JsonView::Text(_)));
            &&& !whole ==> rows.len() == 0
            &&& whole ==> {
                &&& rows.len() == 1
                &&& member(o, "id"@) == text(rows[0].id)
                &&& member(o, "subscription"@) == text(rows[0].subscription)
                &&& member(o, "protocol"@) == text(rows[0].protocol)
                &&& member(o, "name"@) == text(rows[0].name)
                &&& rows[0].unsupported <==> member(o, "support"@) == text("unsupported"@)
                &&& rows[0].state is Pending
            }
        }),
{
    let one = seq![v];
    assert(one.drop_last() =~= Seq::<JsonView>::empty());
    assert(one.last() == v);
    reveal_with_fuel(tui::rows_in, 3);
    assert(tui::rows_in(one.drop_last()) =~= Seq::<NodeRowView>::empty());
}

} // verus!

//! The menu of nodes.

use crate::events::{ManagerEvent, ManagerEventView};
use crate::json::{Json, JsonView};
use crate::probe::{NodeProbeOutcome, NodeProbeOutcomeView};
use crate::domain;
use crate::console;
use crate::json;
use crate::outside;
use crate::text;
use vstd::prelude::*;

verus! {

broadcast use vstd::seq_lib::group_to_multiset_ensures;

/// What is known of the latency of a node.
#[derive(Debug, PartialEq)]
pub enum ProbeState {
    Pending,
    Running,
    Succeeded(u64),
    Failed(String),
    Cancelled,
}

/// The mathematical value of a [`ProbeState`].
#[verifier::ext_equal]
pub enum ProbeStateView {
    Pending,
    Running,
    Succeeded(u64),
    Failed(Seq<char>),
    Cancelled,
}

impl View for ProbeState {
    type V = ProbeStateView;

    open spec fn view(&self) -> ProbeStateView {
        match *self {
            ProbeState::Pending => ProbeStateView::Pending,
            ProbeState::Running => ProbeStateView::Running,
            ProbeState::Succeeded(a) => ProbeStateView::Succeeded(a),
            ProbeState::Failed(a) => ProbeStateView::Failed(a@),
            ProbeState::Cancelled => ProbeStateView::Cancelled,
        }
    }
}

impl Clone for ProbeState {
    fn clone(&self) -> (r: Self)
        ensures
            r@ == self@,
    {
        match self {
            ProbeState::Pending => ProbeState::Pending,
            ProbeState::Running => ProbeState::Running,
            ProbeState::Succeeded(a) => ProbeState::Succeeded(*a),
            ProbeState::Failed(a) => ProbeState::Failed(a.clone()),
            ProbeState::Cancelled => ProbeState::Cancelled,
        }
    }
}

/// A node in the menu.
#[derive(Debug)]
pub struct NodeRow {
    pub id: String,
    pub subscription: String,
    pub protocol: String,
    pub name: String,
    pub unsupported: bool,
    pub state: ProbeState,
}

/// The mathematical value of a [`NodeRow`].
#[verifier::ext_equal]
pub struct NodeRowView {
    pub id: Seq<char>,
    pub subscription: Seq<char>,
    pub protocol: Seq<char>,
    pub name: Seq<char>,
    pub unsupported: bool,
    pub state: ProbeStateView,
}

impl View for NodeRow {
    type V = NodeRowView;

    open spec fn view(&self) -> NodeRowView {
        NodeRowView {
            id: self.id@,
            subscription: self.subscription@,
            protocol: self.protocol@,
            name: self.name@,
            unsupported: self.unsupported,
            state: self.state@,
        }
    }
}

impl Clone for NodeRow {
    fn clone(&self) -> (r: Self)
        ensures
            r@ == self@,
    {
        NodeRow {
            id: self.id.clone(),
            subscription: self.subscription.clone(),
            protocol: self.protocol.clone(),
            name: self.name.clone(),
            unsupported: self.unsupported,
            state: self.state.clone(),
        }
    }
}

pub open spec fn node_row_views(v: Seq<NodeRow>) -> Seq<NodeRowView> {
    v.map_values(|x: NodeRow| x@)
}

pub broadcast proof fn lemma_node_row_views_push(v: Seq<NodeRow>, x: NodeRow)
    ensures
        #[trigger] node_row_views(v.push(x)) == node_row_views(v).push(x@),
{
    assert(node_row_views(v.push(x)) =~= node_row_views(v).push(x@));
}

pub proof fn lemma_row_set(v: Seq<NodeRow>, i: int, x: NodeRow)
    requires
        0 <= i < v.len(),
    ensures
        node_row_views(v.update(i, x)) == node_row_views(v).update(i, x@),
{
    assert(node_row_views(v.update(i, x)) =~= node_row_views(v).update(i, x@));
}

/// The rows of the menu, which one is selected, and the filter.
#[derive(Debug)]
pub struct TuiModel {
    pub nodes: Vec<NodeRow>,
    pub selected: usize,
    pub filter: String,
}

/// The mathematical value of a [`TuiModel`].
#[verifier::ext_equal]
pub struct TuiModelView {
    pub nodes: Seq<NodeRowView>,
    pub selected: usize,
    pub filter: Seq<char>,
}

impl View for TuiModel {
    type V = TuiModelView;

    open spec fn view(&self) -> TuiModelView {
        TuiModelView {
            nodes: node_row_views(self.nodes@),
            selected: self.selected,
            filter: self.filter@,
        }
    }
}

impl Default for TuiModel {
    /// A menu without rows.
    fn default() -> (r: TuiModel)
        ensures
            r@ == (TuiModelView { nodes: Seq::empty(), selected: 0, filter: Seq::empty() }),
    {
        let nodes: Vec<NodeRow> = Vec::new();
        assert(node_row_views(nodes@) =~= Seq::empty());
        let filter = String::new();
        assert(filter@ =~= Seq::empty());
        TuiModel { nodes, selected: 0, filter }
    }
}

/// The IDs of rows.
pub open spec fn row_ids(v: Seq<NodeRowView>) -> Seq<Seq<char>> {
    v.map_values(|r: NodeRowView| r.id)
}

fn find_row(nodes: &Vec<NodeRow>, id: &str) -> (r: Option<usize>)
    ensures
        match r {
            Some(i) => row_ids(node_row_views(nodes@)).contains(id@) && i < nodes@.len() && row_ids(
                node_row_views(nodes@),
            ).index_of_first(id@) == Some(i as int),
            None => !row_ids(node_row_views(nodes@)).contains(id@),
        },
{
    let ghost ids = row_ids(node_row_views(nodes@));
    let mut i: usize = 0;
    while i < nodes.len()
        invariant
            i <= nodes@.len(),
            ids == row_ids(node_row_views(nodes@)),
            forall|j: int| 0 <= j < i ==> ids[j] != id@,
        decreases nodes@.len() - i,
    {
        assert(ids[i as int] == nodes@[i as int].id@);
        if text::same(nodes[i].id.as_str(), id) {
            proof {
                ids.index_of_first_ensures(id@);
                let k = ids.index_of_first(id@)->0;
                if k < i {
                    assert(ids[k] == id@);
                }
            }
            return Some(i);
        }
        i += 1;
    }
    None
}

/// The node that an event is about and what is then known of it.
pub open spec fn event_state(e: ManagerEventView) -> Option<(Seq<char>, ProbeStateView)> {
    match e {
        ManagerEventView::NodeProbeStarted { node_id } => Some((node_id, ProbeStateView::Running)),
        ManagerEventView::NodeProbeSucceeded { node_id, latency_ms } => Some(
            (node_id, ProbeStateView::Succeeded(latency_ms)),
        ),
        ManagerEventView::NodeProbeFailed { node_id, error } => Some(
            (node_id, ProbeStateView::Failed(error)),
        ),
        ManagerEventView::NodeProbeCancelled { node_id } => Some(
            (node_id, ProbeStateView::Cancelled),
        ),
        _ => None,
    }
}

/// Rows after the first one of an ID has got a state.
pub open spec fn row_updated(v: Seq<NodeRowView>, id: Seq<char>, state: ProbeStateView) -> Seq<
    NodeRowView,
> {
    if row_ids(v).contains(id) {
        let i = row_ids(v).index_of_first(id)->0;
        v.update(i, NodeRowView { state, ..v[i] })
    } else {
        v
    }
}

/// The menu after an event.
pub open spec fn applied(m: TuiModelView, e: ManagerEventView) -> TuiModelView {
    match event_state(e) {
        Some((id, state)) => TuiModelView { nodes: row_updated(m.nodes, id, state), ..m },
        None => m,
    }
}

/// The place of a row in the order of latency: rows without one come last.
pub open spec fn latency(s: ProbeStateView) -> u64 {
    match s {
        ProbeStateView::Succeeded(ms) => ms,
        _ => u64::MAX,
    }
}

/// A row put into an ordered list, behind all that are not slower.
pub open spec fn placed_row(sorted: Seq<NodeRowView>, r: NodeRowView) -> Seq<NodeRowView>
    decreases sorted.len(),
{
    if sorted.len() > 0 && latency(r.state) < latency(sorted.last().state) {
        placed_row(sorted.drop_last(), r).push(sorted.last())
    } else {
        sorted.push(r)
    }
}

/// Rows in the order of latency.
pub open spec fn sorted_rows(v: Seq<NodeRowView>) -> Seq<NodeRowView>
    decreases v.len(),
{
    if v.len() == 0 {
        Seq::empty()
    } else {
        placed_row(sorted_rows(v.drop_last()), v.last())
    }
}

/// The menu after sorting: the selected node stays selected.
pub open spec fn sorted_model(m: TuiModelView) -> TuiModelView {
    let nodes = sorted_rows(m.nodes);
    TuiModelView {
        nodes,
        selected: if m.selected < m.nodes.len() {
            row_ids(nodes).index_of_first(m.nodes[m.selected as int].id)->0 as usize
        } else {
            m.selected
        },
        ..m
    }
}

fn latency_of(s: &ProbeState) -> (r: u64)
    ensures
        r == latency(s@),
{
    match s {
        ProbeState::Succeeded(ms) => *ms,
        _ => u64::MAX,
    }
}

fn place_row(sorted: &mut Vec<NodeRow>, row: NodeRow)
    ensures
        node_row_views(final(sorted)@) == placed_row(node_row_views(old(sorted)@), row@),
{
    let ghost views = node_row_views(sorted@);
    let ms = latency_of(&row.state);
    let mut i: usize = sorted.len();
    assert(views.take(i as int) =~= views);
    assert(placed_row(views, row@) =~= placed_row(views.take(i as int), row@) + views.skip(
        i as int,
    ));
    while i > 0 && ms < latency_of(&sorted[i - 1].state)
        invariant
            i <= sorted@.len(),
            views == node_row_views(sorted@),
            ms == latency(row@.state),
            placed_row(views, row@) == placed_row(views.take(i as int), row@) + views.skip(
                i as int,
            ),
        decreases i,
    {
        proof {
            let t = views.take(i as int);
            assert(t.last() == sorted@[i - 1]@);
            assert(t.drop_last() =~= views.take(i - 1));
            assert(placed_row(t.drop_last(), row@).push(t.last()) + views.skip(i as int)
                =~= placed_row(views.take(i - 1), row@) + views.skip(i - 1));
        }
        i -= 1;
    }
    proof {
        let t = views.take(i as int);
        if i > 0 {
            assert(t.last() == sorted@[i - 1]@);
        }
        assert(placed_row(t, row@) == t.push(row@));
    }
    sorted.insert(i, row);
    assert(node_row_views(sorted@) =~= views.take(i as int).push(row@) + views.skip(i as int));
}

fn sort_rows(nodes: &Vec<NodeRow>) -> (r: Vec<NodeRow>)
    ensures
        node_row_views(r@) == sorted_rows(node_row_views(nodes@)),
{
    let ghost all = node_row_views(nodes@);
    let mut r: Vec<NodeRow> = Vec::new();
    let mut i: usize = 0;
    assert(all.take(0).len() == 0);
    assert(node_row_views(r@) =~= sorted_rows(all.take(0)));
    while i < nodes.len()
        invariant
            i <= nodes@.len(),
            all == node_row_views(nodes@),
            node_row_views(r@) == sorted_rows(all.take(i as int)),
        decreases nodes@.len() - i,
    {
        proof {
            assert(all.take(i + 1).drop_last() =~= all.take(i as int));
            assert(all.take(i + 1).last() == nodes@[i as int]@);
        }
        place_row(&mut r, nodes[i].clone());
        i += 1;
    }
    assert(all.take(all.len() as int) =~= all);
    r
}

proof fn lemma_placed_multiset(sorted: Seq<NodeRowView>, r: NodeRowView)
    ensures
        placed_row(sorted, r).to_multiset() =~= sorted.push(r).to_multiset(),
        placed_row(sorted, r).len() == sorted.len() + 1,
    decreases sorted.len(),
{
    if sorted.len() > 0 && latency(r.state) < latency(sorted.last().state) {
        lemma_placed_multiset(sorted.drop_last(), r);
        assert(sorted =~= sorted.drop_last().push(sorted.last()));
    }
}

proof fn lemma_sorted_multiset(v: Seq<NodeRowView>)
    ensures
        sorted_rows(v).to_multiset() =~= v.to_multiset(),
        sorted_rows(v).len() == v.len(),
    decreases v.len(),
{
    if v.len() > 0 {
        lemma_sorted_multiset(v.drop_last());
        lemma_placed_multiset(sorted_rows(v.drop_last()), v.last());
        assert(v =~= v.drop_last().push(v.last()));
    }
}

proof fn lemma_sorted_keeps(v: Seq<NodeRowView>, r: NodeRowView)
    requires
        v.contains(r),
    ensures
        sorted_rows(v).contains(r),
        row_ids(sorted_rows(v)).contains(r.id),
{
    lemma_sorted_multiset(v);
    let s = sorted_rows(v);
    assert(v.to_multiset().count(r) > 0);
    assert(s.contains(r));
    let i = choose|i: int| 0 <= i < s.len() && s[i] == r;
    assert(row_ids(s)[i] == r.id);
}

/// Sorting keeps the rows: none is lost, added or changed.
pub proof fn law_sorting_keeps_rows(v: Seq<NodeRowView>)
    ensures
        sorted_rows(v).to_multiset() == v.to_multiset(),
{
    lemma_sorted_multiset(v);
}

pub open spec fn in_order(v: Seq<NodeRowView>) -> bool {
    forall|i: int, j: int|
        0 <= i <= j < v.len() ==> latency((#[trigger] v[i]).state) <= latency(
            (#[trigger] v[j]).state,
        )
}

proof fn lemma_placed_in_order(sorted: Seq<NodeRowView>, r: NodeRowView)
    requires
        in_order(sorted),
    ensures
        in_order(placed_row(sorted, r)),
        placed_row(sorted, r).len() == sorted.len() + 1,
        sorted.len() > 0 ==> latency(placed_row(sorted, r).last().state) == (if latency(r.state)
            < latency(sorted.last().state) {
            latency(sorted.last().state)
        } else {
            latency(r.state)
        }),
        sorted.len() == 0 ==> placed_row(sorted, r) == seq![r],
    decreases sorted.len(),
{
    let p = placed_row(sorted, r);
    if sorted.len() > 0 && latency(r.state) < latency(sorted.last().state) {
        let rest = sorted.drop_last();
        assert(in_order(rest)) by {
            assert forall|i: int, j: int| 0 <= i <= j < rest.len() implies latency(
                (#[trigger] rest[i]).state,
            ) <= latency((#[trigger] rest[j]).state) by {
                assert(rest[i] == sorted[i] && rest[j] == sorted[j]);
            }
        }
        lemma_placed_in_order(rest, r);
        let q = placed_row(rest, r);
        if rest.len() > 0 {
            assert(rest.last() == sorted[sorted.len() - 2]);
        } else {
            assert(q.last() == r);
        }
        assert forall|i: int, j: int| 0 <= i <= j < p.len() implies latency(
            (#[trigger] p[i]).state,
        ) <= latency((#[trigger] p[j]).state) by {
            if j < q.len() {
                assert(p[i] == q[i] && p[j] == q[j]);
            } else if i < q.len() {
                assert(p[i] == q[i] && q.last() == q[q.len() - 1]);
            }
        }
    } else {
        assert forall|i: int, j: int| 0 <= i <= j < p.len() implies latency(
            (#[trigger] p[i]).state,
        ) <= latency((#[trigger] p[j]).state) by {
            if j < sorted.len() {
                assert(p[i] == sorted[i] && p[j] == sorted[j]);
            } else if i < sorted.len() {
                assert(p[i] == sorted[i] && sorted.last() == sorted[sorted.len() - 1]);
            }
        }
        if sorted.len() == 0 {
            assert(p =~= seq![r]);
        }
    }
}

/// After sorting no row is behind a slower one.
pub proof fn law_sorting_orders_rows(v: Seq<NodeRowView>)
    ensures
        in_order(sorted_rows(v)),
    decreases v.len(),
{
    if v.len() > 0 {
        law_sorting_orders_rows(v.drop_last());
        lemma_placed_in_order(sorted_rows(v.drop_last()), v.last());
    }
}

/// The rows of one latency.
pub open spec fn rows_of_latency(v: Seq<NodeRowView>, ms: u64) -> Seq<NodeRowView> {
    v.filter(|r: NodeRowView| latency(r.state) == ms)
}

proof fn lemma_placed_is_stable(sorted: Seq<NodeRowView>, r: NodeRowView, ms: u64)
    ensures
        rows_of_latency(placed_row(sorted, r), ms) == rows_of_latency(sorted.push(r), ms),
    decreases sorted.len(),
{
    broadcast use vstd::seq_lib::group_filter_ensures;

    let f = |x: NodeRowView| latency(x.state) == ms;
    reveal_with_fuel(Seq::filter, 3);
    if sorted.len() > 0 && latency(r.state) < latency(sorted.last().state) {
        let rest = sorted.drop_last();
        let q = placed_row(rest, r);
        lemma_placed_is_stable(rest, r, ms);
        assert(q.push(sorted.last()).drop_last() =~= q);
        assert(rest.push(r).drop_last() =~= rest);
        assert(sorted.push(r).drop_last() =~= sorted);
        assert(q.push(sorted.last()).filter(f) == if f(sorted.last()) {
            q.filter(f).push(sorted.last())
        } else {
            q.filter(f)
        });
        assert(sorted.filter(f) == if f(sorted.last()) {
            rest.filter(f).push(sorted.last())
        } else {
            rest.filter(f)
        });
    }
}

/// Rows of equal latency keep their order when they are sorted.
pub proof fn law_sorting_is_stable(v: Seq<NodeRowView>, ms: u64)
    ensures
        rows_of_latency(sorted_rows(v), ms) == rows_of_latency(v, ms),
    decreases v.len(),
{
    reveal(Seq::filter);
    if v.len() > 0 {
        let s = sorted_rows(v.drop_last());
        law_sorting_is_stable(v.drop_last(), ms);
        lemma_placed_is_stable(s, v.last(), ms);
        assert(s.push(v.last()).drop_last() =~= s);
    }
}

/// Sorting leaves the same node selected.
pub proof fn law_sorting_keeps_selection(m: TuiModelView)
    requires
        m.selected < m.nodes.len() <= usize::MAX,
    ensures
        sorted_model(m).selected < sorted_model(m).nodes.len(),
        sorted_model(m).nodes[sorted_model(m).selected as int].id == m.nodes[m.selected as int].id,
{
    let id = m.nodes[m.selected as int].id;
    let s = sorted_rows(m.nodes);
    lemma_sorted_keeps(m.nodes, m.nodes[m.selected as int]);
    lemma_sorted_multiset(m.nodes);
    row_ids(s).index_of_first_ensures(id);
    let k = row_ids(s).index_of_first(id)->0;
    assert(row_ids(s)[k] == id && s[k].id == id);
}

/// Whether a row is shown under a filter, all in lower case.
pub open spec fn shows(
    filter: Seq<char>,
    name: Seq<char>,
    subscription: Seq<char>,
    protocol: Seq<char>,
) -> bool {
    filter.len() == 0 || text::has_infix(name, filter) || text::has_infix(subscription, filter) || text::has_infix(
        protocol,
        filter,
    )
}

/// Decides whether a row is shown under a filter, all in lower case.
pub fn is_shown(filter: &str, name: &str, subscription: &str, protocol: &str) -> (r: bool)
    ensures
        r == shows(filter@, name@, subscription@, protocol@),
{
    text::chars_of(filter).len() == 0 || text::contains(name, filter) || text::contains(subscription, filter)
        || text::contains(protocol, filter)
}

/// Whether a row is shown under a filter, whatever the case of letters.
pub open spec fn row_shown(filter: Seq<char>, r: NodeRowView) -> bool {
    shows(
        outside::unicode_lower(filter),
        outside::unicode_lower(r.name),
        outside::unicode_lower(r.subscription),
        outside::unicode_lower(r.protocol),
    )
}

/// The places of the first `n` rows that are shown.
pub open spec fn shown_places(v: Seq<NodeRowView>, filter: Seq<char>, n: nat) -> Seq<usize>
    decreases n,
{
    if n == 0 {
        Seq::empty()
    } else {
        let rest = shown_places(v, filter, (n - 1) as nat);
        if row_shown(filter, v[n - 1]) {
            rest.push((n - 1) as usize)
        } else {
            rest
        }
    }
}

/// The places of the rows that are shown.
pub open spec fn visible_of(m: TuiModelView) -> Seq<usize> {
    shown_places(m.nodes, m.filter, m.nodes.len())
}

/// The place of the selected row among those that are shown, else the first.
pub open spec fn visible_position(m: TuiModelView) -> int {
    if visible_of(m).contains(m.selected) {
        visible_of(m).index_of_first(m.selected)->0
    } else {
        0
    }
}

/// A number moved into a range from 0 on.
pub open spec fn clamped(n: int, last: int) -> int {
    if n < 0 {
        0
    } else if n > last {
        last
    } else {
        n
    }
}

/// The menu after the selection has moved among the rows that are shown.
pub open spec fn moved(m: TuiModelView, direction: int) -> TuiModelView {
    let v = visible_of(m);
    if v.len() == 0 {
        m
    } else {
        TuiModelView { selected: v[clamped(visible_position(m) + direction, v.len() - 1)], ..m }
    }
}

/// The menu with the first row selected that is shown.
pub open spec fn first_selected(m: TuiModelView) -> TuiModelView {
    TuiModelView {
        selected: if visible_of(m).len() > 0 {
            visible_of(m)[0]
        } else {
            0
        },
        ..m
    }
}

impl TuiModel {
    /// Notes what an event says of a node.
    pub fn apply(&mut self, event: &ManagerEvent)
        ensures
            final(self)@ == applied(old(self)@, event@),
    {
        let (id, state) = match event {
            ManagerEvent::NodeProbeStarted { node_id } => (node_id, ProbeState::Running),
            ManagerEvent::NodeProbeSucceeded { node_id, latency_ms } => (
                node_id,
                ProbeState::Succeeded(*latency_ms),
            ),
            ManagerEvent::NodeProbeFailed { node_id, error } => (
                node_id,
                ProbeState::Failed(error.clone()),
            ),
            ManagerEvent::NodeProbeCancelled { node_id } => (node_id, ProbeState::Cancelled),
            _ => {
                return ;
            },
        };
        match find_row(&self.nodes, id.as_str()) {
            Some(i) => {
                let mut row = self.nodes[i].clone();
                row.state = state;
                proof {
                    lemma_row_set(self.nodes@, i as int, row);
                }
                self.nodes.set(i, row);
            },
            None => {},
        }
    }

    /// Sorts the rows by latency; the selected node stays selected.
    pub fn sort_by_latency(&mut self)
        ensures
            final(self)@ == sorted_model(old(self)@),
    {
        let ghost before = self@;
        let sorted = sort_rows(&self.nodes);
        if self.selected < self.nodes.len() {
            let id = self.nodes[self.selected].id.clone();
            proof {
                assert(before.nodes[self.selected as int].id == id@);
                lemma_sorted_keeps(before.nodes, before.nodes[self.selected as int]);
            }
            match find_row(&sorted, id.as_str()) {
                Some(i) => {
                    self.selected = i;
                },
                None => {
                    self.selected = 0;
                },
            }
        }
        self.nodes = sorted;
    }

    /// The places of the rows that are shown.
    pub fn visible_indices(&self) -> (r: Vec<usize>)
        ensures
            r@ == visible_of(self@),
    {
        let filter = outside::to_lowercase(self.filter.as_str());
        let mut r: Vec<usize> = Vec::new();
        let mut i: usize = 0;
        while i < self.nodes.len()
            invariant
                i <= self.nodes@.len(),
                filter@ == outside::unicode_lower(self@.filter),
                r@ == shown_places(self@.nodes, self@.filter, i as nat),
            decreases self.nodes@.len() - i,
        {
            let row = &self.nodes[i];
            assert(self@.nodes[i as int] == row@);
            let name = outside::to_lowercase(row.name.as_str());
            let subscription = outside::to_lowercase(row.subscription.as_str());
            let protocol = outside::to_lowercase(row.protocol.as_str());
            if is_shown(
                filter.as_str(),
                name.as_str(),
                subscription.as_str(),
                protocol.as_str(),
            ) {
                r.push(i);
            }
            i += 1;
        }
        r
    }

    /// The place of the selected row among those that are shown, else the first.
    pub fn visible_selection(&self) -> (r: usize)
        ensures
            r as int == visible_position(self@),
    {
        let visible = self.visible_indices();
        position_in(&visible, self.selected)
    }

    /// Moves the selection among the rows that are shown, and no further than
    /// the first and the last of them.
    pub fn move_selection(&mut self, direction: isize)
        ensures
            final(self)@ == moved(old(self)@, direction as int),
    {
        let visible = self.visible_indices();
        if visible.len() == 0 {
            return ;
        }
        let current = position_in(&visible, self.selected);
        let last: usize = visible.len() - 1;
        let next: usize = if direction < 0 {
            let up: usize = (-(direction + 1)) as usize + 1;
            if up >= current {
                0
            } else {
                current - up
            }
        } else {
            let down: usize = direction as usize;
            if down >= last - current {
                last
            } else {
                current + down
            }
        };
        self.selected = visible[next];
    }

    /// Selects the first row that is shown.
    pub fn select_first(&mut self)
        ensures
            final(self)@ == first_selected(old(self)@),
    {
        let visible = self.visible_indices();
        self.selected = if visible.len() > 0 {
            visible[0]
        } else {
            0
        };
    }
}

fn position_in(visible: &Vec<usize>, selected: usize) -> (r: usize)
    ensures
        r as int == if visible@.contains(selected) {
            visible@.index_of_first(selected)->0
        } else {
            0
        },
        visible@.len() > 0 ==> r < visible@.len(),
{
    let mut i: usize = 0;
    while i < visible.len()
        invariant
            i <= visible@.len(),
            forall|j: int| 0 <= j < i ==> visible@[j] != selected,
        decreases visible@.len() - i,
    {
        if visible[i] == selected {
            proof {
                visible@.index_of_first_ensures(selected);
                let k = visible@.index_of_first(selected)->0;
                if k < i {
                    assert(visible@[k] == selected);
                }
            }
            return i;
        }
        i += 1;
    }
    0
}

proof fn lemma_shown_places(v: Seq<NodeRowView>, filter: Seq<char>, n: nat)
    requires
        n <= v.len() <= usize::MAX,
    ensures
        forall|i: int|
            0 <= i < shown_places(v, filter, n).len() ==> (#[trigger] shown_places(v, filter, n)[i])
                < n && row_shown(filter, v[shown_places(v, filter, n)[i] as int]),
        forall|i: int, j: int|
            0 <= i < j < shown_places(v, filter, n).len() ==> (#[trigger] shown_places(
                v,
                filter,
                n,
            )[i]) < (#[trigger] shown_places(v, filter, n)[j]),
        forall|k: int|
            0 <= k < n && row_shown(filter, #[trigger] v[k]) ==> shown_places(
                v,
                filter,
                n,
            ).contains(k as usize),
    decreases n,
{
    if n > 0 {
        let m = (n - 1) as nat;
        lemma_shown_places(v, filter, m);
        let rest = shown_places(v, filter, m);
        let all = shown_places(v, filter, n);
        assert forall|k: int| 0 <= k < n && row_shown(filter, #[trigger] v[k]) implies all.contains(
            k as usize,
        ) by {
            if k < m {
                let i = choose|i: int| 0 <= i < rest.len() && rest[i] == k as usize;
                assert(all[i] == k as usize);
            } else {
                assert(all[all.len() - 1] == k as usize);
            }
        }
    }
}

/// Filtering shows exactly the rows that match, in the order that they have.
pub proof fn law_filter_keeps_order(m: TuiModelView)
    requires
        m.nodes.len() <= usize::MAX,
    ensures
        forall|i: int|
            0 <= i < visible_of(m).len() ==> (#[trigger] visible_of(m)[i]) < m.nodes.len()
                && row_shown(m.filter, m.nodes[visible_of(m)[i] as int]),
        forall|i: int, j: int|
            0 <= i < j < visible_of(m).len() ==> (#[trigger] visible_of(m)[i])
                < (#[trigger] visible_of(m)[j]),
        forall|k: int|
            0 <= k < m.nodes.len() && row_shown(m.filter, #[trigger] m.nodes[k]) ==> visible_of(
                m,
            ).contains(k as usize),
{
    lemma_shown_places(m.nodes, m.filter, m.nodes.len());
}

/// Moving the selection ends on a row that is shown, where there is one.
pub proof fn law_selection_is_shown(m: TuiModelView, direction: int)
    requires
        m.nodes.len() <= usize::MAX,
        visible_of(m).len() > 0,
    ensures
        moved(m, direction).selected < m.nodes.len(),
        row_shown(m.filter, m.nodes[moved(m, direction).selected as int]),
        moved(m, direction).nodes == m.nodes,
{
    law_filter_keeps_order(m);
    let v = visible_of(m);
    let at = clamped(visible_position(m) + direction, v.len() - 1);
    assert(0 <= at < v.len());
    assert(v[at] < m.nodes.len());
}

/// What is shown of the latency of a node.
pub open spec fn label_of(s: ProbeStateView) -> Seq<char> {
    match s {
        ProbeStateView::Pending => "not probed"@,
        ProbeStateView::Running => "probing…"@,
        ProbeStateView::Succeeded(ms) => text::decimal(ms as nat) + " ms"@,
        ProbeStateView::Failed(_) => "failed"@,
        ProbeStateView::Cancelled => "cancelled"@,
    }
}

/// Shows the latency of a node.
pub fn probe_label(state: &ProbeState) -> (r: String)
    ensures
        r@ == label_of(state@),
{
    match state {
        ProbeState::Pending => text::owned("not probed"),
        ProbeState::Running => text::owned("probing…"),
        ProbeState::Succeeded(ms) => text::concat(text::decimal_of(*ms).as_str(), " ms"),
        ProbeState::Failed(_) => text::owned("failed"),
        ProbeState::Cancelled => text::owned("cancelled"),
    }
}

/// An error on one line of at most 160 characters.
pub open spec fn compacted(s: Seq<char>) -> Seq<char> {
    let line = text::joined(text::words(s), " "@);
    if line.len() > 160 {
        line.take(159).push('…')
    } else {
        line
    }
}

/// Shows an error on one line.
pub fn compact_error(error: &str) -> (r: String)
    ensures
        r@ == compacted(error@),
{
    let line = text::join(&text::split_whitespace(error), " ");
    let chars = text::chars_of(line.as_str());
    if chars.len() > 160 {
        let mut r = text::text_between(&chars, 0, 159);
        assert(r@ =~= line@.take(159));
        r.push('…');
        r
    } else {
        line
    }
}

proof fn lemma_words_are_solid(s: Seq<char>)
    ensures
        forall|i: int, j: int|
            #![trigger text::words(s)[i][j]]
            0 <= i < text::words(s).len() && 0 <= j < text::words(s)[i].len() ==> !text::white(text::words(s)[i][j]),
    decreases s.len(),
{
    if s.len() > 0 {
        let rest = text::words(s.drop_last());
        lemma_words_are_solid(s.drop_last());
        let w = text::words(s);
        if !text::white(s.last()) && s.len() >= 2 && !text::white(s[s.len() - 2]) {
            text::lemma_words_open(s.drop_last());
            assert forall|i: int, j: int|
                #![trigger w[i][j]]
                0 <= i < w.len() && 0 <= j < w[i].len() implies !text::white(w[i][j]) by {
                if i < rest.len() - 1 {
                    assert(w[i] == rest[i]);
                    assert(!text::white(rest[i][j]));
                } else if j < rest.last().len() {
                    assert(w[i][j] == rest[i][j]);
                }
            }
        } else if !text::white(s.last()) {
            assert forall|i: int, j: int|
                #![trigger w[i][j]]
                0 <= i < w.len() && 0 <= j < w[i].len() implies !text::white(w[i][j]) by {
                if i < rest.len() {
                    assert(w[i] == rest[i]);
                    assert(!text::white(rest[i][j]));
                }
            }
        }
    }
}

proof fn lemma_joined_line(v: Seq<Seq<char>>)
    requires
        forall|i: int, j: int|
            #![trigger v[i][j]]
            0 <= i < v.len() && 0 <= j < v[i].len() ==> !text::white(v[i][j]),
    ensures
        forall|k: int|
            0 <= k < text::joined(v, " "@).len() ==> text::white(#[trigger] text::joined(v, " "@)[k]) ==> text::joined(
                v,
                " "@,
            )[k] == ' ',
    decreases v.len(),
{
    reveal_strlit(" ");
    if v.len() > 1 {
        let rest = v.drop_last();
        assert forall|i: int, j: int|
            #![trigger rest[i][j]]
            0 <= i < rest.len() && 0 <= j < rest[i].len() implies !text::white(rest[i][j]) by {
            assert(rest[i] == v[i]);
            assert(!text::white(v[i][j]));
        }
        lemma_joined_line(rest);
        let a = text::joined(rest, " "@);
        let b = text::joined(v, " "@);
        assert forall|k: int| 0 <= k < b.len() && text::white(#[trigger] b[k]) implies b[k] == ' ' by {
            if k < a.len() {
                assert(b[k] == a[k]);
            } else if k > a.len() {
                assert(b[k] == v[v.len() - 1][k - a.len() - 1]);
            }
        }
    } else if v.len() == 1 {
        let b = text::joined(v, " "@);
        assert forall|k: int| 0 <= k < b.len() && text::white(#[trigger] b[k]) implies b[k] == ' ' by {
            assert(b[k] == v[0][k]);
        }
    }
}

/// A shown error is one line of at most 160 characters: the only white space in
/// it is the space.
pub proof fn law_compact_error_is_one_line(s: Seq<char>)
    ensures
        compacted(s).len() <= 160,
        forall|k: int|
            0 <= k < compacted(s).len() && text::white(#[trigger] compacted(s)[k]) ==> compacted(s)[k]
                == ' ',
{
    lemma_words_are_solid(s);
    lemma_joined_line(text::words(s));
    let line = text::joined(text::words(s), " "@);
    let c = compacted(s);
    assert forall|k: int| 0 <= k < c.len() && text::white(#[trigger] c[k]) implies c[k] == ' ' by {
        if k < line.len() && (line.len() <= 160 || k < 159) {
            assert(c[k] == line[k]);
        } else {
            assert(c[k] == '…');
        }
    }
}

/// The ID of a node as the rows have it.
pub open spec fn short_id(id: Seq<char>) -> Seq<char> {
    if domain::has_short(id) {
        domain::short_of(id)
    } else {
        id
    }
}

fn shorten(id: &str) -> (r: String)
    ensures
        r@ == short_id(id@),
{
    match text::head_length(id, 12) {
        Some(k) => {
            let r = text::text_between(&text::chars_of(id), 0, k);
            assert(r@ =~= id@.take(k as int));
            r
        },
        None => text::owned(id),
    }
}

/// The event that the outcome of a probe comes to.
pub open spec fn outcome_event(o: NodeProbeOutcomeView) -> ManagerEventView {
    let node_id = short_id(o.node_id);
    match o.result.latency_ms {
        Some(latency_ms) => ManagerEventView::NodeProbeSucceeded { node_id, latency_ms },
        None => if o.result.error == Some("cancelled"@) {
            ManagerEventView::NodeProbeCancelled { node_id }
        } else {
            ManagerEventView::NodeProbeFailed {
                node_id,
                error: text::text_or(o.result.error, "probe failed"@),
            }
        },
    }
}

/// Notes the outcome of a probe in the row of its node.
pub fn apply_probe_result(model: &mut TuiModel, outcome: NodeProbeOutcome)
    ensures
        final(model)@ == applied(old(model)@, outcome_event(outcome@)),
{
    let node_id = shorten(outcome.node_id.as_str());
    let event = match outcome.result.latency_ms {
        Some(latency_ms) => ManagerEvent::NodeProbeSucceeded { node_id, latency_ms },
        None => {
            let cancelled = match &outcome.result.error {
                Some(e) => text::same(e.as_str(), "cancelled"),
                None => false,
            };
            if cancelled {
                ManagerEvent::NodeProbeCancelled { node_id }
            } else {
                ManagerEvent::NodeProbeFailed {
                    node_id,
                    error: text::unwrap_text(outcome.result.error, "probe failed"),
                }
            }
        },
    };
    model.apply(&event);
}

/// An event moves neither the cursor nor a row.
pub proof fn law_events_move_nothing(m: TuiModelView, e: ManagerEventView)
    ensures
        applied(m, e).selected == m.selected,
        applied(m, e).filter == m.filter,
        row_ids(applied(m, e).nodes) =~= row_ids(m.nodes),
{
    match event_state(e) {
        Some((id, state)) => {
            if row_ids(m.nodes).contains(id) {
                row_ids(m.nodes).index_of_first_ensures(id);
            }
        },
        None => {},
    }
}

/// The outcome of a probe reaches the row of its node, whose ID is the short one.
pub proof fn law_outcome_reaches_its_row(m: TuiModelView, o: NodeProbeOutcomeView, i: int)
    requires
        0 <= i < m.nodes.len(),
        m.nodes[i].id == short_id(o.node_id),
        forall|j: int| 0 <= j < i ==> (#[trigger] m.nodes[j]).id != short_id(o.node_id),
    ensures
        event_state(outcome_event(o)) is Some,
        applied(m, outcome_event(o)).nodes[i].state == (event_state(outcome_event(o))->0).1,
{
    let ids = row_ids(m.nodes);
    let id = short_id(o.node_id);
    assert(ids[i] == id);
    ids.index_of_first_ensures(id);
    let k = ids.index_of_first(id)->0;
    if k < i {
        assert(ids[k] == m.nodes[k].id);
    }
}

/// The row of a node as a question for the nodes answers it, where it has all
/// that a row needs.
pub open spec fn row_of(node: JsonView) -> Option<NodeRowView> {
    match (
        console::text_member(node, "id"@),
        console::text_member(node, "subscription"@),
        console::text_member(node, "protocol"@),
        console::text_member(node, "name"@),
    ) {
        (Some(id), Some(subscription), Some(protocol), Some(name)) => Some(
            NodeRowView {
                id,
                subscription,
                protocol,
                name,
                unsupported: console::text_member(node, "support"@) == Some("unsupported"@),
                state: ProbeStateView::Pending,
            },
        ),
        _ => None,
    }
}

/// The rows of a list of nodes.
pub open spec fn rows_in(v: Seq<JsonView>) -> Seq<NodeRowView>
    decreases v.len(),
{
    if v.len() == 0 {
        Seq::empty()
    } else {
        let rest = rows_in(v.drop_last());
        match row_of(v.last()) {
            Some(r) => rest.push(r),
            None => rest,
        }
    }
}

/// The rows of the answer to a question for the nodes.
pub open spec fn rows_of(value: JsonView) -> Seq<NodeRowView> {
    match value {
        JsonView::Array(v) => rows_in(v),
        _ => Seq::empty(),
    }
}

fn read_row(node: &Json) -> (r: Option<NodeRow>)
    ensures
        match r {
            Some(x) => row_of(node@) == Some(x@),
            None => row_of(node@) is None,
        },
{
    let unsupported = match console::find_text(node, "support") {
        Some(s) => text::same(s.as_str(), "unsupported"),
        None => false,
    };
    match (
        console::find_text(node, "id"),
        console::find_text(node, "subscription"),
        console::find_text(node, "protocol"),
        console::find_text(node, "name"),
    ) {
        (Some(id), Some(subscription), Some(protocol), Some(name)) => Some(
            NodeRow { id, subscription, protocol, name, unsupported, state: ProbeState::Pending },
        ),
        _ => None,
    }
}

/// Reads the rows from the answer to a question for the nodes.
pub fn rows_from_query(value: &Json) -> (r: Vec<NodeRow>)
    ensures
        node_row_views(r@) == rows_of(value@),
{
    let mut r: Vec<NodeRow> = Vec::new();
    assert(node_row_views(r@) =~= Seq::empty());
    match value {
        Json::Array(items) => {
            let ghost v = json::array_view(items@);
            let mut i: usize = 0;
            proof {
                json::lemma_array_view(items@);
                assert(v.take(0).len() == 0);
            }
            while i < items.len()
                invariant
                    i <= items@.len(),
                    v == json::array_view(items@),
                    v.len() == items@.len(),
                    forall|k: int|
                        0 <= k < items@.len() ==> v[k] == #[trigger] json::json_view(items@[k]),
                    node_row_views(r@) == rows_in(v.take(i as int)),
                decreases items@.len() - i,
            {
                proof {
                    assert(v[i as int] == json::json_view(items@[i as int]));
                    assert(v.take(i + 1).drop_last() =~= v.take(i as int));
                    assert(v.take(i + 1).last() == v[i as int]);
                }
                match read_row(&items[i]) {
                    Some(row) => {
                        proof {
                            lemma_node_row_views_push(r@, row);
                        }
                        r.push(row);
                    },
                    None => {},
                }
                i += 1;
            }
            assert(v.take(v.len() as int) =~= v);
        },
        _ => {},
    }
    r
}

} // verus!

//! Refreshing subscriptions.

use crate::config::{ManagerConfig, ManagerConfigView, SubscriptionConfig, SubscriptionConfigView};
use crate::domain::{ManagerState, ManagerStateView, Node, NodeView};
use crate::error::{ManagerError, ManagerErrorView};
use crate::events::{ManagerEvent, ManagerEventView};
use crate::ports::{DownloadRequest, DownloadRequestView};
use crate::subscription::{SubscriptionParse, SubscriptionParseView};
use crate::config;
use crate::domain;
use crate::execution;
use crate::order;
use crate::planning;
use crate::subscription;
use crate::text;
use vstd::prelude::*;

verus! {

/// Whether a subscription of the name is there.
pub open spec fn has_subscription(subs: Seq<SubscriptionConfigView>, name: Seq<char>) -> bool {
    exists|i: int| 0 <= i < subs.len() && (#[trigger] subs[i]).name == name
}

/// Why a refresh is refused.
pub open spec fn refresh_refusal(
    requested: Option<Seq<char>>,
    subs: Seq<SubscriptionConfigView>,
) -> Option<Seq<char>> {
    match requested {
        None => None,
        Some(name) => config::first_problem(
            planning::resource_name_problem(name),
            if has_subscription(subs, name) {
                None
            } else {
                Some("subscription '"@ + name + "' was not found"@)
            },
        ),
    }
}

/// Checks that the requested subscription is there.
pub fn check_requested(requested: &Option<String>, subs: &Vec<SubscriptionConfig>) -> (r: Result<
    (),
    ManagerError,
>)
    ensures
        config::checked(
            r,
            refresh_refusal(text::opt_text(*requested), config::subscription_config_views(subs@)),
        ),
{
    let ghost views = config::subscription_config_views(subs@);
    match requested {
        Some(name) => {
            match planning::validate_resource_name(name.as_str()) {
                Ok(_) => {},
                Err(e) => return Err(e),
            }
            let mut i: usize = 0;
            while i < subs.len()
                invariant
                    i <= subs@.len(),
                    views == config::subscription_config_views(subs@),
                    *requested == Some(*name),
                    planning::resource_name_problem(name@) is None,
                    forall|j: int| 0 <= j < i ==> (#[trigger] views[j]).name != name@,
                decreases subs@.len() - i,
            {
                assert(views[i as int] == subs@[i as int]@);
                if text::same(subs[i].name.as_str(), name.as_str()) {
                    return Ok(());
                }
                i += 1;
            }
            Err(
                ManagerError::InvalidConfig(
                    text::concat3("subscription '", name.as_str(), "' was not found"),
                ),
            )
        },
        None => Ok(()),
    }
}

/// Whether a subscription takes part in a refresh.
pub open spec fn takes_part(s: SubscriptionConfigView, requested: Option<Seq<char>>) -> bool {
    s.enabled && (requested matches Some(name) ==> name == s.name)
}

/// Whether a subscription takes part in a refresh.
pub fn is_refreshed(s: &SubscriptionConfig, requested: &Option<String>) -> (r: bool)
    ensures
        r == takes_part(s@, text::opt_text(*requested)),
{
    s.enabled && match requested {
        Some(name) => text::same(name.as_str(), s.name.as_str()),
        None => true,
    }
}

/// Whether a size in megabytes fits into a count of bytes.
pub open spec fn size_fits(megabytes: u64) -> bool {
    megabytes * 1048576 <= u64::MAX
}

/// A size in megabytes as a count of bytes, where it fits.
pub fn megabytes(count: u64) -> (r: Option<u64>)
    ensures
        match r {
            Some(n) => n == count * 1048576,
            None => !size_fits(count),
        },
{
    count.checked_mul(1048576)
}

/// The download of a subscription.
pub open spec fn subscription_download(
    s: SubscriptionConfigView,
    c: ManagerConfigView,
) -> DownloadRequestView {
    DownloadRequestView {
        url: s.url,
        max_bytes: (c.general.max_subscription_size_mb * 1048576) as u64,
        timeout_seconds: c.general.request_timeout_seconds,
        max_redirects: 5,
    }
}

/// The download of a subscription.
pub fn download_request(s: &SubscriptionConfig, config: &ManagerConfig) -> (r: DownloadRequest)
    requires
        size_fits(config.general.max_subscription_size_mb),
    ensures
        r@ == subscription_download(s@, config@),
{
    DownloadRequest {
        url: s.url.clone(),
        max_bytes: config.general.max_subscription_size_mb * 1048576,
        timeout_seconds: config.general.request_timeout_seconds,
        max_redirects: 5,
    }
}

/// The event of a downloaded subscription. It names the subscription, not its URL.
pub fn downloaded_event(name: &str, size: u64) -> (r: ManagerEvent)
    ensures
        r@ == (ManagerEventView::DownloadProgress {
            id: "subscription:"@ + name@,
            downloaded: size,
            total: Some(size),
        }),
{
    ManagerEvent::DownloadProgress {
        id: text::concat("subscription:", name),
        downloaded: size,
        total: Some(size),
    }
}

/// The nodes of other subscriptions.
pub open spec fn others(nodes: Seq<NodeView>, name: Seq<char>) -> Seq<NodeView> {
    nodes.filter(|n: NodeView| n.subscription != name)
}

/// Removes the nodes of a subscription.
pub fn without_subscription(nodes: Vec<Node>, name: &str) -> (r: Vec<Node>)
    ensures
        domain::node_views(r@) == others(domain::node_views(nodes@), name@),
{
    let ghost all = domain::node_views(nodes@);
    let ghost keep = |n: NodeView| n.subscription != name@;
    let mut r: Vec<Node> = Vec::new();
    let mut i: usize = 0;
    proof {
        reveal(Seq::filter);
        assert(all.take(0).filter(keep) =~= domain::node_views(r@));
    }
    while i < nodes.len()
        invariant
            i <= nodes@.len(),
            all == domain::node_views(nodes@),
            keep == (|n: NodeView| n.subscription != name@),
            domain::node_views(r@) == all.take(i as int).filter(keep),
        decreases nodes@.len() - i,
    {
        proof {
            reveal(Seq::filter);
            assert(all.take(i + 1).drop_last() =~= all.take(i as int));
            assert(all.take(i + 1).last() == nodes@[i as int]@);
        }
        if !text::same(nodes[i].subscription.as_str(), name) {
            let node = nodes[i].clone();
            proof {
                domain::lemma_node_views_push(r@, node);
            }
            r.push(node);
        }
        i += 1;
    }
    assert(all.take(all.len() as int) =~= all);
    r
}

/// A warning of a subscription.
pub open spec fn labelled(name: Seq<char>, warnings: Seq<Seq<char>>) -> Seq<Seq<char>> {
    warnings.map_values(|w: Seq<char>| name + ": "@ + w)
}

/// The warnings of the nodes, one after the other.
pub open spec fn node_warnings(name: Seq<char>, nodes: Seq<NodeView>) -> Seq<Seq<char>>
    decreases nodes.len(),
{
    if nodes.len() == 0 {
        Seq::empty()
    } else {
        node_warnings(name, nodes.drop_last()) + labelled(name, nodes.last().warnings)
    }
}

fn push_labelled(warnings: &mut Vec<String>, name: &str, more: &Vec<String>)
    ensures
        text::texts(final(warnings)@) == text::texts(old(warnings)@) + labelled(name@, text::texts(more@)),
{
    let ghost before = text::texts(warnings@);
    let ghost all = labelled(name@, text::texts(more@));
    let mut i: usize = 0;
    assert(before + all.take(0) =~= before);
    while i < more.len()
        invariant
            i <= more@.len(),
            all == labelled(name@, text::texts(more@)),
            text::texts(warnings@) == before + all.take(i as int),
        decreases more@.len() - i,
    {
        let warning = text::concat3(name, ": ", more[i].as_str());
        proof {
            text::lemma_texts_push(warnings@, warning);
            assert(before + all.take(i + 1) =~= (before + all.take(i as int)).push(all[i as int]));
        }
        warnings.push(warning);
        i += 1;
    }
    assert(all.take(all.len() as int) =~= all);
}

/// The nodes and warnings after one subscription was parsed.
#[verifier::ext_equal]
pub struct Refreshed {
    pub nodes: Seq<NodeView>,
    pub warnings: Seq<Seq<char>>,
}

/// What a parsed subscription makes of the nodes and warnings so far.
pub open spec fn refreshed(
    before: Refreshed,
    name: Seq<char>,
    parse: SubscriptionParseView,
) -> Refreshed {
    Refreshed {
        nodes: others(before.nodes, name) + parse.nodes,
        warnings: before.warnings + node_warnings(name, parse.nodes) + labelled(
            name,
            parse.warnings,
        ),
    }
}

/// Takes a parsed subscription in: its nodes replace those that it had.
pub fn take_in(
    nodes: Vec<Node>,
    warnings: Vec<String>,
    name: &str,
    parse: SubscriptionParse,
) -> (r: (Vec<Node>, Vec<String>))
    ensures
        (Refreshed { nodes: domain::node_views(r.0@), warnings: text::texts(r.1@) }) == refreshed(
            Refreshed { nodes: domain::node_views(nodes@), warnings: text::texts(warnings@) },
            name@,
            parse@,
        ),
{
    let mut warnings = warnings;
    let ghost start = text::texts(warnings@);
    let ghost fresh = domain::node_views(parse.nodes@);
    let mut i: usize = 0;
    assert(fresh.take(0).len() == 0);
    assert(start + node_warnings(name@, fresh.take(0)) =~= start);
    while i < parse.nodes.len()
        invariant
            i <= parse.nodes@.len(),
            fresh == domain::node_views(parse.nodes@),
            text::texts(warnings@) == start + node_warnings(name@, fresh.take(i as int)),
        decreases parse.nodes@.len() - i,
    {
        let ghost so_far = node_warnings(name@, fresh.take(i as int));
        push_labelled(&mut warnings, name, &parse.nodes[i].warnings);
        proof {
            assert(fresh.take(i + 1).drop_last() =~= fresh.take(i as int));
            assert(fresh.take(i + 1).last() == parse.nodes@[i as int]@);
            let more = labelled(name@, parse.nodes@[i as int]@.warnings);
            assert(start + so_far + more =~= start + (so_far + more));
        }
        i += 1;
    }
    assert(fresh.take(fresh.len() as int) =~= fresh);
    push_labelled(&mut warnings, name, &parse.warnings);
    let mut kept = without_subscription(nodes, name);
    let mut fresh_nodes = parse.nodes;
    let ghost left = kept@;
    let ghost right = fresh_nodes@;
    kept.append(&mut fresh_nodes);
    assert(domain::node_views(kept@) =~= domain::node_views(left) + domain::node_views(right));
    (kept, warnings)
}

/// A node put into an ordered list, behind all that do not come after it.
pub open spec fn placed(sorted: Seq<NodeView>, n: NodeView) -> Seq<NodeView>
    decreases sorted.len(),
{
    if sorted.len() > 0 && text::text_less(n.name, sorted.last().name) {
        placed(sorted.drop_last(), n).push(sorted.last())
    } else {
        sorted.push(n)
    }
}

/// Nodes ordered by name; nodes of one name keep their order.
pub open spec fn by_name(nodes: Seq<NodeView>) -> Seq<NodeView>
    decreases nodes.len(),
{
    if nodes.len() == 0 {
        Seq::empty()
    } else {
        placed(by_name(nodes.drop_last()), nodes.last())
    }
}

fn place(sorted: &mut Vec<Node>, node: Node)
    ensures
        domain::node_views(final(sorted)@) == placed(domain::node_views(old(sorted)@), node@),
{
    let ghost views = domain::node_views(sorted@);
    let mut i: usize = sorted.len();
    assert(views.take(i as int) =~= views);
    assert(placed(views, node@) =~= placed(views.take(i as int), node@) + views.skip(i as int));
    while i > 0 && text::is_less(node.name.as_str(), sorted[i - 1].name.as_str())
        invariant
            i <= sorted@.len(),
            views == domain::node_views(sorted@),
            placed(views, node@) == placed(views.take(i as int), node@) + views.skip(i as int),
        decreases i,
    {
        proof {
            let t = views.take(i as int);
            assert(t.last() == sorted@[i - 1]@);
            assert(t.drop_last() =~= views.take(i - 1));
            assert(placed(t.drop_last(), node@).push(t.last()) + views.skip(i as int) =~= placed(
                views.take(i - 1),
                node@,
            ) + views.skip(i - 1));
        }
        i -= 1;
    }
    proof {
        let t = views.take(i as int);
        if i > 0 {
            assert(t.last() == sorted@[i - 1]@);
        }
        assert(placed(t, node@) == t.push(node@));
    }
    let ghost before = sorted@;
    sorted.insert(i, node);
    assert(domain::node_views(sorted@) =~= views.take(i as int).push(node@) + views.skip(i as int));
}

/// Orders nodes by name.
pub fn sort_by_name(nodes: &Vec<Node>) -> (r: Vec<Node>)
    ensures
        domain::node_views(r@) == by_name(domain::node_views(nodes@)),
{
    let ghost all = domain::node_views(nodes@);
    let mut r: Vec<Node> = Vec::new();
    let mut i: usize = 0;
    assert(all.take(0).len() == 0);
    assert(domain::node_views(r@) =~= by_name(all.take(0)));
    while i < nodes.len()
        invariant
            i <= nodes@.len(),
            all == domain::node_views(nodes@),
            domain::node_views(r@) == by_name(all.take(i as int)),
        decreases nodes@.len() - i,
    {
        proof {
            assert(all.take(i + 1).drop_last() =~= all.take(i as int));
            assert(all.take(i + 1).last() == nodes@[i as int]@);
        }
        place(&mut r, nodes[i].clone());
        i += 1;
    }
    assert(all.take(all.len() as int) =~= all);
    r
}

/// Ordering keeps every node and adds none.
pub proof fn law_sort_is_a_permutation(nodes: Seq<NodeView>)
    ensures
        by_name(nodes).to_multiset() == nodes.to_multiset(),
        by_name(nodes).len() == nodes.len(),
    decreases nodes.len(),
{
    broadcast use vstd::seq_lib::group_to_multiset_ensures;

    if nodes.len() > 0 {
        law_sort_is_a_permutation(nodes.drop_last());
        lemma_placed_multiset(by_name(nodes.drop_last()), nodes.last());
        assert(nodes =~= nodes.drop_last().push(nodes.last()));
    } else {
        assert(by_name(nodes) =~= nodes);
    }
}

proof fn lemma_placed_multiset(sorted: Seq<NodeView>, n: NodeView)
    ensures
        placed(sorted, n).to_multiset() == sorted.to_multiset().insert(n),
        placed(sorted, n).len() == sorted.len() + 1,
    decreases sorted.len(),
{
    broadcast use vstd::seq_lib::group_to_multiset_ensures;

    if sorted.len() > 0 && text::text_less(n.name, sorted.last().name) {
        lemma_placed_multiset(sorted.drop_last(), n);
        assert(sorted =~= sorted.drop_last().push(sorted.last()));
        assert(placed(sorted, n).to_multiset() =~= sorted.to_multiset().insert(n));
    }
}

pub open spec fn ordered_by_name(nodes: Seq<NodeView>) -> bool {
    forall|i: int, j: int|
        0 <= i < j < nodes.len() ==> !text::text_less((#[trigger] nodes[j]).name, (
        #[trigger] nodes[i]).name)
}

/// Ordered nodes are in the order of their names.
pub proof fn law_sort_orders_by_name(nodes: Seq<NodeView>)
    ensures
        ordered_by_name(by_name(nodes)),
    decreases nodes.len(),
{
    if nodes.len() > 0 {
        law_sort_orders_by_name(nodes.drop_last());
        lemma_placed_ordered(by_name(nodes.drop_last()), nodes.last());
    }
}

proof fn lemma_placed_ordered(sorted: Seq<NodeView>, n: NodeView)
    requires
        ordered_by_name(sorted),
    ensures
        ordered_by_name(placed(sorted, n)),
        forall|i: int|
            0 <= i < placed(sorted, n).len() ==> (#[trigger] placed(sorted, n)[i]) == n
                || sorted.contains(placed(sorted, n)[i]),
    decreases sorted.len(),
{
    let p = placed(sorted, n);
    if sorted.len() > 0 && text::text_less(n.name, sorted.last().name) {
        let rest = sorted.drop_last();
        assert forall|i: int, j: int| 0 <= i < j < rest.len() implies !text::text_less(
            (#[trigger] rest[j]).name,
            (#[trigger] rest[i]).name,
        ) by {
            assert(rest[i] == sorted[i] && rest[j] == sorted[j]);
        }
        lemma_placed_ordered(rest, n);
        let q = placed(rest, n);
        assert(p =~= q.push(sorted.last()));
        assert forall|i: int| 0 <= i < p.len() implies (#[trigger] p[i]) == n || sorted.contains(
            p[i],
        ) by {
            if i < q.len() {
                if q[i] != n {
                    let k = rest.index_of(q[i]);
                    assert(sorted[k] == q[i]);
                }
            } else {
                assert(sorted[sorted.len() - 1] == p[i]);
            }
        }
        assert forall|i: int, j: int| 0 <= i < j < p.len() implies !text::text_less(
            (#[trigger] p[j]).name,
            (#[trigger] p[i]).name,
        ) by {
            if j < q.len() {
                assert(p[i] == q[i] && p[j] == q[j]);
            } else {
                assert(p[i] == q[i]);
                assert(p[j] == sorted.last());
                if q[i] == n {
                    text::law_text_order_total(n.name, sorted.last().name);
                } else {
                    let k = rest.index_of(q[i]);
                    assert(sorted[k] == q[i]);
                    assert(!text::text_less(sorted[sorted.len() - 1].name, sorted[k].name));
                }
            }
        }
    } else {
        assert(p =~= sorted.push(n));
        assert forall|i: int| 0 <= i < p.len() implies (#[trigger] p[i]) == n || sorted.contains(
            p[i],
        ) by {
            if i < sorted.len() {
                assert(sorted[i] == p[i]);
            }
        }
        assert forall|i: int, j: int| 0 <= i < j < p.len() implies !text::text_less(
            (#[trigger] p[j]).name,
            (#[trigger] p[i]).name,
        ) by {
            if j == sorted.len() {
                let last = sorted.last();
                if i < sorted.len() - 1 {
                    assert(!text::text_less(sorted[sorted.len() - 1].name, sorted[i].name));
                    if text::text_less(n.name, sorted[i].name) {
                        text::law_text_order_total(last.name, sorted[i].name);
                        if last.name == sorted[i].name {
                        } else {
                            text::law_text_order_transitive(n.name, sorted[i].name, last.name);
                        }
                    }
                }
            } else {
                assert(p[i] == sorted[i] && p[j] == sorted[j]);
            }
        }
    }
}

/// What a refresh makes of the selection.
#[verifier::ext_equal]
pub struct Reselection {
    /// The node to record as selected, where that changed.
    pub selected: Option<Seq<char>>,
    /// What to tell the user.
    pub warning: Option<Seq<char>>,
}

/// What a refresh makes of the selection of `old`.
pub open spec fn reselection(old: NodeView, nodes: Seq<NodeView>) -> Reselection {
    match domain::reconciled(old, old.id, nodes) {
        Some(i) => if nodes[i].id == old.id {
            Reselection { selected: None, warning: None }
        } else {
            Reselection {
                selected: Some(nodes[i].id),
                warning: Some(
                    "selected node '"@ + old.name
                        + "' was reconciled by subscription and name; run `xrayctl apply` to activate refreshed credentials"@,
                ),
            }
        },
        None => Reselection {
            selected: None,
            warning: Some(
                "selected node '"@ + old.name
                    + "' disappeared or became ambiguous; the running configuration and saved selection were left unchanged"@,
            ),
        },
    }
}

/// What a refresh makes of the selection: the node to record and the warning.
pub fn reselect(old: &Node, nodes: &Vec<Node>) -> (r: (Option<String>, Option<String>))
    ensures
        (Reselection { selected: text::opt_text(r.0), warning: text::opt_text(r.1) }) == reselection(
            old@,
            domain::node_views(nodes@),
        ),
{
    match domain::reconcile_selected(old, &old.id, nodes.as_slice()) {
        Some(node) => {
            if text::same(node.id.as_str(), old.id.as_str()) {
                (None, None)
            } else {
                (
                    Some(text::owned(node.id.as_str())),
                    Some(
                        text::concat3(
                            "selected node '",
                            old.name.as_str(),
                            "' was reconciled by subscription and name; run `xrayctl apply` to activate refreshed credentials",
                        ),
                    ),
                )
            }
        },
        None => (
            None,
            Some(
                text::concat3(
                    "selected node '",
                    old.name.as_str(),
                    "' disappeared or became ambiguous; the running configuration and saved selection were left unchanged",
                ),
            ),
        ),
    }
}

/// A refresh that loses the selected node leaves the saved selection alone.
pub proof fn law_lost_selection_is_kept(old: NodeView, nodes: Seq<NodeView>)
    requires
        domain::reconciled(old, old.id, nodes) is None,
    ensures
        reselection(old, nodes).selected is None,
        reselection(old, nodes).warning is Some,
{
}

/// Taking a subscription in leaves the nodes of every other subscription as
/// they were.
pub proof fn law_refresh_keeps_other_subscriptions(
    before: Refreshed,
    name: Seq<char>,
    other: Seq<char>,
    parse: SubscriptionParseView,
)
    requires
        name != other,
        forall|i: int|
            0 <= i < parse.nodes.len() ==> (#[trigger] parse.nodes[i]).subscription == name,
    ensures
        refreshed(before, name, parse).nodes.filter(|n: NodeView| n.subscription == other)
            == before.nodes.filter(|n: NodeView| n.subscription == other),
{
    let keep = |n: NodeView| n.subscription == other;
    Seq::<NodeView>::filter_distributes_over_add(others(before.nodes, name), parse.nodes, keep);
    lemma_nothing_kept(parse.nodes, name, other);
    lemma_kept_again(before.nodes, name, other);
    assert(before.nodes.filter(keep) + Seq::<NodeView>::empty() =~= before.nodes.filter(keep));
}

proof fn lemma_nothing_kept(nodes: Seq<NodeView>, name: Seq<char>, other: Seq<char>)
    requires
        name != other,
        forall|i: int| 0 <= i < nodes.len() ==> (#[trigger] nodes[i]).subscription == name,
    ensures
        nodes.filter(|n: NodeView| n.subscription == other) == Seq::<NodeView>::empty(),
    decreases nodes.len(),
{
    reveal(Seq::filter);
    if nodes.len() > 0 {
        lemma_nothing_kept(nodes.drop_last(), name, other);
        assert(nodes[nodes.len() - 1].subscription == name);
    }
}

proof fn lemma_kept_again(nodes: Seq<NodeView>, name: Seq<char>, other: Seq<char>)
    requires
        name != other,
    ensures
        others(nodes, name).filter(|n: NodeView| n.subscription == other) == nodes.filter(
            |n: NodeView| n.subscription == other,
        ),
    decreases nodes.len(),
{
    reveal(Seq::filter);
    let keep = |n: NodeView| n.subscription == other;
    if nodes.len() > 0 {
        lemma_kept_again(nodes.drop_last(), name, other);
        let o = others(nodes.drop_last(), name);
        if nodes.last().subscription != name {
            assert(o.push(nodes.last()).drop_last() =~= o);
        }
    }
}

/// The node that is selected by an ID: the first one that has it.
pub open spec fn selected_among(nodes: Seq<NodeView>, id: Option<Seq<char>>) -> Option<NodeView> {
    match id {
        Some(id) => if exists|i: int| domain::first_with_id(nodes, id, i) {
            Some(nodes[choose|i: int| domain::first_with_id(nodes, id, i)])
        } else {
            None
        },
        None => None,
    }
}

/// The subscriptions that take part in a refresh, in the order of their names.
pub open spec fn participants(
    subs: Seq<SubscriptionConfigView>,
    requested: Option<Seq<char>>,
) -> Seq<SubscriptionConfigView> {
    order::subscriptions_by_name(subs).filter(
        |s: SubscriptionConfigView| takes_part(s, requested),
    )
}

/// A refresh on its way.
pub struct Refresh {
    asked: Vec<SubscriptionConfig>,
    at: usize,
    nodes: Vec<Node>,
    warnings: Vec<String>,
    selected: Option<Node>,
    failed: bool,
}

/// The mathematical value of a [`Refresh`]: the subscriptions still to be
/// downloaded, the nodes and warnings so far, the node that was selected when
/// it began, and whether it was given up.
#[verifier::ext_equal]
pub struct RefreshView {
    pub rest: Seq<SubscriptionConfigView>,
    pub so_far: Refreshed,
    pub selected: Option<NodeView>,
    pub failed: bool,
}

impl View for Refresh {
    type V = RefreshView;

    closed spec fn view(&self) -> RefreshView {
        RefreshView {
            rest: config::subscription_config_views(self.asked@).skip(self.at as int),
            so_far: Refreshed {
                nodes: domain::node_views(self.nodes@),
                warnings: text::texts(self.warnings@),
            },
            selected: match self.selected {
                Some(node) => Some(node@),
                None => None,
            },
            failed: self.failed,
        }
    }
}

/// A refresh that begins.
pub open spec fn begun(
    requested: Option<Seq<char>>,
    subs: Seq<SubscriptionConfigView>,
    nodes: Seq<NodeView>,
    selected: Option<Seq<char>>,
) -> RefreshView {
    RefreshView {
        rest: participants(subs, requested),
        so_far: Refreshed { nodes, warnings: Seq::empty() },
        selected: selected_among(nodes, selected),
        failed: false,
    }
}

/// Whether a refresh waits for a download.
pub open spec fn asks(v: RefreshView) -> bool {
    !v.failed && v.rest.len() > 0
}

/// A refresh after the reply to the download that it waited for: the bytes, or
/// none where the download failed. A failed download and bytes that are no
/// subscription end it.
pub open spec fn answered(v: RefreshView, reply: Option<Seq<u8>>) -> RefreshView {
    if !asks(v) {
        v
    } else {
        match reply {
            None => RefreshView { failed: true, ..v },
            Some(bytes) => match subscription::response_subscription(bytes, v.rest[0].name) {
                Ok(parse) => RefreshView {
                    rest: v.rest.skip(1),
                    so_far: refreshed(v.so_far, v.rest[0].name, parse),
                    ..v
                },
                Err(_) => RefreshView { failed: true, ..v },
            },
        }
    }
}

/// A refresh after replies.
pub open spec fn after(v: RefreshView, replies: Seq<Option<Seq<u8>>>) -> RefreshView
    decreases replies.len(),
{
    if replies.len() == 0 {
        v
    } else {
        answered(after(v, replies.drop_last()), replies.last())
    }
}

/// What a completed refresh stores: the nodes, the ID to record as selected
/// where that changed, and the warnings to show.
pub struct RefreshStore {
    pub nodes: Vec<Node>,
    pub selected: Option<String>,
    pub warnings: Vec<String>,
}

/// The mathematical value of a [`RefreshStore`].
#[verifier::ext_equal]
pub struct RefreshStoreView {
    pub nodes: Seq<NodeView>,
    pub selected: Option<Seq<char>>,
    pub warnings: Seq<Seq<char>>,
}

impl View for RefreshStore {
    type V = RefreshStoreView;

    open spec fn view(&self) -> RefreshStoreView {
        RefreshStoreView {
            nodes: domain::node_views(self.nodes@),
            selected: text::opt_text(self.selected),
            warnings: text::texts(self.warnings@),
        }
    }
}

impl RefreshStore {
    /// The state to write after the nodes, where the selection changed: the
    /// state as it was, but for the selected node.
    pub fn state_after(&self, state: &ManagerState) -> (r: Option<ManagerState>)
        ensures
            match r {
                Some(after) => self@.selected is Some && after@ == (ManagerStateView {
                    selected_node_id: self@.selected,
                    ..state@
                }),
                None => self@.selected is None,
            },
    {
        match &self.selected {
            Some(id) => {
                let mut after = state.clone();
                after.selected_node_id = Some(id.clone());
                Some(after)
            },
            None => None,
        }
    }
}

/// What is to be done next in a refresh.
pub enum RefreshAction {
    /// Download a subscription and answer with what came back.
    Download { name: String, request: DownloadRequest },
    /// Store the outcome.
    Store(RefreshStore),
    /// Nothing: it was given up.
    Nothing,
}

/// The mathematical value of a [`RefreshAction`].
#[verifier::ext_equal]
pub enum RefreshActionView {
    Download { name: Seq<char>, request: DownloadRequestView },
    Store(RefreshStoreView),
    Nothing,
}

impl View for RefreshAction {
    type V = RefreshActionView;

    open spec fn view(&self) -> RefreshActionView {
        match self {
            RefreshAction::Download { name, request } => RefreshActionView::Download {
                name: name@,
                request: request@,
            },
            RefreshAction::Store(store) => RefreshActionView::Store(store@),
            RefreshAction::Nothing => RefreshActionView::Nothing,
        }
    }
}

/// What a completed refresh stores.
pub open spec fn stored(v: RefreshView) -> RefreshStoreView {
    let nodes = by_name(v.so_far.nodes);
    match v.selected {
        Some(old) => RefreshStoreView {
            nodes,
            selected: reselection(old, nodes).selected,
            warnings: match reselection(old, nodes).warning {
                Some(warning) => v.so_far.warnings.push(warning),
                None => v.so_far.warnings,
            },
        },
        None => RefreshStoreView { nodes, selected: None, warnings: v.so_far.warnings },
    }
}

/// What is to be done next in a refresh: download what is left, then store.
pub open spec fn wanted(v: RefreshView, c: ManagerConfigView) -> RefreshActionView {
    if v.failed {
        RefreshActionView::Nothing
    } else if v.rest.len() > 0 {
        RefreshActionView::Download {
            name: v.rest[0].name,
            request: subscription_download(v.rest[0], c),
        }
    } else {
        RefreshActionView::Store(stored(v))
    }
}

/// The bytes of a reply, where there are any.
pub open spec fn reply_bytes(reply: Result<Vec<u8>, ManagerError>) -> Option<Seq<u8>> {
    match reply {
        Ok(bytes) => Some(bytes@),
        Err(_) => None,
    }
}

fn choose_participants(subs: &Vec<SubscriptionConfig>, requested: &Option<String>) -> (r: Vec<
    SubscriptionConfig,
>)
    ensures
        config::subscription_config_views(r@) == participants(
            config::subscription_config_views(subs@),
            text::opt_text(*requested),
        ),
{
    let sorted = order::sort_subscriptions(subs);
    let ghost all = config::subscription_config_views(sorted@);
    let ghost fits = |s: SubscriptionConfigView| takes_part(s, text::opt_text(*requested));
    let mut r: Vec<SubscriptionConfig> = Vec::new();
    let mut i: usize = 0;
    proof {
        reveal(Seq::filter);
        assert(all.take(0).filter(fits) =~= config::subscription_config_views(r@));
    }
    while i < sorted.len()
        invariant
            i <= sorted@.len(),
            all == config::subscription_config_views(sorted@),
            fits == (|s: SubscriptionConfigView| takes_part(s, text::opt_text(*requested))),
            config::subscription_config_views(r@) == all.take(i as int).filter(fits),
        decreases sorted@.len() - i,
    {
        let ghost before = r@;
        proof {
            reveal(Seq::filter);
            assert(all.take(i + 1).drop_last() =~= all.take(i as int));
            assert(all.take(i + 1).last() == sorted@[i as int]@);
        }
        if is_refreshed(&sorted[i], requested) {
            r.push(sorted[i].clone());
            assert(config::subscription_config_views(r@)
                =~= config::subscription_config_views(before).push(sorted@[i as int]@));
        }
        i += 1;
    }
    assert(all.take(all.len() as int) =~= all);
    r
}

proof fn lemma_selected(nodes: Seq<NodeView>, id: Seq<char>, i: int)
    requires
        domain::first_with_id(nodes, id, i),
    ensures
        selected_among(nodes, Some(id)) == Some(nodes[i]),
{
    let k = choose|k: int| domain::first_with_id(nodes, id, k);
    assert(domain::first_with_id(nodes, id, k));
    if k < i {
        assert(nodes[k].id != id);
    } else if i < k {
        assert(nodes[i].id != id);
    }
}

impl Refresh {
    #[verifier::type_invariant]
    closed spec fn wf(self) -> bool {
        self.at <= self.asked@.len()
    }

    /// Begins a refresh of the requested subscription, or of all. The
    /// subscriptions are those that are stored, in any order.
    pub fn new(
        requested: &Option<String>,
        subs: &Vec<SubscriptionConfig>,
        nodes: Vec<Node>,
        selected: &Option<String>,
    ) -> (r: Result<Refresh, ManagerError>)
        ensures
            ({
                let views = config::subscription_config_views(subs@);
                let refusal = refresh_refusal(text::opt_text(*requested), views);
                match r {
                    Ok(v) => refusal is None && v@ == begun(
                        text::opt_text(*requested),
                        views,
                        domain::node_views(nodes@),
                        text::opt_text(*selected),
                    ),
                    Err(e) => refusal is Some && e@ == ManagerErrorView::InvalidConfig(refusal->0),
                }
            }),
    {
        match check_requested(requested, subs) {
            Ok(_) => {},
            Err(e) => return Err(e),
        }
        let asked = choose_participants(subs, requested);
        let ghost views = domain::node_views(nodes@);
        let old = match execution::find_selected(&nodes, selected) {
            Some(i) => {
                proof {
                    lemma_selected(views, selected->0@, i as int);
                    assert(views[i as int] == nodes@[i as int]@);
                }
                Some(nodes[i].clone())
            },
            None => {
                proof {
                    if selected is Some {
                        assert forall|k: int| !#[trigger] domain::first_with_id(
                            views,
                            selected->0@,
                            k,
                        ) by {
                            if 0 <= k < views.len() {
                                assert(views[k].id != selected->0@);
                            }
                        }
                    }
                }
                None
            },
        };
        let r = Refresh {
            asked,
            at: 0,
            nodes,
            warnings: Vec::new(),
            selected: old,
            failed: false,
        };
        proof {
            let all = config::subscription_config_views(r.asked@);
            assert(all.skip(0) =~= all);
            assert(text::texts(r.warnings@) =~= Seq::<Seq<char>>::empty());
        }
        Ok(r)
    }

    /// Whether a download is to be done next.
    pub fn waits(&self) -> (r: bool)
        ensures
            r == asks(self@),
    {
        proof {
            use_type_invariant(self);
        }
        !self.failed && self.at < self.asked.len()
    }

    /// What is to be done next.
    pub fn next(&self, config: &ManagerConfig) -> (r: RefreshAction)
        requires
            asks(self@) ==> size_fits(config.general.max_subscription_size_mb),
        ensures
            r@ == wanted(self@, config@),
    {
        proof {
            use_type_invariant(self);
        }
        if self.failed {
            return RefreshAction::Nothing;
        }
        if self.at < self.asked.len() {
            let s = &self.asked[self.at];
            assert(self@.rest[0] == s@);
            return RefreshAction::Download {
                name: s.name.clone(),
                request: download_request(s, config),
            };
        }
        let nodes = sort_by_name(&self.nodes);
        let mut warnings = text::copy_texts(&self.warnings);
        let mut selected: Option<String> = None;
        match &self.selected {
            Some(old) => {
                let (id, warning) = reselect(old, &nodes);
                selected = id;
                match warning {
                    Some(w) => {
                        proof {
                            text::lemma_texts_push(warnings@, w);
                        }
                        warnings.push(w);
                    },
                    None => {},
                }
            },
            None => {},
        }
        RefreshAction::Store(RefreshStore { nodes, selected, warnings })
    }

    /// Takes the reply to the download that was asked for. After an error
    /// nothing is stored.
    pub fn answer(&mut self, reply: Result<Vec<u8>, ManagerError>) -> (r: Result<(), ManagerError>)
        requires
            asks(old(self)@),
        ensures
            final(self)@ == answered(old(self)@, reply_bytes(reply)),
            r is Ok <==> !final(self)@.failed,
            match (reply, r) {
                (Err(e), Err(f)) => f@ == e@,
                (Ok(bytes), Err(f)) => subscription::response_subscription(
                    bytes@,
                    old(self)@.rest[0].name,
                ) matches Err(m) && f@ == ManagerErrorView::InvalidSubscription(m),
                _ => true,
            },
    {
        proof {
            use_type_invariant(&*self);
        }
        let ghost all = config::subscription_config_views(self.asked@);
        let ghost before = self@;
        assert(before.rest[0] == self.asked@[self.at as int]@);
        let count: usize = self.asked.len();
        assert(self.at < count);
        let after: usize = self.at + 1;
        let bytes = match reply {
            Ok(bytes) => bytes,
            Err(e) => {
                self.failed = true;
                return Err(e);
            },
        };
        match subscription::parse_subscription(
            bytes.as_slice(),
            self.asked[self.at].name.as_str(),
        ) {
            Ok(parse) => {
                let mut nodes: Vec<Node> = Vec::new();
                let mut warnings: Vec<String> = Vec::new();
                std::mem::swap(&mut nodes, &mut self.nodes);
                std::mem::swap(&mut warnings, &mut self.warnings);
                let (nodes, warnings) = take_in(
                    nodes,
                    warnings,
                    self.asked[self.at].name.as_str(),
                    parse,
                );
                self.nodes = nodes;
                self.warnings = warnings;
                self.at = after;
                assert(all.skip(self.at as int) =~= before.rest.skip(1));
                Ok(())
            },
            Err(e) => {
                self.failed = true;
                Err(e)
            },
        }
    }
}

/// Whether the reply to the download of a subscription is one.
pub open spec fn is_good(s: SubscriptionConfigView, reply: Option<Seq<u8>>) -> bool {
    reply matches Some(bytes) && subscription::response_subscription(bytes, s.name) is Ok
}

/// Whether so many replies came that each subscription has one that is good.
pub open spec fn all_good(
    rest: Seq<SubscriptionConfigView>,
    replies: Seq<Option<Seq<u8>>>,
) -> bool {
    replies.len() >= rest.len() && forall|i: int|
        0 <= i < rest.len() ==> is_good(#[trigger] rest[i], replies[i])
}

/// The nodes that good replies hold, one subscription after the other.
pub open spec fn fresh_nodes(
    rest: Seq<SubscriptionConfigView>,
    replies: Seq<Option<Seq<u8>>>,
    k: nat,
) -> Seq<NodeView>
    decreases k,
{
    if k == 0 {
        Seq::empty()
    } else {
        fresh_nodes(rest, replies, (k - 1) as nat) + (subscription::response_subscription(
            replies[k - 1]->0,
            rest[k - 1].name,
        )->Ok_0).nodes
    }
}

/// Whether one of the first `k` subscriptions has the name.
pub open spec fn named_before(
    rest: Seq<SubscriptionConfigView>,
    k: int,
    name: Seq<char>,
) -> bool {
    exists|i: int| 0 <= i < k && (#[trigger] rest[i]).name == name
}

/// The nodes that belong to none of the first `k` subscriptions.
pub open spec fn untouched(
    nodes: Seq<NodeView>,
    rest: Seq<SubscriptionConfigView>,
    k: int,
) -> Seq<NodeView> {
    nodes.filter(|n: NodeView| !named_before(rest, k, n.subscription))
}

proof fn lemma_reply_names(bytes: Seq<u8>, name: Seq<char>)
    requires
        subscription::response_subscription(bytes, name) is Ok,
    ensures
        ({
            let nodes = (subscription::response_subscription(bytes, name)->Ok_0).nodes;
            forall|i: int| 0 <= i < nodes.len() ==> (#[trigger] nodes[i]).subscription == name
        }),
{
    let t = subscription::decoded_response(vstd::utf8::decode_utf8(bytes))->Ok_0;
    let all = subscription::lines(subscription::entities_decoded(t));
    let nodes = (subscription::response_subscription(bytes, name)->Ok_0).nodes;
    assert forall|i: int| 0 <= i < nodes.len() implies (#[trigger] nodes[i]).subscription
        == name by {
        subscription::law_parsed_nodes(all, name, i);
    }
}

proof fn lemma_all_kept(nodes: Seq<NodeView>, name: Seq<char>)
    requires
        forall|i: int| 0 <= i < nodes.len() ==> (#[trigger] nodes[i]).subscription != name,
    ensures
        others(nodes, name) == nodes,
    decreases nodes.len(),
{
    reveal(Seq::filter);
    if nodes.len() > 0 {
        lemma_all_kept(nodes.drop_last(), name);
        assert(nodes[nodes.len() - 1].subscription != name);
        assert(nodes =~= nodes.drop_last().push(nodes.last()));
    } else {
        assert(others(nodes, name) =~= nodes);
    }
}

proof fn lemma_one_more(nodes: Seq<NodeView>, rest: Seq<SubscriptionConfigView>, k: int)
    requires
        0 <= k < rest.len(),
    ensures
        others(untouched(nodes, rest, k), rest[k].name) == untouched(nodes, rest, k + 1),
    decreases nodes.len(),
{
    reveal(Seq::filter);
    if nodes.len() > 0 {
        lemma_one_more(nodes.drop_last(), rest, k);
        let n = nodes.last();
        let u = untouched(nodes.drop_last(), rest, k);
        assert(named_before(rest, k + 1, n.subscription) <==> named_before(rest, k, n.subscription)
            || n.subscription == rest[k].name) by {
            if named_before(rest, k + 1, n.subscription) {
                let i = choose|i: int| 0 <= i < k + 1 && (#[trigger] rest[i]).name == n.subscription;
                assert(rest[i].name == n.subscription);
            }
            if named_before(rest, k, n.subscription) {
                let i = choose|i: int| 0 <= i < k && (#[trigger] rest[i]).name == n.subscription;
                assert(rest[i].name == n.subscription);
            }
        }
        if !named_before(rest, k, n.subscription) {
            assert(u.push(n).drop_last() =~= u);
        }
    } else {
        assert(untouched(nodes, rest, k) =~= Seq::<NodeView>::empty());
    }
}

proof fn lemma_fresh_named(
    rest: Seq<SubscriptionConfigView>,
    replies: Seq<Option<Seq<u8>>>,
    k: nat,
)
    requires
        k <= rest.len(),
        k <= replies.len(),
        forall|i: int| 0 <= i < k ==> is_good(#[trigger] rest[i], replies[i]),
    ensures
        forall|j: int|
            0 <= j < fresh_nodes(rest, replies, k).len() ==> named_before(
                rest,
                k as int,
                (#[trigger] fresh_nodes(rest, replies, k)[j]).subscription,
            ),
    decreases k,
{
    if k > 0 {
        let before = fresh_nodes(rest, replies, (k - 1) as nat);
        let added = (subscription::response_subscription(
            replies[k - 1]->0,
            rest[k - 1].name,
        )->Ok_0).nodes;
        lemma_fresh_named(rest, replies, (k - 1) as nat);
        assert(is_good(rest[k - 1], replies[k - 1]));
        lemma_reply_names(replies[k - 1]->0, rest[k - 1].name);
        let all = fresh_nodes(rest, replies, k);
        assert forall|j: int| 0 <= j < all.len() implies named_before(
            rest,
            k as int,
            (#[trigger] all[j]).subscription,
        ) by {
            if j < before.len() {
                assert(all[j] == before[j]);
                let i = choose|i: int|
                    0 <= i < k - 1 && (#[trigger] rest[i]).name == before[j].subscription;
                assert(rest[i].name == all[j].subscription);
            } else {
                assert(all[j] == added[j - before.len()]);
                assert(rest[k - 1].name == all[j].subscription);
            }
        }
    }
}

proof fn lemma_after_good(v: RefreshView, replies: Seq<Option<Seq<u8>>>, k: nat)
    requires
        !v.failed,
        k <= v.rest.len(),
        k <= replies.len(),
        forall|i: int| 0 <= i < k ==> is_good(#[trigger] v.rest[i], replies[i]),
    ensures
        !after(v, replies.take(k as int)).failed,
        after(v, replies.take(k as int)).rest == v.rest.skip(k as int),
        after(v, replies.take(k as int)).selected == v.selected,
    decreases k,
{
    if k > 0 {
        let t = replies.take(k as int);
        assert(t.drop_last() =~= replies.take(k - 1));
        lemma_after_good(v, replies, (k - 1) as nat);
        let w = after(v, t.drop_last());
        assert(w.rest[0] == v.rest[k - 1]);
        assert(is_good(v.rest[k - 1], replies[k - 1]));
        assert(w.rest.skip(1) =~= v.rest.skip(k as int));
    } else {
        assert(v.rest.skip(0) =~= v.rest);
        assert(replies.take(0).len() == 0);
    }
}

proof fn lemma_after_nodes(v: RefreshView, replies: Seq<Option<Seq<u8>>>, k: nat)
    requires
        !v.failed,
        k <= v.rest.len(),
        k <= replies.len(),
        forall|i: int| 0 <= i < k ==> is_good(#[trigger] v.rest[i], replies[i]),
        forall|i: int, j: int|
            0 <= i < j < v.rest.len() ==> (#[trigger] v.rest[i]).name != (#[trigger] v.rest[j]).name,
    ensures
        after(v, replies.take(k as int)).so_far.nodes == untouched(
            v.so_far.nodes,
            v.rest,
            k as int,
        ) + fresh_nodes(v.rest, replies, k),
    decreases k,
{
    let nodes = v.so_far.nodes;
    if k > 0 {
        let t = replies.take(k as int);
        assert(t.drop_last() =~= replies.take(k - 1));
        lemma_after_good(v, replies, (k - 1) as nat);
        lemma_after_nodes(v, replies, (k - 1) as nat);
        let w = after(v, t.drop_last());
        let name = v.rest[k - 1].name;
        assert(w.rest[0] == v.rest[k - 1]);
        assert(is_good(v.rest[k - 1], replies[k - 1]));
        let u = untouched(nodes, v.rest, k - 1);
        let f = fresh_nodes(v.rest, replies, (k - 1) as nat);
        let parse = subscription::response_subscription(replies[k - 1]->0, name)->Ok_0;
        Seq::<NodeView>::filter_distributes_over_add(u, f, |n: NodeView| n.subscription != name);
        lemma_one_more(nodes, v.rest, k - 1);
        lemma_fresh_named(v.rest, replies, (k - 1) as nat);
        assert forall|j: int| 0 <= j < f.len() implies (#[trigger] f[j]).subscription != name by {
            assert(named_before(v.rest, k - 1, f[j].subscription));
            let i = choose|i: int|
                0 <= i < k - 1 && (#[trigger] v.rest[i]).name == f[j].subscription;
            assert(v.rest[i].name != v.rest[k - 1].name);
        }
        lemma_all_kept(f, name);
        assert(others(u + f, name) == others(u, name) + others(f, name));
        assert(untouched(nodes, v.rest, k as int) + f + parse.nodes =~= untouched(
            nodes,
            v.rest,
            k as int,
        ) + (f + parse.nodes));
    } else {
        assert(replies.take(0).len() == 0);
        lemma_untouched_at_first(nodes, v.rest);
        assert(nodes + fresh_nodes(v.rest, replies, 0) =~= nodes);
    }
}

proof fn lemma_untouched_at_first(nodes: Seq<NodeView>, rest: Seq<SubscriptionConfigView>)
    ensures
        untouched(nodes, rest, 0) == nodes,
    decreases nodes.len(),
{
    reveal(Seq::filter);
    if nodes.len() > 0 {
        lemma_untouched_at_first(nodes.drop_last(), rest);
        assert(nodes =~= nodes.drop_last().push(nodes.last()));
    } else {
        assert(untouched(nodes, rest, 0) =~= nodes);
    }
}

proof fn lemma_settled(v: RefreshView, replies: Seq<Option<Seq<u8>>>, k: int)
    requires
        0 <= k <= replies.len(),
        !asks(after(v, replies.take(k))),
    ensures
        after(v, replies) == after(v, replies.take(k)),
    decreases replies.len() - k,
{
    if k == replies.len() {
        assert(replies.take(k) =~= replies);
    } else {
        assert(replies.take(k + 1).drop_last() =~= replies.take(k));
        lemma_settled(v, replies, k + 1);
    }
}

/// Nothing is stored before each subscription that takes part was downloaded
/// and read, and nothing at all where one of them could not be: the stored
/// nodes and the saved selection stay as they were.
pub proof fn law_failed_refresh_stores_nothing(
    v: RefreshView,
    replies: Seq<Option<Seq<u8>>>,
    c: ManagerConfigView,
)
    requires
        !v.failed,
    ensures
        wanted(after(v, replies), c) is Store <==> all_good(v.rest, replies),
        !all_good(v.rest, replies) && replies.len() >= v.rest.len() ==> wanted(
            after(v, replies),
            c,
        ) is Nothing,
{
    if all_good(v.rest, replies) {
        lemma_after_good(v, replies, v.rest.len());
        lemma_settled(v, replies, v.rest.len() as int);
    } else if exists|i: int|
        0 <= i < v.rest.len() && i < replies.len() && !is_good(#[trigger] v.rest[i], replies[i]) {
        let i = choose|i: int|
            0 <= i < v.rest.len() && i < replies.len() && !is_good(
                #[trigger] v.rest[i],
                replies[i],
            );
        lemma_bad_reply(v, replies, i);
    } else {
        assert(replies.len() < v.rest.len());
        lemma_after_good(v, replies, replies.len());
        assert(replies.take(replies.len() as int) =~= replies);
    }
}

proof fn lemma_bad_reply(v: RefreshView, replies: Seq<Option<Seq<u8>>>, i: int)
    requires
        !v.failed,
        0 <= i < v.rest.len(),
        i < replies.len(),
        !is_good(v.rest[i], replies[i]),
    ensures
        after(v, replies).failed,
    decreases i,
{
    if exists|j: int| 0 <= j < i && !is_good(#[trigger] v.rest[j], replies[j]) {
        let j = choose|j: int| 0 <= j < i && !is_good(#[trigger] v.rest[j], replies[j]);
        lemma_bad_reply(v, replies, j);
    } else {
        lemma_after_good(v, replies, i as nat);
        let w = after(v, replies.take(i));
        assert(w.rest[0] == v.rest[i]);
        assert(replies.take(i + 1).drop_last() =~= replies.take(i));
        lemma_settled(v, replies, i + 1);
    }
}

/// A refresh of subscriptions with names of their own stores, in the order of
/// their names, the nodes of every subscription that took no part and those of
/// the replies, and no others.
pub proof fn law_refresh_stores_every_node(
    v: RefreshView,
    replies: Seq<Option<Seq<u8>>>,
    c: ManagerConfigView,
)
    requires
        !v.failed,
        all_good(v.rest, replies),
        forall|i: int, j: int|
            0 <= i < j < v.rest.len() ==> (#[trigger] v.rest[i]).name != (#[trigger] v.rest[j]).name,
    ensures
        wanted(after(v, replies), c) matches RefreshActionView::Store(store) && {
            &&& ordered_by_name(store.nodes)
            &&& store.nodes.to_multiset() == (untouched(
                v.so_far.nodes,
                v.rest,
                v.rest.len() as int,
            ) + fresh_nodes(v.rest, replies, v.rest.len())).to_multiset()
        },
{
    let n = v.rest.len();
    law_failed_refresh_stores_nothing(v, replies, c);
    lemma_after_good(v, replies, n);
    lemma_settled(v, replies, n as int);
    lemma_after_nodes(v, replies, n);
    let w = after(v, replies);
    law_sort_is_a_permutation(w.so_far.nodes);
    law_sort_orders_by_name(w.so_far.nodes);
}

/// Whether a stored subscription that takes part has the name.
pub open spec fn replaced(
    subs: Seq<SubscriptionConfigView>,
    requested: Option<Seq<char>>,
    name: Seq<char>,
) -> bool {
    exists|i: int|
        0 <= i < subs.len() && takes_part(#[trigger] subs[i], requested) && subs[i].name == name
}

pub open spec fn distinct_names(subs: Seq<SubscriptionConfigView>) -> bool {
    forall|i: int, j: int|
        0 <= i < j < subs.len() ==> (#[trigger] subs[i]).name != (#[trigger] subs[j]).name
}

proof fn lemma_filter_distinct(
    s: Seq<SubscriptionConfigView>,
    f: spec_fn(SubscriptionConfigView) -> bool,
)
    requires
        distinct_names(s),
    ensures
        distinct_names(s.filter(f)),
        forall|x: SubscriptionConfigView|
            #[trigger] s.filter(f).contains(x) <==> s.contains(x) && f(x),
    decreases s.len(),
{
    reveal(Seq::filter);
    let p = s.filter(f);
    if s.len() > 0 {
        let rest = s.drop_last();
        let q = rest.filter(f);
        assert forall|i: int, j: int| 0 <= i < j < rest.len() implies (#[trigger] rest[i]).name != (
        #[trigger] rest[j]).name by {
            assert(rest[i] == s[i] && rest[j] == s[j]);
        }
        lemma_filter_distinct(rest, f);
        assert forall|x: SubscriptionConfigView| s.contains(x) <==> #[trigger] rest.contains(x) || x
            == s.last() by {
            if s.contains(x) {
                let k = s.index_of(x);
                if k < rest.len() {
                    assert(rest[k] == x);
                }
            }
            if rest.contains(x) {
                let k = rest.index_of(x);
                assert(s[k] == x);
            }
            if x == s.last() {
                assert(s[s.len() - 1] == x);
            }
        }
        assert forall|x: SubscriptionConfigView| #[trigger] p.contains(x) <==> s.contains(x) && f(
            x,
        ) by {
            if p.contains(x) {
                let k = p.index_of(x);
                if k < q.len() {
                    assert(q[k] == x);
                    assert(q.contains(x));
                }
            }
            if s.contains(x) && f(x) {
                if rest.contains(x) {
                    assert(q.contains(x));
                    let k = q.index_of(x);
                    assert(p[k] == x);
                } else {
                    assert(p[p.len() - 1] == x);
                }
            }
        }
        assert forall|i: int, j: int| 0 <= i < j < p.len() implies (#[trigger] p[i]).name != (
        #[trigger] p[j]).name by {
            assert(p[i] == q[i]);
            if j < q.len() {
                assert(p[j] == q[j]);
            } else {
                assert(q.contains(q[i]));
                let k = rest.index_of(q[i]);
                assert(s[k] == q[i]);
                assert(s[k].name != s[s.len() - 1].name);
            }
        }
    }
}

proof fn lemma_participants(subs: Seq<SubscriptionConfigView>, requested: Option<Seq<char>>)
    requires
        distinct_names(subs),
    ensures
        distinct_names(participants(subs, requested)),
        forall|name: Seq<char>|
            #[trigger] named_before(
                participants(subs, requested),
                participants(subs, requested).len() as int,
                name,
            ) <==> replaced(subs, requested, name),
{
    let names = order::subscription_names(subs);
    let order = order::name_order(names);
    order::law_names_are_ordered(names);
    let sorted = order::subscriptions_by_name(subs);
    let fits = |s: SubscriptionConfigView| takes_part(s, requested);
    assert forall|a: int, b: int| 0 <= a < b < sorted.len() implies (#[trigger] sorted[a]).name != (
    #[trigger] sorted[b]).name by {
        assert(order.contains(order[a]) && order.contains(order[b]));
        assert(order[a] != order[b]);
        if order[a] < order[b] {
            assert(subs[order[a]].name != subs[order[b]].name);
        } else {
            assert(subs[order[b]].name != subs[order[a]].name);
        }
    }
    lemma_filter_distinct(sorted, fits);
    let rest = participants(subs, requested);
    assert forall|name: Seq<char>|
        #[trigger] named_before(rest, rest.len() as int, name) <==> replaced(
            subs,
            requested,
            name,
        ) by {
        if named_before(rest, rest.len() as int, name) {
            let i = choose|i: int| 0 <= i < rest.len() && (#[trigger] rest[i]).name == name;
            assert(rest.contains(rest[i]));
            let k = sorted.index_of(rest[i]);
            assert(order.contains(order[k]));
            assert(subs[order[k]] == rest[i]);
        }
        if replaced(subs, requested, name) {
            let i = choose|i: int|
                0 <= i < subs.len() && takes_part(#[trigger] subs[i], requested) && subs[i].name
                    == name;
            assert(order.contains(i));
            let k = order.index_of(i);
            assert(sorted[k] == subs[i]);
            assert(sorted.contains(subs[i]));
            assert(rest.contains(subs[i]));
            let m = rest.index_of(subs[i]);
            assert(rest[m].name == name);
        }
    }
}

proof fn lemma_same_filter(
    nodes: Seq<NodeView>,
    f: spec_fn(NodeView) -> bool,
    g: spec_fn(NodeView) -> bool,
)
    requires
        forall|n: NodeView| #[trigger] f(n) == g(n),
    ensures
        nodes.filter(f) == nodes.filter(g),
    decreases nodes.len(),
{
    reveal(Seq::filter);
    if nodes.len() > 0 {
        lemma_same_filter(nodes.drop_last(), f, g);
        assert(f(nodes.last()) == g(nodes.last()));
    }
}

/// What a whole refresh of the stored subscriptions stores, once every one that
/// takes part was downloaded and read: the nodes of all other subscriptions and
/// those of the replies, no others, in the order of their names.
pub proof fn law_whole_refresh(
    requested: Option<Seq<char>>,
    subs: Seq<SubscriptionConfigView>,
    nodes: Seq<NodeView>,
    selected: Option<Seq<char>>,
    replies: Seq<Option<Seq<u8>>>,
    c: ManagerConfigView,
)
    requires
        distinct_names(subs),
        all_good(participants(subs, requested), replies),
    ensures
        wanted(
            after(begun(requested, subs, nodes, selected), replies),
            c,
        ) matches RefreshActionView::Store(store) && {
            let rest = participants(subs, requested);
            &&& ordered_by_name(store.nodes)
            &&& store.nodes.to_multiset() == (nodes.filter(
                |n: NodeView| !replaced(subs, requested, n.subscription),
            ) + fresh_nodes(rest, replies, rest.len())).to_multiset()
        },
{
    let v = begun(requested, subs, nodes, selected);
    let n = v.rest.len() as int;
    lemma_participants(subs, requested);
    law_refresh_stores_every_node(v, replies, c);
    let f = |x: NodeView| !named_before(v.rest, n, x.subscription);
    let g = |x: NodeView| !replaced(subs, requested, x.subscription);
    assert forall|x: NodeView| #[trigger] f(x) == g(x) by {
        assert(named_before(v.rest, n, x.subscription) <==> replaced(
            subs,
            requested,
            x.subscription,
        ));
    }
    lemma_same_filter(nodes, f, g);
}

} // verus!

//! What subscriptions and their refresh make of nodes.

use crate::config::{ManagerConfigView, SubscriptionConfigView};
use crate::domain::{identity_text, reconciled, same_place, NodeView, Protocol};
use crate::domain;
use crate::dto::node_dto;
use crate::error;
use crate::outside::unicode_lower;
use crate::protocols::uri_node;
use crate::protocols::vmess::flexible_base64;
use crate::refresh::{refreshed, reselection, subscription_download, takes_part, wanted};
use crate::refresh::{Refreshed, RefreshActionView, RefreshView};
use crate::refresh;
use crate::subscription::{entities_decoded, holds_link, html_like, parsed_lines, response_subscription, SubscriptionParseView};
use crate::subscription;
use crate::text::{ascii_lower, decimal, has_infix, has_prefix, replaced, trim_front, trimmed};
use vstd::prelude::*;

verus! {

/// What one more line adds to a subscription: nothing where it is blank or a
/// comment, its node where it is a link, and otherwise a warning that names the
/// line and tells why.
pub proof fn law_line_of_subscription(all: Seq<Seq<char>>, line: Seq<char>, subscription: Seq<char>)
    ensures
        ({
            let before = parsed_lines(all, subscription);
            let after = parsed_lines(all.push(line), subscription);
            let t = trimmed(line);
            &&& t.len() == 0 || t[0] == '#' ==> after == before
            &&& t.len() > 0 && t[0] != '#' ==> match uri_node(t, subscription) {
                Ok(n) => after.nodes == before.nodes.push(n) && after.warnings == before.warnings,
                Err(e) => after.nodes == before.nodes && after.warnings == before.warnings.push(
                    "line "@ + decimal(all.len() + 1) + ": "@ + error::error_message(e),
                ),
            }
        }),
{
    assert(all.push(line).drop_last() =~= all);
}

/// A response is refused where it is no text, or an HTML page, or gives no node.
/// One that holds a link is read as it is, and any other as Base64.
pub proof fn law_response(input: Seq<u8>, subscription: Seq<char>)
    ensures
        ({
            let s = vstd::utf8::decode_utf8(input);
            let r = response_subscription(input, subscription);
            &&& !vstd::utf8::valid_utf8(input) ==> r is Err
            &&& html_like(s) ==> r is Err
            &&& r matches Ok(parse) ==> parse.nodes.len() > 0
            &&& vstd::utf8::valid_utf8(input) && !html_like(s) && holds_link(s) ==> {
                let parse = parsed_lines(subscription::lines(entities_decoded(s)), subscription);
                &&& r is Ok <==> parse.nodes.len() > 0
                &&& r matches Ok(p) ==> p == parse
            }
            &&& vstd::utf8::valid_utf8(input) && !html_like(s) && !holds_link(s) ==> (
            match flexible_base64(s) {
                None => r is Err,
                Some(bytes) => if vstd::utf8::valid_utf8(bytes) {
                    let parse = parsed_lines(
                        subscription::lines(entities_decoded(vstd::utf8::decode_utf8(bytes))),
                        subscription,
                    );
                    (r is Ok <==> parse.nodes.len() > 0) && (r matches Ok(p) ==> p == parse)
                } else {
                    r is Err
                },
            })
        }),
{
}

/// A text holds a link exactly where it holds the beginning of one of the six
/// schemes, and is an HTML page where it begins like one, in any case of
/// letters and behind white space.
pub proof fn law_kinds_of_response(s: Seq<char>)
    ensures
        holds_link(s) <==> has_infix(s, "vless://"@) || has_infix(s, "vmess://"@) || has_infix(
            s,
            "trojan://"@,
        ) || has_infix(s, "ss://"@) || has_infix(s, "hysteria2://"@) || has_infix(s, "hy2://"@),
        html_like(s) <==> {
            let t = ascii_lower(trim_front(s));
            has_prefix(t, "<!doctype html"@) || has_prefix(t, "<html"@) || has_prefix(t, "<?xml"@)
        },
{
}

/// Where the only ampersand of a text stands.
spec fn ampersand_only_at(s: Seq<char>, i: int) -> bool {
    forall|j: int| 0 <= j < s.len() && #[trigger] s[j] == '&' ==> j == i
}

proof fn lemma_kept(s: Seq<char>, i: int, from: Seq<char>, to: Seq<char>)
    requires
        from.len() > 0,
        from[0] == '&',
        ampersand_only_at(s, i),
        0 <= i < s.len() ==> !has_prefix(s.skip(i), from),
    ensures
        replaced(s, from, to) == s,
    decreases s.len(),
{
    if s.len() >= from.len() {
        if has_prefix(s, from) {
            assert(s.subrange(0, from.len() as int)[0] == s[0]);
            assert(i == 0);
            assert(s.skip(0) =~= s);
        }
        let rest = s.drop_first();
        assert forall|j: int| 0 <= j < rest.len() && #[trigger] rest[j] == '&' implies j == i - 1 by {
            assert(s[j + 1] == '&');
        }
        if 0 <= i - 1 < rest.len() {
            assert(rest.skip(i - 1) =~= s.skip(i));
        }
        lemma_kept(rest, i - 1, from, to);
        assert(seq![s[0]] + rest =~= s);
    }
}

proof fn lemma_put(a: Seq<char>, from: Seq<char>, b: Seq<char>, to: Seq<char>)
    requires
        from.len() > 0,
        from[0] == '&',
        !a.contains('&'),
        !b.contains('&'),
    ensures
        replaced(a + from + b, from, to) == a + to + b,
    decreases a.len(),
{
    let s = a + from + b;
    if a.len() == 0 {
        assert(s.subrange(0, from.len() as int) =~= from);
        assert(s.skip(from.len() as int) =~= b);
        assert(ampersand_only_at(b, -1)) by {
            assert forall|j: int| 0 <= j < b.len() && #[trigger] b[j] == '&' implies j == -1 by {
                assert(b.contains(b[j]));
            }
        }
        lemma_kept(b, -1, from, to);
        assert(to + b =~= a + to + b);
    } else {
        if has_prefix(s, from) {
            assert(s.subrange(0, from.len() as int)[0] == s[0]);
            assert(a[0] == '&');
            assert(a.contains(a[0]));
        }
        let rest = a.drop_first();
        assert(s.drop_first() =~= rest + from + b);
        assert(!rest.contains('&')) by {
            if rest.contains('&') {
                let j = choose|j: int| 0 <= j < rest.len() && rest[j] == '&';
                assert(a[j + 1] == '&');
            }
        }
        lemma_put(rest, from, b, to);
        assert(seq![s[0]] + (rest + to + b) =~= a + to + b);
    }
}

proof fn lemma_other_entity(a: Seq<char>, e: Seq<char>, b: Seq<char>, from: Seq<char>, to: Seq<char>)
    requires
        from.len() > 1,
        from[0] == '&',
        e.len() > 1,
        e[1] != from[1],
        forall|j: int| 1 <= j < e.len() ==> #[trigger] e[j] != '&',
        !a.contains('&'),
        !b.contains('&'),
    ensures
        replaced(a + e + b, from, to) == a + e + b,
{
    let s = a + e + b;
    let i = a.len() as int;
    assert forall|j: int| 0 <= j < s.len() && #[trigger] s[j] == '&' implies j == i by {
        if j < i {
            assert(a.contains(a[j]));
        } else if j >= i + e.len() {
            assert(b.contains(b[j - i - e.len()]));
        } else if j > i {
            assert(e[j - i] != '&');
        }
    }
    if has_prefix(s.skip(i), from) {
        assert(s.skip(i).subrange(0, from.len() as int)[1] == e[1]);
    }
    lemma_kept(s, i, from, to);
}

/// The five entities stand for these characters.
pub proof fn law_entities(a: Seq<char>, b: Seq<char>)
    requires
        !a.contains('&'),
        !b.contains('&'),
    ensures
        entities_decoded(a + b) == a + b,
        entities_decoded(a + "&lt;"@ + b) == a + "<"@ + b,
        entities_decoded(a + "&gt;"@ + b) == a + ">"@ + b,
        entities_decoded(a + "&quot;"@ + b) == a + "\""@ + b,
        entities_decoded(a + "&#39;"@ + b) == a + "'"@ + b,
        !b.contains(';') ==> entities_decoded(a + "&amp;"@ + b) == a + "&"@ + b,
{
    reveal_strlit("&amp;");
    reveal_strlit("&lt;");
    reveal_strlit("&gt;");
    reveal_strlit("&quot;");
    reveal_strlit("&#39;");
    reveal_strlit("&");
    reveal_strlit("<");
    reveal_strlit(">");
    reveal_strlit("\"");
    reveal_strlit("'");
    lemma_plain(a, Seq::empty(), b);
    assert(a + Seq::<char>::empty() + b =~= a + b);
    // Less than.
    lemma_other_entity(a, "&lt;"@, b, "&amp;"@, "&"@);
    lemma_put(a, "&lt;"@, b, "<"@);
    lemma_plain(a, "<"@, b);
    // Greater than.
    lemma_other_entity(a, "&gt;"@, b, "&amp;"@, "&"@);
    lemma_other_entity(a, "&gt;"@, b, "&lt;"@, "<"@);
    lemma_put(a, "&gt;"@, b, ">"@);
    lemma_plain(a, ">"@, b);
    // Quotes.
    lemma_other_entity(a, "&quot;"@, b, "&amp;"@, "&"@);
    lemma_other_entity(a, "&quot;"@, b, "&lt;"@, "<"@);
    lemma_other_entity(a, "&quot;"@, b, "&gt;"@, ">"@);
    lemma_put(a, "&quot;"@, b, "\""@);
    lemma_plain(a, "\""@, b);
    lemma_other_entity(a, "&#39;"@, b, "&amp;"@, "&"@);
    lemma_other_entity(a, "&#39;"@, b, "&lt;"@, "<"@);
    lemma_other_entity(a, "&#39;"@, b, "&gt;"@, ">"@);
    lemma_other_entity(a, "&#39;"@, b, "&quot;"@, "\""@);
    lemma_put(a, "&#39;"@, b, "'"@);
    // Ampersand.
    lemma_put(a, "&amp;"@, b, "&"@);
    if !b.contains(';') {
        lemma_unended(a, b, "&lt;"@, "<"@, 3);
        lemma_unended(a, b, "&gt;"@, ">"@, 3);
        lemma_unended(a, b, "&quot;"@, "\""@, 5);
        lemma_unended(a, b, "&#39;"@, "'"@, 4);
    }
}

proof fn lemma_unended(a: Seq<char>, b: Seq<char>, from: Seq<char>, to: Seq<char>, k: int)
    requires
        !a.contains('&'),
        !b.contains('&'),
        !b.contains(';'),
        1 <= k < from.len(),
        from[0] == '&',
        from[k] == ';',
    ensures
        replaced(a + "&"@ + b, from, to) == a + "&"@ + b,
{
    reveal_strlit("&");
    let s = a + "&"@ + b;
    let i = a.len() as int;
    assert forall|j: int| 0 <= j < s.len() && #[trigger] s[j] == '&' implies j == i by {
        if j < i {
            assert(a.contains(a[j]));
        } else if j > i {
            assert(b.contains(b[j - i - 1]));
        }
    }
    if has_prefix(s.skip(i), from) {
        assert(s.skip(i).subrange(0, from.len() as int)[k] == s[i + k]);
        assert(s[i + k] == b[k - 1]);
        assert(b.contains(b[k - 1]));
    }
    lemma_kept(s, i, from, to);
}

/// A text without ampersands stays as it is.
proof fn lemma_plain(a: Seq<char>, c: Seq<char>, b: Seq<char>)
    requires
        !a.contains('&'),
        !b.contains('&'),
        !c.contains('&'),
    ensures
        replaced(a + c + b, "&amp;"@, "&"@) == a + c + b,
        replaced(a + c + b, "&lt;"@, "<"@) == a + c + b,
        replaced(a + c + b, "&gt;"@, ">"@) == a + c + b,
        replaced(a + c + b, "&quot;"@, "\""@) == a + c + b,
        replaced(a + c + b, "&#39;"@, "'"@) == a + c + b,
{
    reveal_strlit("&amp;");
    reveal_strlit("&lt;");
    reveal_strlit("&gt;");
    reveal_strlit("&quot;");
    reveal_strlit("&#39;");
    let s = a + c + b;
    assert forall|j: int| 0 <= j < s.len() && #[trigger] s[j] == '&' implies j == -1 by {
        if j < a.len() {
            assert(a.contains(a[j]));
        } else if j < a.len() + c.len() {
            assert(c.contains(c[j - a.len()]));
        } else {
            assert(b.contains(b[j - a.len() - c.len()]));
        }
    }
    lemma_kept(s, -1, "&amp;"@, "&"@);
    lemma_kept(s, -1, "&lt;"@, "<"@);
    lemma_kept(s, -1, "&gt;"@, ">"@);
    lemma_kept(s, -1, "&quot;"@, "\""@);
    lemma_kept(s, -1, "&#39;"@, "'"@);
}

/// Which subscriptions a refresh asks: the enabled ones, and of these only the
/// requested one where one was requested. It asks their own address, within the
/// configured size and time.
pub proof fn law_refresh_asks(
    s: SubscriptionConfigView,
    c: ManagerConfigView,
    requested: Option<Seq<char>>,
)
    requires
        c.general.max_subscription_size_mb * 1048576 <= u64::MAX,
    ensures
        takes_part(s, None) <==> s.enabled,
        requested is Some ==> (takes_part(s, requested) <==> s.enabled && requested == Some(s.name)),
        ({
            let q = subscription_download(s, c);
            &&& q.url == s.url
            &&& q.max_bytes == c.general.max_subscription_size_mb * 1048576
            &&& q.timeout_seconds == c.general.request_timeout_seconds
            &&& q.max_redirects == 5
        }),
{
}

/// What a refreshed subscription does to the nodes: its old ones are gone, its
/// new ones are there, and those of others stay; each of its warnings is told
/// with its name.
pub proof fn law_refresh_replaces(
    before: Refreshed,
    name: Seq<char>,
    parse: SubscriptionParseView,
    n: NodeView,
    i: int,
)
    ensures
        refreshed(before, name, parse).nodes.contains(n) <==> parse.nodes.contains(n)
            || before.nodes.contains(n) && n.subscription != name,
        0 <= i < before.warnings.len() ==> refreshed(before, name, parse).warnings[i]
            == before.warnings[i],
        parse.warnings.len() > 0 ==> refreshed(before, name, parse).warnings.last() == name + ": "@
            + parse.warnings.last(),
{
    let keep = |x: NodeView| x.subscription != name;
    crate::laws::routing::lemma_filtered(before.nodes, keep);
    let kept = refresh::others(before.nodes, name);
    let all = refreshed(before, name, parse).nodes;
    assert(kept == before.nodes.filter(keep));
    if kept.contains(n) {
        let k = choose|k: int| 0 <= k < kept.len() && kept[k] == n;
        assert(all[k] == n);
    }
    if parse.nodes.contains(n) {
        let k = choose|k: int| 0 <= k < parse.nodes.len() && parse.nodes[k] == n;
        assert(all[kept.len() + k] == n);
    }
    if before.nodes.contains(n) && n.subscription != name {
        let k = choose|k: int| 0 <= k < before.nodes.len() && before.nodes[k] == n;
        assert(keep(before.nodes[k]));
    }
    if all.contains(n) {
        let k = choose|k: int| 0 <= k < all.len() && all[k] == n;
        if k < kept.len() {
            assert(kept[k] == n);
            assert(before.nodes.filter(keep).contains(n));
        } else {
            assert(parse.nodes[k - kept.len()] == n);
        }
    }
    if parse.warnings.len() > 0 {
        let w = refresh::labelled(name, parse.warnings);
        assert(refreshed(before, name, parse).warnings.last() == w.last());
    }
}

/// What becomes of the selected node: where its ID is still there it stays
/// selected without a word; where it is gone and just one node has its name, up
/// to the case of letters and white space around it, in its subscription, that
/// one is selected with a warning; otherwise the selection stays, with a warning.
pub proof fn law_selection_after_refresh(old: NodeView, nodes: Seq<NodeView>, i: int)
    requires
        0 <= i < nodes.len(),
    ensures
        nodes[i].id == old.id ==> reselection(old, nodes).selected is None && reselection(
            old,
            nodes,
        ).warning is None,
        ((forall|j: int| 0 <= j < nodes.len() ==> (#[trigger] nodes[j]).id != old.id)
            && nodes[i].subscription == old.subscription && unicode_lower(trimmed(nodes[i].name))
            == unicode_lower(trimmed(old.name)) && (forall|j: int|
            0 <= j < nodes.len() && j != i ==> (#[trigger] nodes[j]).subscription
                != old.subscription || unicode_lower(trimmed(nodes[j].name)) != unicode_lower(
                trimmed(old.name),
            ))) ==> reselection(old, nodes).selected == Some(nodes[i].id) && reselection(
            old,
            nodes,
        ).warning is Some,
        reselection(old, nodes).selected matches Some(id) ==> exists|j: int|
            0 <= j < nodes.len() && (#[trigger] nodes[j]).id == id && nodes[j].subscription
                == old.subscription && unicode_lower(trimmed(nodes[j].name)) == unicode_lower(
                trimmed(old.name),
            ),
{
    if nodes[i].id == old.id {
        domain::law_reconcile_prefers_exact_id(old, old.id, nodes, i);
    }
    let found = reconciled(old, old.id, nodes);
    if forall|j: int| 0 <= j < nodes.len() ==> (#[trigger] nodes[j]).id != old.id {
        if exists|k: int| domain::only_in_place(nodes, old, k) {
            let k = choose|k: int| domain::only_in_place(nodes, old, k);
            assert(same_place(nodes[k], old));
            assert(found == Some(k));
            if same_place(nodes[i], old) {
                assert(k == i);
            }
        } else if nodes[i].subscription == old.subscription && unicode_lower(trimmed(nodes[i].name))
            == unicode_lower(trimmed(old.name)) && (forall|j: int|
            0 <= j < nodes.len() && j != i ==> (#[trigger] nodes[j]).subscription
                != old.subscription || unicode_lower(trimmed(nodes[j].name)) != unicode_lower(
                trimmed(old.name),
            )) {
            assert(same_place(nodes[i], old));
            assert forall|j: int| 0 <= j < nodes.len() && j != i implies !same_place(
                #[trigger] nodes[j],
                old,
            ) by {}
            assert(domain::only_in_place(nodes, old, i));
        }
    } else {
        let j = choose|j: int| 0 <= j < nodes.len() && (#[trigger] nodes[j]).id == old.id;
        domain::law_reconcile_prefers_exact_id(old, old.id, nodes, j);
    }
}

/// A refresh that has asked all stores the nodes in the order of their names,
/// and a selected node only where that changed.
pub proof fn law_refresh_stores(v: RefreshView, c: ManagerConfigView)
    requires
        !v.failed,
        v.rest.len() == 0,
    ensures
        wanted(v, c) matches RefreshActionView::Store(s) && {
            &&& s.nodes.to_multiset() == v.so_far.nodes.to_multiset()
            &&& refresh::ordered_by_name(s.nodes)
            &&& v.selected is None ==> s.selected is None && s.warnings == v.so_far.warnings
            &&& v.selected matches Some(old) ==> s.selected == reselection(old, s.nodes).selected
        },
{
    refresh::law_sort_is_a_permutation(v.so_far.nodes);
    refresh::law_sort_orders_by_name(v.so_far.nodes);
}

proof fn lemma_same_end(a: Seq<char>, b: Seq<char>, x: Seq<char>)
    requires
        a + x == b + x,
    ensures
        a == b,
{
    let s = a + x;
    let t = b + x;
    assert(s.len() == a.len() + x.len() && t.len() == b.len() + x.len());
    assert forall|i: int| 0 <= i < a.len() implies a[i] == b[i] by {
        assert(s[i] == a[i] && t[i] == b[i]);
    }
    assert(a =~= b);
}

proof fn lemma_same_start(a: Seq<char>, x: Seq<char>, y: Seq<char>)
    requires
        a + x == a + y,
    ensures
        x == y,
{
    let s = a + x;
    let t = a + y;
    assert(s.len() == a.len() + x.len() && t.len() == a.len() + y.len());
    assert forall|i: int| 0 <= i < x.len() implies x[i] == y[i] by {
        assert(s[a.len() + i] == x[i] && t[a.len() + i] == y[i]);
    }
    assert(x =~= y);
}

/// The parts of an identity up to the server, the port, the user and the password.
spec fn identity_part(n: NodeView, k: nat) -> Seq<char> {
    let bar = "|"@;
    let p = domain::protocol_name(n.protocol) + bar + ascii_lower(n.server);
    let d = p + bar + decimal(n.port as nat);
    let u = d + bar + crate::text::text_or(n.credentials.user, ""@);
    let w = u + bar + crate::text::text_or(n.credentials.password, ""@);
    if k == 0 {
        p
    } else if k == 1 {
        d
    } else if k == 2 {
        u
    } else {
        w
    }
}

proof fn lemma_identity_parts(a: NodeView, b: NodeView)
    requires
        identity_text(a) == identity_text(b),
        a.subscription == b.subscription,
        a.transport == b.transport,
        a.security == b.security,
    ensures
        identity_part(a, 3) == identity_part(b, 3),
{
    let bar = "|"@;
    let t = domain::shown_transport(b.transport);
    let c = domain::shown_security(b.security);
    let x = identity_part(a, 3);
    let y = identity_part(b, 3);
    lemma_same_end(x + bar + t + bar + c + bar, y + bar + t + bar + c + bar, b.subscription);
    lemma_same_end(x + bar + t + bar + c, y + bar + t + bar + c, bar);
    lemma_same_end(x + bar + t + bar, y + bar + t + bar, c);
    lemma_same_end(x + bar + t, y + bar + t, bar);
    lemma_same_end(x + bar, y + bar, t);
    lemma_same_end(x, y, bar);
}

/// Nodes that differ in just one of these have different identities: the
/// subscription, the port, the server up to the case of letters, the user, the
/// password.
pub proof fn law_identity_tells_nodes_apart(a: NodeView, b: NodeView)
    ensures
        a.subscription != b.subscription && a == (NodeView {
            subscription: a.subscription,
            ..b
        }) ==> identity_text(a) != identity_text(b),
        a.port != b.port && a == (NodeView { port: a.port, ..b }) ==> identity_text(a)
            != identity_text(b),
        ascii_lower(a.server) != ascii_lower(b.server) && a == (NodeView { server: a.server, ..b })
            ==> identity_text(a) != identity_text(b),
        (a.credentials.user matches Some(u) && b.credentials.user matches Some(v) && u != v) && a
            == (NodeView { credentials: a.credentials, ..b }) && a.credentials.password
            == b.credentials.password ==> identity_text(a) != identity_text(b),
        (a.credentials.password matches Some(u) && b.credentials.password matches Some(v) && u != v)
            && a == (NodeView { credentials: a.credentials, ..b }) && a.credentials.user
            == b.credentials.user ==> identity_text(a) != identity_text(b),
{
    let bar = "|"@;
    let u = |n: NodeView| crate::text::text_or(n.credentials.user, ""@);
    let w = |n: NodeView| crate::text::text_or(n.credentials.password, ""@);
    if identity_text(a) == identity_text(b) {
        if a == (NodeView { subscription: a.subscription, ..b }) {
            let head = identity_part(b, 3) + bar + domain::shown_transport(b.transport) + bar
                + domain::shown_security(b.security) + bar;
            lemma_same_start(head, a.subscription, b.subscription);
        }
        if a.subscription == b.subscription && a.transport == b.transport && a.security
            == b.security {
            lemma_identity_parts(a, b);
            if a.credentials.user == b.credentials.user && a.protocol == b.protocol && a.server
                == b.server && a.port == b.port {
                lemma_same_start(identity_part(b, 2) + bar, w(a), w(b));
            }
            if a.credentials.password == b.credentials.password {
                lemma_same_end(identity_part(a, 2) + bar, identity_part(b, 2) + bar, w(b));
                lemma_same_end(identity_part(a, 2), identity_part(b, 2), bar);
                if a.protocol == b.protocol && a.server == b.server && a.port == b.port {
                    lemma_same_start(identity_part(b, 1) + bar, u(a), u(b));
                }
                if a.credentials.user == b.credentials.user {
                    lemma_same_end(identity_part(a, 1) + bar, identity_part(b, 1) + bar, u(b));
                    lemma_same_end(identity_part(a, 1), identity_part(b, 1), bar);
                    if a.protocol == b.protocol && a.server == b.server {
                        lemma_same_start(
                            identity_part(b, 0) + bar,
                            decimal(a.port as nat),
                            decimal(b.port as nat),
                        );
                        crate::text::law_decimal_reads_back(a.port as nat);
                        crate::text::law_decimal_reads_back(b.port as nat);
                    }
                    if a.protocol == b.protocol && a.port == b.port {
                        let d = decimal(b.port as nat);
                        lemma_same_end(identity_part(a, 0) + bar, identity_part(b, 0) + bar, d);
                        lemma_same_end(identity_part(a, 0), identity_part(b, 0), bar);
                        lemma_same_start(
                            domain::protocol_name(b.protocol) + bar,
                            ascii_lower(a.server),
                            ascii_lower(b.server),
                        );
                    }
                }
            }
        }
    }
}

/// What is shown of a node: its server and port as the endpoint, and how far it
/// is supported: wholly without warnings, not at all where a Hysteria2 node has
/// any, and in part otherwise.
pub proof fn law_shown_node(n: NodeView)
    ensures
        node_dto(n).endpoint == n.server + ":"@ + decimal(n.port as nat),
        node_dto(n).name == n.name && node_dto(n).subscription == n.subscription,
        node_dto(n).protocol == n.protocol && node_dto(n).warnings == n.warnings,
        node_dto(n).id == domain::short_of(n.id),
        n.warnings.len() == 0 ==> node_dto(n).support == "supported"@,
        n.warnings.len() > 0 && n.protocol == Protocol::Hysteria2 ==> node_dto(n).support
            == "unsupported"@,
        n.warnings.len() > 0 && n.protocol != Protocol::Hysteria2 ==> node_dto(n).support
            == "partial"@,
{
}

} // verus!

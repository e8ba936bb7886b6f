//! Subscriptions: lists of share links, plain or in Base64.

use crate::domain::{Node, NodeView};
use crate::error::{ManagerError, ManagerErrorView};
use crate::domain;
use crate::error;
use crate::outside;
use crate::protocols;
use crate::text;
use crate::protocols::vmess;
use vstd::prelude::*;

verus! {

/// The nodes of a subscription, and what was wrong with the other lines.
pub struct SubscriptionParse {
    pub nodes: Vec<Node>,
    pub warnings: Vec<String>,
}

/// The mathematical value of a [`SubscriptionParse`].
#[verifier::ext_equal]
pub struct SubscriptionParseView {
    pub nodes: Seq<NodeView>,
    pub warnings: Seq<Seq<char>>,
}

impl View for SubscriptionParse {
    type V = SubscriptionParseView;

    open spec fn view(&self) -> SubscriptionParseView {
        SubscriptionParseView { nodes: domain::node_views(self.nodes@), warnings: text::texts(self.warnings@) }
    }
}

/// Whether a text holds a link of a supported scheme.
pub open spec fn holds_link(s: Seq<char>) -> bool {
    text::has_infix(s, "vless://"@) || text::has_infix(s, "vmess://"@) || text::has_infix(s, "trojan://"@)
        || text::has_infix(s, "ss://"@) || text::has_infix(s, "hysteria2://"@) || text::has_infix(s, "hy2://"@)
}

/// Whether a text holds a link of a supported scheme.
pub fn contains_supported_uri(s: &str) -> (r: bool)
    ensures
        r == holds_link(s@),
{
    text::contains(s, "vless://") || text::contains(s, "vmess://") || text::contains(s, "trojan://") || text::contains(
        s,
        "ss://",
    ) || text::contains(s, "hysteria2://") || text::contains(s, "hy2://")
}

/// Whether a text begins like an HTML or XML document.
pub open spec fn html_like(s: Seq<char>) -> bool {
    let p = text::ascii_lower(text::trim_front(s));
    text::has_prefix(p, "<!doctype html"@) || text::has_prefix(p, "<html"@) || text::has_prefix(p, "<?xml"@)
}

/// Whether a text begins like an HTML or XML document.
pub fn looks_like_html(s: &str) -> (r: bool)
    ensures
        r == html_like(s@),
{
    let p = text::to_ascii_lowercase(text::trim_start(s).as_str());
    text::starts_with(p.as_str(), "<!doctype html") || text::starts_with(p.as_str(), "<html") || text::starts_with(
        p.as_str(),
        "<?xml",
    )
}

/// A text with the five basic HTML entities decoded, one after the other.
pub open spec fn entities_decoded(s: Seq<char>) -> Seq<char> {
    text::replaced(
        text::replaced(
            text::replaced(text::replaced(text::replaced(s, "&amp;"@, "&"@), "&lt;"@, "<"@), "&gt;"@, ">"@),
            "&quot;"@,
            "\""@,
        ),
        "&#39;"@,
        "'"@,
    )
}

/// Decodes the five basic HTML entities.
pub fn decode_minimal_html_entities(s: &str) -> (r: String)
    ensures
        r@ == entities_decoded(s@),
{
    proof {
        reveal_strlit("&amp;");
        reveal_strlit("&lt;");
        reveal_strlit("&gt;");
        reveal_strlit("&quot;");
        reveal_strlit("&#39;");
    }
    let a = text::replace(s, "&amp;", "&");
    let b = text::replace(a.as_str(), "&lt;", "<");
    let c = text::replace(b.as_str(), "&gt;", ">");
    let d = text::replace(c.as_str(), "&quot;", "\"");
    text::replace(d.as_str(), "&#39;", "'")
}

/// The lines of a text, without an empty one behind the last line break.
pub open spec fn lines(s: Seq<char>) -> Seq<Seq<char>> {
    let f = text::fields(s, '\n');
    if f.last().len() == 0 {
        f.drop_last()
    } else {
        f
    }
}

/// Whether a trimmed line is blank or a comment.
pub open spec fn skipped(line: Seq<char>) -> bool {
    line.len() == 0 || line[0] == '#'
}

/// What the lines give: a node for each link, a warning with the line's number
/// for each other line that is neither blank nor a comment.
pub open spec fn parsed_lines(
    all: Seq<Seq<char>>,
    subscription: Seq<char>,
) -> SubscriptionParseView
    decreases all.len(),
{
    if all.len() == 0 {
        SubscriptionParseView { nodes: Seq::empty(), warnings: Seq::empty() }
    } else {
        let rest = parsed_lines(all.drop_last(), subscription);
        let line = text::trimmed(all.last());
        if skipped(line) {
            rest
        } else {
            match protocols::uri_node(line, subscription) {
                Ok(n) => SubscriptionParseView { nodes: rest.nodes.push(n), ..rest },
                Err(e) => SubscriptionParseView {
                    warnings: rest.warnings.push(
                        "line "@ + text::decimal(all.len()) + ": "@ + error::error_message(e),
                    ),
                    ..rest
                },
            }
        }
    }
}

/// Parses the lines of a decoded subscription.
pub fn parse_lines(text: &str, subscription: &str) -> (r: SubscriptionParse)
    ensures
        r@ == parsed_lines(lines(text@), subscription@),
        domain::all_shown(r@.nodes),
{
    let mut all = text::split_char(text, '\n');
    let ghost f = text::texts(all@);
    let n = all.len();
    if all[n - 1].as_str().is_empty() {
        all.pop();
        assert(text::texts(all@) =~= f.drop_last());
    }
    let ghost want = lines(text@);
    assert(text::texts(all@) =~= want);
    let mut nodes: Vec<Node> = Vec::new();
    let mut warnings: Vec<String> = Vec::new();
    let mut i: usize = 0;
    proof {
        text::lemma_texts_empty(warnings@);
        assert(domain::node_views(nodes@) =~= Seq::<NodeView>::empty());
        assert(want.take(0).len() == 0);
    }
    while i < all.len()
        invariant
            i <= all@.len(),
            want == text::texts(all@),
            (SubscriptionParseView { nodes: domain::node_views(nodes@), warnings: text::texts(warnings@) })
                == parsed_lines(want.take(i as int), subscription@),
            domain::all_shown(domain::node_views(nodes@)),
        decreases all@.len() - i,
    {
        proof {
            assert(want.take(i + 1).drop_last() =~= want.take(i as int));
            assert(want.take(i + 1).last() == all@[i as int]@);
        }
        let line = text::trim(all[i].as_str());
        let skip = line.as_str().is_empty() || text::starts_with_char(line.as_str(), '#');
        if !skip {
            match protocols::parse_uri(line.as_str(), subscription) {
                Ok(node) => {
                    proof {
                        domain::lemma_node_views_push(nodes@, node);
                    }
                    nodes.push(node);
                },
                Err(error) => {
                    let mut warning = text::concat3("line ", text::decimal_of((i as u64) + 1).as_str(), ": ");
                    warning.append(error.message().as_str());
                    proof {
                        text::lemma_texts_push(warnings@, warning);
                    }
                    warnings.push(warning);
                },
            }
        }
        i += 1;
    }
    assert(want.take(want.len() as int) =~= want);
    SubscriptionParse { nodes, warnings }
}

/// The text of a response: itself where it holds a link, otherwise what it
/// decodes to from Base64.
pub open spec fn decoded_response(s: Seq<char>) -> Result<Seq<char>, Seq<char>> {
    if holds_link(s) {
        Ok(s)
    } else {
        match vmess::flexible_base64(s) {
            None => Err("invalid Base64 response"@),
            Some(bytes) => if vstd::utf8::valid_utf8(bytes) {
                Ok(vstd::utf8::decode_utf8(bytes))
            } else {
                Err("decoded response is not UTF-8"@)
            },
        }
    }
}

/// What a response gives as a subscription.
pub open spec fn response_subscription(
    input: Seq<u8>,
    subscription: Seq<char>,
) -> Result<SubscriptionParseView, Seq<char>> {
    if !vstd::utf8::valid_utf8(input) {
        Err("response is not UTF-8"@)
    } else {
        let s = vstd::utf8::decode_utf8(input);
        if html_like(s) {
            Err("response looks like an HTML error page"@)
        } else {
            match decoded_response(s) {
                Err(e) => Err(e),
                Ok(t) => {
                    let parse = parsed_lines(lines(entities_decoded(t)), subscription);
                    if parse.nodes.len() == 0 {
                        Err("subscription contains no supported nodes"@)
                    } else {
                        Ok(parse)
                    }
                },
            }
        }
    }
}

/// Parses the response of a subscription server.
pub fn parse_subscription(input: &[u8], subscription: &str) -> (r: Result<
    SubscriptionParse,
    ManagerError,
>)
    ensures
        match r {
            Ok(parse) => response_subscription(input@, subscription@) == Ok::<
                SubscriptionParseView,
                Seq<char>,
            >(parse@) && domain::all_shown(parse@.nodes),
            Err(e) => response_subscription(input@, subscription@) matches Err(m) && e@
                == ManagerErrorView::InvalidSubscription(m),
        },
{
    let text = match outside::utf8_text(input) {
        Some(text) => text,
        None => return Err(ManagerError::InvalidSubscription(text::owned("response is not UTF-8"))),
    };
    if looks_like_html(text.as_str()) {
        return Err(
            ManagerError::InvalidSubscription(text::owned("response looks like an HTML error page")),
        );
    }
    let decoded = if contains_supported_uri(text.as_str()) {
        text
    } else {
        match vmess::decode_flexible_base64(text.as_str()) {
            Ok(bytes) => match outside::utf8_text(bytes.as_slice()) {
                Some(t) => t,
                None => return Err(
                    ManagerError::InvalidSubscription(text::owned("decoded response is not UTF-8")),
                ),
            },
            Err(_) => return Err(
                ManagerError::InvalidSubscription(text::owned("invalid Base64 response")),
            ),
        }
    };
    let decoded = decode_minimal_html_entities(decoded.as_str());
    let parse = parse_lines(decoded.as_str(), subscription);
    if parse.nodes.len() == 0 {
        return Err(
            ManagerError::InvalidSubscription(text::owned("subscription contains no supported nodes")),
        );
    }
    Ok(parse)
}

/// Every node of a parsed subscription belongs to it and carries the
/// fingerprint of what it is.
pub proof fn law_parsed_nodes(all: Seq<Seq<char>>, subscription: Seq<char>, i: int)
    requires
        0 <= i < parsed_lines(all, subscription).nodes.len(),
    ensures
        ({
            let n = parsed_lines(all, subscription).nodes[i];
            &&& n.subscription == subscription
            &&& n.id == domain::fingerprint(domain::identity_text(n))
        }),
    decreases all.len(),
{
    if all.len() > 0 {
        let rest = parsed_lines(all.drop_last(), subscription);
        let line = text::trimmed(all.last());
        if i < rest.nodes.len() {
            law_parsed_nodes(all.drop_last(), subscription, i);
        } else {
            protocols::law_parsed_node_is_complete(line, subscription);
        }
    }
}

/// A subscription loses no line: each is a node, a warning, blank or a comment.
pub proof fn law_every_line_is_accounted_for(all: Seq<Seq<char>>, subscription: Seq<char>)
    ensures
        ({
            let parse = parsed_lines(all, subscription);
            parse.nodes.len() + parse.warnings.len() == all.filter(
                |line: Seq<char>| !skipped(text::trimmed(line)),
            ).len()
        }),
    decreases all.len(),
{
    reveal(Seq::filter);
    if all.len() > 0 {
        law_every_line_is_accounted_for(all.drop_last(), subscription);
    }
}

} // verus!

//! The fields of a share link that is written as a JSON object.
//!
//! A field of the link is read as a JSON value and may stand once. Another
//! member only has to be well-formed: what it holds is passed over unread, so
//! that its numbers may be of any size, its values nested to any depth, and its
//! name may be written more than once.

use crate::json::{Json, JsonObject, JsonView, Shape};
use crate::json;
use crate::text;
use vstd::prelude::*;
use vstd::slice::slice_subrange;

verus! {

/// How many bytes `serde_json` reads to pass over the first JSON value of a
/// text, with the white space before it.
pub uninterp spec fn skipped_length(bytes: Seq<u8>) -> Option<usize>;

/// The first item of `serde_json::Deserializer::from_slice` as a stream of
/// `serde::de::IgnoredAny`, and the stream's `byte_offset` after it. The result
/// is the named number of bytes, which covers at least one byte and no more
/// than there are; there is none where the text does not begin with a value.
#[verifier::external_body]
pub(crate) fn skip_value(bytes: &[u8]) -> (r: Option<usize>)
    ensures
        r == skipped_length(bytes@),
        r matches Some(n) ==> 0 < n && n <= bytes@.len(),
{
    let mut values = serde_json::Deserializer::from_slice(bytes).into_iter::<serde::de::IgnoredAny>();
    let first = values.next();
    first?.ok()?;
    Some(values.byte_offset())
}

/// The white space of JSON.
pub open spec fn is_space(b: u8) -> bool {
    b == 0x20 || b == 0x0a || b == 0x09 || b == 0x0d
}

pub open spec fn after_space(bytes: Seq<u8>) -> Seq<u8>
    decreases bytes.len(),
{
    if bytes.len() > 0 && is_space(bytes[0]) {
        after_space(bytes.skip(1))
    } else {
        bytes
    }
}

pub open spec fn begins_with(bytes: Seq<u8>, b: u8) -> bool {
    bytes.len() > 0 && bytes[0] == b
}

/// The bytes of the first value of a text, and those behind it.
pub open spec fn first_value(bytes: Seq<u8>) -> Option<(Seq<u8>, Seq<u8>)> {
    match skipped_length(bytes) {
        Some(n) => if n <= bytes.len() {
            Some((bytes.take(n as int), bytes.skip(n as int)))
        } else {
            None
        },
        None => None,
    }
}

/// A value that stands inside another: it is read as the only item of an array.
pub open spec fn inner_value(raw: Seq<u8>) -> Option<JsonView> {
    match json::read_json(seq![0x5bu8] + raw + seq![0x5du8]) {
        Ok(JsonView::Array(items)) => if items.len() == 1 {
            Some(items[0])
        } else {
            None
        },
        _ => None,
    }
}

/// A member of an object: its name, and the bytes of its value.
#[verifier::ext_equal]
pub struct MemberView {
    pub name: Seq<char>,
    pub raw: Seq<u8>,
}

/// The member that a text begins with, and what stands behind it.
pub open spec fn first_member(bytes: Seq<u8>) -> Option<(MemberView, Seq<u8>)> {
    if !begins_with(bytes, 0x22) {
        None
    } else {
        match first_value(bytes) {
            None => None,
            Some((quoted, rest)) => match inner_value(quoted) {
                Some(JsonView::Text(name)) => {
                    let colon = after_space(rest);
                    if begins_with(colon, 0x3a) {
                        match first_value(colon.skip(1)) {
                            Some((raw, rest)) => Some((MemberView { name, raw }, rest)),
                            None => None,
                        }
                    } else {
                        None
                    }
                },
                _ => None,
            },
        }
    }
}

/// Where the next member of an object begins: behind a comma, but for the first.
pub open spec fn at_member(bytes: Seq<u8>, first: bool) -> Seq<u8> {
    if first {
        bytes
    } else if begins_with(bytes, 0x2c) {
        after_space(bytes.skip(1))
    } else {
        Seq::empty()
    }
}

/// The members of an object from behind its brace, or from behind a member, up
/// to the closing brace, where only white space may follow that.
pub open spec fn members(bytes: Seq<u8>, first: bool) -> Option<Seq<MemberView>>
    decreases bytes.len(),
{
    let b = after_space(bytes);
    if begins_with(b, 0x7d) {
        if after_space(b.skip(1)).len() == 0 {
            Some(Seq::empty())
        } else {
            None
        }
    } else {
        match first_member(at_member(b, first)) {
            Some((m, rest)) => if rest.len() < bytes.len() {
                with_front(seq![m], members(rest, false))
            } else {
                None
            },
            None => None,
        }
    }
}

pub open spec fn with_front(front: Seq<MemberView>, rest: Option<Seq<MemberView>>) -> Option<
    Seq<MemberView>,
> {
    match rest {
        Some(ms) => Some(front + ms),
        None => None,
    }
}

/// Why the members of an object give no fields.
pub enum Unread {
    /// What a field holds cannot be read.
    Value,
    /// A field is written twice.
    Twice(Seq<char>),
}

pub open spec fn is_field(name: Seq<char>) -> bool {
    ||| name == "add"@
    ||| name == "port"@
    ||| name == "id"@
    ||| name == "aid"@
    ||| name == "scy"@
    ||| name == "net"@
    ||| name == "type"@
    ||| name == "host"@
    ||| name == "path"@
    ||| name == "tls"@
    ||| name == "sni"@
    ||| name == "alpn"@
    ||| name == "fp"@
    ||| name == "ps"@
}

/// The fields among the members.
pub open spec fn fields(ms: Seq<MemberView>) -> Result<Map<Seq<char>, JsonView>, Unread>
    decreases ms.len(),
{
    if ms.len() == 0 {
        Ok(Map::empty())
    } else {
        match fields(ms.drop_last()) {
            Err(e) => Err(e),
            Ok(known) => if !is_field(ms.last().name) {
                Ok(known)
            } else if known.contains_key(ms.last().name) {
                Err(Unread::Twice(ms.last().name))
            } else {
                match inner_value(ms.last().raw) {
                    Some(v) => Ok(known.insert(ms.last().name, v)),
                    None => Err(Unread::Value),
                }
            },
        }
    }
}

/// The text for what is no link: the error of the JSON reader, where it has one.
pub open spec fn malformed(bytes: Seq<u8>) -> Seq<char> {
    match json::read_json(bytes) {
        Err(e) => e,
        Ok(_) => "a VMess link must be an object"@,
    }
}

/// The value of a link: an object with the fields of the link, or another JSON value.
pub open spec fn link_value(bytes: Seq<u8>) -> Result<JsonView, Seq<char>> {
    let b = after_space(bytes);
    if begins_with(b, 0x7b) {
        match members(b.skip(1), true) {
            None => Err(malformed(bytes)),
            Some(ms) => match fields(ms) {
                Ok(known) => Ok(JsonView::Object(known)),
                Err(Unread::Value) => Err(malformed(bytes)),
                Err(Unread::Twice(name)) => Err("duplicate field `"@ + name + "`"@),
            },
        }
    } else {
        json::read_json(bytes)
    }
}

/// No link holds a field twice: an object whose members hold the same field at
/// two places gives no value.
pub proof fn law_field_stands_once(bytes: Seq<u8>, ms: Seq<MemberView>, i: int, j: int)
    requires
        begins_with(after_space(bytes), 0x7b),
        members(after_space(bytes).skip(1), true) == Some(ms),
        0 <= i < j < ms.len(),
        ms[i].name == ms[j].name,
        is_field(ms[i].name),
    ensures
        link_value(bytes) is Err,
{
    lemma_field_once(ms, i, j);
}

proof fn lemma_field_kept(ms: Seq<MemberView>, i: int)
    requires
        0 <= i < ms.len(),
        is_field(ms[i].name),
    ensures
        fields(ms) matches Ok(known) ==> known.contains_key(ms[i].name),
    decreases ms.len(),
{
    if i < ms.len() - 1 {
        lemma_field_kept(ms.drop_last(), i);
    }
}

proof fn lemma_field_once(ms: Seq<MemberView>, i: int, j: int)
    requires
        0 <= i < j < ms.len(),
        ms[i].name == ms[j].name,
        is_field(ms[i].name),
    ensures
        fields(ms) is Err,
    decreases ms.len(),
{
    if j < ms.len() - 1 {
        lemma_field_once(ms.drop_last(), i, j);
    } else {
        lemma_field_kept(ms.drop_last(), i);
    }
}

/// A member that is no field of the link has no say in its fields, whatever it holds.
pub proof fn law_other_member_is_passed_over(before: Seq<MemberView>, m: MemberView, after: Seq<MemberView>)
    requires
        !is_field(m.name),
    ensures
        fields(before + seq![m] + after) == fields(before + after),
    decreases after.len(),
{
    if after.len() == 0 {
        assert((before + seq![m] + after).drop_last() =~= before);
        assert(before + after =~= before);
    } else {
        law_other_member_is_passed_over(before, m, after.drop_last());
        assert((before + seq![m] + after).drop_last() =~= before + seq![m] + after.drop_last());
        assert((before + after).drop_last() =~= before + after.drop_last());
    }
}

fn skip_space(bytes: &[u8]) -> (r: &[u8])
    ensures
        r@ == after_space(bytes@),
        r@.len() <= bytes@.len(),
{
    let mut i: usize = 0;
    assert(bytes@.skip(0) =~= bytes@);
    while i < bytes.len() && (bytes[i] == 0x20 || bytes[i] == 0x0a || bytes[i] == 0x09 || bytes[i]
        == 0x0d)
        invariant
            i <= bytes@.len(),
            after_space(bytes@) == after_space(bytes@.skip(i as int)),
        decreases bytes@.len() - i,
    {
        assert(bytes@.skip(i as int).skip(1) =~= bytes@.skip(i + 1));
        i += 1;
    }
    let r = slice_subrange(bytes, i, bytes.len());
    assert(r@ =~= bytes@.skip(i as int));
    r
}

fn starts(bytes: &[u8], b: u8) -> (r: bool)
    ensures
        r == begins_with(bytes@, b),
{
    bytes.len() > 0 && bytes[0] == b
}

fn behind_first(bytes: &[u8]) -> (r: &[u8])
    requires
        bytes@.len() > 0,
    ensures
        r@ == bytes@.skip(1),
{
    let r = slice_subrange(bytes, 1, bytes.len());
    assert(r@ =~= bytes@.skip(1));
    r
}

fn split_value(bytes: &[u8]) -> (r: Option<(&[u8], &[u8])>)
    ensures
        match r {
            Some((raw, rest)) => first_value(bytes@) == Some((raw@, rest@)) && rest@.len()
                < bytes@.len(),
            None => first_value(bytes@) is None,
        },
{
    match skip_value(bytes) {
        Some(n) => {
            let raw = slice_subrange(bytes, 0, n);
            let rest = slice_subrange(bytes, n, bytes.len());
            assert(raw@ =~= bytes@.take(n as int));
            assert(rest@ =~= bytes@.skip(n as int));
            Some((raw, rest))
        },
        None => None,
    }
}

fn read_inner(raw: &[u8]) -> (r: Option<serde_json::Value>)
    ensures
        match r {
            Some(v) => inner_value(raw@) == Some(json::value_content(v)),
            None => inner_value(raw@) is None,
        },
{
    let mut bracketed: Vec<u8> = Vec::new();
    bracketed.push(0x5b);
    bracketed.extend_from_slice(raw);
    bracketed.push(0x5d);
    assert(bracketed@ =~= seq![0x5bu8] + raw@ + seq![0x5du8]);
    match json::value_from_slice(bracketed.as_slice()) {
        Ok(value) => match json::open_value(value) {
            Shape::Array(items) => {
                let mut items = items;
                if items.len() == 1 {
                    items.pop()
                } else {
                    None
                }
            },
            _ => None,
        },
        Err(_) => None,
    }
}

/// A member of an object: its name, and the bytes of its value.
struct Member {
    name: String,
    raw: Vec<u8>,
}

impl View for Member {
    type V = MemberView;

    closed spec fn view(&self) -> MemberView {
        MemberView { name: self.name@, raw: self.raw@ }
    }
}

spec fn member_views(v: Seq<Member>) -> Seq<MemberView> {
    v.map_values(|m: Member| m@)
}

fn split_member(bytes: &[u8]) -> (r: Option<(Member, &[u8])>)
    ensures
        match r {
            Some((m, rest)) => first_member(bytes@) == Some((m@, rest@)) && rest@.len()
                < bytes@.len(),
            None => first_member(bytes@) is None,
        },
{
    if !starts(bytes, 0x22) {
        return None;
    }
    let (quoted, rest) = match split_value(bytes) {
        Some(parts) => parts,
        None => return None,
    };
    let name = match read_inner(quoted) {
        Some(value) => match json::open_value(value) {
            Shape::Text(name) => name,
            _ => return None,
        },
        None => return None,
    };
    let colon = skip_space(rest);
    if !starts(colon, 0x3a) {
        return None;
    }
    match split_value(behind_first(colon)) {
        Some((raw, rest)) => {
            let mut kept: Vec<u8> = Vec::new();
            kept.extend_from_slice(raw);
            assert(kept@ =~= raw@);
            Some((Member { name, raw: kept }, rest))
        },
        None => None,
    }
}

fn read_members(bytes: &[u8]) -> (r: Option<Vec<Member>>)
    ensures
        match r {
            Some(v) => members(bytes@, true) == Some(member_views(v@)),
            None => members(bytes@, true) is None,
        },
{
    let mut done: Vec<Member> = Vec::new();
    let mut rest = bytes;
    let mut first = true;
    proof {
        if members(bytes@, true) is Some {
            assert(member_views(done@) + members(bytes@, true)->0 =~= members(bytes@, true)->0);
        }
    }
    loop
        invariant
            members(bytes@, true) == with_front(member_views(done@), members(rest@, first)),
        decreases rest@.len(),
    {
        let b = skip_space(rest);
        if starts(b, 0x7d) {
            if skip_space(behind_first(b)).len() == 0 {
                assert(member_views(done@) + Seq::<MemberView>::empty() =~= member_views(done@));
                return Some(done);
            }
            return None;
        }
        let at = if first {
            b
        } else if starts(b, 0x2c) {
            skip_space(behind_first(b))
        } else {
            return None;
        };
        match split_member(at) {
            Some((m, behind)) => {
                let ghost before = member_views(done@);
                let ghost left = members(behind@, false);
                proof {
                    assert(members(rest@, first) == with_front(seq![m@], left));
                    assert(member_views(done@.push(m)) =~= before + seq![m@]);
                    if left is Some {
                        assert(before + (seq![m@] + left->0) =~= (before + seq![m@]) + left->0);
                    }
                }
                done.push(m);
                rest = behind;
                first = false;
            },
            None => return None,
        }
    }
}

fn names_field(name: &str) -> (r: bool)
    ensures
        r == is_field(name@),
{
    text::same(name, "add") || text::same(name, "port") || text::same(name, "id") || text::same(
        name,
        "aid",
    ) || text::same(name, "scy") || text::same(name, "net") || text::same(name, "type")
        || text::same(name, "host") || text::same(name, "path") || text::same(name, "tls")
        || text::same(name, "sni") || text::same(name, "alpn") || text::same(name, "fp")
        || text::same(name, "ps")
}

proof fn lemma_error_stays(ms: Seq<MemberView>, i: int)
    requires
        0 <= i <= ms.len(),
        fields(ms.take(i)) is Err,
    ensures
        fields(ms) == fields(ms.take(i)),
    decreases ms.len(),
{
    if i == ms.len() {
        assert(ms.take(i) =~= ms);
    } else {
        assert(ms.drop_last().take(i) =~= ms.take(i));
        lemma_error_stays(ms.drop_last(), i);
    }
}

/// The JSON text of the field `aid`, where there is one.
pub open spec fn shows_aid(known: Map<Seq<char>, JsonView>, shown: Option<String>) -> bool {
    match shown {
        Some(s) => known.contains_key("aid"@) && s@ == json::compact_json(known["aid"@]),
        None => !known.contains_key("aid"@),
    }
}

/// The fields of a link, and the JSON text of its `aid`; or the name of a field
/// that is written twice, where it is for that.
fn read_fields(ms: Vec<Member>) -> (r: Result<(JsonObject, Option<String>), Option<String>>)
    ensures
        match r {
            Ok((known, aid)) => fields(member_views(ms@)) == Ok::<
                Map<Seq<char>, JsonView>,
                Unread,
            >(known@) && shows_aid(known@, aid),
            Err(None) => fields(member_views(ms@)) == Err::<Map<Seq<char>, JsonView>, Unread>(
                Unread::Value,
            ),
            Err(Some(name)) => fields(member_views(ms@)) == Err::<Map<Seq<char>, JsonView>, Unread>(
                Unread::Twice(name@),
            ),
        },
{
    let ghost all = member_views(ms@);
    let mut known = JsonObject::new();
    let mut aid: Option<String> = None;
    let mut i: usize = 0;
    assert(all.take(0).len() == 0);
    while i < ms.len()
        invariant
            i <= ms@.len(),
            all == member_views(ms@),
            fields(all.take(i as int)) == Ok::<Map<Seq<char>, JsonView>, Unread>(known@),
            shows_aid(known@, aid),
        decreases ms@.len() - i,
    {
        let m = &ms[i];
        proof {
            assert(all.take(i + 1).drop_last() =~= all.take(i as int));
            assert(all.take(i + 1).last() == m@);
        }
        if names_field(m.name.as_str()) {
            if known.contains_key(m.name.as_str()) {
                proof {
                    lemma_error_stays(all, i + 1);
                }
                return Err(Some(m.name.clone()));
            }
            match read_inner(m.raw.as_slice()) {
                Some(value) => {
                    if text::same(m.name.as_str(), "aid") {
                        aid = Some(json::value_to_text(&value));
                    }
                    known.insert(m.name.as_str(), json::json_of_value(value));
                },
                None => {
                    proof {
                        lemma_error_stays(all, i + 1);
                    }
                    return Err(None);
                },
            }
        }
        i += 1;
    }
    assert(all.take(all.len() as int) =~= all);
    Ok((known, aid))
}

fn malformed_text(bytes: &[u8]) -> (r: String)
    ensures
        r@ == malformed(bytes@),
{
    match json::value_from_slice(bytes) {
        Err(e) => e,
        Ok(_) => text::owned("a VMess link must be an object"),
    }
}

/// Reads the object of a link, where the text begins with one.
pub(crate) fn read_object(bytes: &[u8]) -> (r: Option<Result<(JsonObject, Option<String>), String>>)
    ensures
        r is Some <==> begins_with(after_space(bytes@), 0x7b),
        match r {
            Some(Ok((known, aid))) => link_value(bytes@) == Ok::<JsonView, Seq<char>>(
                JsonView::Object(known@),
            ) && shows_aid(known@, aid),
            Some(Err(e)) => link_value(bytes@) == Err::<JsonView, Seq<char>>(e@),
            None => link_value(bytes@) == json::read_json(bytes@),
        },
{
    let b = skip_space(bytes);
    if !starts(b, 0x7b) {
        return None;
    }
    let ms = match read_members(behind_first(b)) {
        Some(ms) => ms,
        None => return Some(Err(malformed_text(bytes))),
    };
    match read_fields(ms) {
        Ok(read) => Some(Ok(read)),
        Err(None) => Some(Err(malformed_text(bytes))),
        Err(Some(name)) => Some(Err(text::concat3("duplicate field `", name.as_str(), "`"))),
    }
}

} // verus!

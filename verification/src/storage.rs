//! Which paths may be removed, and which generations are kept.

use crate::error::{ManagerError, ManagerErrorView};
use crate::text;
use vstd::prelude::*;

verus! {

/// A part of a path, as the system at hand parts it.
#[derive(Debug)]
pub enum PathPart {
    /// A drive or a share, which only paths on Windows have.
    Prefix(String),
    /// The root directory.
    Root,
    /// The directory itself.
    Current,
    /// The directory above.
    Parent,
    /// A name.
    Named(String),
}

/// The mathematical value of a [`PathPart`].
#[verifier::ext_equal]
pub enum PathPartView {
    Prefix(Seq<char>),
    Root,
    Current,
    Parent,
    Named(Seq<char>),
}

impl View for PathPart {
    type V = PathPartView;

    open spec fn view(&self) -> PathPartView {
        match self {
            PathPart::Prefix(s) => PathPartView::Prefix(s@),
            PathPart::Root => PathPartView::Root,
            PathPart::Current => PathPartView::Current,
            PathPart::Parent => PathPartView::Parent,
            PathPart::Named(s) => PathPartView::Named(s@),
        }
    }
}

impl Clone for PathPart {
    fn clone(&self) -> (r: Self)
        ensures
            r@ == self@,
    {
        match self {
            PathPart::Prefix(s) => PathPart::Prefix(s.clone()),
            PathPart::Root => PathPart::Root,
            PathPart::Current => PathPart::Current,
            PathPart::Parent => PathPart::Parent,
            PathPart::Named(s) => PathPart::Named(s.clone()),
        }
    }
}

pub open spec fn part_views(v: Seq<PathPart>) -> Seq<PathPartView> {
    v.map_values(|x: PathPart| x@)
}

fn push_part(parts: &mut Vec<PathPart>, part: PathPart)
    ensures
        part_views(final(parts)@) == part_views(old(parts)@).push(part@),
{
    let ghost before = parts@;
    parts.push(part);
    assert(part_views(parts@) =~= part_views(before).push(part@));
}

fn same_part(a: &PathPart, b: &PathPart) -> (r: bool)
    ensures
        r == (a@ == b@),
{
    match (a, b) {
        (PathPart::Prefix(x), PathPart::Prefix(y)) => text::same(x.as_str(), y.as_str()),
        (PathPart::Root, PathPart::Root) => true,
        (PathPart::Current, PathPart::Current) => true,
        (PathPart::Parent, PathPart::Parent) => true,
        (PathPart::Named(x), PathPart::Named(y)) => text::same(x.as_str(), y.as_str()),
        _ => false,
    }
}

/// Whether the parts begin with those of the root.
fn begins_with(parts: &Vec<PathPart>, root: &Vec<PathPart>) -> (r: bool)
    ensures
        r == (part_views(root@).len() <= part_views(parts@).len() && part_views(parts@).take(
            root@.len() as int,
        ) == part_views(root@)),
{
    let ghost p = part_views(parts@);
    let ghost q = part_views(root@);
    if parts.len() < root.len() {
        return false;
    }
    let mut i: usize = 0;
    while i < root.len()
        invariant
            i <= root@.len() <= parts@.len(),
            p == part_views(parts@),
            q == part_views(root@),
            forall|j: int| 0 <= j < i ==> #[trigger] p[j] == q[j],
        decreases root@.len() - i,
    {
        assert(p[i as int] == parts@[i as int]@ && q[i as int] == root@[i as int]@);
        if !same_part(&parts[i], &root[i]) {
            assert(p.take(q.len() as int)[i as int] != q[i as int]);
            return false;
        }
        i += 1;
    }
    assert(p.take(q.len() as int) =~= q);
    true
}

/// The parts of a path with `.` and `..` resolved. Above the root is the root.
pub open spec fn normal(parts: Seq<PathPartView>) -> Seq<PathPartView>
    decreases parts.len(),
{
    if parts.len() == 0 {
        Seq::empty()
    } else {
        let before = normal(parts.drop_last());
        match parts.last() {
            PathPartView::Current => before,
            PathPartView::Parent => if before.len() > 0 && before.last() is Named {
                before.drop_last()
            } else {
                before
            },
            part => before.push(part),
        }
    }
}

/// The parts of an absolute path, with `.` and `..` resolved.
pub fn absolute_lexical(parts: &Vec<PathPart>) -> (r: Vec<PathPart>)
    ensures
        part_views(r@) == normal(part_views(parts@)),
{
    let ghost all = part_views(parts@);
    let mut r: Vec<PathPart> = Vec::new();
    let mut i: usize = 0;
    assert(all.take(0) =~= Seq::<PathPartView>::empty());
    assert(part_views(r@) =~= Seq::<PathPartView>::empty());
    while i < parts.len()
        invariant
            i <= parts@.len(),
            all == part_views(parts@),
            part_views(r@) == normal(all.take(i as int)),
        decreases parts@.len() - i,
    {
        proof {
            assert(all.take(i + 1).drop_last() =~= all.take(i as int));
            assert(all.take(i + 1).last() == parts@[i as int]@);
            assert(part_views(r@).len() == r@.len());
        }
        match &parts[i] {
            PathPart::Current => {},
            PathPart::Parent => {
                let above = r.len() > 0 && match &r[r.len() - 1] {
                    PathPart::Named(_) => true,
                    _ => false,
                };
                assert(r@.len() > 0 ==> part_views(r@).last() == r@.last()@);
                if above {
                    let ghost before = r@;
                    let dropped = r.pop();
                    assert(part_views(r@) =~= part_views(before).drop_last());
                }
            },
            _ => {
                push_part(&mut r, parts[i].clone());
            },
        }
        i += 1;
    }
    assert(all.take(all.len() as int) =~= all);
    r
}

/// How a part is written.
pub open spec fn part_text(part: PathPartView, separator: char) -> Seq<char> {
    match part {
        PathPartView::Prefix(s) => s,
        PathPartView::Root => seq![separator],
        PathPartView::Current => "."@,
        PathPartView::Parent => ".."@,
        PathPartView::Named(s) => s,
    }
}

/// How a path of these parts is written.
pub open spec fn path_text(parts: Seq<PathPartView>, separator: char) -> Seq<char>
    decreases parts.len(),
{
    if parts.len() == 0 {
        Seq::empty()
    } else {
        let before = path_text(parts.drop_last(), separator);
        let joint = if parts.len() > 1 && !(parts[parts.len() - 2] is Root) && !(parts[parts.len()
            - 2] is Prefix) {
            seq![separator]
        } else {
            Seq::empty()
        };
        before + joint + part_text(parts.last(), separator)
    }
}

/// How a path of these parts is written.
pub fn show_path(parts: &Vec<PathPart>, separator: char) -> (r: String)
    ensures
        r@ == path_text(part_views(parts@), separator),
{
    let ghost all = part_views(parts@);
    let mut r = text::owned("");
    let mut i: usize = 0;
    proof {
        reveal_strlit("");
        assert(all.take(0) =~= Seq::<PathPartView>::empty());
        assert(r@ =~= Seq::<char>::empty());
    }
    while i < parts.len()
        invariant
            i <= parts@.len(),
            all == part_views(parts@),
            r@ == path_text(all.take(i as int), separator),
        decreases parts@.len() - i,
    {
        let ghost before = r@;
        let ghost joint = if i > 0 && !(all[i - 1] is Root) && !(all[i - 1] is Prefix) {
            seq![separator]
        } else {
            Seq::empty()
        };
        proof {
            let t = all.take(i + 1);
            assert(t.drop_last() =~= all.take(i as int));
            assert(t.last() == parts@[i as int]@);
            assert(i > 0 ==> t[t.len() - 2] == parts@[i - 1]@);
            assert(path_text(t, separator) == before + joint + part_text(t.last(), separator));
        }
        let parted = i > 0 && match &parts[i - 1] {
            PathPart::Root => false,
            PathPart::Prefix(_) => false,
            _ => true,
        };
        if parted {
            r.push(separator);
        }
        assert(r@ =~= before + joint);
        match &parts[i] {
            PathPart::Prefix(s) => r.append(s.as_str()),
            PathPart::Root => {
                let ghost so_far = r@;
                r.push(separator);
                assert(r@ =~= so_far + seq![separator]);
            },
            PathPart::Current => r.append("."),
            PathPart::Parent => r.append(".."),
            PathPart::Named(s) => r.append(s.as_str()),
        }
        i += 1;
    }
    assert(all.take(all.len() as int) =~= all);
    r
}

/// A path is inside a directory, and is not that directory.
pub open spec fn strictly_below(path: Seq<PathPartView>, root: Seq<PathPartView>) -> bool {
    path.len() > root.len() && path.take(root.len() as int) == root
}

/// Checks that an absolute path may be removed on behalf of the owner of
/// `root`; hands out the path with `.` and `..` resolved. The separator is that
/// of the paths at hand.
pub fn check_owned(path: &Vec<PathPart>, root: &Vec<PathPart>, separator: char) -> (r: Result<
    Vec<PathPart>,
    ManagerError,
>)
    ensures
        ({
            let p = normal(part_views(path@));
            let below = strictly_below(p, normal(part_views(root@)));
            match r {
                Ok(v) => below && part_views(v@) == p,
                Err(e) => !below && e@ == ManagerErrorView::Io(
                    "refusing to remove path outside ownership root: "@ + path_text(p, separator),
                ),
            }
        }),
{
    let parts = absolute_lexical(path);
    let above = absolute_lexical(root);
    if parts.len() > above.len() && begins_with(&parts, &above) {
        Ok(parts)
    } else {
        Err(
            ManagerError::Io(
                text::concat(
                    "refusing to remove path outside ownership root: ",
                    show_path(&parts, separator).as_str(),
                ),
            ),
        )
    }
}

/// A resolved path holds no part that leads elsewhere.
pub proof fn law_lexical_path_is_plain(parts: Seq<PathPartView>, i: int)
    requires
        0 <= i < normal(parts).len(),
    ensures
        normal(parts)[i] != PathPartView::Current,
        normal(parts)[i] != PathPartView::Parent,
    decreases parts.len(),
{
    let before = normal(parts.drop_last());
    if i < before.len() {
        law_lexical_path_is_plain(parts.drop_last(), i);
    }
}

/// The root itself is never removed.
pub proof fn law_root_is_not_owned(root: Seq<PathPartView>)
    ensures
        !strictly_below(normal(root), normal(root)),
{
}

/// A generation directory and when it was last modified, in nanoseconds.
#[derive(Debug)]
pub struct StoredGeneration {
    pub path: Vec<PathPart>,
    pub modified: i128,
}

/// The mathematical value of a [`StoredGeneration`].
#[verifier::ext_equal]
pub struct StoredGenerationView {
    pub path: Seq<PathPartView>,
    pub modified: i128,
}

impl View for StoredGeneration {
    type V = StoredGenerationView;

    open spec fn view(&self) -> StoredGenerationView {
        StoredGenerationView {
            path: part_views(self.path@),
            modified: self.modified,
        }
    }
}

impl Clone for StoredGeneration {
    fn clone(&self) -> (r: Self)
        ensures
            r@ == self@,
    {
        StoredGeneration {
            path: copy_parts(&self.path),
            modified: self.modified,
        }
    }
}

pub open spec fn stored_generation_views(v: Seq<StoredGeneration>) -> Seq<StoredGenerationView> {
    v.map_values(|x: StoredGeneration| x@)
}

fn copy_parts(parts: &Vec<PathPart>) -> (r: Vec<PathPart>)
    ensures
        part_views(r@) == part_views(parts@),
{
    let mut r: Vec<PathPart> = Vec::new();
    let mut i: usize = 0;
    while i < parts.len()
        invariant
            i <= parts@.len(),
            r@.len() == i,
            forall|k: int| 0 <= k < i ==> (#[trigger] r@[k])@ == parts@[k]@,
        decreases parts@.len() - i,
    {
        r.push(parts[i].clone());
        i += 1;
    }
    assert(part_views(r@) =~= part_views(parts@));
    r
}

/// The components of a path: empty parts and inner `.` do not count.
pub open spec fn components(path: Seq<char>) -> Seq<Seq<char>> {
    let parts = text::fields(path, '/');
    let plain = parts.filter(|p: Seq<char>| p.len() > 0 && p != "."@);
    if parts.len() > 0 && parts[0] == "."@ {
        seq!["."@] + plain
    } else {
        plain
    }
}

/// Two paths are written with the same components.
pub open spec fn same_place(a: Seq<char>, b: Seq<char>) -> bool {
    text::has_prefix(a, "/"@) == text::has_prefix(b, "/"@) && components(a) == components(b)
}

/// The components of a path.
pub fn path_components(path: &str) -> (r: Vec<String>)
    ensures
        text::texts(r@) == components(path@),
{
    let parts = text::split_char(path, '/');
    let ghost all = text::fields(path@, '/');
    let ghost plain = |p: Seq<char>| p.len() > 0 && p != "."@;
    let mut r: Vec<String> = Vec::new();
    let ghost mut lead = Seq::<Seq<char>>::empty();
    assert(text::texts(parts@).len() == parts@.len());
    if parts.len() > 0 && text::same(parts[0].as_str(), ".") {
        assert(all[0] == parts@[0]@);
        r.push(text::owned("."));
        proof {
            lead = seq!["."@];
        }
    } else if parts.len() > 0 {
        assert(all[0] == parts@[0]@);
    }
    assert(text::texts(r@) =~= lead);
    let mut i: usize = 0;
    proof {
        reveal(Seq::filter);
        assert(all.take(0) =~= Seq::<Seq<char>>::empty());
        assert(lead + all.take(0).filter(plain) =~= lead);
    }
    while i < parts.len()
        invariant
            i <= parts@.len(),
            text::texts(parts@) == all,
            plain == (|p: Seq<char>| p.len() > 0 && p != "."@),
            text::texts(r@) == lead + all.take(i as int).filter(plain),
        decreases parts@.len() - i,
    {
        let part = parts[i].as_str();
        let ghost before = all.take(i as int).filter(plain);
        proof {
            reveal(Seq::filter);
            assert(all[i as int] == parts@[i as int]@);
            assert(all.take(i + 1).drop_last() =~= all.take(i as int));
            assert(all.take(i + 1).last() == part@);
        }
        if part.unicode_len() > 0 && !text::same(part, ".") {
            let copy = parts[i].clone();
            proof {
                text::lemma_texts_push(r@, copy);
                assert((lead + before).push(part@) =~= lead + before.push(part@));
            }
            r.push(copy);
        }
        i += 1;
    }
    assert(all.take(all.len() as int) =~= all);
    r
}

/// Whether two paths are written with the same components.
pub fn is_same_place(a: &str, b: &str) -> (r: bool)
    ensures
        r == same_place(a@, b@),
{
    let x = path_components(a);
    let y = path_components(b);
    if text::starts_with(a, "/") != text::starts_with(b, "/") {
        return false;
    }
    let ghost p = text::texts(x@);
    let ghost q = text::texts(y@);
    assert(p.len() == x@.len() && q.len() == y@.len());
    if x.len() != y.len() {
        return false;
    }
    let mut i: usize = 0;
    while i < x.len()
        invariant
            i <= x@.len(),
            x@.len() == y@.len(),
            p == components(a@),
            q == components(b@),
            p == text::texts(x@),
            q == text::texts(y@),
            forall|j: int| 0 <= j < i ==> #[trigger] p[j] == q[j],
        decreases x@.len() - i,
    {
        assert(p[i as int] == x@[i as int]@ && q[i as int] == y@[i as int]@);
        if !text::same(x[i].as_str(), y[i].as_str()) {
            return false;
        }
        i += 1;
    }
    assert(p =~= q);
    true
}

/// The plainest spelling of a path: its components alone.
pub open spec fn plain_path(path: Seq<char>) -> Seq<char> {
    if text::has_prefix(path, "/"@) {
        "/"@ + text::joined(components(path), "/"@)
    } else {
        text::joined(components(path), "/"@)
    }
}

/// The plainest spelling of a path.
pub fn spell_path(path: &str) -> (r: String)
    ensures
        r@ == plain_path(path@),
{
    let parts = text::join(&path_components(path), "/");
    if text::starts_with(path, "/") {
        text::concat("/", parts.as_str())
    } else {
        parts
    }
}

proof fn lemma_fields_longer(s: Seq<char>, t: Seq<char>)
    requires
        !t.contains('/'),
    ensures
        text::fields(s + t, '/').len() == text::fields(s, '/').len(),
        text::fields(s + t, '/') == text::fields(s, '/').drop_last().push(
            text::fields(s, '/').last() + t,
        ),
    decreases t.len(),
{
    text::lemma_fields_nonempty(s, '/');
    let f = text::fields(s, '/');
    if t.len() == 0 {
        assert(s + t =~= s);
        assert(f.last() + t =~= f.last());
        assert(f.drop_last().push(f.last()) =~= f);
    } else {
        let u = t.drop_last();
        assert forall|c: char| u.contains(c) implies t.contains(c) by {
            let k = u.index_of(c);
            assert(t[k] == c);
        }
        assert(t.contains(t.last())) by {
            assert(t[t.len() - 1] == t.last());
        }
        lemma_fields_longer(s, u);
        assert((s + t).drop_last() =~= s + u);
        assert((s + t).last() == t.last());
        let g = text::fields(s + u, '/');
        assert(g.drop_last() =~= f.drop_last());
        assert((f.last() + u).push(t.last()) =~= f.last() + t);
    }
}

proof fn lemma_fields_of_joined(parts: Seq<Seq<char>>)
    requires
        parts.len() > 0,
        forall|i: int| 0 <= i < parts.len() ==> !(#[trigger] parts[i]).contains('/'),
    ensures
        text::fields(text::joined(parts, "/"@), '/') == parts,
    decreases parts.len(),
{
    reveal_strlit("/");
    let last = parts.last();
    assert(parts[parts.len() - 1] == last);
    if parts.len() == 1 {
        let none = Seq::<char>::empty();
        lemma_fields_longer(none, last);
        assert(none + last =~= last);
        assert(text::fields(none, '/').drop_last() =~= Seq::<Seq<char>>::empty());
        assert(text::joined(parts, "/"@) =~= last);
        assert(text::fields(last, '/') =~= parts);
    } else {
        let rest = parts.drop_last();
        assert forall|i: int| 0 <= i < rest.len() implies !(#[trigger] rest[i]).contains('/') by {
            assert(rest[i] == parts[i]);
        }
        lemma_fields_of_joined(rest);
        let before = text::joined(rest, "/"@);
        let slashed = before + "/"@;
        assert(slashed.drop_last() =~= before);
        assert(text::fields(slashed, '/') == rest.push(Seq::<char>::empty()));
        lemma_fields_longer(slashed, last);
        assert(Seq::<char>::empty() + last =~= last);
        assert(rest.push(Seq::<char>::empty()).drop_last() =~= rest);
        assert(text::joined(parts, "/"@) == slashed + last);
        assert(rest.push(last) =~= parts);
    }
}

proof fn lemma_fields_hold_no_separator(s: Seq<char>)
    ensures
        forall|i: int|
            0 <= i < text::fields(s, '/').len() ==> !(#[trigger] text::fields(s, '/')[i]).contains(
                '/',
            ),
    decreases s.len(),
{
    let f = text::fields(s, '/');
    if s.len() > 0 {
        lemma_fields_hold_no_separator(s.drop_last());
        text::lemma_fields_nonempty(s.drop_last(), '/');
        let g = text::fields(s.drop_last(), '/');
        assert forall|i: int| 0 <= i < f.len() implies !(#[trigger] f[i]).contains('/') by {
            if s.last() == '/' {
                if i < g.len() {
                    assert(f[i] == g[i]);
                }
            } else if i < g.len() - 1 {
                assert(f[i] == g[i]);
            } else {
                assert(f[i] == g.last().push(s.last()));
                assert(g[g.len() - 1] == g.last());
                if f[i].contains('/') {
                    let k = f[i].index_of('/');
                    if k < g.last().len() {
                        assert(g.last()[k] == '/');
                    }
                }
            }
        }
    }
}

proof fn lemma_filtered_parts(s: Seq<Seq<char>>, f: spec_fn(Seq<char>) -> bool)
    ensures
        forall|i: int|
            0 <= i < s.filter(f).len() ==> f(#[trigger] s.filter(f)[i]) && s.contains(
                s.filter(f)[i],
            ),
    decreases s.len(),
{
    reveal(Seq::filter);
    if s.len() > 0 {
        let rest = s.drop_last();
        lemma_filtered_parts(rest, f);
        let p = s.filter(f);
        let q = rest.filter(f);
        assert forall|i: int| 0 <= i < p.len() implies f(#[trigger] p[i]) && s.contains(p[i]) by {
            if i < q.len() {
                assert(p[i] == q[i]);
                let k = rest.index_of(q[i]);
                assert(s[k] == p[i]);
            } else {
                assert(s[s.len() - 1] == p[i]);
            }
        }
    }
}

proof fn lemma_components_are_names(path: Seq<char>)
    ensures
        forall|i: int|
            0 <= i < components(path).len() ==> (#[trigger] components(path)[i]).len() > 0
                && !components(path)[i].contains('/'),
{
    reveal_strlit(".");
    let parts = text::fields(path, '/');
    let named = |p: Seq<char>| p.len() > 0 && p != "."@;
    let plain = parts.filter(named);
    lemma_filtered_parts(parts, named);
    lemma_fields_hold_no_separator(path);
    let c = components(path);
    assert forall|i: int| 0 <= i < c.len() implies (#[trigger] c[i]).len() > 0 && !c[i].contains(
        '/',
    ) by {
        let lead: int = c.len() - plain.len();
        if i >= lead {
            assert(c[i] == plain[i - lead]);
            let k = parts.index_of(plain[i - lead]);
            assert(parts[k] == c[i]);
        } else {
            assert(c[i] == "."@);
        }
    }
}

/// Two paths have the same plainest spelling if and only if they are written
/// with the same components.
pub proof fn law_plain_path_tells_places_apart(a: Seq<char>, b: Seq<char>)
    ensures
        plain_path(a) == plain_path(b) <==> same_place(a, b),
{
    reveal_strlit("/");
    if plain_path(a) == plain_path(b) {
        lemma_plain_path(a);
        lemma_plain_path(b);
    }
}

proof fn lemma_plain_path(path: Seq<char>)
    ensures
        text::has_prefix(plain_path(path), "/"@) == text::has_prefix(path, "/"@),
        ({
            let rest = if text::has_prefix(path, "/"@) {
                plain_path(path).skip(1)
            } else {
                plain_path(path)
            };
            components(path) == if rest.len() == 0 {
                Seq::empty()
            } else {
                text::fields(rest, '/')
            }
        }),
{
    reveal_strlit("/");
    let c = components(path);
    let body = text::joined(c, "/"@);
    lemma_components_are_names(path);
    if c.len() > 0 {
        lemma_fields_of_joined(c);
        lemma_joined_begins(c);
    } else {
        assert(c =~= Seq::empty());
        assert(body =~= Seq::<char>::empty());
    }
    if text::has_prefix(path, "/"@) {
        assert(("/"@ + body).skip(1) =~= body);
        assert(("/"@ + body).take(1) =~= "/"@);
    } else if text::has_prefix(body, "/"@) {
        assert(body.take(1)[0] == body[0]);
    }
}

proof fn lemma_joined_begins(parts: Seq<Seq<char>>)
    requires
        parts.len() > 0,
        forall|i: int|
            0 <= i < parts.len() ==> (#[trigger] parts[i]).len() > 0 && !parts[i].contains('/'),
    ensures
        text::joined(parts, "/"@).len() > 0,
        text::joined(parts, "/"@)[0] == parts[0][0],
        text::joined(parts, "/"@)[0] != '/',
    decreases parts.len(),
{
    if parts.len() > 1 {
        let rest = parts.drop_last();
        assert forall|i: int| 0 <= i < rest.len() implies (#[trigger] rest[i]).len() > 0
            && !rest[i].contains('/') by {
            assert(rest[i] == parts[i]);
        }
        lemma_joined_begins(rest);
    } else {
        assert(parts[0].len() > 0 && !parts[0].contains('/'));
        assert(parts[0].contains(parts[0][0]));
        assert(text::joined(parts, "/"@) =~= parts[0]);
    }
}

/// Whether a path is one that a pointer leads to.
pub open spec fn pointed_to(path: Seq<char>, pointer: Option<Seq<char>>) -> bool {
    match pointer {
        Some(p) => same_place(path, p),
        None => false,
    }
}

pub open spec fn opt_parts(o: Option<Vec<PathPart>>) -> Option<Seq<PathPartView>> {
    match o {
        Some(v) => Some(part_views(v@)),
        None => None,
    }
}

fn is_target(path: &Vec<PathPart>, pointer: &Option<Vec<PathPart>>) -> (r: bool)
    ensures
        r == (Some(part_views(path@)) == opt_parts(*pointer)),
{
    match pointer {
        Some(p) => {
            let same = path.len() == p.len() && begins_with(path, p);
            proof {
                let x = part_views(path@);
                assert(x.take(x.len() as int) =~= x);
            }
            same
        },
        None => false,
    }
}

/// How many different generations the two pointers lead to.
pub open spec fn pointed_count(current: Option<Seq<PathPartView>>, previous: Option<Seq<PathPartView>>) -> nat {
    match current {
        Some(c) => if previous is None || previous == Some(c) {
            1
        } else {
            2
        },
        None => if previous is Some {
            1
        } else {
            0
        },
    }
}

/// A generation put into a list, newest first, behind all that are as new.
pub open spec fn placed_by_age(
    sorted: Seq<StoredGenerationView>,
    g: StoredGenerationView,
) -> Seq<StoredGenerationView>
    decreases sorted.len(),
{
    if sorted.len() > 0 && sorted.last().modified < g.modified {
        placed_by_age(sorted.drop_last(), g).push(sorted.last())
    } else {
        sorted.push(g)
    }
}

/// Generations with the newest first; those of one age keep their order.
pub open spec fn by_age(list: Seq<StoredGenerationView>) -> Seq<StoredGenerationView>
    decreases list.len(),
{
    if list.len() == 0 {
        Seq::empty()
    } else {
        placed_by_age(by_age(list.drop_last()), list.last())
    }
}

fn place_by_age(sorted: &mut Vec<StoredGeneration>, g: StoredGeneration)
    ensures
        stored_generation_views(final(sorted)@) == placed_by_age(
            stored_generation_views(old(sorted)@),
            g@,
        ),
{
    let ghost views = stored_generation_views(sorted@);
    let mut i: usize = sorted.len();
    assert(views.take(i as int) =~= views);
    assert(placed_by_age(views, g@) =~= placed_by_age(views.take(i as int), g@) + views.skip(
        i as int,
    ));
    while i > 0 && sorted[i - 1].modified < g.modified
        invariant
            i <= sorted@.len(),
            views == stored_generation_views(sorted@),
            placed_by_age(views, g@) == placed_by_age(views.take(i as int), g@) + views.skip(
                i as int,
            ),
        decreases i,
    {
        proof {
            let t = views.take(i as int);
            assert(t.last() == sorted@[i - 1]@);
            assert(t.drop_last() =~= views.take(i - 1));
            assert(placed_by_age(t.drop_last(), g@).push(t.last()) + views.skip(i as int)
                =~= placed_by_age(views.take(i - 1), g@) + views.skip(i - 1));
        }
        i -= 1;
    }
    proof {
        let t = views.take(i as int);
        if i > 0 {
            assert(t.last() == sorted@[i - 1]@);
        }
        assert(placed_by_age(t, g@) == t.push(g@));
    }
    sorted.insert(i, g);
    assert(stored_generation_views(sorted@) =~= views.take(i as int).push(g@) + views.skip(
        i as int,
    ));
}

fn sort_by_age(list: &Vec<StoredGeneration>) -> (r: Vec<StoredGeneration>)
    ensures
        stored_generation_views(r@) == by_age(stored_generation_views(list@)),
{
    let ghost all = stored_generation_views(list@);
    let mut r: Vec<StoredGeneration> = Vec::new();
    let mut i: usize = 0;
    assert(all.take(0).len() == 0);
    assert(stored_generation_views(r@) =~= by_age(all.take(0)));
    while i < list.len()
        invariant
            i <= list@.len(),
            all == stored_generation_views(list@),
            stored_generation_views(r@) == by_age(all.take(i as int)),
        decreases list@.len() - i,
    {
        proof {
            assert(all.take(i + 1).drop_last() =~= all.take(i as int));
            assert(all.take(i + 1).last() == list@[i as int]@);
        }
        place_by_age(&mut r, list[i].clone());
        i += 1;
    }
    assert(all.take(all.len() as int) =~= all);
    r
}

/// Whether no pointer leads to a generation.
pub open spec fn loose(
    current: Option<Seq<PathPartView>>,
    previous: Option<Seq<PathPartView>>,
) -> spec_fn(StoredGenerationView) -> bool {
    |g: StoredGenerationView| Some(g.path) != current && Some(g.path) != previous
}

/// How many generations are kept besides those that a pointer leads to.
pub open spec fn spare(
    current: Option<Seq<PathPartView>>,
    previous: Option<Seq<PathPartView>>,
    keep: nat,
) -> nat {
    let pointed = pointed_count(current, previous);
    if keep < pointed {
        0
    } else {
        (keep - pointed) as nat
    }
}

/// The generations to which no pointer leads, newest first.
pub open spec fn loose_by_age(
    list: Seq<StoredGenerationView>,
    current: Option<Seq<PathPartView>>,
    previous: Option<Seq<PathPartView>>,
) -> Seq<StoredGenerationView> {
    by_age(list).filter(loose(current, previous))
}

/// The generations that are removed: of those to which no pointer leads, all
/// but the newest ones that are kept.
pub open spec fn pruned(
    list: Seq<StoredGenerationView>,
    current: Option<Seq<PathPartView>>,
    previous: Option<Seq<PathPartView>>,
    keep: nat,
) -> Seq<StoredGenerationView> {
    let free = loose_by_age(list, current, previous);
    let kept = spare(current, previous, keep);
    if kept < free.len() {
        free.skip(kept as int)
    } else {
        Seq::empty()
    }
}

pub open spec fn part_lists(v: Seq<Vec<PathPart>>) -> Seq<Seq<PathPartView>> {
    v.map_values(|x: Vec<PathPart>| part_views(x@))
}

/// The paths of generations.
pub open spec fn generation_paths(list: Seq<StoredGenerationView>) -> Seq<Seq<PathPartView>> {
    list.map_values(|g: StoredGenerationView| g.path)
}

/// Which generations are removed, so that `keep` of them stay.
pub fn prune_generations(
    list: &Vec<StoredGeneration>,
    current: &Option<Vec<PathPart>>,
    previous: &Option<Vec<PathPart>>,
    keep: usize,
) -> (r: Vec<Vec<PathPart>>)
    ensures
        part_lists(r@) == generation_paths(
            pruned(
                stored_generation_views(list@),
                opt_parts(*current),
                opt_parts(*previous),
                keep as nat,
            ),
        ),
{
    let ghost c = opt_parts(*current);
    let ghost p = opt_parts(*previous);
    let pointed: usize = match current {
        Some(x) => if previous.is_none() || is_target(x, previous) {
            1
        } else {
            2
        },
        None => if previous.is_some() {
            1
        } else {
            0
        },
    };
    let kept: usize = if keep < pointed {
        0
    } else {
        keep - pointed
    };
    assert(kept == spare(c, p, keep as nat));
    let sorted = sort_by_age(list);
    let ghost all = stored_generation_views(sorted@);
    let ghost free = |k: int| all.take(k).filter(loose(c, p));
    let mut r: Vec<Vec<PathPart>> = Vec::new();
    let mut seen: usize = 0;
    let mut i: usize = 0;
    proof {
        reveal(Seq::filter);
        assert(all.take(0) =~= Seq::<StoredGenerationView>::empty());
        assert(part_lists(r@) =~= generation_paths(Seq::empty()));
    }
    while i < sorted.len()
        invariant
            i <= sorted@.len(),
            c == opt_parts(*current),
            p == opt_parts(*previous),
            all == stored_generation_views(sorted@),
            seen == all.take(i as int).filter(loose(c, p)).len(),
            seen <= i,
            part_lists(r@) == generation_paths(
                if kept < seen {
                    all.take(i as int).filter(loose(c, p)).skip(kept as int)
                } else {
                    Seq::empty()
                },
            ),
        decreases sorted@.len() - i,
    {
        let g = &sorted[i];
        let ghost before = all.take(i as int).filter(loose(c, p));
        proof {
            reveal(Seq::filter);
            assert(all[i as int] == g@);
            assert(all.take(i + 1).drop_last() =~= all.take(i as int));
            assert(all.take(i + 1).last() == g@);
        }
        let free_one = !is_target(&g.path, current) && !is_target(&g.path, previous);
        assert(free_one == loose(c, p)(g@));
        if free_one {
            if seen >= kept {
                let copy = copy_parts(&g.path);
                proof {
                    assert(part_lists(r@.push(copy)) =~= part_lists(r@).push(part_views(copy@)));
                    let earlier = if kept < seen {
                        before.skip(kept as int)
                    } else {
                        Seq::empty()
                    };
                    assert(before.push(g@).skip(kept as int) =~= earlier.push(g@));
                    assert(generation_paths(earlier.push(g@)) =~= generation_paths(earlier).push(
                        g@.path,
                    ));
                }
                r.push(copy);
            }
            seen += 1;
        }
        i += 1;
    }
    assert(all.take(all.len() as int) =~= all);
    r
}

proof fn lemma_filtered(s: Seq<StoredGenerationView>, f: spec_fn(StoredGenerationView) -> bool, i: int)
    requires
        0 <= i < s.filter(f).len(),
    ensures
        f(s.filter(f)[i]),
        s.contains(s.filter(f)[i]),
    decreases s.len(),
{
    reveal(Seq::filter);
    if s.len() > 0 {
        let rest = s.drop_last();
        if i < rest.filter(f).len() {
            lemma_filtered(rest, f, i);
            let x = rest.filter(f)[i];
            let k = choose|k: int| 0 <= k < rest.len() && rest[k] == x;
            assert(s[k] == x);
        } else {
            assert(s[s.len() - 1] == s.filter(f)[i]);
        }
    }
}

/// Pruning never removes what a pointer leads to.
pub proof fn law_pruning_keeps_current_and_previous(
    list: Seq<StoredGenerationView>,
    current: Option<Seq<PathPartView>>,
    previous: Option<Seq<PathPartView>>,
    keep: nat,
    i: int,
)
    requires
        0 <= i < pruned(list, current, previous, keep).len(),
    ensures
        Some(pruned(list, current, previous, keep)[i].path) != current,
        Some(pruned(list, current, previous, keep)[i].path) != previous,
{
    let kept = spare(current, previous, keep);
    lemma_filtered(by_age(list), loose(current, previous), kept + i);
}

pub open spec fn newest_first(s: Seq<StoredGenerationView>) -> bool {
    forall|i: int, j: int|
        0 <= i < j < s.len() ==> (#[trigger] s[j]).modified <= (#[trigger] s[i]).modified
}

spec fn at_least(s: Seq<StoredGenerationView>, m: int) -> bool {
    forall|i: int| 0 <= i < s.len() ==> (#[trigger] s[i]).modified >= m
}

proof fn lemma_placed_at_least(
    sorted: Seq<StoredGenerationView>,
    g: StoredGenerationView,
    m: int,
)
    requires
        at_least(sorted, m),
        g.modified >= m,
    ensures
        at_least(placed_by_age(sorted, g), m),
    decreases sorted.len(),
{
    if sorted.len() > 0 && sorted.last().modified < g.modified {
        let rest = sorted.drop_last();
        assert forall|i: int| 0 <= i < rest.len() implies (#[trigger] rest[i]).modified >= m by {
            assert(rest[i] == sorted[i]);
        }
        lemma_placed_at_least(rest, g, m);
        assert(sorted[sorted.len() - 1].modified >= m);
    }
}

proof fn lemma_placed_newest_first(sorted: Seq<StoredGenerationView>, g: StoredGenerationView)
    requires
        newest_first(sorted),
    ensures
        newest_first(placed_by_age(sorted, g)),
    decreases sorted.len(),
{
    let p = placed_by_age(sorted, g);
    if sorted.len() > 0 && sorted.last().modified < g.modified {
        let rest = sorted.drop_last();
        let m = sorted.last().modified as int;
        assert forall|i: int, j: int| 0 <= i < j < rest.len() implies (
        #[trigger] rest[j]).modified <= (#[trigger] rest[i]).modified by {
            assert(rest[i] == sorted[i] && rest[j] == sorted[j]);
        }
        lemma_placed_newest_first(rest, g);
        assert forall|i: int| 0 <= i < rest.len() implies (#[trigger] rest[i]).modified >= m by {
            assert(rest[i] == sorted[i]);
            assert(sorted[sorted.len() - 1].modified <= sorted[i].modified);
        }
        lemma_placed_at_least(rest, g, m);
        let q = placed_by_age(rest, g);
        assert forall|i: int, j: int| 0 <= i < j < p.len() implies (
        #[trigger] p[j]).modified <= (#[trigger] p[i]).modified by {
            assert(p[i] == q[i]);
            if j < q.len() {
                assert(p[j] == q[j]);
            }
        }
    } else {
        assert forall|i: int, j: int| 0 <= i < j < p.len() implies (
        #[trigger] p[j]).modified <= (#[trigger] p[i]).modified by {
            assert(p[i] == sorted[i]);
            if j < sorted.len() {
                assert(p[j] == sorted[j]);
            } else if i < sorted.len() - 1 {
                assert(sorted[sorted.len() - 1].modified <= sorted[i].modified);
            }
        }
    }
}

proof fn lemma_by_age(list: Seq<StoredGenerationView>)
    ensures
        newest_first(by_age(list)),
    decreases list.len(),
{
    if list.len() > 0 {
        lemma_by_age(list.drop_last());
        lemma_placed_newest_first(by_age(list.drop_last()), list.last());
    }
}

proof fn lemma_filter_newest_first(
    s: Seq<StoredGenerationView>,
    f: spec_fn(StoredGenerationView) -> bool,
)
    requires
        newest_first(s),
    ensures
        newest_first(s.filter(f)),
    decreases s.len(),
{
    reveal(Seq::filter);
    if s.len() > 0 {
        let rest = s.drop_last();
        assert forall|i: int, j: int| 0 <= i < j < rest.len() implies (
        #[trigger] rest[j]).modified <= (#[trigger] rest[i]).modified by {
            assert(rest[i] == s[i] && rest[j] == s[j]);
        }
        lemma_filter_newest_first(rest, f);
        let q = rest.filter(f);
        let p = s.filter(f);
        assert forall|i: int, j: int| 0 <= i < j < p.len() implies (
        #[trigger] p[j]).modified <= (#[trigger] p[i]).modified by {
            assert(p[i] == q[i]);
            if j < q.len() {
                assert(p[j] == q[j]);
            } else {
                lemma_filtered(rest, f, i);
                let k = choose|k: int| 0 <= k < rest.len() && rest[k] == q[i];
                assert(s[k] == q[i]);
                assert(s[s.len() - 1].modified <= s[k].modified);
            }
        }
    }
}

/// Of the generations to which no pointer leads, as many stay as are to be
/// kept, and no removed one is newer than one that stays.
pub proof fn law_pruning_keeps_the_newest(
    list: Seq<StoredGenerationView>,
    current: Option<Seq<PathPartView>>,
    previous: Option<Seq<PathPartView>>,
    keep: nat,
)
    ensures
        ({
            let free = loose_by_age(list, current, previous);
            let gone = pruned(list, current, previous, keep);
            let stay = free.len() - gone.len();
            &&& stay == vstd::math::min(
                free.len() as int,
                spare(current, previous, keep) as int,
            )
            &&& free =~= free.take(stay) + gone
            &&& forall|i: int, j: int|
                0 <= i < stay && 0 <= j < gone.len() ==> (#[trigger] gone[j]).modified <= (
                #[trigger] free[i]).modified
        }),
{
    lemma_by_age(list);
    lemma_filter_newest_first(by_age(list), loose(current, previous));
    let free = loose_by_age(list, current, previous);
    let gone = pruned(list, current, previous, keep);
    let stay = free.len() - gone.len();
    assert forall|i: int, j: int| 0 <= i < stay && 0 <= j < gone.len() implies (
    #[trigger] gone[j]).modified <= (#[trigger] free[i]).modified by {
        assert(gone[j] == free[stay + j]);
    }
}

} // verus!

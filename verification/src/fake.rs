//! In-memory stand-ins for the platform.

use crate::config::ManagerConfig;
use crate::error::{ManagerError, ManagerErrorView};
use crate::events::{ManagerEvent, ManagerEventView};
use crate::ports::{
    CapabilityMap, DownloadRequest, DownloadedArtifact, DownloadedArtifactView, ExecutionPlan,
    ExecutionPlanView, ManagerPaths, PlanAction, PlanActionView, ProbeResult, UpgradeTarget,
};
use crate::text_map::TextMap;
use crate::linux::arch;
use crate::linux::backends;
use crate::linux::backends::LinuxFhsLayout;
use crate::ports;
use crate::storage;
use crate::text;
use crate::text_map;
use vstd::prelude::*;

verus! {

/// The contents that the entries give their names, a later entry winning.
pub open spec fn named_contents(v: Seq<(String, Vec<u8>)>) -> Map<Seq<char>, Seq<u8>>
    decreases v.len(),
{
    if v.len() == 0 {
        Map::empty()
    } else {
        named_contents(v.drop_last()).insert(v.last().0@, v.last().1@)
    }
}

/// Contents by name.
#[derive(Debug)]
pub struct Contents {
    pub entries: Vec<(String, Vec<u8>)>,
}

impl View for Contents {
    type V = Map<Seq<char>, Seq<u8>>;

    open spec fn view(&self) -> Map<Seq<char>, Seq<u8>> {
        named_contents(self.entries@)
    }
}

proof fn lemma_content(v: Seq<(String, Vec<u8>)>, i: int)
    requires
        0 <= i < v.len(),
        forall|j: int| i < j < v.len() ==> (#[trigger] v[j]).0@ != v[i].0@,
    ensures
        named_contents(v).contains_key(v[i].0@),
        named_contents(v)[v[i].0@] == v[i].1@,
    decreases v.len(),
{
    if i < v.len() - 1 {
        let w = v.drop_last();
        assert forall|j: int| i < j < w.len() implies (#[trigger] w[j]).0@ != w[i].0@ by {
            assert(w[j] == v[j]);
        }
        lemma_content(w, i);
        assert(v[v.len() - 1].0@ != v[i].0@);
    }
}

proof fn lemma_no_content(v: Seq<(String, Vec<u8>)>, name: Seq<char>)
    requires
        forall|j: int| 0 <= j < v.len() ==> (#[trigger] v[j]).0@ != name,
    ensures
        !named_contents(v).contains_key(name),
    decreases v.len(),
{
    if v.len() > 0 {
        let w = v.drop_last();
        assert forall|j: int| 0 <= j < w.len() implies (#[trigger] w[j]).0@ != name by {
            assert(w[j] == v[j]);
        }
        lemma_no_content(w, name);
        assert(v[v.len() - 1].0@ != name);
    }
}

impl Contents {
    /// No contents.
    pub fn new() -> (r: Contents)
        ensures
            r@ == Map::<Seq<char>, Seq<u8>>::empty(),
    {
        Contents { entries: Vec::new() }
    }

    /// The contents of a name.
    pub fn get(&self, name: &str) -> (r: Option<Vec<u8>>)
        ensures
            match r {
                Some(v) => self@.contains_key(name@) && v@ == self@[name@],
                None => !self@.contains_key(name@),
            },
    {
        let mut i: usize = self.entries.len();
        while i > 0
            invariant
                i <= self.entries@.len(),
                forall|j: int|
                    i <= j < self.entries@.len() ==> (#[trigger] self.entries@[j]).0@ != name@,
            decreases i,
        {
            i -= 1;
            if text::same(self.entries[i].0.as_str(), name) {
                proof {
                    lemma_content(self.entries@, i as int);
                }
                return Some(text::copy_bytes(&self.entries[i].1));
            }
        }
        proof {
            lemma_no_content(self.entries@, name@);
        }
        None
    }

    /// Gives a name its contents, in place of earlier ones.
    pub fn insert(&mut self, name: &str, bytes: Vec<u8>)
        ensures
            final(self)@ == old(self)@.insert(name@, bytes@),
    {
        let ghost before = self.entries@;
        self.entries.push((text::owned(name), bytes));
        assert(self.entries@.drop_last() =~= before);
    }

    /// The names, in order and each once.
    pub fn names(&self) -> (r: Vec<String>)
        ensures
            text_map::increasing(text::texts(r@)),
            forall|k: Seq<char>| text::texts(r@).contains(k) <==> #[trigger] self@.contains_key(k),
    {
        let mut found = TextMap::new();
        let mut i: usize = 0;
        assert(self.entries@.take(0).len() == 0);
        while i < self.entries.len()
            invariant
                i <= self.entries@.len(),
                forall|k: Seq<char>| #[trigger]
                    found@.contains_key(k) <==> named_contents(
                        self.entries@.take(i as int),
                    ).contains_key(k),
            decreases self.entries@.len() - i,
        {
            proof {
                assert(self.entries@.take(i + 1).drop_last() =~= self.entries@.take(i as int));
                assert(self.entries@.take(i + 1).last() == self.entries@[i as int]);
            }
            found.insert(self.entries[i].0.clone(), String::new());
            i += 1;
        }
        assert(self.entries@.take(self.entries@.len() as int) =~= self.entries@);
        let r = found.keys();
        proof {
            assert forall|k: Seq<char>| text::texts(r@).contains(k) <==> #[trigger] self@.contains_key(
                k,
            ) by {
                assert(text::texts(r@).contains(k) <==> found@.contains_key(k));
            }
        }
        r
    }
}

/// A path is inside a directory or is that directory.
pub open spec fn under(path: Seq<char>, root: Seq<char>) -> bool {
    let p = storage::components(path);
    let r = storage::components(root);
    text::has_prefix(path, "/"@) == text::has_prefix(root, "/"@) && p.len() >= r.len() && p.take(
        r.len() as int,
    ) == r
}

/// A path names something directly inside a directory.
pub open spec fn directly_in(path: Seq<char>, directory: Seq<char>) -> bool {
    under(path, directory) && storage::components(path).len() == storage::components(directory).len() + 1
}

fn is_under(path: &str, root: &str) -> (r: bool)
    ensures
        r == under(path@, root@),
{
    let p = storage::path_components(path);
    let q = storage::path_components(root);
    let ghost a = storage::components(path@);
    let ghost b = storage::components(root@);
    assert(a.len() == p@.len() && b.len() == q@.len());
    if text::starts_with(path, "/") != text::starts_with(root, "/") || p.len() < q.len() {
        return false;
    }
    let mut i: usize = 0;
    while i < q.len()
        invariant
            i <= q@.len() <= p@.len(),
            a == storage::components(path@),
            b == storage::components(root@),
            a == text::texts(p@),
            b == text::texts(q@),
            forall|j: int| 0 <= j < i ==> #[trigger] a[j] == b[j],
        decreases q@.len() - i,
    {
        assert(a[i as int] == p@[i as int]@ && b[i as int] == q@[i as int]@);
        if !text::same(p[i].as_str(), q[i].as_str()) {
            assert(a.take(b.len() as int)[i as int] != b[i as int]);
            return false;
        }
        i += 1;
    }
    assert(a.take(b.len() as int) =~= b);
    true
}

/// Files and generation pointers in memory, each under the plainest spelling of
/// its path.
#[derive(Debug)]
pub struct FakeFileSystem {
    pub files: Contents,
    pub generations: TextMap,
    pub locks: usize,
}

/// The mathematical value of a [`FakeFileSystem`].
#[verifier::ext_equal]
pub struct FakeFileSystemView {
    pub files: Map<Seq<char>, Seq<u8>>,
    pub generations: Map<Seq<char>, Seq<char>>,
    pub locks: usize,
}

impl View for FakeFileSystem {
    type V = FakeFileSystemView;

    open spec fn view(&self) -> FakeFileSystemView {
        FakeFileSystemView {
            files: self.files@,
            generations: self.generations@,
            locks: self.locks,
        }
    }
}

/// The pointers after a switch: the old target, where there is one, becomes
/// the previous one.
pub open spec fn switched(
    g: Map<Seq<char>, Seq<char>>,
    current: Seq<char>,
    previous: Seq<char>,
    target: Seq<char>,
) -> Map<Seq<char>, Seq<char>> {
    (if g.contains_key(current) {
        g.insert(previous, g[current])
    } else {
        g
    }).insert(current, target)
}

pub open spec fn pointed(
    g: Map<Seq<char>, Seq<char>>,
    pointer: Seq<char>,
    target: Option<Seq<char>>,
) -> Map<Seq<char>, Seq<char>> {
    match target {
        Some(t) => g.insert(pointer, t),
        None => g.remove(pointer),
    }
}

/// The pointers after a restoration.
pub open spec fn restored(
    g: Map<Seq<char>, Seq<char>>,
    current: Seq<char>,
    previous: Seq<char>,
    current_target: Option<Seq<char>>,
    previous_target: Option<Seq<char>>,
) -> Map<Seq<char>, Seq<char>> {
    pointed(pointed(g, current, current_target), previous, previous_target)
}

impl Default for FakeFileSystem {
    /// An empty file system.
    fn default() -> (r: FakeFileSystem)
        ensures
            r@ == (FakeFileSystemView {
                files: Map::empty(),
                generations: Map::empty(),
                locks: 0,
            }),
    {
        FakeFileSystem { files: Contents::new(), generations: TextMap::new(), locks: 0 }
    }
}

impl FakeFileSystem {
    /// The contents of a file.
    pub fn contents(&self, path: &str) -> (r: Option<Vec<u8>>)
        ensures
            match r {
                Some(v) => self@.files.contains_key(storage::plain_path(path@)) && v@
                    == self@.files[storage::plain_path(path@)],
                None => !self@.files.contains_key(storage::plain_path(path@)),
            },
    {
        self.files.get(storage::spell_path(path).as_str())
    }

    /// How often the lock was taken.
    pub fn lock_count(&self) -> (r: usize)
        ensures
            r == self@.locks,
    {
        self.locks
    }

    /// Takes the lock.
    pub fn acquire_lock(&mut self)
        ensures
            final(self)@ == (FakeFileSystemView {
                locks: if old(self)@.locks == usize::MAX {
                    0
                } else {
                    (old(self)@.locks + 1) as usize
                },
                ..old(self)@
            }),
    {
        self.locks = if self.locks == usize::MAX {
            0
        } else {
            self.locks + 1
        };
    }

    /// Reads a file.
    pub fn read(&self, path: &str) -> (r: Result<Vec<u8>, ManagerError>)
        ensures
            match r {
                Ok(v) => self@.files.contains_key(storage::plain_path(path@)) && v@
                    == self@.files[storage::plain_path(path@)],
                Err(e) => !self@.files.contains_key(storage::plain_path(path@)) && e@ == ManagerErrorView::Io(
                    path@ + " not found"@,
                ),
            },
    {
        match self.contents(path) {
            Some(v) => Ok(v),
            None => Err(ManagerError::Io(text::concat(path, " not found"))),
        }
    }

    /// The files directly in a directory, in order.
    pub fn list_files(&self, path: &str) -> (r: Vec<String>)
        ensures
            text_map::increasing(text::texts(r@)),
            forall|k: Seq<char>|
                text::texts(r@).contains(k) <==> #[trigger] self@.files.contains_key(k) && directly_in(
                    k,
                    path@,
                ),
    {
        let names = self.files.names();
        let ghost all = text::texts(names@);
        let mut r: Vec<String> = Vec::new();
        let base = storage::path_components(path);
        assert(storage::components(path@).len() == base@.len());
        let mut i: usize = 0;
        assert(text::texts(r@) =~= Seq::<Seq<char>>::empty());
        while i < names.len()
            invariant
                i <= names@.len(),
                all == text::texts(names@),
                text_map::increasing(all),
                storage::components(path@).len() == base@.len(),
                text_map::increasing(text::texts(r@)),
                forall|j: int|
                    0 <= j < text::texts(r@).len() ==> exists|k: int|
                        0 <= k < i && all[k] == #[trigger] text::texts(r@)[j],
                forall|k: Seq<char>|
                    #[trigger] text::texts(r@).contains(k) <==> all.take(i as int).contains(k)
                        && directly_in(k, path@),
            decreases names@.len() - i,
        {
            let name = names[i].as_str();
            let ghost t = all.take(i as int);
            let ghost u = all.take(i + 1);
            let ghost before = text::texts(r@);
            assert(all[i as int] == name@);
            assert(u =~= t.push(name@));
            let parts = storage::path_components(name);
            assert(storage::components(name@).len() == parts@.len());
            let inside = is_under(name, path) && parts.len() > base.len()
                && parts.len() - base.len() == 1;
            assert(inside == directly_in(name@, path@));
            if inside {
                let copy = names[i].clone();
                proof {
                    text::lemma_texts_push(r@, copy);
                }
                r.push(copy);
                proof {
                    let after = text::texts(r@);
                    assert(after =~= before.push(name@));
                    assert forall|a: int, b: int| 0 <= a < b < after.len() implies text::text_less(
                        #[trigger] after[a],
                        #[trigger] after[b],
                    ) by {
                        assert(after[a] == before[a]);
                        if b < before.len() {
                            assert(after[b] == before[b]);
                        } else {
                            let k = choose|k: int| 0 <= k < i && all[k] == before[a];
                            assert(text::text_less(all[k], all[i as int]));
                        }
                    }
                    assert forall|j: int| 0 <= j < after.len() implies exists|k: int|
                        0 <= k < i + 1 && all[k] == #[trigger] after[j] by {
                        if j < before.len() {
                            assert(after[j] == before[j]);
                            let k = choose|k: int| 0 <= k < i && all[k] == before[j];
                            assert(0 <= k < i + 1 && all[k] == after[j]);
                        } else {
                            assert(all[i as int] == after[j]);
                        }
                    }
                }
            } else {
                proof {
                    assert forall|j: int| 0 <= j < before.len() implies exists|k: int|
                        0 <= k < i + 1 && all[k] == #[trigger] before[j] by {
                        let k = choose|k: int| 0 <= k < i && all[k] == before[j];
                        assert(0 <= k < i + 1 && all[k] == before[j]);
                    }
                }
            }
            proof {
                let after = text::texts(r@);
                assert forall|k: Seq<char>|
                    #[trigger] after.contains(k) <==> u.contains(k) && directly_in(k, path@) by {
                    lemma_push_contains(t, name@, k);
                    lemma_push_contains(before, name@, k);
                    assert(before.contains(k) <==> t.contains(k) && directly_in(k, path@));
                }
            }
            i += 1;
        }
        proof {
            assert(all.take(all.len() as int) =~= all);
            assert forall|k: Seq<char>|
                text::texts(r@).contains(k) <==> #[trigger] self@.files.contains_key(k) && directly_in(
                    k,
                    path@,
                ) by {
                assert(all.contains(k) <==> self.files@.contains_key(k));
            }
        }
        r
    }

    /// Writes a file.
    pub fn write_atomic(&mut self, path: &str, bytes: &Vec<u8>)
        ensures
            final(self)@ == (FakeFileSystemView {
                files: old(self)@.files.insert(storage::plain_path(path@), bytes@),
                ..old(self)@
            }),
    {
        self.files.insert(storage::spell_path(path).as_str(), text::copy_bytes(bytes));
    }

    /// Whether a file is there.
    pub fn is_present(&self, path: &str) -> (r: bool)
        ensures
            r == self@.files.contains_key(storage::plain_path(path@)),
    {
        self.contents(path).is_some()
    }

    /// Removes a path and all in it, if it is strictly inside its root.
    pub fn remove_owned(&mut self, path: &str, root: &str) -> (r: Result<(), ManagerError>)
        ensures
            match r {
                Ok(_) => under(path@, root@) && !storage::same_place(path@, root@) && final(self)@ == (
                FakeFileSystemView {
                    files: old(self)@.files.remove_keys(
                        Set::new(|k: Seq<char>| under(k, path@)),
                    ),
                    ..old(self)@
                }),
                Err(e) => !(under(path@, root@) && !storage::same_place(path@, root@)) && final(self)@
                    == old(self)@ && e@ == ManagerErrorView::Io("unsafe fake removal"@),
            },
    {
        if !is_under(path, root) || storage::is_same_place(path, root) {
            return Err(ManagerError::Io(text::owned("unsafe fake removal")));
        }
        let ghost gone = Set::new(|k: Seq<char>| under(k, path@));
        let ghost all = self.files.entries@;
        let mut kept: Vec<(String, Vec<u8>)> = Vec::new();
        let mut i: usize = 0;
        assert(all.take(0).len() == 0);
        assert(named_contents(kept@) =~= named_contents(all.take(0)).remove_keys(gone));
        while i < self.files.entries.len()
            invariant
                i <= self.files.entries@.len(),
                all == self.files.entries@,
                gone == Set::new(|k: Seq<char>| under(k, path@)),
                named_contents(kept@) == named_contents(all.take(i as int)).remove_keys(gone),
            decreases self.files.entries@.len() - i,
        {
            let e = &self.files.entries[i];
            let ghost before = kept@;
            proof {
                assert(all.take(i + 1).drop_last() =~= all.take(i as int));
                assert(all.take(i + 1).last() == *e);
            }
            if !is_under(e.0.as_str(), path) {
                kept.push((e.0.clone(), text::copy_bytes(&e.1)));
                assert(kept@.drop_last() =~= before);
            }
            assert(named_contents(kept@) =~= named_contents(all.take(i + 1)).remove_keys(gone));
            i += 1;
        }
        assert(all.take(all.len() as int) =~= all);
        self.files = Contents { entries: kept };
        Ok(())
    }

    /// Makes a generation current; the one before becomes the previous one.
    pub fn switch_generation(&mut self, current: &str, previous: &str, target: &str)
        ensures
            final(self)@ == (FakeFileSystemView {
                generations: switched(
                    old(self)@.generations,
                    storage::plain_path(current@),
                    storage::plain_path(previous@),
                    target@,
                ),
                ..old(self)@
            }),
    {
        let current = storage::spell_path(current);
        let before = text_map::value_at(&self.generations, current.as_str());
        match before {
            Some(t) => {
                self.generations.insert(storage::spell_path(previous), t);
            },
            None => {},
        }
        self.generations.insert(current, text::owned(target));
    }

    /// Exchanges the current and the previous generation; both must be there.
    pub fn rollback_generation(&mut self, current: &str, previous: &str) -> (r: Result<
        (),
        ManagerError,
    >)
        ensures
            ({
                let g = old(self)@.generations;
                let c = storage::plain_path(current@);
                let p = storage::plain_path(previous@);
                match r {
                    Ok(_) => g.contains_key(c) && g.contains_key(p) && final(self)@ == (
                    FakeFileSystemView {
                        generations: g.insert(c, g[p]).insert(p, g[c]),
                        ..old(self)@
                    }),
                    Err(e) => final(self)@ == old(self)@ && (if !g.contains_key(c) {
                        e@ == ManagerErrorView::Io("current generation is missing"@)
                    } else {
                        !g.contains_key(p) && e@ == ManagerErrorView::Io(
                            "previous generation is missing"@,
                        )
                    }),
                }
            }),
    {
        let current = storage::spell_path(current);
        let previous = storage::spell_path(previous);
        let a = match text_map::value_at(&self.generations, current.as_str()) {
            Some(t) => t,
            None => {
                return Err(ManagerError::Io(text::owned("current generation is missing")));
            },
        };
        let b = match text_map::value_at(&self.generations, previous.as_str()) {
            Some(t) => t,
            None => {
                return Err(ManagerError::Io(text::owned("previous generation is missing")));
            },
        };
        self.generations.insert(current, b);
        self.generations.insert(previous, a);
        Ok(())
    }

    /// Puts both pointers to what they are told.
    pub fn restore_generation(
        &mut self,
        current: &str,
        previous: &str,
        current_target: &Option<String>,
        previous_target: &Option<String>,
    )
        ensures
            final(self)@ == (FakeFileSystemView {
                generations: restored(
                    old(self)@.generations,
                    storage::plain_path(current@),
                    storage::plain_path(previous@),
                    text::opt_text(*current_target),
                    text::opt_text(*previous_target),
                ),
                ..old(self)@
            }),
    {
        match current_target {
            Some(t) => {
                self.generations.insert(storage::spell_path(current), t.clone());
            },
            None => {
                self.generations.remove(storage::spell_path(current).as_str());
            },
        }
        match previous_target {
            Some(t) => {
                self.generations.insert(storage::spell_path(previous), t.clone());
            },
            None => {
                self.generations.remove(storage::spell_path(previous).as_str());
            },
        }
    }
}

proof fn lemma_push_contains(s: Seq<Seq<char>>, x: Seq<char>, k: Seq<char>)
    ensures
        s.push(x).contains(k) <==> s.contains(k) || k == x,
{
    let p = s.push(x);
    if p.contains(k) {
        let j = choose|j: int| 0 <= j < p.len() && p[j] == k;
        if j < s.len() {
            assert(s[j] == k);
        }
    }
    if s.contains(k) {
        let j = choose|j: int| 0 <= j < s.len() && s[j] == k;
        assert(p[j] == k);
    }
    assert(p[s.len() as int] == x);
}

/// Restoring both pointers undoes a switch, whatever was current before.
pub proof fn law_restore_undoes_switch(
    g: Map<Seq<char>, Seq<char>>,
    current: Seq<char>,
    previous: Seq<char>,
    target: Seq<char>,
)
    requires
        current != previous,
    ensures
        restored(
            switched(g, current, previous, target),
            current,
            previous,
            text_map::at(g, current),
            text_map::at(g, previous),
        ) =~= g,
{
}

/// Rolling back twice changes nothing.
pub proof fn law_rollback_twice_changes_nothing(
    g: Map<Seq<char>, Seq<char>>,
    current: Seq<char>,
    previous: Seq<char>,
)
    requires
        g.contains_key(current),
        g.contains_key(previous),
    ensures
        ({
            let once = g.insert(current, g[previous]).insert(previous, g[current]);
            once.insert(current, once[previous]).insert(previous, once[current]) =~= g
        }) || current == previous,
{
}

/// An interface whose state is set by hand.
#[derive(Debug)]
pub struct FakeTunManager {
    pub active: bool,
}

impl Default for FakeTunManager {
    /// An interface that is not there.
    fn default() -> (r: FakeTunManager)
        ensures
            !r.active,
    {
        FakeTunManager { active: false }
    }
}

impl FakeTunManager {
    /// Sets whether the interface is there.
    pub fn set_active(&mut self, active: bool) -> (r: Result<(), ManagerError>)
        ensures
            r is Ok,
            final(self).active == active,
    {
        self.active = active;
        Ok(())
    }

    /// Whether the interface is there.
    pub fn status(&self, _interface: &str) -> (r: Result<bool, ManagerError>)
        ensures
            r matches Ok(active) && active == self.active,
    {
        Ok(self.active)
    }
}

/// A service that only remembers whether it runs.
#[derive(Debug)]
pub struct FakeServiceManager {
    pub active: bool,
}

impl Default for FakeServiceManager {
    /// A service that does not run.
    fn default() -> (r: FakeServiceManager)
        ensures
            !r.active,
    {
        FakeServiceManager { active: false }
    }
}

impl FakeServiceManager {
    /// Starts the service.
    pub fn start(&mut self)
        ensures
            final(self).active,
    {
        self.active = true;
    }

    /// Stops the service.
    pub fn stop(&mut self)
        ensures
            !final(self).active,
    {
        self.active = false;
    }

    /// Stops and starts the service.
    pub fn restart(&mut self)
        ensures
            final(self).active,
    {
        self.stop();
        self.start();
    }

    /// Whether the service runs.
    pub fn is_active(&self) -> (r: bool)
        ensures
            r == self.active,
    {
        self.active
    }

    /// What the service has logged.
    pub fn logs(&self) -> (r: String)
        ensures
            r@ == "fake service log"@,
    {
        text::owned("fake service log")
    }
}

/// A clock that stands still.
#[derive(Debug, Clone, Copy, PartialEq, Eq, Structural)]
pub struct FakeClock(pub i64);

impl FakeClock {
    /// The time.
    pub fn unix_timestamp(&self) -> (r: i64)
        ensures
            r == self.0,
    {
        self.0
    }
}

pub open spec fn event_views(v: Seq<ManagerEvent>) -> Seq<ManagerEventView> {
    v.map_values(|e: ManagerEvent| e@)
}

/// Keeps the events that were emitted.
#[derive(Debug)]
pub struct FakeEventSink(pub Vec<ManagerEvent>);

impl Default for FakeEventSink {
    /// A sink without events.
    fn default() -> (r: FakeEventSink)
        ensures
            r.0@.len() == 0,
    {
        FakeEventSink(Vec::new())
    }
}

impl FakeEventSink {
    /// Keeps an event.
    pub fn emit(&mut self, event: ManagerEvent)
        ensures
            event_views(final(self).0@) == event_views(old(self).0@).push(event@),
    {
        let ghost before = self.0@;
        self.0.push(event);
        assert(event_views(self.0@) =~= event_views(before).push(event@));
    }
}

/// Answers downloads from memory.
#[derive(Debug)]
pub struct FakeDownloader {
    pub responses: Contents,
}

impl Default for FakeDownloader {
    /// A downloader that has no answer.
    fn default() -> (r: FakeDownloader)
        ensures
            r.responses@ == Map::<Seq<char>, Seq<u8>>::empty(),
    {
        FakeDownloader { responses: Contents::new() }
    }
}

impl FakeDownloader {
    /// The response to a request, within its limit.
    pub fn download(&self, request: &DownloadRequest) -> (r: Result<DownloadedArtifact, ManagerError>)
        ensures
            match r {
                Ok(a) => self.responses@.contains_key(request@.url)
                    && self.responses@[request@.url].len() <= request@.max_bytes && a@ == (
                DownloadedArtifactView {
                    bytes: self.responses@[request@.url],
                    final_url: request@.url,
                    content_type: None,
                }),
                Err(e) => if !self.responses@.contains_key(request@.url) {
                    e@ == ManagerErrorView::Download("no fake response configured"@)
                } else {
                    self.responses@[request@.url].len() > request@.max_bytes && e@
                        == ManagerErrorView::Download("size limit exceeded"@)
                },
            },
    {
        match self.responses.get(request.url.as_str()) {
            None => Err(ManagerError::Download(text::owned("no fake response configured"))),
            Some(bytes) => if bytes.len() as u64 > request.max_bytes {
                Err(ManagerError::Download(text::owned("size limit exceeded")))
            } else {
                Ok(
                    DownloadedArtifact {
                        bytes,
                        final_url: request.url.clone(),
                        content_type: None,
                    },
                )
            },
        }
    }
}

/// A core that answers as it is told.
#[derive(Debug)]
pub struct FakeXrayRunner {
    pub version: String,
    pub validation_error: Option<String>,
    pub probes: Vec<(String, ProbeResult)>,
}

/// `i` is the last answer for a node.
pub open spec fn answer_at(probes: Seq<(String, ProbeResult)>, id: Seq<char>, i: int) -> bool {
    &&& 0 <= i < probes.len()
    &&& probes[i].0@ == id
    &&& forall|j: int| i < j < probes.len() ==> (#[trigger] probes[j]).0@ != id
}

impl Default for FakeXrayRunner {
    /// A core that accepts every configuration and knows no node.
    fn default() -> (r: FakeXrayRunner)
        ensures
            r.version@ == "Xray 0.0-test"@,
            r.validation_error is None,
            r.probes@.len() == 0,
    {
        FakeXrayRunner {
            version: text::owned("Xray 0.0-test"),
            validation_error: None,
            probes: Vec::new(),
        }
    }
}

impl FakeXrayRunner {
    /// Tests a configuration.
    pub fn test_config(&self) -> (r: Result<(), ManagerError>)
        ensures
            match r {
                Ok(_) => self.validation_error is None,
                Err(e) => self.validation_error matches Some(m) && e@
                    == ManagerErrorView::Validation(m@),
            },
    {
        match &self.validation_error {
            Some(m) => Err(ManagerError::Validation(m.clone())),
            None => Ok(()),
        }
    }

    /// Probes a node.
    pub fn probe(&self, id: &str) -> (r: Result<ProbeResult, ManagerError>)
        ensures
            match r {
                Ok(p) => exists|i: int| #[trigger]
                    answer_at(self.probes@, id@, i) && p@ == self.probes@[i].1@,
                Err(e) => (forall|i: int|
                    0 <= i < self.probes@.len() ==> (#[trigger] self.probes@[i]).0@ != id@) && e@
                    == ManagerErrorView::Other("no fake probe result configured"@),
            },
    {
        let mut i: usize = self.probes.len();
        while i > 0
            invariant
                i <= self.probes@.len(),
                forall|j: int|
                    i <= j < self.probes@.len() ==> (#[trigger] self.probes@[j]).0@ != id@,
            decreases i,
        {
            i -= 1;
            if text::same(self.probes[i].0.as_str(), id) {
                assert(answer_at(self.probes@, id@, i as int));
                return Ok(self.probes[i].1.clone());
            }
        }
        Err(ManagerError::Other(text::owned("no fake probe result configured")))
    }
}

/// An installer that counts how often it is asked to change something.
#[derive(Debug)]
pub struct FakeInstaller {
    pub paths: ManagerPaths,
    pub apply_error: Option<String>,
    pub apply_count: usize,
}

/// What the installer says that it would do.
pub open spec fn fake_install_actions(config_dir: Seq<char>, url: Seq<char>) -> Seq<PlanActionView> {
    seq![
        PlanActionView::EnsureIdentity { name: "xray"@, system: true },
        PlanActionView::EnsureDirectory { path: config_dir, mode: 0o750 },
        PlanActionView::RunHealthcheck { url: url },
    ]
}

fn fake_install_list(config_dir: &str, url: &str) -> (r: Vec<PlanAction>)
    ensures
        ports::plan_action_views(r@) == fake_install_actions(config_dir@, url@),
{
    let r: Vec<PlanAction> = vec![
        PlanAction::EnsureIdentity { name: text::owned("xray"), system: true },
        PlanAction::EnsureDirectory { path: text::owned(config_dir), mode: 0o750 },
        PlanAction::RunHealthcheck { url: text::owned(url) },
    ];
    assert(ports::plan_action_views(r@) =~= fake_install_actions(config_dir@, url@));
    r
}

impl Default for FakeInstaller {
    /// An installer that succeeds, with the usual layout.
    fn default() -> (r: FakeInstaller)
        ensures
            r.paths@ == backends::fhs_layout(),
            r.apply_error is None,
            r.apply_count == 0,
    {
        FakeInstaller { paths: LinuxFhsLayout.paths(), apply_error: None, apply_count: 0 }
    }
}

impl FakeInstaller {
    /// The plan of an installation.
    pub fn plan_install(&self, config: &ManagerConfig) -> (r: ExecutionPlan)
        ensures
            r@ == (ExecutionPlanView {
                operation: "install"@,
                backend_ids: Map::empty(),
                actions: fake_install_actions(
                    self.paths@.config_dir,
                    config@.general.healthcheck_url,
                ),
            }),
    {
        ExecutionPlan {
            operation: text::owned("install"),
            backend_ids: CapabilityMap::new(),
            actions: fake_install_list(
                self.paths.config_dir.as_str(),
                config.general.healthcheck_url.as_str(),
            ),
        }
    }

    /// The plan of a repair.
    pub fn plan_repair(&self, config: &ManagerConfig) -> (r: ExecutionPlan)
        ensures
            r@ == (ExecutionPlanView {
                operation: "repair"@,
                backend_ids: Map::empty(),
                actions: fake_install_actions(
                    self.paths@.config_dir,
                    config@.general.healthcheck_url,
                ),
            }),
    {
        let mut plan = self.plan_install(config);
        plan.operation = text::owned("repair");
        plan
    }

    /// Counts, and fails where it is told to.
    pub fn apply(&mut self) -> (r: Result<(), ManagerError>)
        ensures
            final(self).apply_count == (if old(self).apply_count == usize::MAX {
                0
            } else {
                old(self).apply_count + 1
            }),
            final(self).paths == old(self).paths,
            final(self).apply_error == old(self).apply_error,
            match r {
                Ok(_) => old(self).apply_error is None,
                Err(e) => old(self).apply_error matches Some(m) && e@ == ManagerErrorView::Other(
                    m@,
                ),
            },
    {
        self.apply_count = if self.apply_count == usize::MAX {
            0
        } else {
            self.apply_count + 1
        };
        match &self.apply_error {
            Some(m) => Err(ManagerError::Other(m.clone())),
            None => Ok(()),
        }
    }

    /// The plan of a removal.
    pub fn plan_uninstall(&self, purge: bool) -> (r: ExecutionPlan)
        ensures
            r@ == (ExecutionPlanView {
                operation: if purge {
                    "purge"@
                } else {
                    "uninstall"@
                },
                backend_ids: Map::empty(),
                actions: if purge {
                    seq![PlanActionView::RemoveOwnedPath { path: self.paths@.config_dir }]
                } else {
                    Seq::empty()
                },
            }),
    {
        let mut actions: Vec<PlanAction> = Vec::new();
        assert(ports::plan_action_views(actions@) =~= Seq::empty());
        if purge {
            actions.push(PlanAction::RemoveOwnedPath { path: self.paths.config_dir.clone() });
            assert(ports::plan_action_views(actions@) =~= seq![
                PlanActionView::RemoveOwnedPath { path: self.paths@.config_dir },
            ]);
        }
        ExecutionPlan {
            operation: if purge {
                text::owned("purge")
            } else {
                text::owned("uninstall")
            },
            backend_ids: CapabilityMap::new(),
            actions,
        }
    }

    /// The plan of an upgrade.
    pub fn plan_upgrade(&self, target: UpgradeTarget) -> (r: ExecutionPlan)
        ensures
            r@ == (ExecutionPlanView {
                operation: arch::upgrade_name(target),
                backend_ids: Map::empty(),
                actions: seq![
                    PlanActionView::DownloadArtifact {
                        id: "fake-upgrade"@,
                        destination: self.paths@.install_dir,
                    },
                ],
            }),
    {
        let actions: Vec<PlanAction> = vec![
            PlanAction::DownloadArtifact {
                id: text::owned("fake-upgrade"),
                destination: self.paths.install_dir.clone(),
            },
        ];
        assert(ports::plan_action_views(actions@) =~= seq![
            PlanActionView::DownloadArtifact {
                id: "fake-upgrade"@,
                destination: self.paths@.install_dir,
            },
        ]);
        ExecutionPlan {
            operation: match target {
                UpgradeTarget::All => text::owned("upgrade_all"),
                UpgradeTarget::Core => text::owned("upgrade_core"),
                UpgradeTarget::Assets => text::owned("upgrade_assets"),
                UpgradeTarget::Manager => text::owned("upgrade_manager"),
            },
            backend_ids: CapabilityMap::new(),
            actions,
        }
    }
}

/// Says what a package manager would be told.
#[derive(Debug, Clone, Copy, PartialEq, Eq, Structural)]
pub struct FakePackageAdvisor;

impl FakePackageAdvisor {
    /// Nothing is ever missing.
    pub fn missing_requirements(&self) -> (r: Vec<String>)
        ensures
            text::texts(r@) == Seq::<Seq<char>>::empty(),
    {
        let r: Vec<String> = Vec::new();
        proof {
            text::lemma_texts_empty(r@);
        }
        r
    }

    /// Each requirement is its own package.
    pub fn packages_for(&self, requirements: &Vec<String>) -> (r: Vec<String>)
        ensures
            text::texts(r@) == text::texts(requirements@),
    {
        text::copy_texts(requirements)
    }

    /// What installs packages, where there are any.
    pub fn install_hint(&self, packages: &Vec<String>) -> (r: Option<String>)
        ensures
            match r {
                Some(s) => text::texts(packages@).len() > 0 && s@ == "install "@ + text::joined(
                    text::texts(packages@),
                    " "@,
                ),
                None => text::texts(packages@).len() == 0,
            },
    {
        assert(text::texts(packages@).len() == packages@.len());
        if packages.len() == 0 {
            None
        } else {
            Some(text::concat("install ", text::join(packages, " ").as_str()))
        }
    }
}

/// Accounts of a host on which every account is there already.
#[derive(Debug, Clone, Copy)]
pub struct FakeIdentityManager;

impl FakeIdentityManager {
    /// Finds the account there.
    pub fn ensure_system_identity(&self, user: &str, groups: &Vec<String>) -> (r: Result<
        (),
        ManagerError,
    >)
        ensures
            r is Ok,
    {
        Ok(())
    }

    /// Finds the owner right.
    pub fn set_ownership(&self, path: &str, user: &str, group: &str, recursive: bool) -> (r: Result<
        (),
        ManagerError,
    >)
        ensures
            r is Ok,
    {
        Ok(())
    }
}

/// A layout that is told where everything is.
#[derive(Debug)]
pub struct FakeLayout(pub ManagerPaths);

impl FakeLayout {
    /// Where everything is.
    pub fn paths(&self) -> (r: ManagerPaths)
        ensures
            r@ == self.0@,
    {
        self.0.clone()
    }
}

/// A checker that finds every caller privileged.
#[derive(Debug, Clone, Copy, PartialEq, Eq, Structural)]
pub struct FakePrivilegeChecker;

impl FakePrivilegeChecker {
    /// Whether the caller is privileged.
    pub fn is_elevated(&self) -> (r: bool)
        ensures
            r,
    {
        true
    }
}

} // verus!

//! Preparing the core, the assets and a first configuration.

use crate::activation::{Effect, EffectView};
use crate::config::{AssetConfigView, ManagerConfig, ManagerConfigView};
use crate::error::{ManagerError, ManagerErrorView};
use crate::json::{Json, JsonObject, JsonView};
use crate::linux::install::Store;
use crate::ports::{
    DownloadRequest, DownloadRequestView, Release, ReleaseAssetView, ReleaseView, XrayTestRequest,
    XrayTestRequestView,
};
use crate::program::{Policy, Program, ProgramView, Step, StepView};
use crate::render::Members;
use crate::routing::RoutingConfig;
use crate::activation;
use crate::artifacts;
use crate::linux::install;
use crate::json;
use crate::outside;
use crate::ports;
use crate::program;
use crate::refresh;
use crate::render;
use crate::routing;
use crate::storage;
use crate::text;
use vstd::prelude::*;

verus! {

/// The name of a generation: when, by which process, and the how manieth.
pub open spec fn generation_name_of(time: i64, process: u32, number: u64) -> Seq<char> {
    text::signed_decimal(time as int) + "-"@ + text::decimal(process as nat) + "-"@ + text::decimal(number as nat)
}

/// The name of a generation.
pub fn unique_generation(time: i64, process: u32, number: u64) -> (r: String)
    ensures
        r@ == generation_name_of(time, process, number),
{
    let mut r = text::signed_decimal_of(time);
    r.append("-");
    r.append(text::decimal_of(process as u64).as_str());
    r.append("-");
    r.append(text::decimal_of(number).as_str());
    r
}

/// Two generations that one process begins have different names.
pub proof fn law_generation_names_differ(time: i64, process: u32, a: u64, b: u64)
    requires
        a != b,
    ensures
        generation_name_of(time, process, a) != generation_name_of(time, process, b),
{
    let p = text::signed_decimal(time as int) + "-"@ + text::decimal(process as nat) + "-"@;
    text::law_decimal_reads_back(a as nat);
    text::law_decimal_reads_back(b as nat);
    assert((p + text::decimal(a as nat)).skip(p.len() as int) =~= text::decimal(a as nat));
    assert((p + text::decimal(b as nat)).skip(p.len() as int) =~= text::decimal(b as nat));
}

/// A character of a generation name.
pub open spec fn tag_char(c: char) -> bool {
    ('a' <= c <= 'z') || ('A' <= c <= 'Z') || ('0' <= c <= '9') || c == '.' || c == '-' || c == '_'
}

/// A release tag that can name a generation.
pub open spec fn is_generation_name(s: Seq<char>) -> bool {
    s.len() > 0 && forall|i: int| 0 <= i < s.len() ==> tag_char(#[trigger] s[i])
}

/// Checks that a release tag can name a generation.
pub fn validate_generation_name(value: &str) -> (r: Result<(), ManagerError>)
    ensures
        match r {
            Ok(_) => is_generation_name(value@),
            Err(e) => !is_generation_name(value@) && e@ == ManagerErrorView::Download(
                "release tag cannot be used as a generation name"@,
            ),
        },
{
    let v = text::chars_of(value);
    let mut good = v.len() > 0;
    let mut i: usize = 0;
    while i < v.len()
        invariant
            i <= v@.len(),
            v@ == value@,
            good ==> v@.len() > 0 && forall|j: int| 0 <= j < i ==> tag_char(#[trigger] v@[j]),
            !good ==> !is_generation_name(value@),
        decreases v@.len() - i,
    {
        let c = v[i];
        if !(('a' <= c && c <= 'z') || ('A' <= c && c <= 'Z') || ('0' <= c && c <= '9') || c == '.'
            || c == '-' || c == '_') {
            assert(!tag_char(value@[i as int]));
            good = false;
        }
        i += 1;
    }
    if good {
        Ok(())
    } else {
        Err(
            ManagerError::Download(text::owned("release tag cannot be used as a generation name")),
        )
    }
}

/// `i` is the first asset of a release with the name.
pub open spec fn first_named(assets: Seq<ReleaseAssetView>, name: Seq<char>, i: int) -> bool {
    &&& 0 <= i < assets.len()
    &&& assets[i].name == name
    &&& forall|j: int| 0 <= j < i ==> (#[trigger] assets[j]).name != name
}

fn find_named(release: &Release, name: &str) -> (r: Option<usize>)
    ensures
        match r {
            Some(i) => first_named(release@.assets, name@, i as int),
            None => forall|j: int|
                0 <= j < release@.assets.len() ==> (#[trigger] release@.assets[j]).name != name@,
        },
{
    let ghost all = release@.assets;
    let mut i: usize = 0;
    while i < release.assets.len()
        invariant
            i <= release.assets@.len(),
            all == release@.assets,
            all.len() == release.assets@.len(),
            forall|j: int| 0 <= j < i ==> (#[trigger] all[j]).name != name@,
        decreases release.assets@.len() - i,
    {
        assert(all[i as int] == release.assets@[i as int]@);
        if text::same(release.assets[i].name.as_str(), name) {
            return Some(i);
        }
        i += 1;
    }
    None
}

/// The request for an asset of a release.
pub open spec fn asset_request(url: Seq<char>, megabytes: u64, timeout: u64) -> DownloadRequestView {
    DownloadRequestView {
        url,
        max_bytes: (megabytes * 1048576) as u64,
        timeout_seconds: timeout,
        max_redirects: 5,
    }
}

fn make_request(url: &str, megabytes: u64, timeout: u64) -> (r: DownloadRequest)
    requires
        refresh::size_fits(megabytes),
    ensures
        r@ == asset_request(url@, megabytes, timeout),
{
    DownloadRequest {
        url: text::owned(url),
        max_bytes: megabytes * 1048576,
        timeout_seconds: timeout,
        max_redirects: 5,
    }
}

/// The request for an asset by name, or why there is none.
pub open spec fn named_request(
    release: ReleaseView,
    c: ManagerConfigView,
    name: Seq<char>,
    problem: Seq<char>,
    r: Result<DownloadRequestView, ManagerErrorView>,
) -> bool {
    match r {
        Ok(q) => exists|i: int| #[trigger]
            first_named(release.assets, name, i) && q == asset_request(
                release.assets[i].download_url,
                c.general.max_core_archive_size_mb,
                c.general.request_timeout_seconds,
            ),
        Err(e) => e == ManagerErrorView::Download(problem) && forall|j: int|
            0 <= j < release.assets.len() ==> (#[trigger] release.assets[j]).name != name,
    }
}

pub open spec fn request_view(r: Result<DownloadRequest, ManagerError>) -> Result<
    DownloadRequestView,
    ManagerErrorView,
> {
    match r {
        Ok(q) => Ok(q@),
        Err(e) => Err(e@),
    }
}

/// The request for the core of a release.
pub fn core_request(release: &Release, config: &ManagerConfig) -> (r: Result<
    DownloadRequest,
    ManagerError,
>)
    requires
        refresh::size_fits(config@.general.max_core_archive_size_mb),
    ensures
        named_request(
            release@,
            config@,
            "Xray-linux-64.zip"@,
            "release has no Xray-linux-64.zip asset"@,
            request_view(r),
        ),
{
    match find_named(release, "Xray-linux-64.zip") {
        Some(i) => {
            assert(release@.assets[i as int] == release.assets@[i as int]@);
            assert(first_named(release@.assets, "Xray-linux-64.zip"@, i as int));
            Ok(
                make_request(
                    release.assets[i].download_url.as_str(),
                    config.general.max_core_archive_size_mb,
                    config.general.request_timeout_seconds,
                ),
            )
        },
        None => Err(ManagerError::Download(text::owned("release has no Xray-linux-64.zip asset"))),
    }
}

/// The request for the manager of a release.
pub fn manager_request(release: &Release, config: &ManagerConfig) -> (r: Result<
    DownloadRequest,
    ManagerError,
>)
    requires
        refresh::size_fits(config@.general.max_core_archive_size_mb),
    ensures
        named_request(
            release@,
            config@,
            "xrayctl-linux-x86_64"@,
            "manager release has no xrayctl-linux-x86_64 asset"@,
            request_view(r),
        ),
{
    match find_named(release, "xrayctl-linux-x86_64") {
        Some(i) => {
            assert(release@.assets[i as int] == release.assets@[i as int]@);
            assert(first_named(release@.assets, "xrayctl-linux-x86_64"@, i as int));
            Ok(
                make_request(
                    release.assets[i].download_url.as_str(),
                    config.general.max_core_archive_size_mb,
                    config.general.request_timeout_seconds,
                ),
            )
        },
        None => Err(
            ManagerError::Download(text::owned("manager release has no xrayctl-linux-x86_64 asset")),
        ),
    }
}

/// A step of putting a core version in its place. The archive is unpacked
/// aside and must run there. What stands in the place is set apart, the new
/// version moves in, and must run there too.
#[derive(Debug, Clone, Copy, PartialEq, Eq, Structural)]
pub enum CoreEffect {
    /// Unpacks the archive in the staging directory.
    Unpack,
    /// Runs the unpacked core.
    CheckUnpacked,
    /// Deletes the staging directory.
    DropUnpacked,
    /// Makes the directory of all versions.
    MakeRoot,
    /// Sets apart what stands in the place.
    SetApart,
    /// Moves the unpacked core into the place.
    MoveIn,
    /// Makes the move durable.
    Sync,
    /// Runs the core in its place.
    CheckPlaced,
    /// Takes the core out of its place again.
    MoveOut,
    /// Puts back what was set apart. Where that fails and `placed` says that
    /// the new core was taken out, that is put back instead.
    PutBack { placed: bool },
    /// Deletes the core that was taken out.
    DropMovedOut,
    /// Deletes what was set apart.
    DropSetApart,
}

impl View for CoreEffect {
    type V = CoreEffect;

    open spec fn view(&self) -> CoreEffect {
        *self
    }
}

pub open spec fn core_if(there: bool, e: CoreEffect, policy: Policy) -> Seq<StepView<CoreEffect>> {
    if there {
        seq![program::step(e, policy)]
    } else {
        Seq::empty()
    }
}

/// The program that puts a core version in its place; `occupied` says whether
/// something stands there.
pub open spec fn core_steps(occupied: bool) -> ProgramView<CoreEffect> {
    ProgramView {
        main: seq![
            program::step(CoreEffect::Unpack, Policy::Undo(0)),
            program::step(CoreEffect::CheckUnpacked, Policy::Undo(0)),
            program::step(CoreEffect::MakeRoot, Policy::Fail),
        ] + core_if(occupied, CoreEffect::SetApart, Policy::Fail) + seq![
            program::step(CoreEffect::MoveIn, Policy::Undo(1)),
            program::step(CoreEffect::Sync, Policy::Fail),
            program::step(CoreEffect::CheckPlaced, Policy::Undo(2)),
        ] + core_if(occupied, CoreEffect::DropSetApart, Policy::Fail),
        undos: seq![
            seq![program::step(CoreEffect::DropUnpacked, Policy::Ignore)],
            seq![program::step(CoreEffect::DropUnpacked, Policy::Ignore)] + core_if(
                occupied,
                CoreEffect::PutBack { placed: false },
                Policy::Fail,
            ),
            seq![program::step(CoreEffect::MoveOut, Policy::Fail)] + core_if(
                occupied,
                CoreEffect::PutBack { placed: true },
                Policy::Fail,
            ) + seq![
                program::step(CoreEffect::DropMovedOut, Policy::Ignore),
                program::step(CoreEffect::Sync, Policy::Ignore),
            ],
        ],
    }
}

fn push_core(main: &mut Vec<Step<CoreEffect>>, there: bool, e: CoreEffect, policy: Policy)
    ensures
        program::step_views(final(main)@) == program::step_views(old(main)@) + core_if(there, e, policy),
{
    let ghost before = program::step_views(main@);
    if there {
        program::push_step(main, e, policy);
    }
    assert(program::step_views(main@) =~= before + core_if(there, e, policy));
}

/// The program that puts a core version in its place.
pub fn prepare_core(occupied: bool) -> (r: Program<CoreEffect>)
    ensures
        r@ == core_steps(occupied),
        r.wf(),
{
    let mut main: Vec<Step<CoreEffect>> = program::no_steps();
    program::push_step(&mut main, CoreEffect::Unpack, Policy::Undo(0));
    program::push_step(&mut main, CoreEffect::CheckUnpacked, Policy::Undo(0));
    program::push_step(&mut main, CoreEffect::MakeRoot, Policy::Fail);
    push_core(&mut main, occupied, CoreEffect::SetApart, Policy::Fail);
    program::push_step(&mut main, CoreEffect::MoveIn, Policy::Undo(1));
    program::push_step(&mut main, CoreEffect::Sync, Policy::Fail);
    program::push_step(&mut main, CoreEffect::CheckPlaced, Policy::Undo(2));
    push_core(&mut main, occupied, CoreEffect::DropSetApart, Policy::Fail);
    let mut unpack: Vec<Step<CoreEffect>> = program::no_steps();
    program::push_step(&mut unpack, CoreEffect::DropUnpacked, Policy::Ignore);
    let mut enter: Vec<Step<CoreEffect>> = program::no_steps();
    program::push_step(&mut enter, CoreEffect::DropUnpacked, Policy::Ignore);
    push_core(&mut enter, occupied, CoreEffect::PutBack { placed: false }, Policy::Fail);
    let mut leave: Vec<Step<CoreEffect>> = program::no_steps();
    program::push_step(&mut leave, CoreEffect::MoveOut, Policy::Fail);
    push_core(&mut leave, occupied, CoreEffect::PutBack { placed: true }, Policy::Fail);
    program::push_step(&mut leave, CoreEffect::DropMovedOut, Policy::Ignore);
    program::push_step(&mut leave, CoreEffect::Sync, Policy::Ignore);
    let ghost want = core_steps(occupied);
    assert(program::step_views(main@) =~= want.main);
    assert(program::step_views(unpack@) =~= want.undos[0]);
    assert(program::step_views(enter@) =~= want.undos[1]);
    assert(program::step_views(leave@) =~= want.undos[2]);
    let undos: Vec<Vec<Step<CoreEffect>>> = vec![unpack, enter, leave];
    assert(program::undo_views(undos@) =~= want.undos);
    let r = Program { main, undos };
    proof {
        assert(r@ == want);
        assert(program::refers_inside(want));
        program::lemma_refers_inside(r);
    }
    r
}

/// What stands in a place.
pub enum Content {
    Nothing,
    Before,
    New,
}

/// The places that the program moves cores between.
#[verifier::ext_equal]
pub struct Places {
    pub place: Content,
    pub apart: Content,
    pub out: Content,
    pub staging: bool,
}

/// What a successful step makes of the places.
pub open spec fn moved(w: Places, e: CoreEffect) -> Places {
    match e {
        CoreEffect::Unpack => Places { staging: true, ..w },
        CoreEffect::DropUnpacked => Places { staging: false, ..w },
        CoreEffect::SetApart => Places { place: Content::Nothing, apart: w.place, ..w },
        CoreEffect::MoveIn => Places { place: Content::New, staging: false, ..w },
        CoreEffect::MoveOut => Places { place: Content::Nothing, out: w.place, ..w },
        CoreEffect::PutBack { .. } => Places { place: w.apart, apart: Content::Nothing, ..w },
        CoreEffect::DropMovedOut => Places { out: Content::Nothing, ..w },
        CoreEffect::DropSetApart => Places { apart: Content::Nothing, ..w },
        _ => w,
    }
}

pub open spec fn moving() -> spec_fn(Places, CoreEffect) -> Places {
    |w: Places, e: CoreEffect| moved(w, e)
}

/// The places before the program begins.
pub open spec fn places_before(occupied: bool) -> Places {
    Places {
        place: if occupied {
            Content::Before
        } else {
            Content::Nothing
        },
        apart: Content::Nothing,
        out: Content::Nothing,
        staging: false,
    }
}

/// A core that cannot be unpacked, moved in or run leaves everything as it was.
pub proof fn law_failed_core_changes_nothing(occupied: bool, i: int)
    requires
        0 <= i < core_steps(occupied).main.len(),
        core_steps(occupied).main[i].policy is Undo,
    ensures
        program::world_of_failure(core_steps(occupied), moving(), i, places_before(occupied))
            =~= places_before(occupied),
{
    let p = core_steps(occupied);
    let w = places_before(occupied);
    let m = p.main;
    reveal_with_fuel(program::world_after, 8);
    lemma_takes(m, i);
    if occupied {
        assert(m[0].effect == CoreEffect::Unpack && m[1].effect == CoreEffect::CheckUnpacked
            && m[2].effect == CoreEffect::MakeRoot && m[3].effect == CoreEffect::SetApart
            && m[4].effect == CoreEffect::MoveIn && m[5].effect == CoreEffect::Sync
            && m[6].effect == CoreEffect::CheckPlaced);
        assert(i == 0 || i == 1 || i == 4 || i == 6);
    } else {
        assert(m[0].effect == CoreEffect::Unpack && m[1].effect == CoreEffect::CheckUnpacked
            && m[2].effect == CoreEffect::MakeRoot && m[3].effect == CoreEffect::MoveIn
            && m[4].effect == CoreEffect::Sync && m[5].effect == CoreEffect::CheckPlaced);
        assert(i == 0 || i == 1 || i == 3 || i == 5);
    }
    let u0 = p.undos[0];
    let u1 = p.undos[1];
    let u2 = p.undos[2];
    lemma_takes(u0, u0.len() as int);
    lemma_takes(u1, u1.len() as int);
    lemma_takes(u2, u2.len() as int);
    assert(u0.take(u0.len() as int) =~= u0);
    assert(u1.take(u1.len() as int) =~= u1);
    assert(u2.take(u2.len() as int) =~= u2);
}

/// A prefix ends in its last step, behind the shorter prefix.
proof fn lemma_takes(s: Seq<StepView<CoreEffect>>, n: int)
    requires
        0 <= n <= s.len(),
    ensures
        forall|k: int|
            0 < k <= n ==> (#[trigger] s.take(k)).drop_last() == s.take(k - 1) && s.take(k).last()
                == s[k - 1],
        s.take(0).len() == 0,
{
    assert forall|k: int| 0 < k <= n implies (#[trigger] s.take(k)).drop_last() == s.take(k - 1)
        && s.take(k).last() == s[k - 1] by {
        assert(s.take(k).drop_last() =~= s.take(k - 1));
    }
}

/// A core that is put in place stands there alone.
pub proof fn law_prepared_core_is_in_place(occupied: bool)
    ensures
        program::world_after(core_steps(occupied).main, moving(), places_before(occupied)) =~= (Places {
            place: Content::New,
            apart: Content::Nothing,
            out: Content::Nothing,
            staging: false,
        }),
{
    let m = core_steps(occupied).main;
    reveal_with_fuel(program::world_after, 9);
    lemma_takes(m, m.len() as int);
    assert(m.take(m.len() as int) =~= m);
    if occupied {
        assert(m.len() == 8);
    } else {
        assert(m.len() == 6);
    }
}

/// The error of a core that could not move in, and whose place could not be restored.
pub fn restore_failed(error: &str, restore: &str) -> (r: ManagerError)
    ensures
        r@ == ManagerErrorView::Io(
            "failed to activate staged Xray ("@ + error@ + ") and restore the old version ("@
                + restore@ + ")"@,
        ),
{
    let mut m = text::concat3("failed to activate staged Xray (", error, ") and restore the old version (");
    m.append(restore);
    m.append(")");
    ManagerError::Io(m)
}

/// The error of a core that does not run in its place and could not be taken out.
pub fn quarantine_failed(error: &str, rename: &str) -> (r: ManagerError)
    ensures
        r@ == ManagerErrorView::Io(
            "activated Xray failed validation ("@ + error@ + ") and could not be quarantined ("@
                + rename@ + ")"@,
        ),
{
    let mut m = text::concat3(
        "activated Xray failed validation (",
        error,
        ") and could not be quarantined (",
    );
    m.append(rename);
    m.append(")");
    ManagerError::Io(m)
}

/// The error of a core that does not run in its place, where the one before
/// could not be put back.
pub fn put_back_failed(error: &str, restore: &str) -> (r: ManagerError)
    ensures
        r@ == ManagerErrorView::Io(
            "activated Xray failed validation ("@ + error@
                + ") and the old version could not be restored ("@ + restore@ + ")"@,
        ),
{
    let mut m = text::concat3(
        "activated Xray failed validation (",
        error,
        ") and the old version could not be restored (",
    );
    m.append(restore);
    m.append(")");
    ManagerError::Io(m)
}

/// The directory of the recorded generation, where the pointer leads to it.
pub open spec fn current_directory(
    s: Store,
    name: Option<Seq<char>>,
    link: Option<Seq<char>>,
) -> Option<(Seq<char>, Seq<char>)> {
    match name {
        Some(n) => {
            let directory = ports::path_join(false, install::store_root(s), n);
            if storage::pointed_to(directory, link) {
                Some((n, directory))
            } else {
                None
            }
        },
        None => None,
    }
}

pub open spec fn pair_view(o: Option<(String, String)>) -> Option<(Seq<char>, Seq<char>)> {
    match o {
        Some((a, b)) => Some((a@, b@)),
        None => None,
    }
}

/// The recorded generation of a store and its directory, where the pointer
/// `link` leads to it.
pub fn current_generation(s: Store, name: &Option<String>, link: &Option<String>) -> (r: Option<
    (String, String),
>)
    ensures
        pair_view(r) == current_directory(s, text::opt_text(*name), text::opt_text(*link)),
{
    match name {
        Some(n) => {
            let directory = ports::join_path(false, s.root(), n.as_str());
            let leads = match link {
                Some(l) => storage::is_same_place(directory.as_str(), l.as_str()),
                None => false,
            };
            if leads {
                Some((n.clone(), directory))
            } else {
                None
            }
        },
        None => None,
    }
}

/// Whether a core that is there can be used again: it must run.
pub fn core_reusable(there: bool, runs: bool) -> (r: bool)
    ensures
        r == (there && runs),
{
    there && runs
}

/// Whether assets can be used again: each must be there and valid.
pub open spec fn assets_usable(found: Seq<Option<Seq<u8>>>, max: usize) -> bool {
    forall|i: int|
        0 <= i < found.len() ==> match #[trigger] found[i] {
            Some(bytes) => artifacts::asset_problem(bytes, max) is None,
            None => false,
        }
}

/// What was found of assets.
pub open spec fn found_bytes(found: Seq<Option<Vec<u8>>>) -> Seq<Option<Seq<u8>>> {
    found.map_values(|o: Option<Vec<u8>>| outside::opt_bytes(o))
}

/// Whether assets can be used again.
pub fn assets_reusable(found: &Vec<Option<Vec<u8>>>, max: usize) -> (r: bool)
    ensures
        r == assets_usable(found_bytes(found@), max),
{
    let ghost all = found_bytes(found@);
    let mut i: usize = 0;
    while i < found.len()
        invariant
            i <= found@.len(),
            all == found_bytes(found@),
            forall|j: int|
                0 <= j < i ==> match #[trigger] all[j] {
                    Some(bytes) => artifacts::asset_problem(bytes, max) is None,
                    None => false,
                },
        decreases found@.len() - i,
    {
        assert(all[i as int] == outside::opt_bytes(found@[i as int]));
        match &found[i] {
            Some(bytes) => match artifacts::validate_asset(bytes.as_slice(), max) {
                Ok(_) => {},
                Err(_) => {
                    return false;
                },
            },
            None => {
                return false;
            },
        }
        i += 1;
    }
    true
}

/// A step of fetching assets. `Fetch` downloads, checks and writes one.
#[derive(Debug)]
pub enum AssetEffect {
    CreateDir { path: String },
    Fetch { request: DownloadRequest, path: String },
    RemoveDir { path: String },
}

/// The mathematical value of a [`AssetEffect`].
#[verifier::ext_equal]
pub enum AssetEffectView {
    CreateDir { path: Seq<char> },
    Fetch { request: DownloadRequestView, path: Seq<char> },
    RemoveDir { path: Seq<char> },
}

impl View for AssetEffect {
    type V = AssetEffectView;

    open spec fn view(&self) -> AssetEffectView {
        match *self {
            AssetEffect::CreateDir { path } => AssetEffectView::CreateDir { path: path@ },
            AssetEffect::Fetch { request, path } => AssetEffectView::Fetch { request: request@, path: path@ },
            AssetEffect::RemoveDir { path } => AssetEffectView::RemoveDir { path: path@ },
        }
    }
}

/// The fetch of an asset.
pub open spec fn fetch_step(directory: Seq<char>, a: AssetConfigView, c: ManagerConfigView) -> StepView<
    AssetEffectView,
> {
    program::step(
        AssetEffectView::Fetch {
            request: asset_request(
                a.url,
                c.general.max_asset_size_mb,
                c.general.request_timeout_seconds,
            ),
            path: ports::path_join(false, directory, a.filename),
        },
        Policy::Undo(0),
    )
}

/// The program that fetches all assets into a new generation.
pub open spec fn asset_steps(directory: Seq<char>, c: ManagerConfigView) -> ProgramView<
    AssetEffectView,
> {
    ProgramView {
        main: seq![program::step(AssetEffectView::CreateDir { path: directory }, Policy::Fail)]
            + c.assets.map_values(|a: AssetConfigView| fetch_step(directory, a, c)),
        undos: seq![seq![program::step(AssetEffectView::RemoveDir { path: directory }, Policy::Ignore)]],
    }
}

/// The program that fetches all assets into the generation of this name.
pub fn prepare_assets(generation: &str, config: &ManagerConfig) -> (r: Program<AssetEffect>)
    requires
        refresh::size_fits(config@.general.max_asset_size_mb),
    ensures
        r@ == asset_steps(ports::path_join(false, install::store_root(Store::Assets), generation@), config@),
        r.wf(),
{
    let directory = ports::join_path(false, Store::Assets.root(), generation);
    let ghost fetches = config@.assets.map_values(
        |a: AssetConfigView| fetch_step(directory@, a, config@),
    );
    let mut main: Vec<Step<AssetEffect>> = program::no_steps();
    program::push_step(&mut main, AssetEffect::CreateDir { path: directory.clone() }, Policy::Fail);
    let ghost first = program::step_views(main@);
    let mut i: usize = 0;
    assert(first + fetches.take(0) =~= first);
    while i < config.assets.len()
        invariant
            i <= config.assets@.len(),
            refresh::size_fits(config@.general.max_asset_size_mb),
            fetches == config@.assets.map_values(
                |a: AssetConfigView| fetch_step(directory@, a, config@),
            ),
            program::step_views(main@) == first + fetches.take(i as int),
        decreases config.assets@.len() - i,
    {
        let a = &config.assets[i];
        assert(config@.assets[i as int] == a@);
        program::push_step(
            &mut main,
            AssetEffect::Fetch {
                request: make_request(
                    a.url.as_str(),
                    config.general.max_asset_size_mb,
                    config.general.request_timeout_seconds,
                ),
                path: ports::join_path(false, directory.as_str(), a.filename.as_str()),
            },
            Policy::Undo(0),
        );
        assert(first + fetches.take(i + 1) =~= (first + fetches.take(i as int)).push(
            fetches[i as int],
        ));
        i += 1;
    }
    let mut undo: Vec<Step<AssetEffect>> = program::no_steps();
    program::push_step(&mut undo, AssetEffect::RemoveDir { path: directory.clone() }, Policy::Ignore);
    let ghost want = asset_steps(directory@, config@);
    assert(fetches.take(fetches.len() as int) =~= fetches);
    assert(program::step_views(main@) =~= want.main);
    assert(program::step_views(undo@) =~= want.undos[0]);
    let undos: Vec<Vec<Step<AssetEffect>>> = vec![undo];
    assert(program::undo_views(undos@) =~= want.undos);
    let r = Program { main, undos };
    proof {
        assert(r@ == want);
        assert forall|i: int| 0 <= i < want.main.len() implies match (
        #[trigger] want.main[i]).policy {
            Policy::Undo(k) => k < want.undos.len(),
            _ => true,
        } by {
            if i > 0 {
                assert(want.main[i] == fetches[i - 1]);
            }
        }
        program::lemma_refers_inside(r);
    }
    r
}

/// The first configuration: no node is selected, and everything would go
/// through the proxy.
pub fn initial_files(config: &ManagerConfig) -> (r: Result<JsonObject, ManagerError>)
    ensures
        match r {
            Ok(files) => render::rendered_files(
                config@,
                None,
                routing::preset_config("global-proxy"@)->0,
                Seq::empty(),
            ) == Ok::<Members, ManagerErrorView>(files@),
            Err(e) => render::rendered_files(
                config@,
                None,
                routing::preset_config("global-proxy"@)->0,
                Seq::empty(),
            ) == Err::<Members, ManagerErrorView>(e@),
        },
{
    let routing = match RoutingConfig::preset("global-proxy") {
        Ok(routing) => routing,
        Err(e) => {
            return Err(e);
        },
    };
    let custom: Vec<Json> = Vec::new();
    assert(json::array_view(custom@) =~= Seq::<JsonView>::empty());
    render::render_xray_config(config, None, &routing, custom)
}

/// The program that writes and tests the first configuration.
pub open spec fn initial_steps(
    directory: Seq<char>,
    core: Seq<char>,
    assets: Seq<char>,
    files: Seq<(Seq<char>, JsonView)>,
) -> ProgramView<EffectView> {
    let conf = ports::path_join(false, directory, "conf.d"@);
    ProgramView {
        main: seq![
            program::step(EffectView::CreateDir { path: conf }, Policy::Fail),
            program::step(EffectView::SetPermissions { path: directory, mode: 0o750 }, Policy::Fail),
            program::step(EffectView::SetPermissions { path: conf, mode: 0o750 }, Policy::Fail),
        ] + activation::write_files(false, conf, files) + seq![
            program::step(
                EffectView::TestConfig(
                    XrayTestRequestView { executable: core, config_dir: conf, asset_dir: assets },
                ),
                Policy::Undo(0),
            ),
        ],
        undos: seq![
            seq![
                program::step(
                    EffectView::RemoveOwned { path: directory, root: install::store_root(Store::Config) },
                    Policy::Ignore,
                ),
            ],
        ],
    }
}

/// The program that writes and tests the first configuration as the
/// generation of this name.
pub fn prepare_initial_config(generation: &str, core: &str, assets: &str, files: &JsonObject) -> (r:
    Program<Effect>)
    ensures
        r@ == initial_steps(
            ports::path_join(false, install::store_root(Store::Config), generation@),
            core@,
            assets@,
            activation::file_list(files.entries@),
        ),
        r.wf(),
{
    let directory = ports::join_path(false, Store::Config.root(), generation);
    let conf = ports::join_path(false, directory.as_str(), "conf.d");
    let mut main: Vec<Step<Effect>> = program::no_steps();
    program::push_step(&mut main, Effect::CreateDir { path: conf.clone() }, Policy::Fail);
    program::push_step(
        &mut main,
        Effect::SetPermissions { path: directory.clone(), mode: 0o750 },
        Policy::Fail,
    );
    program::push_step(
        &mut main,
        Effect::SetPermissions { path: conf.clone(), mode: 0o750 },
        Policy::Fail,
    );
    activation::push_files(&mut main, false, conf.as_str(), files);
    program::push_step(
        &mut main,
        Effect::TestConfig(
            XrayTestRequest {
                executable: text::owned(core),
                config_dir: conf,
                asset_dir: text::owned(assets),
            },
        ),
        Policy::Undo(0),
    );
    let mut undo: Vec<Step<Effect>> = program::no_steps();
    program::push_step(
        &mut undo,
        Effect::RemoveOwned { path: directory.clone(), root: text::owned(Store::Config.root()) },
        Policy::Ignore,
    );
    let ghost list = activation::file_list(files.entries@);
    let ghost want = initial_steps(directory@, core@, assets@, list);
    assert(program::step_views(main@) =~= want.main);
    assert(program::step_views(undo@) =~= want.undos[0]);
    let undos: Vec<Vec<Step<Effect>>> = vec![undo];
    assert(program::undo_views(undos@) =~= want.undos);
    let r = Program { main, undos };
    proof {
        assert(r@ == want);
        let writes = activation::write_files(false, ports::path_join(false, directory@, "conf.d"@), list);
        assert forall|i: int| 0 <= i < want.main.len() implies match (
        #[trigger] want.main[i]).policy {
            Policy::Undo(k) => k < want.undos.len(),
            _ => true,
        } by {
            if 3 <= i < 3 + writes.len() {
                assert(want.main[i] == writes[i - 3]);
            }
        }
        program::lemma_refers_inside(r);
    }
    r
}

/// Whether bytes begin like an executable.
pub open spec fn looks_executable(bytes: Seq<u8>) -> bool {
    bytes.len() >= 4 && bytes[0] == 0x7f && bytes[1] == 0x45 && bytes[2] == 0x4c && bytes[3] == 0x46
}

/// Checks that a downloaded manager is an executable.
pub fn check_executable(bytes: &Vec<u8>) -> (r: Result<(), ManagerError>)
    ensures
        match r {
            Ok(_) => looks_executable(bytes@),
            Err(e) => !looks_executable(bytes@) && e@ == ManagerErrorView::Download(
                "manager release asset is not an ELF executable"@,
            ),
        },
{
    if bytes.len() >= 4 && bytes[0] == 0x7f && bytes[1] == 0x45 && bytes[2] == 0x4c && bytes[3]
        == 0x46 {
        Ok(())
    } else {
        Err(ManagerError::Download(text::owned("manager release asset is not an ELF executable")))
    }
}

/// A step of replacing the manager. `Check` runs the new manager before it is
/// installed, `Keep` keeps a copy of the old one, `Doctor` runs the checks of
/// the installed one, and `Judge` fails where they failed.
#[derive(Debug, Clone, Copy, PartialEq, Eq, Structural)]
pub enum ManagerEffect {
    Check,
    Keep,
    Install,
    Doctor,
    Judge,
    PutBack,
}

impl View for ManagerEffect {
    type V = ManagerEffect;

    open spec fn view(&self) -> ManagerEffect {
        *self
    }
}

/// The program that replaces the manager.
pub open spec fn manager_steps() -> ProgramView<ManagerEffect> {
    ProgramView {
        main: seq![
            program::step(ManagerEffect::Check, Policy::Fail),
            program::step(ManagerEffect::Keep, Policy::Fail),
            program::step(ManagerEffect::Install, Policy::Fail),
            program::step(ManagerEffect::Doctor, Policy::Fail),
            program::step(ManagerEffect::Judge, Policy::Undo(0)),
        ],
        undos: seq![seq![program::step(ManagerEffect::PutBack, Policy::Fail)]],
    }
}

/// The program that replaces the manager.
pub fn upgrade_manager() -> (r: Program<ManagerEffect>)
    ensures
        r@ == manager_steps(),
        r.wf(),
{
    let mut main: Vec<Step<ManagerEffect>> = program::no_steps();
    program::push_step(&mut main, ManagerEffect::Check, Policy::Fail);
    program::push_step(&mut main, ManagerEffect::Keep, Policy::Fail);
    program::push_step(&mut main, ManagerEffect::Install, Policy::Fail);
    program::push_step(&mut main, ManagerEffect::Doctor, Policy::Fail);
    program::push_step(&mut main, ManagerEffect::Judge, Policy::Undo(0));
    let mut undo: Vec<Step<ManagerEffect>> = program::no_steps();
    program::push_step(&mut undo, ManagerEffect::PutBack, Policy::Fail);
    let ghost want = manager_steps();
    assert(program::step_views(main@) =~= want.main);
    assert(program::step_views(undo@) =~= want.undos[0]);
    let undos: Vec<Vec<Step<ManagerEffect>>> = vec![undo];
    assert(program::undo_views(undos@) =~= want.undos);
    let r = Program { main, undos };
    proof {
        assert(r@ == want);
        assert(program::refers_inside(want));
        program::lemma_refers_inside(r);
    }
    r
}

/// The error of a new manager that does not run.
pub fn version_failed(stderr: &str) -> (r: ManagerError)
    ensures
        r@ == ManagerErrorView::Validation(
            "candidate manager failed --version: "@ + text::trimmed(stderr@),
        ),
{
    ManagerError::Validation(
        text::concat("candidate manager failed --version: ", text::trim(stderr).as_str()),
    )
}

/// The error of an installed manager that does not pass its own checks.
pub fn doctor_failed(stderr: &str) -> (r: ManagerError)
    ensures
        r@ == ManagerErrorView::Validation(
            "new manager failed doctor --quick and was rolled back: "@ + text::trimmed(stderr@),
        ),
{
    ManagerError::Validation(
        text::concat("new manager failed doctor --quick and was rolled back: ", text::trim(stderr).as_str()),
    )
}

/// Whether the installed manager is the new one.
pub open spec fn installed_new(w: bool, e: ManagerEffect) -> bool {
    match e {
        ManagerEffect::Install => true,
        ManagerEffect::PutBack => false,
        _ => w,
    }
}

/// A new manager is not installed unless it runs, and does not stay where its
/// own checks report a failure.
pub proof fn law_failed_manager_is_put_back(i: int)
    requires
        0 <= i < manager_steps().main.len(),
        manager_steps().main[i].effect != ManagerEffect::Doctor,
    ensures
        !program::world_of_failure(
            manager_steps(),
            |w: bool, e: ManagerEffect| installed_new(w, e),
            i,
            false,
        ),
{
    let m = manager_steps().main;
    let f = |w: bool, e: ManagerEffect| installed_new(w, e);
    reveal_with_fuel(program::world_after, 5);
    if i >= 1 {
        assert(m.take(1).drop_last() =~= m.take(0));
    }
    if i >= 2 {
        assert(m.take(2).drop_last() =~= m.take(1));
    }
    if i >= 3 {
        assert(m.take(4).drop_last() =~= m.take(3));
        assert(m.take(3).drop_last() =~= m.take(2));
        assert(manager_steps().undos[0].last().effect == ManagerEffect::PutBack);
    }
    assert(m.take(0).len() == 0);
}

} // verus!

//! What settings are accepted, and what may be downloaded, unpacked and removed.

use crate::artifacts::{asset_problem, core_name, entry_decision, extraction, holds_core, searched, ZipEntryView};
use crate::config::{config_problem, default_config, has_drive, is_file_name, is_gateway, is_repository, is_resource_name, profile_problem, subscription_problem};
use crate::config::{AppProfileView, AssetConfigView, ManagerConfigView, SubscriptionConfigView};
use crate::config;
use crate::download::{address_problem, redirect_decision, response_problem, GithubReleaseProvider, HttpClient};
use crate::download;
use crate::error::ManagerError;
use crate::generation::{generation_program, GenerationEffectView, GenerationRequestView};
use crate::generation;
use crate::outside::{lossy_text, read_url};
use crate::ports::{path_join, DownloadRequest, Release};
use crate::program::Policy;
use crate::routing_file::{replacement, RoutingEffectView};
use crate::storage::{normal, pruned, strictly_below, PathPartView, StoredGenerationView};
use crate::storage;
use crate::text::{ascii_lower, has_prefix, trim_front};
use vstd::prelude::*;

verus! {

/// A letter or a digit, or one of two marks.
pub open spec fn plain_name(s: Seq<char>) -> bool {
    s.len() > 0 && forall|i: int|
        0 <= i < s.len() ==> ('a' <= #[trigger] s[i] <= 'z') || ('A' <= s[i] <= 'Z') || ('0' <= s[i]
            <= '9') || s[i] == '-' || s[i] == '_'
}

/// A name of a resource is of letters, digits, hyphens and underscores.
pub proof fn law_resource_names(s: Seq<char>)
    ensures
        is_resource_name(s) <==> plain_name(s),
{
    reveal_strlit("-_");
    let more = "-_"@;
    assert(more[0] == '-' && more[1] == '_' && more.len() == 2);
    assert(more.contains('-')) by {
        assert(more[0] == '-');
    }
    assert(more.contains('_')) by {
        assert(more[1] == '_');
    }
    if is_resource_name(s) {
        assert forall|i: int| 0 <= i < s.len() implies ('a' <= #[trigger] s[i] <= 'z') || ('A' <= s[i]
            <= 'Z') || ('0' <= s[i] <= '9') || s[i] == '-' || s[i] == '_' by {
            assert(config::ascii_alnum(s[i]) || more.contains(s[i]));
        }
    }
    if plain_name(s) {
        assert forall|i: int| 0 <= i < s.len() implies config::ascii_alnum(#[trigger] s[i])
            || more.contains(s[i]) by {}
    }
}

/// A file name is no path: not empty, without a separator, and none of the two
/// names of directories; on Windows without a drive too.
pub proof fn law_file_names(s: Seq<char>)
    ensures
        is_file_name(s, false) <==> s.len() > 0 && !s.contains('/') && s != seq!['.'] && s != seq![
            '.',
            '.',
        ],
        is_file_name(s, true) <==> is_file_name(s, false) && !s.contains('\\') && !(s.len() >= 2
            && s[1] == ':' && (('a' <= s[0] <= 'z') || ('A' <= s[0] <= 'Z'))),
{
    reveal_strlit(".");
    reveal_strlit("..");
    assert("."@ =~= seq!['.']);
    assert(".."@ =~= seq!['.', '.']);
}

/// A configuration is accepted exactly where all of this holds of it.
pub open spec fn acceptable(c: ManagerConfigView, windows: bool) -> bool {
    &&& c.proxy.socks_port != 0 && c.proxy.http_port != 0
    &&& c.proxy.socks_port != c.proxy.http_port
    &&& c.proxy.listen.loopback()
    &&& c.menu.probe_concurrency > 0
    &&& c.general.connect_timeout_seconds > 0 && c.general.request_timeout_seconds > 0
    &&& c.general.max_subscription_size_mb > 0 && c.general.max_core_archive_size_mb > 0
        && c.general.max_asset_size_mb > 0
    &&& c.menu.probe_timeout_seconds > 0
    &&& c.menu.latency_green_ms <= c.menu.latency_yellow_ms
    &&& read_url(c.general.healthcheck_url) matches Ok(url) && url.scheme == "https"@
    &&& c.tun.enabled ==> c.tun.fail_closed
    &&& 576 <= c.tun.mtu <= 9000
    &&& c.dns.mode == "system"@
    &&& c.dns.query_strategy == "UseIP"@ || c.dns.query_strategy == "UseIPv4"@
        || c.dns.query_strategy == "UseIPv6"@ || c.dns.query_strategy == "UseSystem"@
    &&& c.tun.override_resolv_conf_for_apps ==> c.dns.tun_servers.len() > 0
    &&& plain_name(c.tun.interface_name) && c.tun.interface_name.len() <= 15
    &&& c.tun.routing_table != 0 && c.tun.routing_table != 253 && c.tun.routing_table != 254
        && c.tun.routing_table != 255
    &&& c.tun.packet_mark != 0
    &&& c.core.channel == "stable"@
    &&& c.core.pinned_version.len() == 0
    &&& is_repository(c.core.repository)
    &&& c.core.manager_repository matches Some(r) ==> is_repository(r)
    &&& is_gateway(c.tun.ipv4_gateway)
    &&& forall|i: int| 0 <= i < c.assets.len() ==> plain_name((#[trigger] c.assets[i]).id)
    &&& forall|i: int|
        0 <= i < c.assets.len() ==> is_file_name((#[trigger] c.assets[i]).filename, windows)
    &&& forall|i: int|
        0 <= i < c.assets.len() ==> (read_url((#[trigger] c.assets[i]).url) matches Ok(url)
            && url.scheme == "https"@)
    &&& forall|i: int, j: int|
        0 <= i < j < c.assets.len() ==> (#[trigger] c.assets[i]).id != (#[trigger] c.assets[j]).id
            && c.assets[i].filename != c.assets[j].filename
}

/// A configuration is accepted exactly where it is acceptable.
pub proof fn law_accepted_configurations(c: ManagerConfigView, windows: bool)
    ensures
        config_problem(c, windows) is None <==> acceptable(c, windows),
{
    law_resource_names(c.tun.interface_name);
    lemma_assets(c.assets, windows);
}

spec fn good_assets(assets: Seq<AssetConfigView>, windows: bool) -> bool {
    &&& forall|i: int| 0 <= i < assets.len() ==> plain_name((#[trigger] assets[i]).id)
    &&& forall|i: int|
        0 <= i < assets.len() ==> is_file_name((#[trigger] assets[i]).filename, windows)
    &&& forall|i: int|
        0 <= i < assets.len() ==> (read_url((#[trigger] assets[i]).url) matches Ok(url) && url.scheme
            == "https"@)
    &&& forall|i: int, j: int|
        0 <= i < j < assets.len() ==> (#[trigger] assets[i]).id != (#[trigger] assets[j]).id
            && assets[i].filename != assets[j].filename
}

proof fn lemma_assets(assets: Seq<AssetConfigView>, windows: bool)
    ensures
        config::assets_problem(assets, windows) is None <==> good_assets(assets, windows),
    decreases assets.len(),
{
    if assets.len() > 0 {
        let rest = assets.drop_last();
        let n = rest.len() as int;
        let last = assets[n];
        lemma_assets(rest, windows);
        law_resource_names(last.id);
        assert(forall|i: int| 0 <= i < n ==> #[trigger] rest[i] == assets[i]);
        assert(assets.last() == last);
        let problem = config::asset_problem(rest, last, read_url(last.url), windows);
        if config::assets_problem(assets, windows) is None {
            assert forall|i: int, j: int| 0 <= i < j < assets.len() implies (
            #[trigger] assets[i]).id != (#[trigger] assets[j]).id && assets[i].filename
                != assets[j].filename by {
                assert(rest[i] == assets[i]);
                if j < n {
                    assert(rest[j] == assets[j]);
                }
            }
            assert forall|i: int| 0 <= i < assets.len() implies plain_name(
                (#[trigger] assets[i]).id,
            ) && is_file_name(assets[i].filename, windows) && (read_url(assets[i].url) matches Ok(
                url,
            ) && url.scheme == "https"@) by {
                if i < n {
                    assert(rest[i] == assets[i]);
                }
            }
        } else if good_assets(assets, windows) {
            assert(good_assets(rest, windows)) by {
                assert forall|i: int, j: int| 0 <= i < j < rest.len() implies (
                #[trigger] rest[i]).id != (#[trigger] rest[j]).id && rest[i].filename
                    != rest[j].filename by {
                    assert(rest[i] == assets[i] && rest[j] == assets[j]);
                }
                assert forall|i: int| 0 <= i < rest.len() implies plain_name(
                    (#[trigger] rest[i]).id,
                ) && is_file_name(rest[i].filename, windows) && (read_url(rest[i].url) matches Ok(
                    url,
                ) && url.scheme == "https"@) by {
                    assert(rest[i] == assets[i]);
                }
            }
            assert(problem is Some);
            if exists|i: int| 0 <= i < rest.len() && (#[trigger] rest[i]).id == last.id {
                let i = choose|i: int| 0 <= i < rest.len() && (#[trigger] rest[i]).id == last.id;
                assert(assets[i].id == assets[n].id);
            } else if exists|i: int| 0 <= i < rest.len() && (#[trigger] rest[i]).filename
                == last.filename {
                let i = choose|i: int|
                    0 <= i < rest.len() && (#[trigger] rest[i]).filename == last.filename;
                assert(assets[i].filename == assets[n].filename);
            }
            assert(read_url(assets[n].url) is Ok);
        }
    }
}

/// A subscription is accepted exactly where its name is a name, its address is
/// read over HTTPS, and its format is the one that there is.
pub proof fn law_accepted_subscriptions(s: SubscriptionConfigView)
    ensures
        subscription_problem(s) is None <==> plain_name(s.name) && s.format == "auto"@ && (read_url(
            s.url,
        ) matches Ok(url) && url.scheme == "https"@),
{
    law_resource_names(s.name);
}

/// A profile is accepted exactly where its name is a name, it has a command, and
/// the variables that it sets are named by letters, digits and underscores.
pub proof fn law_accepted_profiles(p: AppProfileView)
    ensures
        profile_problem(p) is None ==> plain_name(p.name) && p.command.len() > 0
            && p.command[0].len() > 0,
        plain_name(p.name) && p.command.len() > 0 && p.command[0].len() > 0 && p.environment
            == Map::<Seq<char>, Seq<char>>::empty() ==> profile_problem(p) is None,
        profile_problem(p) is None ==> forall|k: Seq<char>| #[trigger]
            p.environment.contains_key(k) ==> config::is_variable_name(k),
{
    law_resource_names(p.name);
}

/// What a manager does without a configuration file: it listens for local users
/// only, on two ports, closes what it routes when the core is away, and asks for
/// releases of the core where they are made.
pub proof fn law_default_configuration()
    ensures
        ({
            let c = default_config();
            &&& c.proxy.listen.loopback()
            &&& c.proxy.socks_port == 10808 && c.proxy.http_port == 10809
            &&& c.proxy.udp && c.proxy.sniffing
            &&& c.tun.enabled && c.tun.fail_closed && c.tun.bypass_private_networks
            &&& c.tun.interface_name == "xray0"@ && c.tun.mtu == 1500 && !c.tun.ipv6_enabled
            &&& c.tun.routing_table == 166 && c.tun.packet_mark == 102
            &&& c.tun.ipv4_gateway == "172.31.255.1/30"@
            &&& c.core.repository == "XTLS/Xray-core"@ && c.core.manager_repository is None
            &&& c.general.keep_generations == 3 && c.general.keep_core_versions == 2
                && c.general.keep_asset_generations == 2
            &&& c.general.connect_timeout_seconds == 8 && c.general.request_timeout_seconds == 20
            &&& c.general.max_subscription_size_mb == 20 && c.general.max_core_archive_size_mb == 150
                && c.general.max_asset_size_mb == 200
            &&& c.menu.probe_concurrency == 4 && c.menu.probe_timeout_seconds == 8
            &&& c.menu.latency_green_ms == 200 && c.menu.latency_yellow_ms == 500
            &&& c.menu.probe_on_open
            &&& c.assets.len() == 2 && c.assets[0].filename == "geoip.dat"@ && c.assets[1].filename
                == "geosite.dat"@
            &&& c.dns.mode == "system"@ && c.dns.query_strategy == "UseIP"@ && c.dns.tun_servers.len()
                == 2
        }),
{
}

/// How a path is joined: below the directory with one separator, and a name with
/// a root of its own alone.
pub proof fn law_joined_paths(base: Seq<char>, name: Seq<char>)
    ensures
        name.len() > 0 && name[0] == '/' ==> path_join(false, base, name) == name,
        base.len() > 0 && base.last() != '/' && !(name.len() > 0 && name[0] == '/') ==> path_join(
            false,
            base,
            name,
        ) == base + seq!['/'] + name,
        base.len() > 0 && base.last() == '/' && !(name.len() > 0 && name[0] == '/') ==> path_join(
            false,
            base,
            name,
        ) == base + name,
        base.len() > 2 && base.last() != '/' && base.last() != '\\' && name.len() > 0 && name[0]
            != '/' && name[0] != '\\' && !has_drive(name) ==> path_join(true, base, name) == base
            + seq!['\\'] + name,
        has_drive(name) ==> path_join(true, base, name) == name,
{
    reveal_strlit("/");
    reveal_strlit("\\");
    assert("/"@ =~= seq!['/']);
    assert("\\"@ =~= seq!['\\']);
}

/// A download follows only so many redirects, and never one that leaves HTTPS.
pub proof fn law_redirects(taken: nat, limit: nat, from: Option<Seq<char>>, to: Seq<char>)
    ensures
        redirect_decision(taken, limit, from, to) is Follow <==> taken < limit && (from == Some(
            "https"@,
        ) ==> to == "https"@),
        redirect_decision(taken, limit, from, to) is TooMany <==> taken >= limit,
{
}

/// A response is taken exactly where it is complete and within the limit; an
/// address is asked only over HTTPS.
pub proof fn law_responses(code: u16, shown: Seq<char>, length: Option<u64>, max: u64, url: Seq<char>)
    ensures
        response_problem(code, shown, length, max) is None <==> code == 200 && (length matches Some(n)
            ==> n <= max),
        address_problem(read_url(url)) is None <==> (read_url(url) matches Ok(u) && u.scheme
            == "https"@),
{
}

/// The limit of redirects is the smaller of the two; the releases of a repository
/// are asked where they are listed.
pub proof fn law_requests(
    client: &HttpClient,
    request: &DownloadRequest,
    limit: usize,
    provider: &GithubReleaseProvider,
    repository: &str,
    asked: DownloadRequest,
)
    requires
        call_ensures(HttpClient::redirect_limit, (client, request), limit),
        call_ensures(GithubReleaseProvider::request, (provider, repository), asked),
    ensures
        limit <= client.max_redirects && limit <= request@.max_redirects,
        limit == client.max_redirects || limit == request@.max_redirects,
        asked@.url == "https://api.github.com/repos/"@ + repository@ + "/releases"@,
        asked@.max_bytes == 10485760 && asked@.timeout_seconds == 20 && asked@.max_redirects == 5,
{
}

/// The release that is taken is the first that is no prerelease.
pub proof fn law_stable_release(releases: &Vec<Release>, r: Result<Release, ManagerError>)
    requires
        call_ensures(download::stable_release, (releases,), r),
    ensures
        r matches Ok(x) ==> !x@.prerelease && exists|i: int|
            0 <= i < releases@.len() && (#[trigger] releases@[i])@ == x@ && forall|j: int|
                0 <= j < i ==> (#[trigger] releases@[j])@.prerelease,
        (forall|i: int| 0 <= i < releases@.len() ==> (#[trigger] releases@[i])@.prerelease) ==> r is Err,
{
    let v = download::release_views(releases@);
    assert(forall|i: int| 0 <= i < releases@.len() ==> #[trigger] v[i] == releases@[i]@);
    match r {
        Ok(x) => {
            let i = choose|i: int| #[trigger] download::first_stable(v, i) && x@ == v[i];
            assert(releases@[i]@ == x@);
            assert forall|j: int| 0 <= j < i implies (#[trigger] releases@[j])@.prerelease by {
                assert(v[j].prerelease);
            }
        },
        Err(_) => {},
    }
}

/// An asset is taken where it is not empty, within the limit, and does not begin
/// like a page or like JSON.
pub proof fn law_accepted_assets(bytes: Seq<u8>, max: usize)
    ensures
        asset_problem(bytes, max) is None <==> 0 < bytes.len() <= max && ({
            let head = if bytes.len() < 512 {
                bytes
            } else {
                bytes.take(512)
            };
            let t = ascii_lower(trim_front(lossy_text(head)));
            !has_prefix(t, "<!doctype"@) && !has_prefix(t, "<html"@) && !has_prefix(t, "<?xml"@)
                && !(t.len() > 0 && (t[0] == '{' || t[0] == '['))
        }),
{
}

/// What is taken of an archive: the one file that is named like the core; an
/// archive with a path that leaves it, with two cores or with one that is too
/// large is refused.
pub proof fn law_archive_entries(e: ZipEntryView, found: bool, max: u64)
    ensures
        entry_decision(e, found, max) == Ok::<bool, Seq<char>>(true) <==> e.path is Some
            && !e.directory && e.path->0.len() > 0 && (e.path->0.last() == "xray"@
            || e.path->0.last() == "xray.exe"@) && e.size <= max && !found,
        entry_decision(e, found, max) is Err <==> e.path is None || (holds_core(e) && (e.size > max
            || found)),
        core_name(true) == "xray.exe"@ && core_name(false) == "xray"@,
{
}

/// An archive without a core gives none.
pub proof fn law_archive_without_core(
    bytes: Seq<u8>,
    entries: Seq<Result<ZipEntryView, Seq<char>>>,
    max: u64,
)
    requires
        forall|i: int|
            0 <= i < entries.len() ==> ((#[trigger] entries[i]) matches Ok(e) && !holds_core(e)),
    ensures
        extraction(bytes, entries, max) is Err,
{
    lemma_none_found(bytes, entries, max);
}

proof fn lemma_none_found(bytes: Seq<u8>, entries: Seq<Result<ZipEntryView, Seq<char>>>, max: u64)
    requires
        forall|i: int|
            0 <= i < entries.len() ==> ((#[trigger] entries[i]) matches Ok(e) && !holds_core(e)),
    ensures
        searched(bytes, entries, max) matches Ok(found) ==> found is None,
    decreases entries.len(),
{
    if entries.len() > 0 {
        let rest = entries.drop_last();
        assert forall|i: int| 0 <= i < rest.len() implies ((#[trigger] rest[i]) matches Ok(e)
            && !holds_core(e)) by {
            assert(rest[i] == entries[i]);
        }
        lemma_none_found(bytes, rest, max);
        assert(entries[entries.len() - 1] == entries.last());
    }
}

/// A path is what its parts lead to: a name goes down, and two dots take the last
/// name back.
pub proof fn law_lexical_paths(parts: Seq<PathPartView>, name: Seq<char>)
    ensures
        normal(parts.push(PathPartView::Named(name))) == normal(parts).push(PathPartView::Named(name)),
        normal(parts.push(PathPartView::Current)) == normal(parts),
        normal(parts.push(PathPartView::Named(name)).push(PathPartView::Parent)) == normal(parts),
{
    let a = parts.push(PathPartView::Named(name));
    assert(a.drop_last() =~= parts);
    assert(parts.push(PathPartView::Current).drop_last() =~= parts);
    assert(a.push(PathPartView::Parent).drop_last() =~= a);
    assert(normal(parts).push(PathPartView::Named(name)).drop_last() =~= normal(parts));
}

/// What may be removed is strictly below its root: the path goes on behind all
/// parts of the root.
pub proof fn law_owned_paths(path: Seq<PathPartView>, root: Seq<PathPartView>, name: Seq<char>)
    ensures
        strictly_below(path, root) ==> path.len() > root.len() && forall|i: int|
            0 <= i < root.len() ==> path[i] == #[trigger] root[i],
        strictly_below(root.push(PathPartView::Named(name)), root),
        !strictly_below(root, path) || !strictly_below(path, root),
{
    if strictly_below(path, root) {
        assert forall|i: int| 0 <= i < root.len() implies path[i] == #[trigger] root[i] by {
            assert(path.take(root.len() as int)[i] == path[i]);
        }
    }
    assert(root.push(PathPartView::Named(name)).take(root.len() as int) =~= root);
}

/// How many generations stay beside the current and the previous one: as many as
/// are to be kept, less those two.
pub proof fn law_pruned_count(
    list: Seq<StoredGenerationView>,
    current: Seq<PathPartView>,
    previous: Seq<PathPartView>,
    keep: nat,
)
    ensures
        ({
            let both = (Some(current), Some(previous));
            let free = storage::loose_by_age(list, both.0, both.1).len();
            let stay = if current == previous {
                if keep < 1 {
                    0int
                } else {
                    keep - 1
                }
            } else {
                if keep < 2 {
                    0int
                } else {
                    keep - 2
                }
            };
            pruned(list, both.0, both.1, keep).len() == (if free > stay {
                free - stay
            } else {
                0int
            })
        }),
        ({
            let free = storage::loose_by_age(list, None, None).len();
            pruned(list, None, None, keep).len() == (if free > keep {
                free - keep
            } else {
                0int
            })
        }),
        ({
            let free = storage::loose_by_age(list, Some(current), None).len();
            let stay = if keep < 1 {
                0int
            } else {
                keep - 1
            };
            pruned(list, Some(current), None, keep).len() == (if free > stay {
                free - stay
            } else {
                0int
            })
        }),
{
}

/// The generations are looked at newest first, and each once.
pub proof fn law_generations_by_age(list: Seq<StoredGenerationView>)
    ensures
        storage::by_age(list).to_multiset() == list.to_multiset(),
        storage::by_age(list).len() == list.len(),
    decreases list.len(),
{
    broadcast use vstd::seq_lib::group_to_multiset_ensures;

    if list.len() > 0 {
        law_generations_by_age(list.drop_last());
        lemma_placed(storage::by_age(list.drop_last()), list.last());
        assert(list =~= list.drop_last().push(list.last()));
    } else {
        assert(storage::by_age(list) =~= list);
    }
}

proof fn lemma_placed(sorted: Seq<StoredGenerationView>, g: StoredGenerationView)
    ensures
        storage::placed_by_age(sorted, g).to_multiset() == sorted.to_multiset().insert(g),
        storage::placed_by_age(sorted, g).len() == sorted.len() + 1,
    decreases sorted.len(),
{
    broadcast use vstd::seq_lib::group_to_multiset_ensures;

    if sorted.len() > 0 && sorted.last().modified < g.modified {
        lemma_placed(sorted.drop_last(), g);
        assert(sorted =~= sorted.drop_last().push(sorted.last()));
        assert(storage::placed_by_age(sorted, g).to_multiset()
            =~= sorted.drop_last().to_multiset().insert(g).insert(sorted.last()));
        assert(sorted.to_multiset() =~= sorted.drop_last().to_multiset().insert(sorted.last()));
        assert(sorted.drop_last().to_multiset().insert(g).insert(sorted.last())
            =~= sorted.to_multiset().insert(g));
    }
}

/// A generation has all its files before it is tested, is tested before it is
/// current, and becomes current only where the test passed.
pub proof fn law_generation_steps(
    r: GenerationRequestView,
    candidate: Seq<char>,
    files: Seq<(Seq<char>, Seq<u8>)>,
    i: int,
)
    requires
        0 <= i < files.len(),
    ensures
        ({
            let m = generation_program(r, candidate, files).main;
            let n = m.len() as int;
            let conf = path_join(r.windows, candidate, "conf.d"@);
            &&& n == files.len() + 5
            &&& m[0].effect == (GenerationEffectView::CreateDir { path: conf })
            &&& m[i + 1].effect == (GenerationEffectView::Write {
                path: path_join(r.windows, conf, files[i].0),
                bytes: files[i].1,
                mode: 0o640,
            })
            &&& m[i + 1].policy == Policy::Fail
            &&& m[n - 3].effect matches GenerationEffectView::TestConfig(q) && q.executable
                == r.executable && q.config_dir == conf && q.asset_dir == r.assets
            &&& m[n - 3].policy == Policy::Fail
            &&& m[n - 1].effect == (GenerationEffectView::Switch {
                current: r.current,
                previous: r.previous,
                target: candidate,
            })
            &&& m[n - 1].policy == Policy::Fail
        }),
{
    let conf = path_join(r.windows, candidate, "conf.d"@);
    let m = generation_program(r, candidate, files).main;
    let w = generation::write_steps(r.windows, conf, files);
    let e = generation::adopt_steps(r, candidate);
    assert(m[i + 1] == w[i]);
    let n = m.len() as int;
    assert(m[n - 3] == e[1]);
    assert(m[n - 1] == e[3]);
}

/// A routing is written to the routing file of the configuration and applied;
/// where that fails the old text is written back, or the file removed where
/// there was none.
pub proof fn law_routing_is_replaced(
    windows: bool,
    dir: Seq<char>,
    bytes: Seq<u8>,
    previous: Option<Seq<u8>>,
)
    ensures
        ({
            let p = replacement(windows, dir, bytes, previous);
            let path = path_join(windows, dir, "routing.toml"@);
            &&& p.main.len() == 3
            &&& p.main[0].effect == (RoutingEffectView::Write { path, bytes, mode: 0o640 })
            &&& p.main[0].policy == Policy::Fail && p.main[1].policy == Policy::Fail
            &&& p.main[1].effect is FindSelected
            &&& p.main[2].effect is Apply && p.main[2].policy is Undo
            &&& p.undos[p.main[2].policy->Undo_0 as int].len() == 1
            &&& p.undos[p.main[2].policy->Undo_0 as int][0].effect == (match previous {
                Some(old) => RoutingEffectView::Write { path, bytes: old, mode: 0o640 },
                None => RoutingEffectView::Remove { path, root: dir },
            })
        }),
{
}

} // verus!

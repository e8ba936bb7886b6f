//! The manager's configuration.

use crate::error::{ManagerError, ManagerErrorView};
use crate::outside::{UrlParts, UrlView};
use crate::ports::{Capability, CapabilityMap};
use crate::text_map::TextMap;
use crate::domain;
use crate::outside;
use crate::text;
use crate::text_map;
use vstd::prelude::*;

verus! {

/// An IP address: the four numbers of one of the older kind, or the bits of one
/// of the newer kind with how it is written.
#[derive(Debug)]
pub enum IpAddress {
    V4(u8, u8, u8, u8),
    V6 { bits: u128, text: String },
}

/// The mathematical value of a [`IpAddress`].
#[verifier::ext_equal]
pub enum IpAddressView {
    V4(u8, u8, u8, u8),
    V6 { bits: u128, text: Seq<char> },
}

impl IpAddressView {
    /// Whether the address is a loopback address.
    pub open spec fn loopback(self) -> bool {
        match self {
            IpAddressView::V4(a, _, _, _) => a == 127,
            IpAddressView::V6 { bits, .. } => bits == 1,
        }
    }

    /// How the address is written.
    pub open spec fn text(self) -> Seq<char> {
        match self {
            IpAddressView::V4(a, b, c, d) => text::decimal(a as nat) + "."@ + text::decimal(
                b as nat,
            ) + "."@ + text::decimal(c as nat) + "."@ + text::decimal(d as nat),
            IpAddressView::V6 { bits, text } => if bits == 1 {
                "::1"@
            } else {
                text
            },
        }
    }
}

impl View for IpAddress {
    type V = IpAddressView;

    open spec fn view(&self) -> IpAddressView {
        match self {
            IpAddress::V4(a, b, c, d) => IpAddressView::V4(*a, *b, *c, *d),
            IpAddress::V6 { bits, text } => IpAddressView::V6 { bits: *bits, text: text@ },
        }
    }
}

impl Clone for IpAddress {
    fn clone(&self) -> (r: Self)
        ensures
            r@ == self@,
    {
        match self {
            IpAddress::V4(a, b, c, d) => IpAddress::V4(*a, *b, *c, *d),
            IpAddress::V6 { bits, text } => IpAddress::V6 { bits: *bits, text: text.clone() },
        }
    }
}

pub open spec fn ip_address_views(v: Seq<IpAddress>) -> Seq<IpAddressView> {
    v.map_values(|x: IpAddress| x@)
}

pub broadcast proof fn lemma_ip_address_views_push(v: Seq<IpAddress>, x: IpAddress)
    ensures
        #[trigger] ip_address_views(v.push(x)) == ip_address_views(v).push(x@),
{
    assert(ip_address_views(v.push(x)) =~= ip_address_views(v).push(x@));
}

/// A copy of a list of [`IpAddress`].
pub fn copy_ip_addresses(v: &Vec<IpAddress>) -> (r: Vec<IpAddress>)
    ensures
        ip_address_views(r@) == ip_address_views(v@),
{
    let mut r: Vec<IpAddress> = Vec::new();
    let mut i: usize = 0;
    while i < v.len()
        invariant
            i <= v@.len(),
            ip_address_views(r@) == ip_address_views(v@).take(i as int),
        decreases v@.len() - i,
    {
        let x = v[i].clone();
        proof {
            lemma_ip_address_views_push(r@, x);
            assert(ip_address_views(v@).take(i + 1) =~= ip_address_views(v@).take(i as int).push(x@));
        }
        r.push(x);
        i += 1;
    }
    assert(ip_address_views(v@).take(v@.len() as int) =~= ip_address_views(v@));
    r
}

impl IpAddress {
    /// Whether the address is a loopback address.
    pub fn is_loopback(&self) -> (r: bool)
        ensures
            r == self@.loopback(),
    {
        match self {
            IpAddress::V4(a, _, _, _) => *a == 127,
            IpAddress::V6 { bits, .. } => *bits == 1,
        }
    }

    /// How the address is written.
    pub fn text(&self) -> (r: String)
        ensures
            r@ == self@.text(),
    {
        match self {
            IpAddress::V4(a, b, c, d) => {
                let mut r = text::decimal_of(*a as u64);
                r.append(".");
                r.append(text::decimal_of(*b as u64).as_str());
                r.append(".");
                r.append(text::decimal_of(*c as u64).as_str());
                r.append(".");
                r.append(text::decimal_of(*d as u64).as_str());
                r
            },
            IpAddress::V6 { bits, text } => if *bits == 1 {
                text::owned("::1")
            } else {
                text.clone()
            },
        }
    }
}

/// Limits and timeouts.
#[derive(Debug)]
pub struct GeneralConfig {
    pub keep_generations: usize,
    pub keep_core_versions: usize,
    pub keep_asset_generations: usize,
    pub connect_timeout_seconds: u64,
    pub request_timeout_seconds: u64,
    pub max_subscription_size_mb: u64,
    pub max_core_archive_size_mb: u64,
    pub max_asset_size_mb: u64,
    pub healthcheck_url: String,
}

/// The mathematical value of a [`GeneralConfig`].
#[verifier::ext_equal]
pub struct GeneralConfigView {
    pub keep_generations: usize,
    pub keep_core_versions: usize,
    pub keep_asset_generations: usize,
    pub connect_timeout_seconds: u64,
    pub request_timeout_seconds: u64,
    pub max_subscription_size_mb: u64,
    pub max_core_archive_size_mb: u64,
    pub max_asset_size_mb: u64,
    pub healthcheck_url: Seq<char>,
}

impl View for GeneralConfig {
    type V = GeneralConfigView;

    open spec fn view(&self) -> GeneralConfigView {
        GeneralConfigView {
            keep_generations: self.keep_generations,
            keep_core_versions: self.keep_core_versions,
            keep_asset_generations: self.keep_asset_generations,
            connect_timeout_seconds: self.connect_timeout_seconds,
            request_timeout_seconds: self.request_timeout_seconds,
            max_subscription_size_mb: self.max_subscription_size_mb,
            max_core_archive_size_mb: self.max_core_archive_size_mb,
            max_asset_size_mb: self.max_asset_size_mb,
            healthcheck_url: self.healthcheck_url@,
        }
    }
}

impl Clone for GeneralConfig {
    fn clone(&self) -> (r: Self)
        ensures
            r@ == self@,
    {
        GeneralConfig {
            keep_generations: self.keep_generations,
            keep_core_versions: self.keep_core_versions,
            keep_asset_generations: self.keep_asset_generations,
            connect_timeout_seconds: self.connect_timeout_seconds,
            request_timeout_seconds: self.request_timeout_seconds,
            max_subscription_size_mb: self.max_subscription_size_mb,
            max_core_archive_size_mb: self.max_core_archive_size_mb,
            max_asset_size_mb: self.max_asset_size_mb,
            healthcheck_url: self.healthcheck_url.clone(),
        }
    }
}

/// Where the Xray core and the manager come from.
#[derive(Debug)]
pub struct CoreConfig {
    pub repository: String,
    pub channel: String,
    pub pinned_version: String,
    pub manager_repository: Option<String>,
}

/// The mathematical value of a [`CoreConfig`].
#[verifier::ext_equal]
pub struct CoreConfigView {
    pub repository: Seq<char>,
    pub channel: Seq<char>,
    pub pinned_version: Seq<char>,
    pub manager_repository: Option<Seq<char>>,
}

impl View for CoreConfig {
    type V = CoreConfigView;

    open spec fn view(&self) -> CoreConfigView {
        CoreConfigView {
            repository: self.repository@,
            channel: self.channel@,
            pinned_version: self.pinned_version@,
            manager_repository: text::opt_text(self.manager_repository),
        }
    }
}

impl Clone for CoreConfig {
    fn clone(&self) -> (r: Self)
        ensures
            r@ == self@,
    {
        CoreConfig {
            repository: self.repository.clone(),
            channel: self.channel.clone(),
            pinned_version: self.pinned_version.clone(),
            manager_repository: text::copy_opt(&self.manager_repository),
        }
    }
}

/// The local proxy.
#[derive(Debug)]
pub struct ProxyConfig {
    pub listen: IpAddress,
    pub socks_port: u16,
    pub http_port: u16,
    pub udp: bool,
    pub sniffing: bool,
}

/// The mathematical value of a [`ProxyConfig`].
#[verifier::ext_equal]
pub struct ProxyConfigView {
    pub listen: IpAddressView,
    pub socks_port: u16,
    pub http_port: u16,
    pub udp: bool,
    pub sniffing: bool,
}

impl View for ProxyConfig {
    type V = ProxyConfigView;

    open spec fn view(&self) -> ProxyConfigView {
        ProxyConfigView {
            listen: self.listen@,
            socks_port: self.socks_port,
            http_port: self.http_port,
            udp: self.udp,
            sniffing: self.sniffing,
        }
    }
}

impl Clone for ProxyConfig {
    fn clone(&self) -> (r: Self)
        ensures
            r@ == self@,
    {
        ProxyConfig {
            listen: self.listen.clone(),
            socks_port: self.socks_port,
            http_port: self.http_port,
            udp: self.udp,
            sniffing: self.sniffing,
        }
    }
}

/// Name resolution.
#[derive(Debug)]
pub struct DnsConfig {
    pub mode: String,
    pub tun_servers: Vec<IpAddress>,
    pub query_strategy: String,
}

/// The mathematical value of a [`DnsConfig`].
#[verifier::ext_equal]
pub struct DnsConfigView {
    pub mode: Seq<char>,
    pub tun_servers: Seq<IpAddressView>,
    pub query_strategy: Seq<char>,
}

impl View for DnsConfig {
    type V = DnsConfigView;

    open spec fn view(&self) -> DnsConfigView {
        DnsConfigView {
            mode: self.mode@,
            tun_servers: ip_address_views(self.tun_servers@),
            query_strategy: self.query_strategy@,
        }
    }
}

impl Clone for DnsConfig {
    fn clone(&self) -> (r: Self)
        ensures
            r@ == self@,
    {
        DnsConfig {
            mode: self.mode.clone(),
            tun_servers: copy_ip_addresses(&self.tun_servers),
            query_strategy: self.query_strategy.clone(),
        }
    }
}

/// Selective TUN routing.
#[derive(Debug)]
pub struct TunConfig {
    pub enabled: bool,
    pub interface_name: String,
    pub mtu: u16,
    pub ipv4_gateway: String,
    pub ipv6_enabled: bool,
    pub routing_table: u32,
    pub packet_mark: u32,
    pub bypass_private_networks: bool,
    pub fail_closed: bool,
    pub override_resolv_conf_for_apps: bool,
}

/// The mathematical value of a [`TunConfig`].
#[verifier::ext_equal]
pub struct TunConfigView {
    pub enabled: bool,
    pub interface_name: Seq<char>,
    pub mtu: u16,
    pub ipv4_gateway: Seq<char>,
    pub ipv6_enabled: bool,
    pub routing_table: u32,
    pub packet_mark: u32,
    pub bypass_private_networks: bool,
    pub fail_closed: bool,
    pub override_resolv_conf_for_apps: bool,
}

impl View for TunConfig {
    type V = TunConfigView;

    open spec fn view(&self) -> TunConfigView {
        TunConfigView {
            enabled: self.enabled,
            interface_name: self.interface_name@,
            mtu: self.mtu,
            ipv4_gateway: self.ipv4_gateway@,
            ipv6_enabled: self.ipv6_enabled,
            routing_table: self.routing_table,
            packet_mark: self.packet_mark,
            bypass_private_networks: self.bypass_private_networks,
            fail_closed: self.fail_closed,
            override_resolv_conf_for_apps: self.override_resolv_conf_for_apps,
        }
    }
}

impl Clone for TunConfig {
    fn clone(&self) -> (r: Self)
        ensures
            r@ == self@,
    {
        TunConfig {
            enabled: self.enabled,
            interface_name: self.interface_name.clone(),
            mtu: self.mtu,
            ipv4_gateway: self.ipv4_gateway.clone(),
            ipv6_enabled: self.ipv6_enabled,
            routing_table: self.routing_table,
            packet_mark: self.packet_mark,
            bypass_private_networks: self.bypass_private_networks,
            fail_closed: self.fail_closed,
            override_resolv_conf_for_apps: self.override_resolv_conf_for_apps,
        }
    }
}

/// The node menu.
#[derive(Debug, Clone, Copy)]
pub struct MenuConfig {
    pub probe_on_open: bool,
    pub probe_concurrency: usize,
    pub probe_timeout_seconds: u64,
    pub latency_green_ms: u64,
    pub latency_yellow_ms: u64,
}

/// A data file to download.
#[derive(Debug)]
pub struct AssetConfig {
    pub id: String,
    pub filename: String,
    pub url: String,
}

/// The mathematical value of a [`AssetConfig`].
#[verifier::ext_equal]
pub struct AssetConfigView {
    pub id: Seq<char>,
    pub filename: Seq<char>,
    pub url: Seq<char>,
}

impl View for AssetConfig {
    type V = AssetConfigView;

    open spec fn view(&self) -> AssetConfigView {
        AssetConfigView {
            id: self.id@,
            filename: self.filename@,
            url: self.url@,
        }
    }
}

impl Clone for AssetConfig {
    fn clone(&self) -> (r: Self)
        ensures
            r@ == self@,
    {
        AssetConfig {
            id: self.id.clone(),
            filename: self.filename.clone(),
            url: self.url.clone(),
        }
    }
}

pub open spec fn asset_config_views(v: Seq<AssetConfig>) -> Seq<AssetConfigView> {
    v.map_values(|x: AssetConfig| x@)
}

pub broadcast proof fn lemma_asset_config_views_push(v: Seq<AssetConfig>, x: AssetConfig)
    ensures
        #[trigger] asset_config_views(v.push(x)) == asset_config_views(v).push(x@),
{
    assert(asset_config_views(v.push(x)) =~= asset_config_views(v).push(x@));
}

/// A copy of a list of [`AssetConfig`].
pub fn copy_asset_configs(v: &Vec<AssetConfig>) -> (r: Vec<AssetConfig>)
    ensures
        asset_config_views(r@) == asset_config_views(v@),
{
    let mut r: Vec<AssetConfig> = Vec::new();
    let mut i: usize = 0;
    while i < v.len()
        invariant
            i <= v@.len(),
            asset_config_views(r@) == asset_config_views(v@).take(i as int),
        decreases v@.len() - i,
    {
        let x = v[i].clone();
        proof {
            lemma_asset_config_views_push(r@, x);
            assert(asset_config_views(v@).take(i + 1) =~= asset_config_views(v@).take(i as int).push(x@));
        }
        r.push(x);
        i += 1;
    }
    assert(asset_config_views(v@).take(v@.len() as int) =~= asset_config_views(v@));
    r
}

/// The backends that the configuration asks for.
#[derive(Debug)]
pub struct PlatformSelection {
    pub backends: CapabilityMap,
}

/// The mathematical value of a [`PlatformSelection`].
#[verifier::ext_equal]
pub struct PlatformSelectionView {
    pub backends: Map<Capability, Seq<char>>,
}

impl View for PlatformSelection {
    type V = PlatformSelectionView;

    open spec fn view(&self) -> PlatformSelectionView {
        PlatformSelectionView {
            backends: self.backends@,
        }
    }
}

impl Clone for PlatformSelection {
    fn clone(&self) -> (r: Self)
        ensures
            r@ == self@,
    {
        PlatformSelection {
            backends: self.backends.clone(),
        }
    }
}

/// The whole configuration.
#[derive(Debug)]
pub struct ManagerConfig {
    pub general: GeneralConfig,
    pub core: CoreConfig,
    pub proxy: ProxyConfig,
    pub dns: DnsConfig,
    pub tun: TunConfig,
    pub menu: MenuConfig,
    pub assets: Vec<AssetConfig>,
    pub platform: PlatformSelection,
}

/// The mathematical value of a [`ManagerConfig`].
#[verifier::ext_equal]
pub struct ManagerConfigView {
    pub general: GeneralConfigView,
    pub core: CoreConfigView,
    pub proxy: ProxyConfigView,
    pub dns: DnsConfigView,
    pub tun: TunConfigView,
    pub menu: MenuConfig,
    pub assets: Seq<AssetConfigView>,
    pub platform: PlatformSelectionView,
}

impl View for ManagerConfig {
    type V = ManagerConfigView;

    open spec fn view(&self) -> ManagerConfigView {
        ManagerConfigView {
            general: self.general@,
            core: self.core@,
            proxy: self.proxy@,
            dns: self.dns@,
            tun: self.tun@,
            menu: self.menu,
            assets: asset_config_views(self.assets@),
            platform: self.platform@,
        }
    }
}

impl Clone for ManagerConfig {
    fn clone(&self) -> (r: Self)
        ensures
            r@ == self@,
    {
        ManagerConfig {
            general: self.general.clone(),
            core: self.core.clone(),
            proxy: self.proxy.clone(),
            dns: self.dns.clone(),
            tun: self.tun.clone(),
            menu: self.menu,
            assets: copy_asset_configs(&self.assets),
            platform: self.platform.clone(),
        }
    }
}

/// A subscription. Its URL is a secret.
pub struct SubscriptionConfig {
    pub name: String,
    pub enabled: bool,
    pub url: String,
    pub format: String,
}

/// The mathematical value of a [`SubscriptionConfig`].
#[verifier::ext_equal]
pub struct SubscriptionConfigView {
    pub name: Seq<char>,
    pub enabled: bool,
    pub url: Seq<char>,
    pub format: Seq<char>,
}

impl View for SubscriptionConfig {
    type V = SubscriptionConfigView;

    open spec fn view(&self) -> SubscriptionConfigView {
        SubscriptionConfigView {
            name: self.name@,
            enabled: self.enabled,
            url: self.url@,
            format: self.format@,
        }
    }
}

impl Clone for SubscriptionConfig {
    fn clone(&self) -> (r: Self)
        ensures
            r@ == self@,
    {
        SubscriptionConfig {
            name: self.name.clone(),
            enabled: self.enabled,
            url: self.url.clone(),
            format: self.format.clone(),
        }
    }
}

/// A subscription that is enabled or disabled.
pub fn with_enabled(s: SubscriptionConfig, enabled: bool) -> (r: SubscriptionConfig)
    ensures
        r@ == (SubscriptionConfigView { enabled, ..s@ }),
{
    let mut r = s;
    r.enabled = enabled;
    r
}

pub open spec fn subscription_config_views(v: Seq<SubscriptionConfig>) -> Seq<SubscriptionConfigView> {
    v.map_values(|x: SubscriptionConfig| x@)
}

/// How an application is started on the TUN route.
#[derive(Debug)]
pub struct AppProfile {
    pub name: String,
    pub command: Vec<String>,
    pub clear_proxy_environment: bool,
    pub override_dns: bool,
    pub working_directory: Option<String>,
    pub environment: TextMap,
}

/// The mathematical value of a [`AppProfile`].
#[verifier::ext_equal]
pub struct AppProfileView {
    pub name: Seq<char>,
    pub command: Seq<Seq<char>>,
    pub clear_proxy_environment: bool,
    pub override_dns: bool,
    pub working_directory: Option<Seq<char>>,
    pub environment: Map<Seq<char>, Seq<char>>,
}

impl View for AppProfile {
    type V = AppProfileView;

    open spec fn view(&self) -> AppProfileView {
        AppProfileView {
            name: self.name@,
            command: text::texts(self.command@),
            clear_proxy_environment: self.clear_proxy_environment,
            override_dns: self.override_dns,
            working_directory: text::opt_text(self.working_directory),
            environment: self.environment@,
        }
    }
}

impl Clone for AppProfile {
    fn clone(&self) -> (r: Self)
        ensures
            r@ == self@,
    {
        AppProfile {
            name: self.name.clone(),
            command: text::copy_texts(&self.command),
            clear_proxy_environment: self.clear_proxy_environment,
            override_dns: self.override_dns,
            working_directory: text::copy_opt(&self.working_directory),
            environment: self.environment.clone(),
        }
    }
}

pub open spec fn app_profile_views(v: Seq<AppProfile>) -> Seq<AppProfileView> {
    v.map_values(|x: AppProfile| x@)
}

pub open spec fn opt_app_profile(o: Option<AppProfile>) -> Option<AppProfileView> {
    match o {
        Some(x) => Some(x@),
        None => None,
    }
}

/// An ASCII letter or digit.
pub open spec fn ascii_alnum(c: char) -> bool {
    ('a' <= c <= 'z') || ('A' <= c <= 'Z') || ('0' <= c <= '9')
}

fn is_ascii_alnum(c: char) -> (r: bool)
    ensures
        r == ascii_alnum(c),
{
    ('a' <= c && c <= 'z') || ('A' <= c && c <= 'Z') || ('0' <= c && c <= '9')
}

/// ASCII letters, digits and the characters of `more`.
pub open spec fn made_of(s: Seq<char>, more: Seq<char>) -> bool {
    forall|i: int| 0 <= i < s.len() ==> ascii_alnum(#[trigger] s[i]) || more.contains(s[i])
}

/// Whether `s` has only ASCII letters, digits and characters of `more`.
pub fn is_made_of(s: &str, more: &str) -> (r: bool)
    ensures
        r == made_of(s@, more@),
{
    let v = text::chars_of(s);
    let mut i: usize = 0;
    while i < v.len()
        invariant
            v@ == s@,
            i <= v@.len(),
            forall|j: int| 0 <= j < i ==> ascii_alnum(#[trigger] v@[j]) || more@.contains(v@[j]),
        decreases v@.len() - i,
    {
        if !is_ascii_alnum(v[i]) && !text::contains_char(more, v[i]) {
            assert(!(ascii_alnum(s@[i as int]) || more@.contains(s@[i as int])));
            return false;
        }
        i += 1;
    }
    true
}

/// A non-empty name of ASCII letters, digits, `-` and `_`.
pub open spec fn is_resource_name(s: Seq<char>) -> bool {
    s.len() > 0 && made_of(s, "-_"@)
}

/// Whether `s` is a non-empty name of ASCII letters, digits, `-` and `_`.
pub fn resource_name(s: &str) -> (r: bool)
    ensures
        r == is_resource_name(s@),
{
    !s.is_empty() && is_made_of(s, "-_")
}

/// Whether `s` begins with a drive, as paths on Windows may.
pub open spec fn has_drive(s: Seq<char>) -> bool {
    s.len() >= 2 && s[1] == ':' && ascii_letter(s[0])
}

pub open spec fn ascii_letter(c: char) -> bool {
    ('a' <= c && c <= 'z') || ('A' <= c && c <= 'Z')
}

/// Whether `s` is the name of a file and no path. On Windows `\` parts a path
/// too, and a drive may lead it.
pub open spec fn is_file_name(s: Seq<char>, windows: bool) -> bool {
    &&& s.len() > 0
    &&& !s.contains('/')
    &&& s != "."@
    &&& s != ".."@
    &&& windows ==> !s.contains('\\') && !has_drive(s)
}

/// Whether `s` begins with a drive, as paths on Windows may.
pub fn begins_with_drive(s: &str) -> (r: bool)
    ensures
        r == has_drive(s@),
{
    let v = text::chars_of(s);
    v.len() >= 2 && v[1] == ':' && (('a' <= v[0] && v[0] <= 'z') || ('A' <= v[0] && v[0] <= 'Z'))
}

/// Whether `s` is the name of a file and no path.
pub fn file_name(s: &str, windows: bool) -> (r: bool)
    ensures
        r == is_file_name(s@, windows),
{
    if s.is_empty() || text::contains_char(s, '/') || text::same(s, ".") || text::same(s, "..") {
        return false;
    }
    if windows {
        !begins_with_drive(s) && !text::contains_char(s, '\\')
    } else {
        true
    }
}

/// One number of a dotted IPv4 address: up to three digits without a leading zero.
pub open spec fn is_octet(s: Seq<char>) -> bool {
    &&& 1 <= s.len() <= 3
    &&& text::all_digits(s)
    &&& s.len() == 1 || s[0] != '0'
    &&& text::digits_value(s) <= 255
}

/// A dotted IPv4 address.
pub open spec fn is_ipv4(s: Seq<char>) -> bool {
    let f = text::fields(s, '.');
    f.len() == 4 && is_octet(f[0]) && is_octet(f[1]) && is_octet(f[2]) && is_octet(f[3])
}

fn octet(s: &str) -> (r: bool)
    ensures
        r == is_octet(s@),
{
    let v = text::chars_of(s);
    if v.len() < 1 || v.len() > 3 || (v.len() > 1 && v[0] == '0') {
        return false;
    }
    let plain = v[0] != '+';
    let value = text::parse_unsigned(s, 255);
    proof {
        if !plain {
            assert(!text::is_digit(s@[0]));
        }
    }
    plain && value.is_some()
}

/// Whether `s` is a dotted IPv4 address.
pub fn ipv4(s: &str) -> (r: bool)
    ensures
        r == is_ipv4(s@),
{
    let f = text::split_char(s, '.');
    assert(text::texts(f@).len() == f@.len());
    f.len() == 4 && octet(f[0].as_str()) && octet(f[1].as_str()) && octet(f[2].as_str()) && octet(
        f[3].as_str(),
    )
}

/// The first of two problems.
pub open spec fn first_problem(a: Option<Seq<char>>, b: Option<Seq<char>>) -> Option<Seq<char>> {
    if a is Some {
        a
    } else {
        b
    }
}

/// A result says that there is no problem, or which one.
pub open spec fn checked(r: Result<(), ManagerError>, problem: Option<Seq<char>>) -> bool {
    match r {
        Ok(_) => problem is None,
        Err(e) => problem matches Some(m) && e@ == ManagerErrorView::InvalidConfig(m),
    }
}

fn reject(message: &str) -> (r: Result<(), ManagerError>)
    ensures
        checked(r, Some(message@)),
{
    Err(ManagerError::InvalidConfig(text::owned(message)))
}

/// What is wrong with the ports, timeouts and limits.
pub open spec fn limits_problem(c: ManagerConfigView) -> Option<Seq<char>> {
    if c.proxy.socks_port == 0 || c.proxy.http_port == 0 {
        Some("SOCKS and HTTP ports must be non-zero"@)
    } else if c.proxy.socks_port == c.proxy.http_port {
        Some("SOCKS and HTTP ports must be different"@)
    } else if !c.proxy.listen.loopback() {
        Some("proxy listen address must be loopback"@)
    } else if c.menu.probe_concurrency == 0 {
        Some("menu.probe_concurrency must be greater than zero"@)
    } else if c.general.connect_timeout_seconds == 0 || c.general.request_timeout_seconds == 0
        || c.general.max_subscription_size_mb == 0 || c.general.max_core_archive_size_mb == 0
        || c.general.max_asset_size_mb == 0 {
        Some("timeouts and download size limits must be greater than zero"@)
    } else if c.menu.probe_timeout_seconds == 0 {
        Some("menu.probe_timeout_seconds must be greater than zero"@)
    } else if c.menu.latency_green_ms > c.menu.latency_yellow_ms {
        Some("menu.latency_green_ms must not exceed menu.latency_yellow_ms"@)
    } else {
        None
    }
}

/// What is wrong with a URL that must use HTTPS.
pub open spec fn https_problem(
    parsed: Result<UrlView, Seq<char>>,
    unreadable: Seq<char>,
    insecure: Seq<char>,
) -> Option<Seq<char>> {
    match parsed {
        Err(_) => Some(unreadable),
        Ok(url) => if url.scheme != "https"@ {
            Some(insecure)
        } else {
            None
        },
    }
}

pub open spec fn url_result(r: Result<UrlParts, String>) -> Result<UrlView, Seq<char>> {
    match r {
        Ok(parts) => Ok(parts@),
        Err(e) => Err(e@),
    }
}

/// Checks that a parsed URL uses HTTPS.
pub fn check_https(parsed: &Result<UrlParts, String>, unreadable: &str, insecure: &str) -> (r: Result<
    (),
    ManagerError,
>)
    ensures
        checked(r, https_problem(url_result(*parsed), unreadable@, insecure@)),
{
    match parsed {
        Ok(url) => if text::same(url.scheme.as_str(), "https") {
            Ok(())
        } else {
            reject(insecure)
        },
        Err(_) => reject(unreadable),
    }
}

/// What is wrong with the TUN and DNS settings and the release channel.
pub open spec fn runtime_problem(c: ManagerConfigView) -> Option<Seq<char>> {
    if c.tun.enabled && !c.tun.fail_closed {
        Some("selective TUN requires fail_closed = true"@)
    } else if !(576 <= c.tun.mtu <= 9000) {
        Some("TUN MTU must be between 576 and 9000"@)
    } else if c.dns.mode != "system"@ {
        Some("only dns.mode = \"system\" is supported"@)
    } else if c.dns.query_strategy != "UseIP"@ && c.dns.query_strategy != "UseIPv4"@
        && c.dns.query_strategy != "UseIPv6"@ && c.dns.query_strategy != "UseSystem"@ {
        Some("dns.query_strategy must be UseIP, UseIPv4, UseIPv6, or UseSystem"@)
    } else if c.tun.override_resolv_conf_for_apps && c.dns.tun_servers.len() == 0 {
        Some("dns.tun_servers cannot be empty when per-app DNS override is enabled"@)
    } else if !(is_resource_name(c.tun.interface_name) && c.tun.interface_name.len() <= 15) {
        Some("TUN interface name must be 1-15 ASCII letters, digits, '-' or '_'"@)
    } else if c.tun.routing_table == 0 || c.tun.routing_table == 253 || c.tun.routing_table == 254
        || c.tun.routing_table == 255 || c.tun.packet_mark == 0 {
        Some("TUN requires a non-system routing table and non-zero packet mark"@)
    } else if c.core.channel != "stable"@ {
        Some("only core.channel = \"stable\" is supported"@)
    } else if c.core.pinned_version.len() > 0 {
        Some("core.pinned_version is not implemented; leave it empty"@)
    } else {
        None
    }
}

/// `owner/repository`.
pub open spec fn is_repository(s: Seq<char>) -> bool {
    let f = text::fields(s, '/');
    f.len() == 2 && f[0].len() > 0 && f[1].len() > 0 && made_of(s, "-_./"@)
}

pub open spec fn repository_problem(value: Seq<char>, field: Seq<char>) -> Option<Seq<char>> {
    if is_repository(value) {
        None
    } else {
        Some(field + " must use owner/repository form"@)
    }
}

/// Checks that a repository has the form `owner/repository`.
pub fn validate_repository(value: &str, field: &str) -> (r: Result<(), ManagerError>)
    ensures
        checked(r, repository_problem(value@, field@)),
{
    let f = text::split_char(value, '/');
    assert(text::texts(f@).len() == f@.len());
    if f.len() == 2 && !f[0].as_str().is_empty() && !f[1].as_str().is_empty() && is_made_of(
        value,
        "-_./",
    ) {
        Ok(())
    } else {
        reject(text::concat(field, " must use owner/repository form").as_str())
    }
}

/// An IPv4 address with a prefix length.
pub open spec fn is_gateway(s: Seq<char>) -> bool {
    match text::cut_first(s, '/') {
        Some((address, prefix)) => is_ipv4(address) && text::parsed_unsigned(prefix, 32) is Some,
        None => false,
    }
}

fn gateway(s: &str) -> (r: bool)
    ensures
        r == is_gateway(s@),
{
    match text::split_once(s, '/') {
        Some((address, prefix)) => ipv4(address.as_str()) && text::parse_unsigned(
            prefix.as_str(),
            32,
        ).is_some(),
        None => false,
    }
}

/// What is wrong with the repositories and the gateway.
pub open spec fn sources_problem(c: ManagerConfigView) -> Option<Seq<char>> {
    let core = repository_problem(c.core.repository, "core.repository"@);
    let manager = match c.core.manager_repository {
        Some(r) => repository_problem(r, "core.manager_repository"@),
        None => None,
    };
    let tun = if is_gateway(c.tun.ipv4_gateway) {
        None
    } else {
        Some("invalid TUN IPv4 gateway"@)
    };
    first_problem(first_problem(core, manager), tun)
}

/// What is wrong with an asset, given those before it and its parsed URL.
pub open spec fn asset_problem(
    before: Seq<AssetConfigView>,
    asset: AssetConfigView,
    parsed: Result<UrlView, Seq<char>>,
    windows: bool,
) -> Option<Seq<char>> {
    if !is_resource_name(asset.id) {
        Some("asset IDs may contain only ASCII letters, digits, '-' and '_'"@)
    } else if !is_file_name(asset.filename, windows) {
        Some("asset filename must be a single UTF-8 file name without a path"@)
    } else if exists|i: int| 0 <= i < before.len() && (#[trigger] before[i]).id == asset.id {
        Some("duplicate asset ID '"@ + asset.id + "'"@)
    } else if exists|i: int| 0 <= i < before.len() && (#[trigger] before[i]).filename == asset.filename {
        Some("duplicate asset filename '"@ + asset.filename + "'"@)
    } else {
        match parsed {
            Err(e) => Some(e),
            Ok(url) => if url.scheme != "https"@ {
                Some("asset "@ + asset.id + " must use HTTPS"@)
            } else {
                None
            },
        }
    }
}

/// What is wrong with the first asset that has a problem.
pub open spec fn assets_problem(assets: Seq<AssetConfigView>, windows: bool) -> Option<Seq<char>>
    decreases assets.len(),
{
    if assets.len() == 0 {
        None
    } else {
        first_problem(
            assets_problem(assets.drop_last(), windows),
            asset_problem(
                assets.drop_last(),
                assets.last(),
                outside::read_url(assets.last().url),
                windows,
            ),
        )
    }
}

/// Checks the asset at `i` against those before it, its URL parsed.
pub fn check_asset(
    assets: &Vec<AssetConfig>,
    i: usize,
    parsed: &Result<UrlParts, String>,
    windows: bool,
) -> (r: Result<(), ManagerError>)
    requires
        i < assets@.len(),
    ensures
        checked(
            r,
            asset_problem(
                asset_config_views(assets@).take(i as int),
                assets@[i as int]@,
                url_result(*parsed),
                windows,
            ),
        ),
{
    let asset = &assets[i];
    let ghost before = asset_config_views(assets@).take(i as int);
    if !resource_name(asset.id.as_str()) {
        return reject("asset IDs may contain only ASCII letters, digits, '-' and '_'");
    }
    if !file_name(asset.filename.as_str(), windows) {
        return reject("asset filename must be a single UTF-8 file name without a path");
    }
    let mut j: usize = 0;
    while j < i
        invariant
            j <= i < assets@.len(),
            asset@ == assets@[i as int]@,
            before == asset_config_views(assets@).take(i as int),
            is_resource_name(asset@.id),
            is_file_name(asset@.filename, windows),
            forall|k: int| 0 <= k < j ==> (#[trigger] before[k]).id != asset@.id,
        decreases i - j,
    {
        assert(before[j as int] == assets@[j as int]@);
        if text::same(assets[j].id.as_str(), asset.id.as_str()) {
            return reject(text::concat3("duplicate asset ID '", asset.id.as_str(), "'").as_str());
        }
        j += 1;
    }
    let mut j: usize = 0;
    while j < i
        invariant
            j <= i < assets@.len(),
            asset@ == assets@[i as int]@,
            before == asset_config_views(assets@).take(i as int),
            is_resource_name(asset@.id),
            is_file_name(asset@.filename, windows),
            forall|k: int| 0 <= k < i ==> (#[trigger] before[k]).id != asset@.id,
            forall|k: int| 0 <= k < j ==> (#[trigger] before[k]).filename != asset@.filename,
        decreases i - j,
    {
        assert(before[j as int] == assets@[j as int]@);
        if text::same(assets[j].filename.as_str(), asset.filename.as_str()) {
            return reject(
                text::concat3("duplicate asset filename '", asset.filename.as_str(), "'").as_str(),
            );
        }
        j += 1;
    }
    match parsed {
        Err(e) => reject(e.as_str()),
        Ok(url) => if text::same(url.scheme.as_str(), "https") {
            Ok(())
        } else {
            reject(text::concat3("asset ", asset.id.as_str(), " must use HTTPS").as_str())
        },
    }
}

/// The first problem of a configuration.
pub open spec fn config_problem(c: ManagerConfigView, windows: bool) -> Option<Seq<char>> {
    first_problem(
        first_problem(
            first_problem(
                first_problem(
                    limits_problem(c),
                    https_problem(
                        outside::read_url(c.general.healthcheck_url),
                        "invalid healthcheck URL"@,
                        "healthcheck URL must use HTTPS"@,
                    ),
                ),
                runtime_problem(c),
            ),
            sources_problem(c),
        ),
        assets_problem(c.assets, windows),
    )
}

impl ManagerConfig {
    /// Checks the ports, timeouts and limits.
    pub fn check_limits(&self) -> (r: Result<(), ManagerError>)
        ensures
            checked(r, limits_problem(self@)),
    {
        if self.proxy.socks_port == 0 || self.proxy.http_port == 0 {
            return reject("SOCKS and HTTP ports must be non-zero");
        }
        if self.proxy.socks_port == self.proxy.http_port {
            return reject("SOCKS and HTTP ports must be different");
        }
        if !self.proxy.listen.is_loopback() {
            return reject("proxy listen address must be loopback");
        }
        if self.menu.probe_concurrency == 0 {
            return reject("menu.probe_concurrency must be greater than zero");
        }
        if self.general.connect_timeout_seconds == 0 || self.general.request_timeout_seconds == 0
            || self.general.max_subscription_size_mb == 0 || self.general.max_core_archive_size_mb
            == 0 || self.general.max_asset_size_mb == 0 {
            return reject("timeouts and download size limits must be greater than zero");
        }
        if self.menu.probe_timeout_seconds == 0 {
            return reject("menu.probe_timeout_seconds must be greater than zero");
        }
        if self.menu.latency_green_ms > self.menu.latency_yellow_ms {
            return reject("menu.latency_green_ms must not exceed menu.latency_yellow_ms");
        }
        Ok(())
    }

    /// Checks the TUN and DNS settings and the release channel.
    pub fn check_runtime(&self) -> (r: Result<(), ManagerError>)
        ensures
            checked(r, runtime_problem(self@)),
    {
        if self.tun.enabled && !self.tun.fail_closed {
            return reject("selective TUN requires fail_closed = true");
        }
        if self.tun.mtu < 576 || self.tun.mtu > 9000 {
            return reject("TUN MTU must be between 576 and 9000");
        }
        if !text::same(self.dns.mode.as_str(), "system") {
            return reject("only dns.mode = \"system\" is supported");
        }
        let strategy = self.dns.query_strategy.as_str();
        if !text::same(strategy, "UseIP") && !text::same(strategy, "UseIPv4") && !text::same(strategy, "UseIPv6")
            && !text::same(strategy, "UseSystem") {
            return reject("dns.query_strategy must be UseIP, UseIPv4, UseIPv6, or UseSystem");
        }
        assert(ip_address_views(self.dns.tun_servers@).len() == self.dns.tun_servers@.len());
        if self.tun.override_resolv_conf_for_apps && self.dns.tun_servers.len() == 0 {
            return reject("dns.tun_servers cannot be empty when per-app DNS override is enabled");
        }
        let name = self.tun.interface_name.as_str();
        let length = text::chars_of(name).len();
        if !resource_name(name) || length > 15 {
            return reject("TUN interface name must be 1-15 ASCII letters, digits, '-' or '_'");
        }
        if self.tun.routing_table == 0 || self.tun.routing_table == 253 || self.tun.routing_table
            == 254 || self.tun.routing_table == 255 || self.tun.packet_mark == 0 {
            return reject("TUN requires a non-system routing table and non-zero packet mark");
        }
        if !text::same(self.core.channel.as_str(), "stable") {
            return reject("only core.channel = \"stable\" is supported");
        }
        if !self.core.pinned_version.as_str().is_empty() {
            return reject("core.pinned_version is not implemented; leave it empty");
        }
        Ok(())
    }

    /// Checks the repositories and the gateway.
    pub fn check_sources(&self) -> (r: Result<(), ManagerError>)
        ensures
            checked(r, sources_problem(self@)),
    {
        match validate_repository(self.core.repository.as_str(), "core.repository") {
            Ok(_) => {},
            Err(e) => return Err(e),
        }
        match &self.core.manager_repository {
            Some(repository) => match validate_repository(
                repository.as_str(),
                "core.manager_repository",
            ) {
                Ok(_) => {},
                Err(e) => return Err(e),
            },
            None => {},
        }
        if !gateway(self.tun.ipv4_gateway.as_str()) {
            return reject("invalid TUN IPv4 gateway");
        }
        Ok(())
    }

    /// Checks the whole configuration; the error is the first problem. What
    /// parts a path is that of the system at hand.
    pub fn validate(&self) -> (r: Result<(), ManagerError>)
        ensures
            checked(r, config_problem(self@, true)) || checked(r, config_problem(self@, false)),
    {
        self.validate_on(outside::separates('\\'))
    }

    /// Checks the whole configuration for a system; the error is the first
    /// problem.
    pub fn validate_on(&self, windows: bool) -> (r: Result<(), ManagerError>)
        ensures
            checked(r, config_problem(self@, windows)),
    {
        match self.check_limits() {
            Ok(_) => {},
            Err(e) => return Err(e),
        }
        match check_https(
            &outside::parse_url(self.general.healthcheck_url.as_str()),
            "invalid healthcheck URL",
            "healthcheck URL must use HTTPS",
        ) {
            Ok(_) => {},
            Err(e) => return Err(e),
        }
        match self.check_runtime() {
            Ok(_) => {},
            Err(e) => return Err(e),
        }
        match self.check_sources() {
            Ok(_) => {},
            Err(e) => return Err(e),
        }
        let ghost views = asset_config_views(self.assets@);
        let mut i: usize = 0;
        assert(views.take(0).len() == 0);
        while i < self.assets.len()
            invariant
                i <= self.assets@.len(),
                views == asset_config_views(self.assets@),
                assets_problem(views.take(i as int), windows) is None,
                limits_problem(self@) is None,
                runtime_problem(self@) is None,
                sources_problem(self@) is None,
                https_problem(
                    outside::read_url(self@.general.healthcheck_url),
                    "invalid healthcheck URL"@,
                    "healthcheck URL must use HTTPS"@,
                ) is None,
            decreases self.assets@.len() - i,
        {
            proof {
                assert(views.take(i + 1).drop_last() =~= views.take(i as int));
                assert(views.take(i + 1).last() == self.assets@[i as int]@);
            }
            match check_asset(
                &self.assets,
                i,
                &outside::parse_url(self.assets[i].url.as_str()),
                windows,
            ) {
                Ok(_) => {},
                Err(e) => {
                    proof {
                        lemma_assets_problem(views, i + 1, windows);
                    }
                    return Err(e);
                },
            }
            i += 1;
        }
        assert(views.take(views.len() as int) =~= views);
        Ok(())
    }
}

proof fn lemma_assets_problem(assets: Seq<AssetConfigView>, i: int, windows: bool)
    requires
        0 <= i <= assets.len(),
        assets_problem(assets.take(i), windows) is Some,
    ensures
        assets_problem(assets, windows) == assets_problem(assets.take(i), windows),
    decreases assets.len(),
{
    if i == assets.len() {
        assert(assets.take(i) =~= assets);
    } else {
        assert(assets.drop_last().take(i) =~= assets.take(i));
        lemma_assets_problem(assets.drop_last(), i, windows);
    }
}

/// Whether no file name of an asset means something else on Windows.
pub open spec fn same_everywhere(assets: Seq<AssetConfigView>) -> bool {
    forall|i: int|
        0 <= i < assets.len() ==> !(#[trigger] assets[i]).filename.contains('\\') && !has_drive(
            assets[i].filename,
        )
}

/// What is wrong with a configuration is the same on every system, where no
/// file name of an asset holds a `\` or begins with a drive.
pub proof fn law_validation_is_the_same_everywhere(c: ManagerConfigView)
    requires
        same_everywhere(c.assets),
    ensures
        config_problem(c, true) == config_problem(c, false),
{
    lemma_assets_everywhere(c.assets);
}

proof fn lemma_assets_everywhere(assets: Seq<AssetConfigView>)
    requires
        same_everywhere(assets),
    ensures
        assets_problem(assets, true) == assets_problem(assets, false),
    decreases assets.len(),
{
    if assets.len() > 0 {
        let before = assets.drop_last();
        assert forall|i: int| 0 <= i < before.len() implies !(
        #[trigger] before[i]).filename.contains('\\') && !has_drive(before[i].filename) by {
            assert(before[i] == assets[i]);
        }
        lemma_assets_everywhere(before);
        assert(assets[assets.len() - 1] == assets.last());
    }
}

/// In a valid configuration the proxy listens on loopback alone, TUN routing
/// fails closed in a routing table and with a mark of its own, and the names
/// of any two assets and of their files differ.
pub proof fn law_valid_config_is_safe(c: ManagerConfigView, windows: bool)
    requires
        config_problem(c, windows) is None,
    ensures
        c.proxy.listen matches IpAddressView::V4(a, _, _, _) ==> a == 127,
        c.proxy.listen is V6 ==> c.proxy.listen.text() == "::1"@,
        c.proxy.socks_port != c.proxy.http_port,
        c.tun.enabled ==> c.tun.fail_closed,
        c.tun.routing_table != 0 && c.tun.routing_table != 253 && c.tun.routing_table != 254
            && c.tun.routing_table != 255,
        c.tun.packet_mark != 0,
        forall|i: int, j: int|
            0 <= i < j < c.assets.len() ==> (#[trigger] c.assets[i]).id != (#[trigger] c.assets[j]).id
                && c.assets[i].filename != c.assets[j].filename,
        forall|i: int|
            0 <= i < c.assets.len() ==> is_file_name((#[trigger] c.assets[i]).filename, windows),
{
    lemma_assets_distinct(c.assets, windows);
}

proof fn lemma_assets_distinct(assets: Seq<AssetConfigView>, windows: bool)
    requires
        assets_problem(assets, windows) is None,
    ensures
        forall|i: int, j: int|
            0 <= i < j < assets.len() ==> (#[trigger] assets[i]).id != (#[trigger] assets[j]).id
                && assets[i].filename != assets[j].filename,
        forall|i: int|
            0 <= i < assets.len() ==> is_file_name((#[trigger] assets[i]).filename, windows),
    decreases assets.len(),
{
    if assets.len() > 0 {
        let before = assets.drop_last();
        lemma_assets_distinct(before, windows);
        assert forall|i: int, j: int| 0 <= i < j < assets.len() implies (
        #[trigger] assets[i]).id != (#[trigger] assets[j]).id && assets[i].filename
            != assets[j].filename by {
            assert(before[i] == assets[i]);
            if j < assets.len() - 1 {
                assert(before[j] == assets[j]);
            }
        }
        assert forall|i: int| 0 <= i < assets.len() implies is_file_name(
            (#[trigger] assets[i]).filename,
            windows,
        ) by {
            if i < assets.len() - 1 {
                assert(before[i] == assets[i]);
            }
        }
    }
}

/// The default limits and timeouts.
pub open spec fn default_general() -> GeneralConfigView {
    GeneralConfigView {
        keep_generations: 3,
        keep_core_versions: 2,
        keep_asset_generations: 2,
        connect_timeout_seconds: 8,
        request_timeout_seconds: 20,
        max_subscription_size_mb: 20,
        max_core_archive_size_mb: 150,
        max_asset_size_mb: 200,
        healthcheck_url: "https://www.gstatic.com/generate_204"@,
    }
}

impl Default for GeneralConfig {
    fn default() -> (r: Self)
        ensures
            r@ == default_general(),
    {
        GeneralConfig {
            keep_generations: 3,
            keep_core_versions: 2,
            keep_asset_generations: 2,
            connect_timeout_seconds: 8,
            request_timeout_seconds: 20,
            max_subscription_size_mb: 20,
            max_core_archive_size_mb: 150,
            max_asset_size_mb: 200,
            healthcheck_url: text::owned("https://www.gstatic.com/generate_204"),
        }
    }
}

/// The default sources.
pub open spec fn default_core() -> CoreConfigView {
    CoreConfigView {
        repository: "XTLS/Xray-core"@,
        channel: "stable"@,
        pinned_version: Seq::empty(),
        manager_repository: None,
    }
}

impl Default for CoreConfig {
    fn default() -> (r: Self)
        ensures
            r@ == default_core(),
    {
        CoreConfig {
            repository: text::owned("XTLS/Xray-core"),
            channel: text::owned("stable"),
            pinned_version: String::new(),
            manager_repository: None,
        }
    }
}

/// The default local proxy.
pub open spec fn default_proxy() -> ProxyConfigView {
    ProxyConfigView {
        listen: IpAddressView::V4(127, 0, 0, 1),
        socks_port: 10808,
        http_port: 10809,
        udp: true,
        sniffing: true,
    }
}

impl Default for ProxyConfig {
    fn default() -> (r: Self)
        ensures
            r@ == default_proxy(),
    {
        ProxyConfig {
            listen: IpAddress::V4(127, 0, 0, 1),
            socks_port: 10808,
            http_port: 10809,
            udp: true,
            sniffing: true,
        }
    }
}

/// The default name resolution.
pub open spec fn default_dns() -> DnsConfigView {
    DnsConfigView {
        mode: "system"@,
        tun_servers: seq![IpAddressView::V4(1, 1, 1, 1), IpAddressView::V4(8, 8, 8, 8)],
        query_strategy: "UseIP"@,
    }
}

impl Default for DnsConfig {
    fn default() -> (r: Self)
        ensures
            r@ == default_dns(),
    {
        let tun_servers: Vec<IpAddress> = vec![
            IpAddress::V4(1, 1, 1, 1),
            IpAddress::V4(8, 8, 8, 8),
        ];
        assert(ip_address_views(tun_servers@) =~= default_dns().tun_servers);
        DnsConfig { mode: text::owned("system"), tun_servers, query_strategy: text::owned("UseIP") }
    }
}

/// The default TUN routing.
pub open spec fn default_tun() -> TunConfigView {
    TunConfigView {
        enabled: true,
        interface_name: "xray0"@,
        mtu: 1500,
        ipv4_gateway: "172.31.255.1/30"@,
        ipv6_enabled: false,
        routing_table: 166,
        packet_mark: 102,
        bypass_private_networks: true,
        fail_closed: true,
        override_resolv_conf_for_apps: true,
    }
}

impl Default for TunConfig {
    fn default() -> (r: Self)
        ensures
            r@ == default_tun(),
    {
        TunConfig {
            enabled: true,
            interface_name: text::owned("xray0"),
            mtu: 1500,
            ipv4_gateway: text::owned("172.31.255.1/30"),
            ipv6_enabled: false,
            routing_table: 166,
            packet_mark: 102,
            bypass_private_networks: true,
            fail_closed: true,
            override_resolv_conf_for_apps: true,
        }
    }
}

/// The default menu.
pub open spec fn default_menu() -> MenuConfig {
    MenuConfig {
        probe_on_open: true,
        probe_concurrency: 4,
        probe_timeout_seconds: 8,
        latency_green_ms: 200,
        latency_yellow_ms: 500,
    }
}

impl Default for MenuConfig {
    fn default() -> (r: Self)
        ensures
            r == default_menu(),
    {
        MenuConfig {
            probe_on_open: true,
            probe_concurrency: 4,
            probe_timeout_seconds: 8,
            latency_green_ms: 200,
            latency_yellow_ms: 500,
        }
    }
}

impl Default for PlatformSelection {
    fn default() -> (r: Self)
        ensures
            r@.backends == Map::<Capability, Seq<char>>::empty(),
    {
        PlatformSelection { backends: CapabilityMap::new() }
    }
}

/// The default assets.
pub open spec fn default_assets() -> Seq<AssetConfigView> {
    seq![
        AssetConfigView {
            id: "geoip"@,
            filename: "geoip.dat"@,
            url:
                "https://raw.githubusercontent.com/runetfreedom/russia-v2ray-rules-dat/release/geoip.dat"@,
        },
        AssetConfigView {
            id: "geosite"@,
            filename: "geosite.dat"@,
            url:
                "https://raw.githubusercontent.com/runetfreedom/russia-v2ray-rules-dat/release/geosite.dat"@,
        },
    ]
}

/// The default configuration.
pub open spec fn default_config() -> ManagerConfigView {
    ManagerConfigView {
        general: default_general(),
        core: default_core(),
        proxy: default_proxy(),
        dns: default_dns(),
        tun: default_tun(),
        menu: default_menu(),
        assets: default_assets(),
        platform: PlatformSelectionView { backends: Map::empty() },
    }
}

impl Default for ManagerConfig {
    fn default() -> (r: Self)
        ensures
            r@ == default_config(),
    {
        let assets: Vec<AssetConfig> = vec![
            AssetConfig {
                id: text::owned("geoip"),
                filename: text::owned("geoip.dat"),
                url: text::owned(
                    "https://raw.githubusercontent.com/runetfreedom/russia-v2ray-rules-dat/release/geoip.dat",
                ),
            },
            AssetConfig {
                id: text::owned("geosite"),
                filename: text::owned("geosite.dat"),
                url: text::owned(
                    "https://raw.githubusercontent.com/runetfreedom/russia-v2ray-rules-dat/release/geosite.dat",
                ),
            },
        ];
        assert(asset_config_views(assets@) =~= default_assets());
        ManagerConfig {
            general: GeneralConfig::default(),
            core: CoreConfig::default(),
            proxy: ProxyConfig::default(),
            dns: DnsConfig::default(),
            tun: TunConfig::default(),
            menu: MenuConfig::default(),
            assets,
            platform: PlatformSelection::default(),
        }
    }
}

/// What is wrong with a subscription.
pub open spec fn subscription_problem(s: SubscriptionConfigView) -> Option<Seq<char>> {
    if !is_resource_name(s.name) {
        Some("subscription name may contain only ASCII letters, digits, '-' and '_'"@)
    } else {
        first_problem(
            https_problem(
                outside::read_url(s.url),
                "invalid subscription URL"@,
                "subscription URL must use HTTPS"@,
            ),
            if s.format != "auto"@ {
                Some("only subscription format 'auto' is supported"@)
            } else {
                None
            },
        )
    }
}

impl SubscriptionConfig {
    /// Checks the subscription.
    pub fn validate(&self) -> (r: Result<(), ManagerError>)
        ensures
            checked(r, subscription_problem(self@)),
    {
        if !resource_name(self.name.as_str()) {
            return reject(
                "subscription name may contain only ASCII letters, digits, '-' and '_'",
            );
        }
        match check_https(
            &outside::parse_url(self.url.as_str()),
            "invalid subscription URL",
            "subscription URL must use HTTPS",
        ) {
            Ok(_) => {},
            Err(e) => return Err(e),
        }
        if !text::same(self.format.as_str(), "auto") {
            return reject("only subscription format 'auto' is supported");
        }
        Ok(())
    }

    /// The debug form, which does not show the URL.
    pub fn debug_text(&self) -> (r: String)
        ensures
            r@ == shown_subscription(self@),
    {
        let mut r = text::owned("SubscriptionConfig { name: ");
        r.append(outside::quote(self.name.as_str()).as_str());
        r.append(", enabled: ");
        r.append(if self.enabled { "true" } else { "false" });
        r.append(", url: \"[REDACTED]\", format: ");
        r.append(outside::quote(self.format.as_str()).as_str());
        r.append(" }");
        r
    }
}

/// A subscription in debug form. The URL is left out.
pub open spec fn shown_subscription(s: SubscriptionConfigView) -> Seq<char> {
    "SubscriptionConfig { name: "@ + outside::quoted(s.name) + ", enabled: "@ + domain::shown_bool(s.enabled)
        + ", url: \"[REDACTED]\", format: "@ + outside::quoted(s.format) + " }"@
}

/// The debug form of a subscription is the same for any URL.
pub proof fn law_debug_redacts_subscription_url(s: SubscriptionConfigView, url: Seq<char>)
    ensures
        shown_subscription(s) == shown_subscription(SubscriptionConfigView { url, ..s }),
{
}

/// The name of an environment variable.
pub open spec fn is_variable_name(s: Seq<char>) -> bool {
    s.len() > 0 && made_of(s, "_"@)
}

/// What is wrong with an application profile.
pub open spec fn profile_problem(p: AppProfileView) -> Option<Seq<char>> {
    if p.name.len() == 0 || p.command.len() == 0 || p.command[0].len() == 0 {
        Some("app profile requires a name and non-empty command"@)
    } else if !made_of(p.name, "-_"@) {
        Some("app profile name may contain only ASCII letters, digits, '-' and '_'"@)
    } else if exists|k: Seq<char>| #[trigger] p.environment.contains_key(k) && !is_variable_name(k) {
        Some("invalid app profile environment variable name"@)
    } else {
        None
    }
}

impl AppProfile {
    /// Checks the profile.
    pub fn validate(&self) -> (r: Result<(), ManagerError>)
        ensures
            checked(r, profile_problem(self@)),
    {
        assert(text::texts(self.command@).len() == self.command@.len());
        if self.name.as_str().is_empty() || self.command.len() == 0
            || self.command[0].as_str().is_empty() {
            return reject("app profile requires a name and non-empty command");
        }
        if !is_made_of(self.name.as_str(), "-_") {
            return reject(
                "app profile name may contain only ASCII letters, digits, '-' and '_'",
            );
        }
        let keys = self.environment.keys();
        let ghost all = text_map::sorted_keys(self.environment@);
        let mut i: usize = 0;
        while i < keys.len()
            invariant
                i <= keys@.len(),
                all == text::texts(keys@),
                text_map::lists_keys(all, self.environment@),
                forall|j: int| 0 <= j < i ==> is_variable_name(#[trigger] all[j]),
                self@.name.len() > 0,
                self@.command.len() > 0,
                self@.command[0].len() > 0,
                made_of(self@.name, "-_"@),
            decreases keys@.len() - i,
        {
            if keys[i].as_str().is_empty() || !is_made_of(keys[i].as_str(), "_") {
                proof {
                    assert(all[i as int] == keys@[i as int]@);
                    assert(all.contains(all[i as int]));
                    assert(self@.environment.contains_key(all[i as int]) && !is_variable_name(
                        all[i as int],
                    ));
                }
                return reject("invalid app profile environment variable name");
            }
            assert(all[i as int] == keys@[i as int]@);
            i += 1;
        }
        assert forall|k: Seq<char>| #[trigger]
            self.environment@.contains_key(k) implies is_variable_name(k) by {
            assert(all.contains(k));
            let j = all.index_of(k);
            assert(is_variable_name(all[j]));
        }
        Ok(())
    }
}

} // verus!

//! What the program writes to the terminal.

use crate::cli::{Command, CommandView, NodeCommand, NodeCommandView};
use crate::dto::{OperationResultDto, OperationResultDtoView};
use crate::error::{ManagerError, ManagerErrorView};
use crate::json::{Json, JsonObject, JsonView};
use crate::ports::{
    Capability, CapabilityMap, ExecutionPlan, ExecutionPlanView, PlanAction, PlanActionView,
};
use crate::error;
use crate::json;
use crate::operation;
use crate::ports;
use crate::render;
use crate::text;
use vstd::prelude::*;

verus! {

/// A step of a plan, with its kind and its fields.
pub open spec fn action_json_view(x: PlanActionView) -> JsonView {
    match x {
        PlanActionView::EnsureIdentity { name, system } => JsonView::Object(
            render::no_members().insert("kind"@, JsonView::Text("ensure_identity"@)).insert("name"@, JsonView::Text(name)).insert("system"@, JsonView::Bool(system)),
        ),
        PlanActionView::EnsureGroup { name } => JsonView::Object(
            render::no_members().insert("kind"@, JsonView::Text("ensure_group"@)).insert("name"@, JsonView::Text(name)),
        ),
        PlanActionView::AddIdentityToGroup { identity, group } => JsonView::Object(
            render::no_members().insert("kind"@, JsonView::Text("add_identity_to_group"@)).insert("identity"@, JsonView::Text(identity)).insert("group"@, JsonView::Text(group)),
        ),
        PlanActionView::EnsureDirectory { path, mode } => JsonView::Object(
            render::no_members().insert("kind"@, JsonView::Text("ensure_directory"@)).insert("path"@, JsonView::Text(path)).insert("mode"@, json::number_view(mode as nat)),
        ),
        PlanActionView::WriteFile { path, mode, description } => JsonView::Object(
            render::no_members().insert("kind"@, JsonView::Text("write_file"@)).insert("path"@, JsonView::Text(path)).insert("mode"@, json::number_view(mode as nat)).insert("description"@, JsonView::Text(description)),
        ),
        PlanActionView::DownloadArtifact { id, destination } => JsonView::Object(
            render::no_members().insert("kind"@, JsonView::Text("download_artifact"@)).insert("id"@, JsonView::Text(id)).insert("destination"@, JsonView::Text(destination)),
        ),
        PlanActionView::RequirePackages { packages } => JsonView::Object(
            render::no_members().insert("kind"@, JsonView::Text("require_packages"@)).insert("packages"@, json::texts_view(packages)),
        ),
        PlanActionView::InstallService { name } => JsonView::Object(
            render::no_members().insert("kind"@, JsonView::Text("install_service"@)).insert("name"@, JsonView::Text(name)),
        ),
        PlanActionView::EnableService { name } => JsonView::Object(
            render::no_members().insert("kind"@, JsonView::Text("enable_service"@)).insert("name"@, JsonView::Text(name)),
        ),
        PlanActionView::StartService { name } => JsonView::Object(
            render::no_members().insert("kind"@, JsonView::Text("start_service"@)).insert("name"@, JsonView::Text(name)),
        ),
        PlanActionView::RestartService { name } => JsonView::Object(
            render::no_members().insert("kind"@, JsonView::Text("restart_service"@)).insert("name"@, JsonView::Text(name)),
        ),
        PlanActionView::StopService { name } => JsonView::Object(
            render::no_members().insert("kind"@, JsonView::Text("stop_service"@)).insert("name"@, JsonView::Text(name)),
        ),
        PlanActionView::RemoveService { name } => JsonView::Object(
            render::no_members().insert("kind"@, JsonView::Text("remove_service"@)).insert("name"@, JsonView::Text(name)),
        ),
        PlanActionView::ConfigureFirewall { backend } => JsonView::Object(
            render::no_members().insert("kind"@, JsonView::Text("configure_firewall"@)).insert("backend"@, JsonView::Text(backend)),
        ),
        PlanActionView::ConfigureRoute { backend, table } => JsonView::Object(
            render::no_members().insert("kind"@, JsonView::Text("configure_route"@)).insert("backend"@, JsonView::Text(backend)).insert("table"@, json::number_view(table as nat)),
        ),
        PlanActionView::ApplyConfiguration { description } => JsonView::Object(
            render::no_members().insert("kind"@, JsonView::Text("apply_configuration"@)).insert("description"@, JsonView::Text(description)),
        ),
        PlanActionView::ConfigureDesktopProxy { backend, user, enabled } => JsonView::Object(
            render::no_members().insert("kind"@, JsonView::Text("configure_desktop_proxy"@)).insert("backend"@, JsonView::Text(backend)).insert("user"@, JsonView::Text(user)).insert("enabled"@, JsonView::Bool(enabled)),
        ),
        PlanActionView::LaunchApplication { executable, routed } => JsonView::Object(
            render::no_members().insert("kind"@, JsonView::Text("launch_application"@)).insert("executable"@, JsonView::Text(executable)).insert("routed"@, JsonView::Bool(routed)),
        ),
        PlanActionView::RunHealthcheck { url } => JsonView::Object(
            render::no_members().insert("kind"@, JsonView::Text("run_healthcheck"@)).insert("url"@, JsonView::Text(url)),
        ),
        PlanActionView::RemoveOwnedPath { path } => JsonView::Object(
            render::no_members().insert("kind"@, JsonView::Text("remove_owned_path"@)).insert("path"@, JsonView::Text(path)),
        ),
    }
}

/// A step of a plan, with its kind and its fields.
pub fn action_json(x: &PlanAction) -> (r: Json)
    ensures
        r@ == action_json_view(x@),
{
    match x {
        PlanAction::EnsureIdentity { name, system } => Json::Object(
            JsonObject::new().with("kind", json::text("ensure_identity")).with("name", json::text(name.as_str())).with("system", Json::Bool(*system)),
        ),
        PlanAction::EnsureGroup { name } => Json::Object(
            JsonObject::new().with("kind", json::text("ensure_group")).with("name", json::text(name.as_str())),
        ),
        PlanAction::AddIdentityToGroup { identity, group } => Json::Object(
            JsonObject::new().with("kind", json::text("add_identity_to_group")).with("identity", json::text(identity.as_str())).with("group", json::text(group.as_str())),
        ),
        PlanAction::EnsureDirectory { path, mode } => Json::Object(
            JsonObject::new().with("kind", json::text("ensure_directory")).with("path", json::text(path.as_str())).with("mode", json::number(*mode as u64)),
        ),
        PlanAction::WriteFile { path, mode, description } => Json::Object(
            JsonObject::new().with("kind", json::text("write_file")).with("path", json::text(path.as_str())).with("mode", json::number(*mode as u64)).with("description", json::text(description.as_str())),
        ),
        PlanAction::DownloadArtifact { id, destination } => Json::Object(
            JsonObject::new().with("kind", json::text("download_artifact")).with("id", json::text(id.as_str())).with("destination", json::text(destination.as_str())),
        ),
        PlanAction::RequirePackages { packages } => Json::Object(
            JsonObject::new().with("kind", json::text("require_packages")).with("packages", json::text_array(packages)),
        ),
        PlanAction::InstallService { name } => Json::Object(
            JsonObject::new().with("kind", json::text("install_service")).with("name", json::text(name.as_str())),
        ),
        PlanAction::EnableService { name } => Json::Object(
            JsonObject::new().with("kind", json::text("enable_service")).with("name", json::text(name.as_str())),
        ),
        PlanAction::StartService { name } => Json::Object(
            JsonObject::new().with("kind", json::text("start_service")).with("name", json::text(name.as_str())),
        ),
        PlanAction::RestartService { name } => Json::Object(
            JsonObject::new().with("kind", json::text("restart_service")).with("name", json::text(name.as_str())),
        ),
        PlanAction::StopService { name } => Json::Object(
            JsonObject::new().with("kind", json::text("stop_service")).with("name", json::text(name.as_str())),
        ),
        PlanAction::RemoveService { name } => Json::Object(
            JsonObject::new().with("kind", json::text("remove_service")).with("name", json::text(name.as_str())),
        ),
        PlanAction::ConfigureFirewall { backend } => Json::Object(
            JsonObject::new().with("kind", json::text("configure_firewall")).with("backend", json::text(backend.as_str())),
        ),
        PlanAction::ConfigureRoute { backend, table } => Json::Object(
            JsonObject::new().with("kind", json::text("configure_route")).with("backend", json::text(backend.as_str())).with("table", json::number(*table as u64)),
        ),
        PlanAction::ApplyConfiguration { description } => Json::Object(
            JsonObject::new().with("kind", json::text("apply_configuration")).with("description", json::text(description.as_str())),
        ),
        PlanAction::ConfigureDesktopProxy { backend, user, enabled } => Json::Object(
            JsonObject::new().with("kind", json::text("configure_desktop_proxy")).with("backend", json::text(backend.as_str())).with("user", json::text(user.as_str())).with("enabled", Json::Bool(*enabled)),
        ),
        PlanAction::LaunchApplication { executable, routed } => Json::Object(
            JsonObject::new().with("kind", json::text("launch_application")).with("executable", json::text(executable.as_str())).with("routed", Json::Bool(*routed)),
        ),
        PlanAction::RunHealthcheck { url } => Json::Object(
            JsonObject::new().with("kind", json::text("run_healthcheck")).with("url", json::text(url.as_str())),
        ),
        PlanAction::RemoveOwnedPath { path } => Json::Object(
            JsonObject::new().with("kind", json::text("remove_owned_path")).with("path", json::text(path.as_str())),
        ),
    }
}

/// Backend IDs by the names of the capabilities.
pub open spec fn named_ids(list: Seq<Capability>, m: Map<Capability, Seq<char>>) -> Map<
    Seq<char>,
    JsonView,
>
    decreases list.len(),
{
    if list.len() == 0 {
        render::no_members()
    } else {
        let rest = named_ids(list.drop_last(), m);
        let c = list.last();
        if m.contains_key(c) {
            rest.insert(ports::capability_name(c), JsonView::Text(m[c]))
        } else {
            rest
        }
    }
}

fn backend_ids_json(m: &CapabilityMap) -> (r: Json)
    ensures
        r@ == JsonView::Object(named_ids(operation::all_capabilities(), m@)),
{
    let list = operation::capabilities();
    let mut o = JsonObject::new();
    let mut i: usize = 0;
    assert(list@.take(0).len() == 0);
    while i < list.len()
        invariant
            i <= list@.len(),
            list@ == operation::all_capabilities(),
            o@ == named_ids(list@.take(i as int), m@),
        decreases list@.len() - i,
    {
        proof {
            assert(list@.take(i + 1).drop_last() =~= list@.take(i as int));
            assert(list@.take(i + 1).last() == list@[i as int]);
        }
        let c = list[i];
        match m.get(c) {
            Some(id) => {
                o.insert(c.name(), json::text(id.as_str()));
            },
            None => {},
        }
        i += 1;
    }
    assert(list@.take(list@.len() as int) =~= list@);
    Json::Object(o)
}

/// A plan as it is shown.
pub open spec fn plan_json_view(x: ExecutionPlanView) -> JsonView {
    JsonView::Object(
        render::no_members().insert("operation"@, JsonView::Text(x.operation)).insert(
            "backend_ids"@,
            JsonView::Object(named_ids(operation::all_capabilities(), x.backend_ids)),
        ).insert(
            "actions"@,
            JsonView::Array(x.actions.map_values(|a: PlanActionView| action_json_view(a))),
        ),
    )
}

/// A plan as it is shown.
pub fn plan_json(x: &ExecutionPlan) -> (r: Json)
    ensures
        r@ == plan_json_view(x@),
{
    let ghost want = x@.actions.map_values(|a: PlanActionView| action_json_view(a));
    let mut items: Vec<Json> = Vec::new();
    let mut i: usize = 0;
    assert(want.take(0) =~= json::array_view(items@));
    while i < x.actions.len()
        invariant
            i <= x.actions@.len(),
            want == x@.actions.map_values(|a: PlanActionView| action_json_view(a)),
            x@.actions == ports::plan_action_views(x.actions@),
            json::array_view(items@) == want.take(i as int),
        decreases x.actions@.len() - i,
    {
        json::push_item(&mut items, action_json(&x.actions[i]));
        assert(want.take(i + 1) =~= want.take(i as int).push(want[i as int]));
        i += 1;
    }
    assert(want.take(want.len() as int) =~= want);
    Json::Object(
        JsonObject::new().with("operation", json::text(x.operation.as_str())).with(
            "backend_ids",
            backend_ids_json(&x.backend_ids),
        ).with("actions", Json::Array(items)),
    )
}

/// The outcome of an operation; the data is left out where there is none.
pub open spec fn result_json_view(x: OperationResultDtoView) -> JsonView {
    let base = render::no_members().insert("operation"@, JsonView::Text(x.operation)).insert(
        "changed"@,
        JsonView::Bool(x.changed),
    ).insert(
        "plan"@,
        match x.plan {
            Some(p) => plan_json_view(p),
            None => JsonView::Null,
        },
    );
    let full = match x.data {
        Some(d) => base.insert("data"@, d),
        None => base,
    };
    JsonView::Object(full.insert("warnings"@, json::texts_view(x.warnings)))
}

/// The outcome of an operation; the data is left out where there is none.
pub fn result_json(x: &OperationResultDto) -> (r: Json)
    ensures
        r@ == result_json_view(x@),
{
    let plan = match &x.plan {
        Some(p) => plan_json(p),
        None => Json::Null,
    };
    let mut o = JsonObject::new().with("operation", json::text(x.operation.as_str())).with(
        "changed",
        Json::Bool(x.changed),
    ).with("plan", plan);
    match &x.data {
        Some(d) => {
            o.insert("data", d.copy());
        },
        None => {},
    }
    Json::Object(o.with("warnings", json::text_array(&x.warnings)))
}

/// What a success is answered with in JSON.
pub open spec fn success_view(data: JsonView, warnings: Seq<Seq<char>>) -> JsonView {
    JsonView::Object(
        render::no_members().insert("ok"@, JsonView::Bool(true)).insert("data"@, data).insert(
            "warnings"@,
            json::texts_view(warnings),
        ),
    )
}

/// What a success is answered with in JSON.
pub fn success(data: Json, warnings: &Vec<String>) -> (r: Json)
    ensures
        r@ == success_view(data@, text::texts(warnings@)),
{
    Json::Object(
        JsonObject::new().with("ok", Json::Bool(true)).with("data", data).with(
            "warnings",
            json::text_array(warnings),
        ),
    )
}

/// What a failure is answered with in JSON.
pub open spec fn failure_view(code: Seq<char>, message: Seq<char>, details: JsonView) -> JsonView {
    JsonView::Object(
        render::no_members().insert("ok"@, JsonView::Bool(false)).insert(
            "error"@,
            JsonView::Object(
                render::no_members().insert("code"@, JsonView::Text(code)).insert(
                    "message"@,
                    JsonView::Text(message),
                ).insert("details"@, details),
            ),
        ),
    )
}

/// What a failure is answered with in JSON.
pub fn failure(code: &str, message: &str, details: Json) -> (r: Json)
    ensures
        r@ == failure_view(code@, message@, details@),
{
    let error = JsonObject::new().with("code", json::text(code)).with(
        "message",
        json::text(message),
    ).with("details", details);
    Json::Object(JsonObject::new().with("ok", Json::Bool(false)).with("error", Json::Object(error)))
}

/// The code and the details of a failure, which may not be the manager's own.
pub open spec fn failure_parts(e: Option<ManagerErrorView>) -> (Seq<char>, JsonView) {
    match e {
        Some(e) => (error::error_code(e), error::error_details(e)),
        None => ("operation_failed"@, JsonView::Object(render::no_members())),
    }
}

pub open spec fn opt_error(o: Option<ManagerError>) -> Option<ManagerErrorView> {
    match o {
        Some(e) => Some(e@),
        None => None,
    }
}

/// What a failed invocation is answered with in JSON.
pub fn failure_of(error: &Option<ManagerError>, message: &str) -> (r: Json)
    ensures
        r@ == ({
            let (code, details) = failure_parts(opt_error(*error));
            failure_view(code, message@, details)
        }),
{
    match error {
        Some(e) => failure(e.code(), message, e.details()),
        None => failure("operation_failed", message, Json::Object(JsonObject::new())),
    }
}

/// Every answer in JSON says whether it is a success, and only a failure has an error.
pub proof fn law_answers_are_told_apart(
    data: JsonView,
    warnings: Seq<Seq<char>>,
    code: Seq<char>,
    message: Seq<char>,
    details: JsonView,
)
    ensures
        json::member_view(success_view(data, warnings), "ok"@) == Some(JsonView::Bool(true)),
        json::member_view(success_view(data, warnings), "data"@) == Some(data),
        json::member_view(success_view(data, warnings), "error"@) is None,
        json::member_view(failure_view(code, message, details), "ok"@) == Some(
            JsonView::Bool(false),
        ),
        json::member_view(failure_view(code, message, details), "data"@) is None,
        json::member_view(failure_view(code, message, details), "error"@) is Some,
{
    reveal_strlit("ok");
    reveal_strlit("data");
    reveal_strlit("error");
    reveal_strlit("warnings");
    assert("ok"@.len() == 2);
    assert("data"@.len() == 4);
    assert("error"@.len() == 5);
    assert("warnings"@.len() == 8);
}

/// How a piece of text is shown.
#[derive(Debug, Clone, Copy, PartialEq, Eq, Structural)]
pub enum Tone {
    Plain,
    Green,
    Yellow,
    Red,
    BoldGreen,
    BoldYellow,
    BoldRed,
}

/// A piece of text.
#[derive(Debug)]
pub struct Piece {
    pub tone: Tone,
    pub text: String,
}

/// The mathematical value of a [`Piece`].
#[verifier::ext_equal]
pub struct PieceView {
    pub tone: Tone,
    pub text: Seq<char>,
}

impl View for Piece {
    type V = PieceView;

    open spec fn view(&self) -> PieceView {
        PieceView {
            tone: self.tone,
            text: self.text@,
        }
    }
}

pub open spec fn piece_views(v: Seq<Piece>) -> Seq<PieceView> {
    v.map_values(|x: Piece| x@)
}

/// A line of text.
#[derive(Debug)]
pub struct Line {
    pub pieces: Vec<Piece>,
}

/// The mathematical value of a [`Line`].
#[verifier::ext_equal]
pub struct LineView {
    pub pieces: Seq<PieceView>,
}

impl View for Line {
    type V = LineView;

    open spec fn view(&self) -> LineView {
        LineView {
            pieces: piece_views(self.pieces@),
        }
    }
}

pub open spec fn line_views(v: Seq<Line>) -> Seq<LineView> {
    v.map_values(|x: Line| x@)
}

pub broadcast proof fn lemma_line_views_push(v: Seq<Line>, x: Line)
    ensures
        #[trigger] line_views(v.push(x)) == line_views(v).push(x@),
{
    assert(line_views(v.push(x)) =~= line_views(v).push(x@));
}

/// A line of plain text.
pub open spec fn plain_view(s: Seq<char>) -> LineView {
    LineView { pieces: seq![PieceView { tone: Tone::Plain, text: s }] }
}

fn plain(s: String) -> (r: Line)
    ensures
        r@ == plain_view(s@),
{
    let pieces: Vec<Piece> = vec![Piece { tone: Tone::Plain, text: s }];
    assert(piece_views(pieces@) =~= plain_view(s@).pieces);
    Line { pieces }
}

/// A line that begins with a piece of its own.
pub open spec fn marked_view(tone: Tone, mark: Seq<char>, rest: Seq<char>) -> LineView {
    LineView {
        pieces: seq![
            PieceView { tone, text: mark },
            PieceView { tone: Tone::Plain, text: rest },
        ],
    }
}

fn marked(tone: Tone, mark: &str, rest: String) -> (r: Line)
    ensures
        r@ == marked_view(tone, mark@, rest@),
{
    let pieces: Vec<Piece> = vec![
        Piece { tone, text: text::owned(mark) },
        Piece { tone: Tone::Plain, text: rest },
    ];
    assert(piece_views(pieces@) =~= marked_view(tone, mark@, rest@).pieces);
    Line { pieces }
}

/// The text of a member, or `-`.
pub open spec fn member_text(j: JsonView, key: Seq<char>) -> Seq<char> {
    text::text_or(text_member(j, key), "-"@)
}

/// The text of a member that is text.
pub open spec fn text_member(j: JsonView, key: Seq<char>) -> Option<Seq<char>> {
    match json::member_view(j, key) {
        Some(JsonView::Text(s)) => Some(s),
        _ => None,
    }
}

/// The text of a member that is text.
pub fn find_text(j: &Json, key: &str) -> (r: Option<String>)
    ensures
        text::opt_text(r) == text_member(j@, key@),
{
    match j.member(key) {
        Some(m) => match m.as_text() {
            Some(s) => Some(s.clone()),
            None => None,
        },
        None => None,
    }
}

/// The text of a member, or `-`.
pub fn json_string(j: &Json, key: &str) -> (r: String)
    ensures
        r@ == member_text(j@, key@),
{
    text::unwrap_text(find_text(j, key), "-")
}

/// The texts in a list.
pub open spec fn text_items(v: Seq<JsonView>) -> Seq<Seq<char>>
    decreases v.len(),
{
    if v.len() == 0 {
        Seq::empty()
    } else {
        let rest = text_items(v.drop_last());
        match v.last() {
            JsonView::Text(s) => rest.push(s),
            _ => rest,
        }
    }
}

/// The list of a member, empty where there is none.
pub open spec fn member_items(j: JsonView, key: Seq<char>) -> Seq<JsonView> {
    match json::member_view(j, key) {
        Some(JsonView::Array(v)) => v,
        _ => Seq::empty(),
    }
}

fn items_of(j: &Json) -> (r: Option<&Vec<Json>>)
    ensures
        match r {
            Some(v) => j@ == JsonView::Array(json::array_view(v@)),
            None => !(j@ is Array),
        },
{
    match j {
        Json::Array(v) => Some(v),
        _ => None,
    }
}

/// A warning of a node.
pub open spec fn warning_line(color: bool, s: Seq<char>) -> LineView {
    if color {
        LineView {
            pieces: seq![
                PieceView { tone: Tone::Plain, text: "  "@ },
                PieceView { tone: Tone::Yellow, text: "!"@ },
                PieceView { tone: Tone::Plain, text: " "@ },
                PieceView { tone: Tone::Yellow, text: s },
            ],
        }
    } else {
        plain_view("  WARNING: "@ + s)
    }
}

fn show_warning(color: bool, s: &str) -> (r: Line)
    ensures
        r@ == warning_line(color, s@),
{
    if color {
        let pieces: Vec<Piece> = vec![
            Piece { tone: Tone::Plain, text: text::owned("  ") },
            Piece { tone: Tone::Yellow, text: text::owned("!") },
            Piece { tone: Tone::Plain, text: text::owned(" ") },
            Piece { tone: Tone::Yellow, text: text::owned(s) },
        ];
        assert(piece_views(pieces@) =~= warning_line(color, s@).pieces);
        Line { pieces }
    } else {
        plain(text::concat("  WARNING: ", s))
    }
}

/// How well a node is supported: the badge and its tone.
pub open spec fn badge(support: Seq<char>) -> (Tone, Seq<char>) {
    if support == "supported"@ {
        (Tone::Green, "[SUPPORTED]"@)
    } else if support == "partial"@ {
        (Tone::Yellow, "[PARTIAL]"@)
    } else {
        (Tone::Red, "[UNSUPPORTED]"@)
    }
}

fn find_badge(support: &str) -> (r: (Tone, &'static str))
    ensures
        (r.0, r.1@) == badge(support@),
{
    if text::same(support, "supported") {
        (Tone::Green, "[SUPPORTED]")
    } else if text::same(support, "partial") {
        (Tone::Yellow, "[PARTIAL]")
    } else {
        (Tone::Red, "[UNSUPPORTED]")
    }
}

/// A tone where there is colour.
pub open spec fn shown_tone(color: bool, tone: Tone) -> Tone {
    if color {
        tone
    } else {
        Tone::Plain
    }
}

fn show_tone(color: bool, tone: Tone) -> (r: Tone)
    ensures
        r == shown_tone(color, tone),
{
    if color {
        tone
    } else {
        Tone::Plain
    }
}

/// The first line of a node: its badge, ID, protocol and name.
pub open spec fn node_line(color: bool, node: JsonView) -> LineView {
    let b = badge(text::text_or(text_member(node, "support"@), "unknown"@));
    marked_view(
        shown_tone(color, b.0),
        b.1,
        " "@ + member_text(node, "id"@) + "  "@ + member_text(node, "protocol"@) + "  "@
            + member_text(node, "name"@),
    )
}

/// The lines of a node.
pub open spec fn node_lines(color: bool, node: JsonView) -> Seq<LineView> {
    seq![
        node_line(color, node),
        plain_view(
            "  "@ + member_text(node, "endpoint"@) + "  subscription="@ + member_text(
                node,
                "subscription"@,
            ),
        ),
    ] + text_items(member_items(node, "warnings"@)).map_values(
        |s: Seq<char>| warning_line(color, s),
    )
}

fn push_node_line(lines: &mut Vec<Line>, color: bool, node: &Json)
    ensures
        line_views(final(lines)@) == line_views(old(lines)@).push(node_line(color, node@)).push(
            plain_view(
                "  "@ + member_text(node@, "endpoint"@) + "  subscription="@ + member_text(
                    node@,
                    "subscription"@,
                ),
            ),
        ),
{
    let support = text::unwrap_text(find_text(node, "support"), "unknown");
    let (tone, mark) = find_badge(support.as_str());
    let mut rest = text::owned(" ");
    rest.append(json_string(node, "id").as_str());
    rest.append("  ");
    rest.append(json_string(node, "protocol").as_str());
    rest.append("  ");
    rest.append(json_string(node, "name").as_str());
    let first = marked(show_tone(color, tone), mark, rest);
    let mut second = text::owned("  ");
    second.append(json_string(node, "endpoint").as_str());
    second.append("  subscription=");
    second.append(json_string(node, "subscription").as_str());
    let second = plain(second);
    proof {
        lemma_line_views_push(lines@, first);
        lemma_line_views_push(lines@.push(first), second);
    }
    lines.push(first);
    lines.push(second);
}

fn push_warnings(lines: &mut Vec<Line>, color: bool, items: &Vec<Json>)
    ensures
        line_views(final(lines)@) == line_views(old(lines)@) + text_items(
            json::array_view(items@),
        ).map_values(|s: Seq<char>| warning_line(color, s)),
{
    let ghost v = json::array_view(items@);
    let ghost f = |s: Seq<char>| warning_line(color, s);
    let ghost before = line_views(lines@);
    let mut i: usize = 0;
    proof {
        json::lemma_array_view(items@);
        assert(v.take(0).len() == 0);
        assert(before + text_items(v.take(0)).map_values(f) =~= before);
    }
    while i < items.len()
        invariant
            i <= items@.len(),
            v == json::array_view(items@),
            v.len() == items@.len(),
            forall|k: int| 0 <= k < items@.len() ==> v[k] == #[trigger] json::json_view(items@[k]),
            f == |s: Seq<char>| warning_line(color, s),
            line_views(lines@) == before + text_items(v.take(i as int)).map_values(f),
        decreases items@.len() - i,
    {
        proof {
            assert(v[i as int] == json::json_view(items@[i as int]));
            assert(v.take(i + 1).drop_last() =~= v.take(i as int));
            assert(v.take(i + 1).last() == v[i as int]);
        }
        match items[i].as_text() {
            Some(s) => {
                let line = show_warning(color, s.as_str());
                proof {
                    lemma_line_views_push(lines@, line);
                    let t = text_items(v.take(i as int));
                    assert(before + t.push(s@).map_values(f) =~= (before + t.map_values(f)).push(
                        line@,
                    ));
                }
                lines.push(line);
            },
            None => {},
        }
        i += 1;
    }
    assert(v.take(v.len() as int) =~= v);
}

/// The lines of nodes.
pub open spec fn nodes_lines(color: bool, v: Seq<JsonView>) -> Seq<LineView>
    decreases v.len(),
{
    if v.len() == 0 {
        Seq::empty()
    } else {
        nodes_lines(color, v.drop_last()) + node_lines(color, v.last())
    }
}

/// The list of nodes, where the answer is a list.
pub open spec fn node_list_of(color: bool, value: JsonView) -> Option<Seq<LineView>> {
    match value {
        JsonView::Array(v) => Some(
            if v.len() == 0 {
                seq![plain_view("No nodes loaded."@)]
            } else {
                nodes_lines(color, v)
            },
        ),
        _ => None,
    }
}

pub open spec fn opt_lines(o: Option<Vec<Line>>) -> Option<Seq<LineView>> {
    match o {
        Some(v) => Some(line_views(v@)),
        None => None,
    }
}

fn one_line(line: Line) -> (r: Vec<Line>)
    ensures
        line_views(r@) == seq![line@],
{
    let r: Vec<Line> = vec![line];
    assert(line_views(r@) =~= seq![line@]);
    r
}

/// Shows the list of nodes.
pub fn node_list(color: bool, value: &Json) -> (r: Option<Vec<Line>>)
    ensures
        opt_lines(r) == node_list_of(color, value@),
{
    let items = match items_of(value) {
        Some(v) => v,
        None => {
            return None;
        },
    };
    let ghost v = json::array_view(items@);
    proof {
        json::lemma_array_view(items@);
    }
    if items.len() == 0 {
        return Some(one_line(plain(text::owned("No nodes loaded."))));
    }
    let mut lines: Vec<Line> = Vec::new();
    let mut i: usize = 0;
    assert(v.take(0).len() == 0);
    assert(line_views(lines@) =~= Seq::empty());
    while i < items.len()
        invariant
            i <= items@.len(),
            v == json::array_view(items@),
            v.len() == items@.len(),
            forall|k: int| 0 <= k < items@.len() ==> v[k] == #[trigger] json::json_view(items@[k]),
            line_views(lines@) == nodes_lines(color, v.take(i as int)),
        decreases items@.len() - i,
    {
        let node = &items[i];
        let ghost before = line_views(lines@);
        proof {
            assert(v[i as int] == json::json_view(items@[i as int]));
            assert(v.take(i + 1).drop_last() =~= v.take(i as int));
            assert(v.take(i + 1).last() == v[i as int]);
        }
        push_node_line(&mut lines, color, node);
        let ghost middle = line_views(lines@);
        let warnings = match node.member("warnings") {
            Some(w) => items_of(w),
            None => None,
        };
        match warnings {
            Some(w) => {
                push_warnings(&mut lines, color, w);
            },
            None => {},
        }
        proof {
            let t = text_items(member_items(node@, "warnings"@)).map_values(
                |s: Seq<char>| warning_line(color, s),
            );
            assert(line_views(lines@) =~= middle + t);
            assert(middle + t =~= before + node_lines(color, node@));
        }
        i += 1;
    }
    assert(v.take(v.len() as int) =~= v);
    Some(lines)
}

/// The active node.
pub open spec fn current_node_of(color: bool, value: JsonView) -> LineView {
    match text_member(value, "selected_node"@) {
        Some(node) => if color {
            marked_view(Tone::Green, "✓"@, " Active node: "@ + node)
        } else {
            plain_view("Active node: "@ + node)
        },
        None => if color {
            marked_view(Tone::Yellow, "!"@, " No node is selected"@)
        } else {
            plain_view("No node is selected"@)
        },
    }
}

/// Shows the active node.
pub fn current_node(color: bool, value: &Json) -> (r: Line)
    ensures
        r@ == current_node_of(color, value@),
{
    match find_text(value, "selected_node") {
        Some(node) => if color {
            marked(Tone::Green, "✓", text::concat(" Active node: ", node.as_str()))
        } else {
            plain(text::concat("Active node: ", node.as_str()))
        },
        None => if color {
            marked(Tone::Yellow, "!", text::owned(" No node is selected"))
        } else {
            plain(text::owned("No node is selected"))
        },
    }
}

/// The mark of a check.
pub open spec fn check_mark(color: bool, status: Seq<char>) -> (Tone, Seq<char>) {
    if !color {
        (Tone::Plain, "["@ + status + "]"@)
    } else if status == "PASS"@ {
        (Tone::Green, "✓"@)
    } else if status == "WARN"@ {
        (Tone::Yellow, "!"@)
    } else {
        (Tone::Red, "✗"@)
    }
}

fn find_check_mark(color: bool, status: &str) -> (r: (Tone, String))
    ensures
        (r.0, r.1@) == check_mark(color, status@),
{
    if !color {
        (Tone::Plain, text::concat3("[", status, "]"))
    } else if text::same(status, "PASS") {
        (Tone::Green, text::owned("✓"))
    } else if text::same(status, "WARN") {
        (Tone::Yellow, text::owned("!"))
    } else {
        (Tone::Red, text::owned("✗"))
    }
}

/// The lines of a check.
pub open spec fn check_lines(color: bool, check: JsonView) -> Seq<LineView> {
    let mark = check_mark(color, member_text(check, "status"@));
    let first = seq![
        marked_view(
            mark.0,
            mark.1,
            " "@ + member_text(check, "id"@) + ": "@ + member_text(check, "message"@),
        ),
    ];
    match text_member(check, "remediation"@) {
        Some(s) => first.push(plain_view("  Remediation: "@ + s)),
        None => first,
    }
}

/// The lines of checks.
pub open spec fn checks_lines(color: bool, v: Seq<JsonView>) -> Seq<LineView>
    decreases v.len(),
{
    if v.len() == 0 {
        Seq::empty()
    } else {
        checks_lines(color, v.drop_last()) + check_lines(color, v.last())
    }
}

/// The findings of the doctor, where the answer has checks.
pub open spec fn doctor_of(color: bool, value: JsonView) -> Option<Seq<LineView>> {
    match json::member_view(value, "checks"@) {
        Some(JsonView::Array(v)) => Some(checks_lines(color, v)),
        _ => None,
    }
}

fn push_check(lines: &mut Vec<Line>, color: bool, check: &Json)
    ensures
        line_views(final(lines)@) == line_views(old(lines)@) + check_lines(color, check@),
{
    let ghost before = line_views(lines@);
    let status = json_string(check, "status");
    let (tone, mark) = find_check_mark(color, status.as_str());
    let mut rest = text::owned(" ");
    rest.append(json_string(check, "id").as_str());
    rest.append(": ");
    rest.append(json_string(check, "message").as_str());
    let first = marked(tone, mark.as_str(), rest);
    proof {
        lemma_line_views_push(lines@, first);
    }
    lines.push(first);
    match find_text(check, "remediation") {
        Some(s) => {
            let second = plain(text::concat("  Remediation: ", s.as_str()));
            proof {
                lemma_line_views_push(lines@, second);
            }
            lines.push(second);
        },
        None => {},
    }
    assert(line_views(lines@) =~= before + check_lines(color, check@));
}

/// Shows the findings of the doctor.
pub fn doctor(color: bool, value: &Json) -> (r: Option<Vec<Line>>)
    ensures
        opt_lines(r) == doctor_of(color, value@),
{
    let items = match value.member("checks") {
        Some(c) => match items_of(c) {
            Some(v) => v,
            None => {
                return None;
            },
        },
        None => {
            return None;
        },
    };
    let ghost v = json::array_view(items@);
    let mut lines: Vec<Line> = Vec::new();
    let mut i: usize = 0;
    proof {
        json::lemma_array_view(items@);
        assert(v.take(0).len() == 0);
        assert(line_views(lines@) =~= Seq::empty());
    }
    while i < items.len()
        invariant
            i <= items@.len(),
            v == json::array_view(items@),
            v.len() == items@.len(),
            forall|k: int| 0 <= k < items@.len() ==> v[k] == #[trigger] json::json_view(items@[k]),
            line_views(lines@) == checks_lines(color, v.take(i as int)),
        decreases items@.len() - i,
    {
        proof {
            assert(v[i as int] == json::json_view(items@[i as int]));
            assert(v.take(i + 1).drop_last() =~= v.take(i as int));
            assert(v.take(i + 1).last() == v[i as int]);
        }
        push_check(&mut lines, color, &items[i]);
        i += 1;
    }
    assert(v.take(v.len() as int) =~= v);
    Some(lines)
}

/// Whether the manager is installed.
pub open spec fn installed_line(color: bool, installed: bool) -> LineView {
    if color {
        if installed {
            marked_view(Tone::BoldGreen, "✓"@, " Installed"@)
        } else {
            marked_view(Tone::BoldYellow, "!"@, " Not installed"@)
        }
    } else if installed {
        plain_view("Installed: true"@)
    } else {
        plain_view("Installed: false"@)
    }
}

fn show_installed(color: bool, installed: bool) -> (r: Line)
    ensures
        r@ == installed_line(color, installed),
{
    if color {
        if installed {
            marked(Tone::BoldGreen, "✓", text::owned(" Installed"))
        } else {
            marked(Tone::BoldYellow, "!", text::owned(" Not installed"))
        }
    } else if installed {
        plain(text::owned("Installed: true"))
    } else {
        plain(text::owned("Installed: false"))
    }
}

/// The line of a chosen backend.
pub open spec fn backend_line(b: JsonView) -> LineView {
    plain_view("  "@ + member_text(b, "capability"@) + " = "@ + member_text(b, "backend_id"@))
}

/// The status of the installation.
pub open spec fn status_of(color: bool, value: JsonView) -> Seq<LineView> {
    let base = seq![
        installed_line(color, json::member_view(value, "installed"@) == Some(JsonView::Bool(true))),
        plain_view("Selected node: "@ + text::text_or(text_member(value, "selected_node"@), "none"@)),
        plain_view("Xray core: "@ + text::text_or(text_member(value, "core_version"@), "unknown"@)),
    ];
    match json::member_view(value, "backends"@) {
        Some(JsonView::Array(v)) => base.push(plain_view("Backends:"@)) + v.map_values(
            |b: JsonView| backend_line(b),
        ),
        _ => base,
    }
}

fn push_backends(lines: &mut Vec<Line>, items: &Vec<Json>)
    ensures
        line_views(final(lines)@) == line_views(old(lines)@) + json::array_view(items@).map_values(
            |b: JsonView| backend_line(b),
        ),
{
    let ghost v = json::array_view(items@);
    let ghost f = |b: JsonView| backend_line(b);
    let ghost before = line_views(lines@);
    let mut i: usize = 0;
    proof {
        json::lemma_array_view(items@);
        assert(before + v.take(0).map_values(f) =~= before);
    }
    while i < items.len()
        invariant
            i <= items@.len(),
            v == json::array_view(items@),
            v.len() == items@.len(),
            forall|k: int| 0 <= k < items@.len() ==> v[k] == #[trigger] json::json_view(items@[k]),
            f == |b: JsonView| backend_line(b),
            line_views(lines@) == before + v.take(i as int).map_values(f),
        decreases items@.len() - i,
    {
        let b = &items[i];
        let mut s = text::owned("  ");
        s.append(json_string(b, "capability").as_str());
        s.append(" = ");
        s.append(json_string(b, "backend_id").as_str());
        let line = plain(s);
        proof {
            assert(v[i as int] == json::json_view(items@[i as int]));
            lemma_line_views_push(lines@, line);
            assert(before + v.take(i + 1).map_values(f) =~= (before + v.take(
                i as int,
            ).map_values(f)).push(line@));
        }
        lines.push(line);
        i += 1;
    }
    assert(v.take(v.len() as int) =~= v);
}

/// Shows the status of the installation.
pub fn status(color: bool, value: &Json) -> (r: Vec<Line>)
    ensures
        line_views(r@) == status_of(color, value@),
{
    let installed = match value.member("installed") {
        Some(Json::Bool(b)) => *b,
        _ => false,
    };
    let mut r: Vec<Line> = vec![
        show_installed(color, installed),
        plain(
            text::concat(
                "Selected node: ",
                text::unwrap_text(find_text(value, "selected_node"), "none").as_str(),
            ),
        ),
        plain(
            text::concat(
                "Xray core: ",
                text::unwrap_text(find_text(value, "core_version"), "unknown").as_str(),
            ),
        ),
    ];
    let ghost base = seq![r@[0]@, r@[1]@, r@[2]@];
    assert(line_views(r@) =~= base);
    let backends = match value.member("backends") {
        Some(b) => items_of(b),
        None => None,
    };
    match backends {
        Some(items) => {
            let heading = plain(text::owned("Backends:"));
            proof {
                lemma_line_views_push(r@, heading);
            }
            r.push(heading);
            push_backends(&mut r, items);
        },
        None => {},
    }
    r
}

/// The lines that answer a question, or none where the answer is shown as it is.
pub open spec fn query_lines_of(color: bool, c: CommandView, value: JsonView) -> Option<
    Seq<LineView>,
> {
    match c {
        CommandView::Node { command: NodeCommandView::List } => node_list_of(color, value),
        CommandView::Node { command: NodeCommandView::Current } => Some(
            seq![current_node_of(color, value)],
        ),
        CommandView::Doctor { .. } => doctor_of(color, value),
        CommandView::Status => Some(status_of(color, value)),
        _ => None,
    }
}

/// Shows the answer to a question, or leaves it to be shown as it is.
pub fn query_lines(color: bool, command: &Command, value: &Json) -> (r: Option<Vec<Line>>)
    ensures
        opt_lines(r) == query_lines_of(color, command@, value@),
{
    match command {
        Command::Node { command: NodeCommand::List } => node_list(color, value),
        Command::Node { command: NodeCommand::Current } => Some(
            one_line(current_node(color, value)),
        ),
        Command::Doctor { .. } => doctor(color, value),
        Command::Status => Some(status(color, value)),
        _ => None,
    }
}

/// The line that exports a variable, where it has a text.
pub open spec fn export_line(value: JsonView, key: Seq<char>) -> Seq<Seq<char>> {
    match text_member(value, key) {
        Some(s) => seq!["export "@ + key + "="@ + s],
        None => Seq::empty(),
    }
}

/// The lines that export the proxy environment.
pub open spec fn export_lines(value: JsonView) -> Seq<Seq<char>> {
    export_line(value, "HTTP_PROXY"@) + export_line(value, "HTTPS_PROXY"@) + export_line(
        value,
        "ALL_PROXY"@,
    ) + export_line(value, "NO_PROXY"@)
}

fn push_export(lines: &mut Vec<String>, value: &Json, key: &str)
    ensures
        text::texts(final(lines)@) == text::texts(old(lines)@) + export_line(value@, key@),
{
    let ghost before = text::texts(lines@);
    match find_text(value, key) {
        Some(s) => {
            let mut line = text::owned("export ");
            line.append(key);
            line.append("=");
            line.append(s.as_str());
            proof {
                text::lemma_texts_push(lines@, line);
            }
            lines.push(line);
        },
        None => {},
    }
    assert(text::texts(lines@) =~= before + export_line(value@, key@));
}

/// Writes the proxy environment for a shell.
pub fn shell_environment(value: &Json) -> (r: Result<Vec<String>, String>)
    ensures
        match r {
            Ok(v) => value@ is Object && text::texts(v@) == export_lines(value@),
            Err(e) => !(value@ is Object) && e@ == "proxy environment response is not an object"@,
        },
{
    match value {
        Json::Object(_) => {},
        _ => {
            return Err(text::owned("proxy environment response is not an object"));
        },
    }
    let mut r: Vec<String> = Vec::new();
    push_export(&mut r, value, "HTTP_PROXY");
    push_export(&mut r, value, "HTTPS_PROXY");
    push_export(&mut r, value, "ALL_PROXY");
    push_export(&mut r, value, "NO_PROXY");
    assert(text::texts(r@) =~= export_lines(value@));
    Ok(r)
}

/// The line after a successful operation.
pub fn operation_success(color: bool, operation: &str) -> (r: Line)
    ensures
        r@ == if color {
            marked_view(Tone::BoldGreen, "✓"@, " "@ + operation@ + " completed"@)
        } else {
            plain_view("OK: "@ + operation@ + " completed"@)
        },
{
    if color {
        marked(Tone::BoldGreen, "✓", text::concat3(" ", operation, " completed"))
    } else {
        plain(text::concat3("OK: ", operation, " completed"))
    }
}

/// The lines of a failure: its code, its message and what is recommended.
pub open spec fn error_lines_of(color: bool, e: Option<ManagerErrorView>, message: Seq<char>) -> Seq<
    LineView,
> {
    let (code, details) = failure_parts(e);
    let base = seq![
        if color {
            LineView {
                pieces: seq![
                    PieceView { tone: Tone::BoldRed, text: "✗"@ },
                    PieceView { tone: Tone::Plain, text: " "@ },
                    PieceView { tone: Tone::Red, text: code },
                ],
            }
        } else {
            plain_view("ERROR ["@ + code + "]"@)
        },
        plain_view(message),
    ];
    match text_member(details, "recommendation"@) {
        Some(s) => base.push(plain_view("Recommendation: "@ + s)),
        None => base,
    }
}

fn error_heading(color: bool, code: &str) -> (r: Line)
    ensures
        r@ == if color {
            LineView {
                pieces: seq![
                    PieceView { tone: Tone::BoldRed, text: "✗"@ },
                    PieceView { tone: Tone::Plain, text: " "@ },
                    PieceView { tone: Tone::Red, text: code@ },
                ],
            }
        } else {
            plain_view("ERROR ["@ + code@ + "]"@)
        },
{
    if color {
        let pieces: Vec<Piece> = vec![
            Piece { tone: Tone::BoldRed, text: text::owned("✗") },
            Piece { tone: Tone::Plain, text: text::owned(" ") },
            Piece { tone: Tone::Red, text: text::owned(code) },
        ];
        assert(piece_views(pieces@) =~= seq![
            PieceView { tone: Tone::BoldRed, text: "✗"@ },
            PieceView { tone: Tone::Plain, text: " "@ },
            PieceView { tone: Tone::Red, text: code@ },
        ]);
        Line { pieces }
    } else {
        plain(text::concat3("ERROR [", code, "]"))
    }
}

/// Shows a failure.
pub fn error_lines(color: bool, error: &Option<ManagerError>, message: &str) -> (r: Vec<Line>)
    ensures
        line_views(r@) == error_lines_of(color, opt_error(*error), message@),
{
    let (code, details) = match error {
        Some(e) => (e.code(), e.details()),
        None => ("operation_failed", Json::Object(JsonObject::new())),
    };
    let mut r: Vec<Line> = vec![error_heading(color, code), plain(text::owned(message))];
    let ghost base = seq![r@[0]@, r@[1]@];
    assert(line_views(r@) =~= base);
    match find_text(&details, "recommendation") {
        Some(s) => {
            let line = plain(text::concat("Recommendation: ", s.as_str()));
            proof {
                lemma_line_views_push(r@, line);
            }
            r.push(line);
        },
        None => {},
    }
    r
}

/// The details that are shown of a failure: only where they were asked for and
/// there are any.
pub fn shown_details(verbose: bool, error: &Option<ManagerError>) -> (r: Option<Json>)
    ensures
        match r {
            Some(d) => verbose && (error matches Some(e) && d@ == error::error_details(e@) && d@
                != JsonView::Object(render::no_members())),
            None => !verbose || !(error matches Some(e) && error::error_details(e@) != JsonView::Object(
                render::no_members(),
            )),
        },
{
    if !verbose {
        return None;
    }
    match error {
        Some(e) => match e.details() {
            Json::Object(o) => if o.is_empty() {
                None
            } else {
                Some(Json::Object(o))
            },
            _ => None,
        },
        None => None,
    }
}

} // verus!

//! The manager's errors.

use crate::json::{Json, JsonObject, JsonView};
use crate::ports::Capability;
use crate::json;
use crate::ports;
use crate::text;
use vstd::prelude::*;

verus! {

/// Why an operation failed.
#[derive(Debug)]
pub enum ManagerError {
    InvalidConfig(String),
    InvalidNode(String),
    InvalidSubscription(String),
    Io(String),
    Download(String),
    Validation(String),
    LockContention,
    PlatformUnsupported { capability: Capability, platform: String, backend: Option<String>, reason: String, recommendation: Option<String> },
    ManagerReleaseSourceNotConfigured,
    PrivilegeRequired,
    Other(String),
}

/// The mathematical value of a [`ManagerError`].
#[verifier::ext_equal]
pub enum ManagerErrorView {
    InvalidConfig(Seq<char>),
    InvalidNode(Seq<char>),
    InvalidSubscription(Seq<char>),
    Io(Seq<char>),
    Download(Seq<char>),
    Validation(Seq<char>),
    LockContention,
    PlatformUnsupported { capability: Capability, platform: Seq<char>, backend: Option<Seq<char>>, reason: Seq<char>, recommendation: Option<Seq<char>> },
    ManagerReleaseSourceNotConfigured,
    PrivilegeRequired,
    Other(Seq<char>),
}

impl View for ManagerError {
    type V = ManagerErrorView;

    open spec fn view(&self) -> ManagerErrorView {
        match *self {
            ManagerError::InvalidConfig(a) => ManagerErrorView::InvalidConfig(a@),
            ManagerError::InvalidNode(a) => ManagerErrorView::InvalidNode(a@),
            ManagerError::InvalidSubscription(a) => ManagerErrorView::InvalidSubscription(a@),
            ManagerError::Io(a) => ManagerErrorView::Io(a@),
            ManagerError::Download(a) => ManagerErrorView::Download(a@),
            ManagerError::Validation(a) => ManagerErrorView::Validation(a@),
            ManagerError::LockContention => ManagerErrorView::LockContention,
            ManagerError::PlatformUnsupported { capability, platform, backend, reason, recommendation } => ManagerErrorView::PlatformUnsupported { capability, platform: platform@, backend: text::opt_text(backend), reason: reason@, recommendation: text::opt_text(recommendation) },
            ManagerError::ManagerReleaseSourceNotConfigured => ManagerErrorView::ManagerReleaseSourceNotConfigured,
            ManagerError::PrivilegeRequired => ManagerErrorView::PrivilegeRequired,
            ManagerError::Other(a) => ManagerErrorView::Other(a@),
        }
    }
}

impl Clone for ManagerError {
    fn clone(&self) -> (r: Self)
        ensures
            r@ == self@,
    {
        match self {
            ManagerError::InvalidConfig(a) => ManagerError::InvalidConfig(a.clone()),
            ManagerError::InvalidNode(a) => ManagerError::InvalidNode(a.clone()),
            ManagerError::InvalidSubscription(a) => ManagerError::InvalidSubscription(a.clone()),
            ManagerError::Io(a) => ManagerError::Io(a.clone()),
            ManagerError::Download(a) => ManagerError::Download(a.clone()),
            ManagerError::Validation(a) => ManagerError::Validation(a.clone()),
            ManagerError::LockContention => ManagerError::LockContention,
            ManagerError::PlatformUnsupported { capability, platform, backend, reason, recommendation } => ManagerError::PlatformUnsupported { capability: *capability, platform: platform.clone(), backend: text::copy_opt(backend), reason: reason.clone(), recommendation: text::copy_opt(recommendation) },
            ManagerError::ManagerReleaseSourceNotConfigured => ManagerError::ManagerReleaseSourceNotConfigured,
            ManagerError::PrivilegeRequired => ManagerError::PrivilegeRequired,
            ManagerError::Other(a) => ManagerError::Other(a.clone()),
        }
    }
}

/// The stable code of an error.
pub open spec fn error_code(e: ManagerErrorView) -> Seq<char> {
    match e {
        ManagerErrorView::InvalidConfig(_) => "invalid_config"@,
        ManagerErrorView::InvalidNode(_) => "invalid_node"@,
        ManagerErrorView::InvalidSubscription(_) => "invalid_subscription"@,
        ManagerErrorView::Io(_) => "io_error"@,
        ManagerErrorView::Download(_) => "download_error"@,
        ManagerErrorView::Validation(_) => "validation_error"@,
        ManagerErrorView::LockContention => "lock_contention"@,
        ManagerErrorView::PlatformUnsupported { .. } => "platform_unsupported"@,
        ManagerErrorView::ManagerReleaseSourceNotConfigured => "manager_release_source_not_configured"@,
        ManagerErrorView::PrivilegeRequired => "privilege_required"@,
        ManagerErrorView::Other(_) => "operation_failed"@,
    }
}

/// The text that an error is shown as.
pub open spec fn error_message(e: ManagerErrorView) -> Seq<char> {
    match e {
        ManagerErrorView::InvalidConfig(m) => "invalid configuration: "@ + m,
        ManagerErrorView::InvalidNode(m) => "invalid node URI: "@ + m,
        ManagerErrorView::InvalidSubscription(m) => "invalid subscription: "@ + m,
        ManagerErrorView::Io(m) => "I/O operation failed: "@ + m,
        ManagerErrorView::Download(m) => "download failed: "@ + m,
        ManagerErrorView::Validation(m) => "Xray validation failed: "@ + m,
        ManagerErrorView::LockContention => "operation is already in progress"@,
        ManagerErrorView::PlatformUnsupported { capability, platform, reason, .. } => ports::capability_name(
            capability,
        ) + " is unsupported on "@ + platform + ": "@ + reason,
        ManagerErrorView::ManagerReleaseSourceNotConfigured =>
            "Manager release source is not configured."@,
        ManagerErrorView::PrivilegeRequired => "operation requires administrator privileges"@,
        ManagerErrorView::Other(m) => m,
    }
}

/// The machine-readable details of an error.
pub open spec fn error_details(e: ManagerErrorView) -> JsonView {
    match e {
        ManagerErrorView::PlatformUnsupported {
            capability,
            platform,
            backend,
            reason,
            recommendation,
        } => JsonView::Object(
            Map::empty().insert("capability"@, JsonView::Text(ports::capability_name(capability))).insert(
                "platform"@,
                JsonView::Text(platform),
            ).insert("backend"@, json::opt_view(backend)).insert(
                "reason"@,
                JsonView::Text(reason),
            ).insert("recommendation"@, json::opt_view(recommendation)),
        ),
        _ => JsonView::Object(Map::empty()),
    }
}

impl ManagerError {
    /// The stable code.
    pub fn code(&self) -> (r: &'static str)
        ensures
            r@ == error_code(self@),
    {
        match self {
            ManagerError::InvalidConfig(_) => "invalid_config",
            ManagerError::InvalidNode(_) => "invalid_node",
            ManagerError::InvalidSubscription(_) => "invalid_subscription",
            ManagerError::Io(_) => "io_error",
            ManagerError::Download(_) => "download_error",
            ManagerError::Validation(_) => "validation_error",
            ManagerError::LockContention => "lock_contention",
            ManagerError::PlatformUnsupported { .. } => "platform_unsupported",
            ManagerError::ManagerReleaseSourceNotConfigured => "manager_release_source_not_configured",
            ManagerError::PrivilegeRequired => "privilege_required",
            ManagerError::Other(_) => "operation_failed",
        }
    }

    /// The text to show.
    pub fn message(&self) -> (r: String)
        ensures
            r@ == error_message(self@),
    {
        match self {
            ManagerError::InvalidConfig(m) => text::concat("invalid configuration: ", m.as_str()),
            ManagerError::InvalidNode(m) => text::concat("invalid node URI: ", m.as_str()),
            ManagerError::InvalidSubscription(m) => text::concat("invalid subscription: ", m.as_str()),
            ManagerError::Io(m) => text::concat("I/O operation failed: ", m.as_str()),
            ManagerError::Download(m) => text::concat("download failed: ", m.as_str()),
            ManagerError::Validation(m) => text::concat("Xray validation failed: ", m.as_str()),
            ManagerError::LockContention => text::owned("operation is already in progress"),
            ManagerError::PlatformUnsupported { capability, platform, reason, .. } => {
                let mut r = text::owned(capability.name());
                r.append(" is unsupported on ");
                r.append(platform.as_str());
                r.append(": ");
                r.append(reason.as_str());
                r
            },
            ManagerError::ManagerReleaseSourceNotConfigured => text::owned(
                "Manager release source is not configured.",
            ),
            ManagerError::PrivilegeRequired => text::owned("operation requires administrator privileges"),
            ManagerError::Other(m) => m.clone(),
        }
    }

    /// The machine-readable details.
    pub fn details(&self) -> (r: Json)
        ensures
            r@ == error_details(self@),
    {
        match self {
            ManagerError::PlatformUnsupported {
                capability,
                platform,
                backend,
                reason,
                recommendation,
            } => {
                let object = JsonObject::new().with("capability", json::text(capability.name())).with(
                    "platform",
                    json::text(platform.as_str()),
                ).with("backend", json::optional(backend)).with(
                    "reason",
                    json::text(reason.as_str()),
                ).with("recommendation", json::optional(recommendation));
                Json::Object(object)
            },
            _ => Json::Object(JsonObject::new()),
        }
    }
}

} // verus!

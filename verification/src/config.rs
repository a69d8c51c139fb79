//! The configuration of the proxy.
use vstd::prelude::*;

verus! {

/// The whole configuration.
#[derive(Debug, Clone)]
pub struct Config {
    pub listen: ListenConfig,
    pub target: TargetConfig,
    pub pagination: PaginationConfig,
    pub response: ResponseConfig,
    pub crowdstrike: Option<CrowdStrikeConfig>,
}

/// Where the proxy listens.
#[derive(Debug, Clone)]
pub struct ListenConfig {
    pub address: String,
    pub tls: TlsConfig,
}

/// The identity that the proxy shows to its clients.
#[derive(Debug, Clone)]
pub struct TlsConfig {
    pub certificate_directory: String,
    pub server_names: Vec<String>,
}

/// The upstream that requests are sent to.
#[derive(Debug, Clone)]
pub struct TargetConfig {
    pub base_url: String,
    pub ca_bundle_path: Option<String>,
    pub timeout_seconds: Option<u64>,
}

/// How the upstream hands out its pages.
#[derive(Debug, Clone)]
pub enum PaginationConfig {
    /// A parameter holds the number of items to skip.
    Offset {
        offset_parameter: String,
        page_size_parameter: String,
        start_offset: u64,
        page_size: u64,
    },
    /// A parameter holds the number of the page.
    Page {
        page_parameter: String,
        page_size_parameter: String,
        start_page: u64,
        page_size: u64,
    },
    /// Each page holds the link of the next.
    NextLink { next_link_path: String },
}

/// The shape of a page, and what to do when a later page fails.
#[derive(Debug, Clone)]
pub struct ResponseConfig {
    pub array_path: String,
    pub error_policy: ErrorPolicy,
}

/// What becomes of a response whose output has begun when a later page fails.
#[derive(Debug, Clone, Copy, PartialEq, Eq, Structural)]
pub enum ErrorPolicy {
    /// The response breaks off.
    Terminate,
    /// The document is closed with the items that were sent.
    Complete,
}

/// The policy where none is configured.
pub open spec fn usual_policy() -> ErrorPolicy {
    ErrorPolicy::Terminate
}

impl Default for ErrorPolicy {
    fn default() -> (r: Self)
        ensures
            r == ErrorPolicy::Terminate,
            r == usual_policy(),
    {
        ErrorPolicy::Terminate
    }
}

/// The CrowdStrike Falcon endpoint.
#[derive(Debug, Clone)]
pub struct CrowdStrikeConfig {
    pub enabled: bool,
    pub base_url: String,
    pub timeout_seconds: u64,
    pub page_size: u64,
    pub lookback_days: i64,
    pub rate_limit_retries: u32,
    pub features: CrowdStrikeFeatures,
}

/// The optional enrichments of the CrowdStrike Falcon endpoint.
#[derive(Debug, Clone, Copy)]
pub struct CrowdStrikeFeatures {
    pub policies: bool,
    pub zta: bool,
    pub alerts: bool,
    pub detections: bool,
    pub incidents: bool,
    pub vulnerability_summary: bool,
    pub host_groups: bool,
    pub unmanaged_assets: bool,
}

/// How the upstream hands out its pages, with parameters by their texts.
pub enum Pagination {
    Offset { offset_parameter: Seq<char>, page_size_parameter: Seq<char>, start: u64, size: u64 },
    Page { page_parameter: Seq<char>, page_size_parameter: Seq<char>, start: u64, size: u64 },
    NextLink { path: Seq<char> },
}

impl View for PaginationConfig {
    type V = Pagination;

    open spec fn view(&self) -> Pagination {
        match self {
            PaginationConfig::Offset {
                offset_parameter,
                page_size_parameter,
                start_offset,
                page_size,
            } => Pagination::Offset {
                offset_parameter: offset_parameter@,
                page_size_parameter: page_size_parameter@,
                start: *start_offset,
                size: *page_size,
            },
            PaginationConfig::Page {
                page_parameter,
                page_size_parameter,
                start_page,
                page_size,
            } => Pagination::Page {
                page_parameter: page_parameter@,
                page_size_parameter: page_size_parameter@,
                start: *start_page,
                size: *page_size,
            },
            PaginationConfig::NextLink { next_link_path } => Pagination::NextLink {
                path: next_link_path@,
            },
        }
    }
}

/// The name of a pagination mode.
pub open spec fn mode_name(pagination: Pagination) -> Seq<char> {
    match pagination {
        Pagination::Offset { .. } => "offset"@,
        Pagination::Page { .. } => "page"@,
        Pagination::NextLink { .. } => "next_link"@,
    }
}

/// Names a pagination mode for a log.
pub fn pagination_mode(pagination: &PaginationConfig) -> (r: &'static str)
    ensures
        r@ == mode_name(pagination@),
{
    match pagination {
        PaginationConfig::Offset { .. } => "offset",
        PaginationConfig::Page { .. } => "page",
        PaginationConfig::NextLink { .. } => "next_link",
    }
}

/// The name of an error policy.
pub open spec fn policy_name(policy: ErrorPolicy) -> Seq<char> {
    match policy {
        ErrorPolicy::Terminate => "terminate"@,
        ErrorPolicy::Complete => "complete"@,
    }
}

/// Names an error policy for a log.
pub fn error_policy_name(policy: &ErrorPolicy) -> (r: &'static str)
    ensures
        r@ == policy_name(*policy),
        r@ == (match policy {
            ErrorPolicy::Terminate => "terminate"@,
            ErrorPolicy::Complete => "complete"@,
        }),
{
    match policy {
        ErrorPolicy::Terminate => "terminate",
        ErrorPolicy::Complete => "complete",
    }
}

// ---------------------------------------------------------------------------------------------
// TLS material

/// What is to be done about the TLS material at start.
#[derive(Debug, Clone, Copy, PartialEq, Eq, Structural)]
pub enum TlsPlan {
    /// No server name is configured: start fails.
    NoServerNames,
    /// All files exist: they are used as they are.
    Reuse,
    /// Only some files exist: start fails, and nothing is replaced.
    Incomplete,
    /// No file exists: all are generated.
    Generate,
}

/// What is to be done about the TLS material, given the number of server names and which of its three
/// files exist.
pub open spec fn planned(names: nat, ca: bool, certificate: bool, key: bool) -> TlsPlan {
    if names == 0 {
        TlsPlan::NoServerNames
    } else if ca && certificate && key {
        TlsPlan::Reuse
    } else if ca || certificate || key {
        TlsPlan::Incomplete
    } else {
        TlsPlan::Generate
    }
}

/// TLS material is never made anew while any of its files exists, and never used while one is missing.
/// Without a server name nothing is done at all.
pub proof fn law_tls_material(names: nat, ca: bool, certificate: bool, key: bool)
    ensures
        names == 0 <==> planned(names, ca, certificate, key) == TlsPlan::NoServerNames,
        names > 0 && ca && certificate && key <==> planned(names, ca, certificate, key)
            == TlsPlan::Reuse,
        names > 0 && !ca && !certificate && !key <==> planned(names, ca, certificate, key)
            == TlsPlan::Generate,
        names > 0 && (ca || certificate || key) && !(ca && certificate && key) <==> planned(
            names,
            ca,
            certificate,
            key,
        ) == TlsPlan::Incomplete,
{
}

/// A response breaks off on a failure unless the configuration says otherwise. Policies are named for
/// a log by what they do.
pub proof fn law_policies()
    ensures
        usual_policy() == ErrorPolicy::Terminate,
        policy_name(ErrorPolicy::Terminate) == "terminate"@,
        policy_name(ErrorPolicy::Complete) == "complete"@,
{
}

/// Decides about the TLS material, given which of its three files exist.
pub fn tls_plan(tls: &TlsConfig, ca: bool, certificate: bool, key: bool) -> (r: TlsPlan)
    ensures
        r == TlsPlan::NoServerNames <==> tls.server_names@.len() == 0,
        r == TlsPlan::Reuse <==> tls.server_names@.len() > 0 && ca && certificate && key,
        r == TlsPlan::Generate <==> tls.server_names@.len() > 0 && !ca && !certificate && !key,
        r == planned(tls.server_names@.len(), ca, certificate, key),
{
    if tls.server_names.len() == 0 {
        TlsPlan::NoServerNames
    } else if ca && certificate && key {
        TlsPlan::Reuse
    } else if ca || certificate || key {
        TlsPlan::Incomplete
    } else {
        TlsPlan::Generate
    }
}

} // verus!

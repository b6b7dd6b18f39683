//! From configuration to sources and destinations.

use crate::config::{DestConfig, SourceConfig};
use crate::dest::file::FileDestination;
use crate::dest::openobserve::config;
use crate::dest::openobserve::config::OpenObserveOptions;
use crate::dest::openobserve::OpenObserveDestination;
use crate::dest::s3::S3Destination;
use crate::json;
use crate::json::{Json, JsonView};
use crate::source::datadog::api::DatadogApiSource;
use crate::source::datadog::archive;
use crate::source::datadog::archive::{CloudProvider, Compression, DatadogArchiveSource};
use crate::source::datadog::decompress::Codec;
use crate::source::file::FileSource;
use crate::source::opensearch::{Auth, OpenSearchSource};
use crate::text;
use crate::text::same_text;
use vstd::prelude::*;

verus! {

// ---------------------------------------------------------------------------
// Authentication
// ---------------------------------------------------------------------------

/// What the AWS configuration gives: whether there is a credentials provider,
/// and the region.
pub struct AwsLookup {
    pub provider: bool,
    pub region: Option<String>,
}

/// Whether an authentication type needs the AWS configuration.
pub fn needs_aws(auth_type: &Option<String>) -> (r: bool)
    ensures
        r == (text::opt_text(*auth_type) == Some("aws-sigv4"@)),
{
    match auth_type {
        Some(t) => same_text(t.as_str(), "aws-sigv4"),
        None => false,
    }
}

/// The region to ask the AWS configuration for: the configured one, else that of
/// `AWS_REGION`, else that of `AWS_DEFAULT_REGION`.
pub fn preferred_region(
    configured: Option<String>,
    aws_region: Option<String>,
    aws_default_region: Option<String>,
) -> (r: Option<String>)
    ensures
        r == if configured is Some {
            configured
        } else if aws_region is Some {
            aws_region
        } else {
            aws_default_region
        },
{
    if configured.is_some() {
        configured
    } else if aws_region.is_some() {
        aws_region
    } else {
        aws_default_region
    }
}

/// How to authenticate, or why that is impossible: signed requests need a
/// provider and a region, basic auth needs a username, and without a type the
/// username alone decides.
pub open spec fn chosen_auth(
    auth_type: Option<Seq<char>>,
    username: Option<String>,
    password: Option<String>,
    aws: AwsLookup,
) -> Result<Auth, Seq<char>> {
    match auth_type {
        Some(t) => if t == "aws-sigv4"@ {
            if !aws.provider {
                Err(
                    "No AWS credentials provider found. Please verify your environment variables or ~/.aws/credentials."@,
                )
            } else {
                match aws.region {
                    Some(region) => Ok(Auth::AwsSigV4 { region }),
                    None => Err(
                        "AWS region is required for aws-sigv4. Specify it via --source-aws-region, config file, or AWS_REGION environment variable."@,
                    ),
                }
            }
        } else if t == "basic"@ {
            match username {
                Some(username) => Ok(Auth::Basic { username, password }),
                None => Err("Username is required for basic auth"@),
            }
        } else if t == "none"@ {
            Ok(Auth::Anonymous)
        } else {
            Err(
                "Unsupported source-auth-type '"@ + t
                    + "'. Use 'basic', 'aws-sigv4', or 'none'."@,
            )
        },
        None => match username {
            Some(username) => Ok(Auth::Basic { username, password }),
            None => Ok(Auth::Anonymous),
        },
    }
}

/// Chooses how to authenticate at the source.
pub fn resolve_auth(
    auth_type: &Option<String>,
    username: Option<String>,
    password: Option<String>,
    aws: AwsLookup,
) -> (r: Result<Auth, String>)
    ensures
        match r {
            Ok(a) => chosen_auth(text::opt_text(*auth_type), username, password, aws) == Ok::<
                Auth,
                Seq<char>,
            >(a),
            Err(e) => chosen_auth(text::opt_text(*auth_type), username, password, aws) == Err::<
                Auth,
                Seq<char>,
            >(e@),
        },
{
    match auth_type {
        Some(t) => if same_text(t.as_str(), "aws-sigv4") {
            if !aws.provider {
                return Err(
                    "No AWS credentials provider found. Please verify your environment variables or ~/.aws/credentials.".to_owned(),
                );
            }
            match aws.region {
                Some(region) => Ok(Auth::AwsSigV4 { region }),
                None => Err(
                    "AWS region is required for aws-sigv4. Specify it via --source-aws-region, config file, or AWS_REGION environment variable.".to_owned(),
                ),
            }
        } else if same_text(t.as_str(), "basic") {
            match username {
                Some(username) => Ok(Auth::Basic { username, password }),
                None => Err("Username is required for basic auth".to_owned()),
            }
        } else if same_text(t.as_str(), "none") {
            Ok(Auth::Anonymous)
        } else {
            Err(
                text::join3(
                    "Unsupported source-auth-type '",
                    t.as_str(),
                    "'. Use 'basic', 'aws-sigv4', or 'none'.",
                ),
            )
        },
        None => match username {
            Some(username) => Ok(Auth::Basic { username, password }),
            None => Ok(Auth::Anonymous),
        },
    }
}

// ---------------------------------------------------------------------------
// Sources
// ---------------------------------------------------------------------------

/// The secrets that a source's configuration refers to, each as it was resolved.
pub struct SourceSecrets {
    pub password: Result<Option<String>, String>,
    pub dd_api_key: Result<Option<String>, String>,
    pub dd_app_key: Result<Option<String>, String>,
}

/// What building a source needs from outside its configuration.
#[derive(Debug, Clone, Copy, PartialEq, Eq, Structural)]
pub struct SourceNeeds {
    /// The password of an OpenSearch source.
    pub password: bool,
    /// The two keys of a Datadog API source.
    pub keys: bool,
    /// The AWS configuration, for signed requests to OpenSearch.
    pub aws: bool,
}

/// Whether a kind is that of the OpenSearch source, which is also the default.
pub open spec fn is_index(kind: Seq<char>) -> bool {
    kind == "opensearch"@ || kind == ""@
}

/// What the configured source needs: other secrets are not to be resolved.
pub fn source_needs(cfg: &SourceConfig) -> (r: SourceNeeds)
    ensures
        r == (SourceNeeds {
            password: is_index(cfg.kind@),
            keys: cfg.kind@ == "datadog-api"@,
            aws: is_index(cfg.kind@) && text::opt_text(cfg.auth_type) == Some("aws-sigv4"@),
        }),
{
    let kind = cfg.kind.as_str();
    let index: bool = same_text(kind, "opensearch") || same_text(kind, "");
    SourceNeeds {
        password: index,
        keys: same_text(kind, "datadog-api"),
        aws: index && needs_aws(&cfg.auth_type),
    }
}

/// A source that is ready to be opened.
pub enum SourcePlan {
    File(FileSource),
    DatadogArchive(DatadogArchiveSource),
    DatadogApi(DatadogApiSource),
    OpenSearch(OpenSearchSource),
}

/// The codec setting that a `dd_compression` names.
pub open spec fn compression_of(name: Option<Seq<char>>) -> Option<Compression> {
    match name {
        None => Some(Compression::Fixed(Codec::Zstd)),
        Some(n) => if n == "zstd"@ {
            Some(Compression::Fixed(Codec::Zstd))
        } else if n == "gzip"@ {
            Some(Compression::Fixed(Codec::Gzip))
        } else if n == "auto"@ {
            Some(Compression::Auto)
        } else {
            None
        },
    }
}

/// `s`, or `other` where there is none.
pub open spec fn text_or(s: Option<String>, other: Seq<char>) -> Seq<char> {
    match s {
        Some(t) => t@,
        None => other,
    }
}

/// Reads a `dd_compression`.
pub fn read_compression(name: &Option<String>) -> (r: Result<Compression, String>)
    ensures
        match r {
            Ok(c) => compression_of(text::opt_text(*name)) == Some(c),
            Err(e) => compression_of(text::opt_text(*name)) is None && e@
                == "unknown dd_compression '"@ + text_or(*name, ""@)
                + "'. Use 'zstd', 'gzip', or 'auto'"@,
        },
{
    match name {
        None => Ok(Compression::Fixed(Codec::Zstd)),
        Some(n) => if same_text(n.as_str(), "zstd") {
            Ok(Compression::Fixed(Codec::Zstd))
        } else if same_text(n.as_str(), "gzip") {
            Ok(Compression::Fixed(Codec::Gzip))
        } else if same_text(n.as_str(), "auto") {
            Ok(Compression::Auto)
        } else {
            Err(
                text::join3(
                    "unknown dd_compression '",
                    n.as_str(),
                    "'. Use 'zstd', 'gzip', or 'auto'",
                ),
            )
        },
    }
}

/// A string, or another text where there is none.
fn or_text(s: &Option<String>, other: &str) -> (r: String)
    ensures
        r@ == text_or(*s, other@),
{
    match s {
        Some(t) => t.clone(),
        None => other.to_owned(),
    }
}

/// The words for a setting that is missing.
pub open spec fn missing(setting: Seq<char>, kind: Seq<char>) -> Seq<char> {
    "source."@ + setting + " is required for the "@ + kind + " source"@
}

/// The words for a setting that is missing.
fn missing_text(setting: &str, kind: &str) -> (r: String)
    ensures
        r@ == missing(setting@, kind@),
{
    let mut out = text::join4("source.", setting, " is required for the ", kind);
    text::append_text(&mut out, " source");
    out
}

/// The outcome of building a file source.
pub open spec fn file_built(r: Result<SourcePlan, String>, cfg: SourceConfig) -> bool {
    match cfg.path {
        Some(p) => r matches Ok(SourcePlan::File(s)) && s.path@ == p@,
        None => r matches Err(e) && e@ == missing("path"@, "file"@),
    }
}

/// Builds a file source.
fn build_file(cfg: &SourceConfig) -> (r: Result<SourcePlan, String>)
    ensures
        file_built(r, *cfg),
{
    match &cfg.path {
        Some(p) => match FileSource::new(p.as_str()) {
            Ok(s) => Ok(SourcePlan::File(s)),
            Err(e) => Err(e.message()),
        },
        None => Err(missing_text("path", "file")),
    }
}

/// The backend that a `dd_cloud` names.
pub open spec fn cloud_of(name: Option<String>) -> Option<CloudProvider> {
    archive::provider_of(text::ascii_lower_text(text::trim(text_or(name, ""@))))
}

/// Whether a planned source is the archive that a configuration describes.
pub open spec fn archive_matches(
    s: DatadogArchiveSource,
    cfg: SourceConfig,
    resume: Option<Vec<Json>>,
) -> bool {
    &&& cfg.dd_bucket matches Some(b) && s.bucket@ == b@
    &&& s.prefix@ == text_or(cfg.dd_prefix, ""@)
    &&& s.region == cfg.dd_region
    &&& s.from == cfg.dd_from
    &&& s.to == cfg.dd_to
    &&& compression_of(text::opt_text(cfg.dd_compression)) == Some(s.compression)
    &&& cloud_of(cfg.dd_cloud) == Some(s.cloud)
    &&& s.resume_after == resume
    &&& !s.state.opened
}

/// The outcome of building an archive source.
pub open spec fn archive_built(
    r: Result<SourcePlan, String>,
    cfg: SourceConfig,
    resume: Option<Vec<Json>>,
) -> bool {
    if cfg.dd_bucket is None {
        r matches Err(e) && e@ == missing("dd_bucket"@, "datadog-archive"@)
    } else if compression_of(text::opt_text(cfg.dd_compression)) is None {
        r matches Err(e) && e@ == "unknown dd_compression '"@ + text_or(cfg.dd_compression, ""@)
            + "'. Use 'zstd', 'gzip', or 'auto'"@
    } else if cloud_of(cfg.dd_cloud) is None {
        r matches Err(e) && e@ == "Source error: "@ + ("unknown dd_cloud '"@
            + text::ascii_lower_text(text::trim(text_or(cfg.dd_cloud, ""@)))
            + "'. Use 's3', 'gcs', or 'azure'"@)
    } else {
        r matches Ok(SourcePlan::DatadogArchive(s)) && archive_matches(s, cfg, resume)
    }
}

/// Builds a Datadog archive source.
fn build_archive(cfg: &SourceConfig, resume: Option<Vec<Json>>) -> (r: Result<SourcePlan, String>)
    ensures
        archive_built(r, *cfg, resume),
{
    let bucket: String = match &cfg.dd_bucket {
        Some(b) => b.clone(),
        None => {
            return Err(missing_text("dd_bucket", "datadog-archive"));
        },
    };
    let prefix = or_text(&cfg.dd_prefix, "");
    let compression: Compression = match read_compression(&cfg.dd_compression) {
        Ok(c) => c,
        Err(e) => {
            return Err(e);
        },
    };
    let cloud: CloudProvider = match CloudProvider::parse(or_text(&cfg.dd_cloud, "").as_str()) {
        Ok(c) => c,
        Err(e) => {
            return Err(e.message());
        },
    };
    match DatadogArchiveSource::new(
        bucket.as_str(),
        prefix.as_str(),
        text::clone_opt(&cfg.dd_region),
        text::clone_opt(&cfg.dd_from),
        text::clone_opt(&cfg.dd_to),
        compression,
        resume,
    ) {
        Ok(s) => Ok(SourcePlan::DatadogArchive(s.with_cloud(cloud))),
        Err(e) => Err(e.message()),
    }
}

/// Whether a planned source is the API that a configuration describes.
pub open spec fn api_matches(
    s: DatadogApiSource,
    cfg: SourceConfig,
    api_key: Seq<char>,
    app_key: Seq<char>,
    resume: Option<Vec<Json>>,
) -> bool {
    &&& s.site@ == text_or(cfg.dd_site, "datadoghq.com"@)
    &&& s.api_key@ == api_key
    &&& s.app_key@ == app_key
    &&& s.query@ == text_or(cfg.dd_query, ""@)
    &&& s.from == cfg.dd_from
    &&& s.to == cfg.dd_to
    &&& s.window_minutes == match cfg.dd_window_minutes {
        Some(m) => m,
        None => 60,
    }
    &&& s.resume_after == resume
    &&& s.base_url_override is None
}

/// A secret that must be there.
pub open spec fn needed(
    secret: Result<Option<String>, String>,
    setting: Seq<char>,
) -> Result<Seq<char>, Seq<char>> {
    match secret {
        Ok(Some(v)) => Ok(v@),
        Ok(None) => Err(missing(setting, "datadog-api"@)),
        Err(e) => Err(e@),
    }
}

/// Gives a secret that must be there.
fn need(secret: &Result<Option<String>, String>, setting: &str) -> (r: Result<String, String>)
    ensures
        match r {
            Ok(v) => needed(*secret, setting@) == Ok::<Seq<char>, Seq<char>>(v@),
            Err(e) => needed(*secret, setting@) == Err::<Seq<char>, Seq<char>>(e@),
        },
{
    match secret {
        Ok(Some(v)) => Ok(v.clone()),
        Ok(None) => Err(missing_text(setting, "datadog-api")),
        Err(e) => Err(e.clone()),
    }
}

/// The outcome of building an API source.
pub open spec fn api_built(
    r: Result<SourcePlan, String>,
    cfg: SourceConfig,
    secrets: SourceSecrets,
    resume: Option<Vec<Json>>,
) -> bool {
    match needed(secrets.dd_api_key, "dd_api_key"@) {
        Err(words) => r matches Err(e) && e@ == words,
        Ok(api_key) => match needed(secrets.dd_app_key, "dd_app_key"@) {
            Err(words) => r matches Err(e) && e@ == words,
            Ok(app_key) => r matches Ok(SourcePlan::DatadogApi(s)) && api_matches(
                s,
                cfg,
                api_key,
                app_key,
                resume,
            ),
        },
    }
}

/// Builds a Datadog API source.
fn build_api(cfg: &SourceConfig, secrets: &SourceSecrets, resume: Option<Vec<Json>>) -> (r: Result<
    SourcePlan,
    String,
>)
    ensures
        api_built(r, *cfg, *secrets, resume),
{
    let api_key: String = match need(&secrets.dd_api_key, "dd_api_key") {
        Ok(k) => k,
        Err(e) => {
            return Err(e);
        },
    };
    let app_key: String = match need(&secrets.dd_app_key, "dd_app_key") {
        Ok(k) => k,
        Err(e) => {
            return Err(e);
        },
    };
    let site = or_text(&cfg.dd_site, "datadoghq.com");
    let query = or_text(&cfg.dd_query, "");
    let minutes: u64 = match cfg.dd_window_minutes {
        Some(m) => m,
        None => 60,
    };
    match DatadogApiSource::new(
        site.as_str(),
        api_key.as_str(),
        app_key.as_str(),
        query.as_str(),
        text::clone_opt(&cfg.dd_from),
        text::clone_opt(&cfg.dd_to),
        minutes,
        resume,
    ) {
        Ok(s) => Ok(SourcePlan::DatadogApi(s)),
        Err(e) => Err(e.message()),
    }
}

/// Whether a planned source is the index that a configuration describes.
pub open spec fn index_matches(
    s: OpenSearchSource,
    cfg: SourceConfig,
    query: JsonView,
    auth: Auth,
    resume: Option<Vec<Json>>,
) -> bool {
    &&& s.base_url@ == cfg.url@
    &&& s.index@ == cfg.index@
    &&& s.query.view() == query
    &&& s.batch_size == cfg.batch_size
    &&& s.auth == auth
    &&& s.search_after == resume
    &&& s.slices == if cfg.slices >= 1 {
        cfg.slices
    } else {
        1
    }
    &&& s.pit_id is None
    &&& s.wf()
}

/// The outcome of building an OpenSearch source.
pub open spec fn index_built(
    r: Result<SourcePlan, String>,
    cfg: SourceConfig,
    password: Result<Option<String>, String>,
    aws: AwsLookup,
    resume: Option<Vec<Json>>,
) -> bool {
    if cfg.url@.len() == 0 || cfg.index@.len() == 0 {
        r matches Err(e) && e@
            == "source.url and source.index are required for the opensearch source"@
    } else {
        match json::parsed(cfg.query@) {
            Err(words) => r matches Err(e) && e@ == words,
            Ok(query) => match password {
                Err(words) => r matches Err(e) && e@ == words@,
                Ok(p) => match chosen_auth(text::opt_text(cfg.auth_type), cfg.username, p, aws) {
                    Err(words) => r matches Err(e) && e@ == words,
                    Ok(auth) => r matches Ok(SourcePlan::OpenSearch(s)) && index_matches(
                        s,
                        cfg,
                        query,
                        auth,
                        resume,
                    ),
                },
            },
        }
    }
}

/// Builds an OpenSearch source.
fn build_index(
    cfg: &SourceConfig,
    secrets: SourceSecrets,
    aws: AwsLookup,
    resume: Option<Vec<Json>>,
) -> (r: Result<SourcePlan, String>)
    ensures
        index_built(r, *cfg, secrets.password, aws, resume),
{
    if text::chars_of(cfg.url.as_str()).len() == 0 || text::chars_of(cfg.index.as_str()).len()
        == 0 {
        return Err(
            "source.url and source.index are required for the opensearch source".to_owned(),
        );
    }
    let query: Json = match json::parse(cfg.query.as_str()) {
        Ok(q) => q,
        Err(e) => {
            return Err(e);
        },
    };
    let password: Option<String> = match secrets.password {
        Ok(p) => p,
        Err(e) => {
            return Err(e);
        },
    };
    let auth: Auth = match resolve_auth(
        &cfg.auth_type,
        text::clone_opt(&cfg.username),
        password,
        aws,
    ) {
        Ok(a) => a,
        Err(e) => {
            return Err(e);
        },
    };
    match OpenSearchSource::new(
        cfg.url.as_str(),
        cfg.index.as_str(),
        query,
        cfg.batch_size,
        auth,
        resume,
    ) {
        Ok(s) => Ok(SourcePlan::OpenSearch(s.with_slices(cfg.slices))),
        Err(e) => Err(e.message()),
    }
}

/// Build the configured source, from what its secrets and the AWS configuration
/// turned out to be. A secret that is not used may have failed.
pub fn build_source(
    cfg: &SourceConfig,
    secrets: SourceSecrets,
    aws: AwsLookup,
    resume: Option<Vec<Json>>,
) -> (r: Result<SourcePlan, String>)
    ensures
        ({
            let kind = cfg.kind@;
            if kind == "file"@ {
                file_built(r, *cfg)
            } else if kind == "datadog-archive"@ {
                archive_built(r, *cfg, resume)
            } else if kind == "datadog-api"@ {
                api_built(r, *cfg, secrets, resume)
            } else if is_index(kind) {
                index_built(r, *cfg, secrets.password, aws, resume)
            } else {
                r matches Err(e) && e@ == "unknown source kind '"@ + kind + "'"@
            }
        }),
{
    let kind = cfg.kind.as_str();
    if same_text(kind, "file") {
        build_file(cfg)
    } else if same_text(kind, "datadog-archive") {
        build_archive(cfg, resume)
    } else if same_text(kind, "datadog-api") {
        build_api(cfg, &secrets, resume)
    } else if same_text(kind, "opensearch") || same_text(kind, "") {
        build_index(cfg, secrets, aws, resume)
    } else {
        Err(text::join3("unknown source kind '", kind, "'"))
    }
}

// ---------------------------------------------------------------------------
// Destinations
// ---------------------------------------------------------------------------

/// A destination that is ready to be written to.
pub enum DestPlan {
    Stdout,
    File(FileDestination),
    S3(S3Destination),
    OpenObserve(OpenObserveDestination),
}

/// Whether a planned destination is the given OpenObserve server.
pub open spec fn sink_matches(
    d: OpenObserveDestination,
    url: Seq<char>,
    org: Seq<char>,
    stream: Seq<char>,
    username: Seq<char>,
    password: Seq<char>,
) -> bool {
    &&& d.bulk_url@ == url + "/api/"@ + org + "/_bulk"@
    &&& d.stream@ == stream
    &&& d.username@ == username
    &&& d.password@ == password
}

/// Build the configured destination, from what its password and token turned out
/// to be.
pub fn build_destination(
    cfg: DestConfig,
    password: Result<String, String>,
    token: Result<Option<String>, String>,
) -> (r: Result<DestPlan, String>)
    ensures
        match cfg {
            DestConfig::Stdout => r matches Ok(DestPlan::Stdout),
            DestConfig::File { path } => r matches Ok(DestPlan::File(d)) && d.path@ == path@,
            DestConfig::S3 { bucket, prefix, region } => {
                &&& r matches Ok(DestPlan::S3(d))
                &&& d.bucket@ == bucket@
                &&& d.prefix@ == prefix@
                &&& d.region == region
                &&& d.seq == 0
            },
            DestConfig::OpenObserve { url, org, stream, username, password: _, options } => match (
                password,
                token,
            ) {
                (Err(words), _) => r matches Err(e) && e@ == words@,
                (_, Err(words)) => r matches Err(e) && e@ == words@,
                (Ok(p), Ok(t)) => {
                    &&& r matches Ok(DestPlan::OpenObserve(d))
                    &&& sink_matches(d, url@, org@, stream@, username@, p@)
                    &&& d.options == (OpenObserveOptions { token: t, ..*options })
                },
            },
        },
{
    match cfg {
        DestConfig::Stdout => Ok(DestPlan::Stdout),
        DestConfig::File { path } => match FileDestination::new(path.as_str()) {
            Ok(d) => Ok(DestPlan::File(d)),
            Err(e) => Err(e.message()),
        },
        DestConfig::S3 { bucket, prefix, region } => match S3Destination::new(
            bucket.as_str(),
            prefix.as_str(),
            region,
        ) {
            Ok(d) => Ok(DestPlan::S3(d)),
            Err(e) => Err(e.message()),
        },
        DestConfig::OpenObserve { url, org, stream, username, password: _, options } => {
            let secret: String = match password {
                Ok(p) => p,
                Err(e) => {
                    return Err(e);
                },
            };
            let token: Option<String> = match token {
                Ok(t) => t,
                Err(e) => {
                    return Err(e);
                },
            };
            let options = OpenObserveOptions { token, ..*options };
            match OpenObserveDestination::new(
                url.as_str(),
                org.as_str(),
                stream.as_str(),
                username.as_str(),
                secret.as_str(),
                options,
            ) {
                Ok(d) => Ok(DestPlan::OpenObserve(d)),
                Err(e) => Err(e.message()),
            }
        },
    }
}

/// The destination flags of a quick extraction.
pub struct DestFlags {
    pub dest: String,
    pub url: Option<String>,
    pub org: String,
    pub stream: Option<String>,
    pub username: Option<String>,
    /// The password as it was given, before it is resolved.
    pub password: Option<String>,
}

/// The outcome of picking the destination of a quick extraction.
pub open spec fn flags_outcome(
    r: Result<DestPlan, String>,
    flags: DestFlags,
    password: Result<String, String>,
) -> bool {
    let dest = flags.dest@;
    if dest == "stdout"@ {
        r matches Ok(DestPlan::Stdout)
    } else if dest == "openobserve"@ || dest == "oo"@ {
        if flags.url is None {
            r matches Err(e) && e@ == "--dest-url required for openobserve"@
        } else if flags.stream is None {
            r matches Err(e) && e@ == "--dest-stream required for openobserve"@
        } else if flags.username is None {
            r matches Err(e) && e@ == "--dest-username required for openobserve"@
        } else if flags.password is None {
            r matches Err(e) && e@ == "--dest-password required for openobserve"@
        } else {
            match password {
                Err(words) => r matches Err(e) && e@ == words@,
                Ok(p) => r matches Ok(DestPlan::OpenObserve(d)) && sink_matches(
                    d,
                    flags.url->0@,
                    flags.org@,
                    flags.stream->0@,
                    flags.username->0@,
                    p@,
                ) && config::plain(d.options),
            }
        }
    } else {
        r matches Err(e) && e@ == "Unknown destination '"@ + dest
            + "'. Use 'stdout' or 'openobserve'"@
    }
}

/// Picks the destination of a quick extraction, from what its password turned
/// out to be.
pub fn extract_destination(flags: DestFlags, password: Result<String, String>) -> (r: Result<
    DestPlan,
    String,
>)
    ensures
        flags_outcome(r, flags, password),
{
    let dest = flags.dest.as_str();
    if same_text(dest, "stdout") {
        return Ok(DestPlan::Stdout);
    }
    if !(same_text(dest, "openobserve") || same_text(dest, "oo")) {
        return Err(
            text::join3("Unknown destination '", dest, "'. Use 'stdout' or 'openobserve'"),
        );
    }
    let url: String = match flags.url {
        Some(u) => u,
        None => {
            return Err("--dest-url required for openobserve".to_owned());
        },
    };
    let stream: String = match flags.stream {
        Some(s) => s,
        None => {
            return Err("--dest-stream required for openobserve".to_owned());
        },
    };
    let username: String = match flags.username {
        Some(u) => u,
        None => {
            return Err("--dest-username required for openobserve".to_owned());
        },
    };
    if flags.password.is_none() {
        return Err("--dest-password required for openobserve".to_owned());
    }
    let secret: String = match password {
        Ok(p) => p,
        Err(e) => {
            return Err(e);
        },
    };
    match OpenObserveDestination::new(
        url.as_str(),
        flags.org.as_str(),
        stream.as_str(),
        username.as_str(),
        secret.as_str(),
        OpenObserveOptions::default(),
    ) {
        Ok(d) => Ok(DestPlan::OpenObserve(d)),
        Err(e) => Err(e.message()),
    }
}

// ---------------------------------------------------------------------------
// Laws
// ---------------------------------------------------------------------------

proof fn auth_types_apart()
    ensures
        "aws-sigv4"@.len() == 9,
        "basic"@.len() == 5,
        "none"@.len() == 4,
{
    reveal_strlit("aws-sigv4");
    reveal_strlit("basic");
    reveal_strlit("none");
}

/// Without a type a username asks for basic authentication, and none for none.
pub proof fn usernames_decide_without_a_type(
    username: Option<String>,
    password: Option<String>,
    aws: AwsLookup,
)
    ensures
        username is Some ==> chosen_auth(None, username, password, aws) == chosen_auth(
            Some("basic"@),
            username,
            password,
            aws,
        ),
        username is None ==> chosen_auth(None, username, password, aws) == chosen_auth(
            Some("none"@),
            username,
            password,
            aws,
        ),
{
    auth_types_apart();
}

/// Basic authentication takes the username and the password as they are, and is
/// impossible without a username. Signed requests need a provider and a region, and
/// are signed for that region. Anonymous requests need nothing.
pub proof fn credentials_are_used_as_given(
    username: Option<String>,
    password: Option<String>,
    aws: AwsLookup,
)
    ensures
        chosen_auth(Some("none"@), username, password, aws) == Ok::<Auth, Seq<char>>(
            Auth::Anonymous,
        ),
        username matches Some(u) ==> chosen_auth(Some("basic"@), username, password, aws) == Ok::<
            Auth,
            Seq<char>,
        >(Auth::Basic { username: u, password }),
        username is None ==> chosen_auth(Some("basic"@), username, password, aws) == Err::<
            Auth,
            Seq<char>,
        >("Username is required for basic auth"@),
        aws.provider ==> (aws.region matches Some(region) ==> chosen_auth(
            Some("aws-sigv4"@),
            username,
            password,
            aws,
        ) == Ok::<Auth, Seq<char>>(Auth::AwsSigV4 { region })),
        !aws.provider || aws.region is None ==> chosen_auth(
            Some("aws-sigv4"@),
            username,
            password,
            aws,
        ) is Err,
{
    auth_types_apart();
}

/// Of the types of authentication there are three; another one is told.
pub proof fn other_auth_types_are_refused(
    t: Seq<char>,
    username: Option<String>,
    password: Option<String>,
    aws: AwsLookup,
)
    requires
        t != "basic"@,
        t != "aws-sigv4"@,
        t != "none"@,
    ensures
        chosen_auth(Some(t), username, password, aws) == Err::<Auth, Seq<char>>(
            "Unsupported source-auth-type '"@ + t + "'. Use 'basic', 'aws-sigv4', or 'none'."@,
        ),
{
}

/// Signing fails for want of a provider before it fails for want of a region.
pub proof fn what_signing_wants_is_told(
    username: Option<String>,
    password: Option<String>,
    region: Option<String>,
)
    ensures
        chosen_auth(
            Some("aws-sigv4"@),
            username,
            password,
            (AwsLookup { provider: false, region }),
        ) == Err::<Auth, Seq<char>>(
            "No AWS credentials provider found. Please verify your environment variables or ~/.aws/credentials."@,
        ),
        chosen_auth(
            Some("aws-sigv4"@),
            username,
            password,
            (AwsLookup { provider: true, region: None }),
        ) == Err::<Auth, Seq<char>>(
            "AWS region is required for aws-sigv4. Specify it via --source-aws-region, config file, or AWS_REGION environment variable."@,
        ),
{
}

/// Each codec setting has one name, and zstd is the default.
pub proof fn codec_settings_have_one_name(name: Seq<char>)
    ensures
        compression_of(None) == Some(Compression::Fixed(Codec::Zstd)),
        compression_of(Some(name)) == Some(Compression::Fixed(Codec::Zstd)) <==> name == "zstd"@,
        compression_of(Some(name)) == Some(Compression::Fixed(Codec::Gzip)) <==> name == "gzip"@,
        compression_of(Some(name)) == Some(Compression::Auto) <==> name == "auto"@,
{
    reveal_strlit("zstd");
    reveal_strlit("gzip");
    reveal_strlit("auto");
    assert("zstd"@[0] == 'z' && "gzip"@[0] == 'g' && "auto"@[0] == 'a');
}

/// A backend is named in any case and with white space around it; without a name,
/// and for a blank one, it is S3.
pub proof fn backends_are_named_in_any_case(name: String)
    ensures
        cloud_of(None) == Some(CloudProvider::S3),
        ({
            let low = text::ascii_lower_text(text::trim(name@));
            &&& cloud_of(Some(name)) == Some(CloudProvider::S3) <==> low == "s3"@ || low.len() == 0
            &&& cloud_of(Some(name)) == Some(CloudProvider::Gcs) <==> low == "gcs"@
            &&& cloud_of(Some(name)) == Some(CloudProvider::Azure) <==> low == "azure"@
        }),
{
    let low = text::ascii_lower_text(text::trim(name@));
    archive::backends_have_one_name(low);
    let none = text::ascii_lower_text(text::trim(""@));
    reveal_strlit("");
    assert(none.len() == 0);
    archive::backends_have_one_name(none);
}

/// A setting that is there is used as it is, and the default only where it is not.
pub proof fn defaults_stand_in(s: String, other: Seq<char>)
    ensures
        text_or(Some(s), other) == s@,
        text_or(None, other) == other,
{
}

/// A file source reads the configured path, and there is none without one.
pub proof fn files_need_a_path(r: Result<SourcePlan, String>, cfg: SourceConfig)
    requires
        file_built(r, cfg),
    ensures
        r is Ok <==> cfg.path is Some,
        r matches Ok(plan) ==> (plan matches SourcePlan::File(s) && s.path@ == cfg.path->0@),
        r matches Err(e) ==> e@ == "source."@ + "path"@ + " is required for the "@ + "file"@
            + " source"@,
{
}

/// An archive source is built exactly if a bucket is given and the codec and the
/// backend have names that are known, and carries every setting.
pub proof fn archives_carry_their_settings(
    r: Result<SourcePlan, String>,
    cfg: SourceConfig,
    resume: Option<Vec<Json>>,
)
    requires
        archive_built(r, cfg, resume),
    ensures
        r is Ok <==> cfg.dd_bucket is Some && compression_of(text::opt_text(cfg.dd_compression)) is Some
            && cloud_of(cfg.dd_cloud) is Some,
        r matches Ok(plan) ==> (plan matches SourcePlan::DatadogArchive(s) && {
            &&& s.bucket@ == cfg.dd_bucket->0@
            &&& cfg.dd_prefix matches Some(p) ==> s.prefix@ == p@
            &&& cfg.dd_prefix is None ==> s.prefix@ == ""@
            &&& s.region == cfg.dd_region
            &&& s.from == cfg.dd_from
            &&& s.to == cfg.dd_to
            &&& Some(s.compression) == compression_of(text::opt_text(cfg.dd_compression))
            &&& Some(s.cloud) == cloud_of(cfg.dd_cloud)
            &&& s.resume_after == resume
            &&& !s.state.opened
        }),
        cfg.dd_bucket is None ==> (r matches Err(e) && e@ == "source."@ + "dd_bucket"@
            + " is required for the "@ + "datadog-archive"@ + " source"@),
        cfg.dd_bucket is Some && compression_of(text::opt_text(cfg.dd_compression)) is None ==> (
        r matches Err(e) && e@ == "unknown dd_compression '"@ + cfg.dd_compression->0@
            + "'. Use 'zstd', 'gzip', or 'auto'"@),
{
}

/// An API source is built exactly if both keys are there, and carries every
/// setting.
pub proof fn api_sources_carry_their_settings(
    r: Result<SourcePlan, String>,
    cfg: SourceConfig,
    secrets: SourceSecrets,
    resume: Option<Vec<Json>>,
)
    requires
        api_built(r, cfg, secrets, resume),
    ensures
        r is Ok <==> (secrets.dd_api_key matches Ok(Some(_))) && (secrets.dd_app_key matches Ok(
            Some(_),
        )),
        r matches Ok(plan) ==> (plan matches SourcePlan::DatadogApi(s) && {
            &&& secrets.dd_api_key matches Ok(Some(k)) && s.api_key@ == k@
            &&& secrets.dd_app_key matches Ok(Some(k)) && s.app_key@ == k@
            &&& cfg.dd_site matches Some(t) ==> s.site@ == t@
            &&& cfg.dd_site is None ==> s.site@ == "datadoghq.com"@
            &&& cfg.dd_query matches Some(q) ==> s.query@ == q@
            &&& cfg.dd_query is None ==> s.query@ == ""@
            &&& s.from == cfg.dd_from
            &&& s.to == cfg.dd_to
            &&& cfg.dd_window_minutes matches Some(m) ==> s.window_minutes == m
            &&& cfg.dd_window_minutes is None ==> s.window_minutes == 60
            &&& s.resume_after == resume
            &&& s.base_url_override is None
        }),
        secrets.dd_api_key matches Err(words) ==> (r matches Err(e) && e@ == words@),
        secrets.dd_api_key matches Ok(None) ==> (r matches Err(e) && e@ == "source."@ + "dd_api_key"@
            + " is required for the "@ + "datadog-api"@ + " source"@),
        (secrets.dd_api_key matches Ok(Some(_))) && (secrets.dd_app_key matches Ok(None)) ==> (
        r matches Err(e) && e@ == "source."@ + "dd_app_key"@ + " is required for the "@
            + "datadog-api"@ + " source"@),
{
}

/// An OpenSearch source is built exactly if its URL and its index are given, its
/// query is JSON, its password could be resolved and it can authenticate. It then
/// carries every setting, with one slice at least.
pub proof fn index_sources_carry_their_settings(
    r: Result<SourcePlan, String>,
    cfg: SourceConfig,
    password: Result<Option<String>, String>,
    aws: AwsLookup,
    resume: Option<Vec<Json>>,
)
    requires
        index_built(r, cfg, password, aws, resume),
    ensures
        r is Ok <==> cfg.url@.len() > 0 && cfg.index@.len() > 0 && json::parsed(cfg.query@) is Ok
            && password is Ok && chosen_auth(
            text::opt_text(cfg.auth_type),
            cfg.username,
            password->Ok_0,
            aws,
        ) is Ok,
        r matches Ok(plan) ==> (plan matches SourcePlan::OpenSearch(s) && {
            &&& s.base_url@ == cfg.url@
            &&& s.index@ == cfg.index@
            &&& json::parsed(cfg.query@) == Ok::<JsonView, Seq<char>>(s.query.view())
            &&& s.batch_size == cfg.batch_size
            &&& chosen_auth(
                text::opt_text(cfg.auth_type),
                cfg.username,
                password->Ok_0,
                aws,
            ) == Ok::<Auth, Seq<char>>(s.auth)
            &&& s.search_after == resume
            &&& s.slices >= 1
            &&& cfg.slices >= 1 ==> s.slices == cfg.slices
            &&& cfg.slices == 0 ==> s.slices == 1
            &&& s.pit_id is None
        }),
{
}

/// The OpenSearch source is the default, and has no other name.
pub proof fn the_default_source_is_opensearch(kind: Seq<char>)
    ensures
        is_index(kind) <==> kind == "opensearch"@ || kind.len() == 0,
{
    reveal_strlit("");
    if kind.len() == 0 {
        assert(kind =~= ""@);
    }
}

/// A planned server is written to under its own organization, stream and
/// credentials.
pub proof fn servers_are_written_to_as_given(
    d: OpenObserveDestination,
    url: Seq<char>,
    org: Seq<char>,
    stream: Seq<char>,
    username: Seq<char>,
    password: Seq<char>,
)
    requires
        sink_matches(d, url, org, stream, username, password),
    ensures
        d.bulk_url@ == url + "/api/"@ + org + "/_bulk"@,
        d.stream@ == stream,
        d.username@ == username,
        d.password@ == password,
{
}

/// A quick extraction goes to the standard output or to a server, and to a server
/// only with a URL, a stream, a username and a password that could be resolved.
pub proof fn flags_name_the_destination(
    r: Result<DestPlan, String>,
    flags: DestFlags,
    password: Result<String, String>,
)
    requires
        flags_outcome(r, flags, password),
    ensures
        (r matches Ok(DestPlan::Stdout)) <==> flags.dest@ == "stdout"@,
        (r matches Ok(DestPlan::OpenObserve(_))) <==> (flags.dest@ == "openobserve"@ || flags.dest@
            == "oo"@) && flags.url is Some && flags.stream is Some && flags.username is Some
            && flags.password is Some && password is Ok,
        r matches Ok(DestPlan::OpenObserve(d)) ==> {
            &&& d.bulk_url@ == flags.url->0@ + "/api/"@ + flags.org@ + "/_bulk"@
            &&& d.stream@ == flags.stream->0@
            &&& d.username@ == flags.username->0@
            &&& d.password@ == password->Ok_0@
            &&& config::plain(d.options)
        },
        r matches Ok(plan) ==> plan is Stdout || plan is OpenObserve,
{
    reveal_strlit("stdout");
    reveal_strlit("openobserve");
    reveal_strlit("oo");
    assert("stdout"@.len() == 6 && "openobserve"@.len() == 11 && "oo"@.len() == 2);
}

/// What is missing of a server is told, the first thing first, and so is a
/// destination of another name.
pub proof fn missing_flags_are_told(
    r: Result<DestPlan, String>,
    flags: DestFlags,
    password: Result<String, String>,
)
    requires
        flags_outcome(r, flags, password),
    ensures
        flags.dest@ == "openobserve"@ || flags.dest@ == "oo"@ ==> {
            &&& flags.url is None ==> (r matches Err(e) && e@
                == "--dest-url required for openobserve"@)
            &&& flags.url is Some && flags.stream is None ==> (r matches Err(e) && e@
                == "--dest-stream required for openobserve"@)
            &&& flags.url is Some && flags.stream is Some && flags.username is None ==> (
            r matches Err(e) && e@ == "--dest-username required for openobserve"@)
            &&& flags.url is Some && flags.stream is Some && flags.username is Some
                && flags.password is None ==> (r matches Err(e) && e@
                == "--dest-password required for openobserve"@)
        },
        flags.dest@ != "stdout"@ && flags.dest@ != "openobserve"@ && flags.dest@ != "oo"@ ==> (
        r matches Err(e) && e@ == "Unknown destination '"@ + flags.dest@
            + "'. Use 'stdout' or 'openobserve'"@),
{
    reveal_strlit("stdout");
    reveal_strlit("openobserve");
    reveal_strlit("oo");
    assert("stdout"@.len() == 6 && "openobserve"@.len() == 11 && "oo"@.len() == 2);
}

/// The region that is configured is asked for before that of the environment, and
/// of those the one of `AWS_REGION` first. There is none only where none is given.
pub proof fn regions_have_their_order(
    configured: Option<String>,
    own: Option<String>,
    fallback: Option<String>,
    r: Option<String>,
)
    requires
        call_ensures(preferred_region, (configured, own, fallback), r),
    ensures
        configured is Some ==> r == configured,
        configured is None && own is Some ==> r == own,
        configured is None && own is None ==> r == fallback,
{
}

/// Only what the configured source uses is resolved: a password for OpenSearch, the
/// two keys for the Datadog API, the AWS configuration for signed requests to
/// OpenSearch, and for the other sources nothing.
pub proof fn nothing_is_resolved_in_vain(cfg: SourceConfig, r: SourceNeeds)
    requires
        call_ensures(source_needs, (&cfg,), r),
    ensures
        r.password <==> cfg.kind@ == "opensearch"@ || cfg.kind@.len() == 0,
        r.keys <==> cfg.kind@ == "datadog-api"@,
        r.aws ==> r.password,
        r.password ==> (r.aws <==> text::opt_text(cfg.auth_type) == Some("aws-sigv4"@)),
{
    the_default_source_is_opensearch(cfg.kind@);
}

/// The kind of a source that is built is the kind that is configured.
pub proof fn sources_are_of_their_kind(
    cfg: SourceConfig,
    secrets: SourceSecrets,
    aws: AwsLookup,
    resume: Option<Vec<Json>>,
    r: Result<SourcePlan, String>,
)
    requires
        call_ensures(build_source, (&cfg, secrets, aws, resume), r),
    ensures
        r matches Ok(plan) ==> {
            &&& plan is File <==> cfg.kind@ == "file"@
            &&& plan is DatadogArchive <==> cfg.kind@ == "datadog-archive"@
            &&& plan is DatadogApi <==> cfg.kind@ == "datadog-api"@
            &&& plan is OpenSearch <==> cfg.kind@ == "opensearch"@ || cfg.kind@.len() == 0
        },
        cfg.kind@ == "file"@ ==> file_built(r, cfg),
        cfg.kind@ == "datadog-archive"@ ==> archive_built(r, cfg, resume),
        cfg.kind@ == "datadog-api"@ ==> api_built(r, cfg, secrets, resume),
        cfg.kind@ == "opensearch"@ ==> index_built(r, cfg, secrets.password, aws, resume),
        cfg.kind@.len() > 0 && cfg.kind@ != "file"@ && cfg.kind@ != "datadog-archive"@ && cfg.kind@
            != "datadog-api"@ && cfg.kind@ != "opensearch"@ ==> (r matches Err(e) && e@
            == "unknown source kind '"@ + cfg.kind@ + "'"@),
{
    the_default_source_is_opensearch(cfg.kind@);
    reveal_strlit("file");
    reveal_strlit("datadog-archive");
    reveal_strlit("datadog-api");
    reveal_strlit("opensearch");
    assert("file"@.len() == 4 && "datadog-archive"@.len() == 15 && "datadog-api"@.len() == 11
        && "opensearch"@.len() == 10);
}

/// A destination is built from its own configuration, with the secrets as they were
/// resolved. Only a server needs them, and a secret that could not be resolved is
/// told.
pub proof fn destinations_are_of_their_kind(
    cfg: DestConfig,
    password: Result<String, String>,
    token: Result<Option<String>, String>,
    r: Result<DestPlan, String>,
)
    requires
        call_ensures(build_destination, (cfg, password, token), r),
    ensures
        r matches Ok(plan) ==> {
            &&& plan is Stdout <==> cfg is Stdout
            &&& plan is File <==> cfg is File
            &&& plan is S3 <==> cfg is S3
            &&& plan is OpenObserve <==> cfg is OpenObserve
        },
        r is Ok <==> !(cfg is OpenObserve) || (password is Ok && token is Ok),
        r matches Err(e) ==> (match password {
            Err(words) => e@ == words@,
            Ok(_) => token matches Err(words) && e@ == words@,
        }),
        r matches Ok(DestPlan::OpenObserve(d)) ==> (cfg matches DestConfig::OpenObserve {
            url,
            org,
            stream,
            username,
            password: _,
            options,
        } && {
            &&& d.bulk_url@ == url@ + "/api/"@ + org@ + "/_bulk"@
            &&& d.stream@ == stream@
            &&& d.username@ == username@
            &&& d.password@ == password->Ok_0@
            &&& d.options.token == token->Ok_0
            &&& d.options.compression == options.compression
            &&& d.options.max_batch_bytes == options.max_batch_bytes
            &&& d.options.timestamp_field == options.timestamp_field
            &&& d.options.dead_letter_path == options.dead_letter_path
        }),
        r matches Ok(DestPlan::File(d)) ==> (cfg matches DestConfig::File { path } && d.path@
            == path@),
        r matches Ok(DestPlan::S3(d)) ==> (cfg matches DestConfig::S3 { bucket, prefix, region }
            && d.bucket@ == bucket@ && d.prefix@ == prefix@ && d.region == region && d.seq == 0),
{
}

} // verus!

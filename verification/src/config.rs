//! Configuration.

use crate::dest::openobserve::config::OpenObserveOptions;
use crate::transform::Transform;
use vstd::prelude::*;

verus! {

/// Where documents come from.
#[derive(Debug, Clone)]
pub struct SourceConfig {
    /// Source kind: "opensearch" (default), "file", "datadog-archive" or
    /// "datadog-api".
    pub kind: String,
    /// Base URL of the OpenSearch / Elasticsearch cluster (opensearch kind).
    pub url: String,
    /// Index name or pattern, e.g. "nginx-logs-*" (opensearch kind).
    pub index: String,
    /// Path to an NDJSON file (file kind).
    pub path: Option<String>,
    /// Optional basic auth
    pub username: Option<String>,
    pub password: Option<String>,
    /// Optional authentication type: basic or aws-sigv4
    pub auth_type: Option<String>,
    /// Optional AWS region for Signature Version 4 signing
    pub aws_region: Option<String>,
    /// Query DSL as a JSON string. Default: match_all.
    pub query: String,
    /// Documents per batch
    pub batch_size: usize,
    /// Parallel extraction slices (sliced PIT). 1 = single slice.
    pub slices: usize,
    /// Bucket, or Azure container, of a Datadog archive.
    pub dd_bucket: Option<String>,
    /// Key prefix within the bucket.
    pub dd_prefix: Option<String>,
    /// AWS region of the bucket.
    pub dd_region: Option<String>,
    /// Codec of the archive: "zstd" (default), "gzip" or "auto".
    pub dd_compression: Option<String>,
    /// Object storage of the archive: "s3" (default), "gcs" or "azure".
    pub dd_cloud: Option<String>,
    /// Datadog regional site.
    pub dd_site: Option<String>,
    /// Datadog API key.
    pub dd_api_key: Option<String>,
    /// Datadog Application key.
    pub dd_app_key: Option<String>,
    /// Datadog log search query. Default: all logs.
    pub dd_query: Option<String>,
    /// Start of the time range.
    pub dd_from: Option<String>,
    /// End of the time range.
    pub dd_to: Option<String>,
    /// Size of each time-window chunk in minutes.
    pub dd_window_minutes: Option<u64>,
}

/// Where documents go.
#[derive(Debug, Clone)]
pub enum DestConfig {
    OpenObserve {
        url: String,
        org: String,
        stream: String,
        username: String,
        password: String,
        options: Box<OpenObserveOptions>,
    },
    /// Newline-delimited JSON to a local file.
    File { path: String },
    /// Objects written to an S3-compatible bucket.
    S3 { bucket: String, prefix: String, region: Option<String> },
    Stdout,
}

/// One extraction.
#[derive(Debug, Clone)]
pub struct EsiftConfig {
    pub source: SourceConfig,
    pub destination: DestConfig,
    pub checkpoint_path: String,
    /// Document transforms applied between source and destination.
    pub transforms: Vec<Transform>,
    /// Optional address (e.g. "127.0.0.1:9090") to serve Prometheus metrics on.
    pub metrics_addr: Option<String>,
}

/// The source kind where none is given.
pub fn default_source_kind() -> (r: String)
    ensures
        r@ == "opensearch"@,
{
    "opensearch".to_owned()
}

/// The number of slices where none is given.
pub fn default_slices() -> (r: usize)
    ensures
        r == 1,
{
    1
}

/// The query where none is given.
pub fn default_query() -> (r: String)
    ensures
        r@ == "{\"match_all\": {}}"@,
{
    "{\"match_all\": {}}".to_owned()
}

/// The batch size where none is given.
pub fn default_batch_size() -> (r: usize)
    ensures
        r == 500,
{
    500
}

/// The checkpoint file where none is given.
pub fn default_checkpoint_path() -> (r: String)
    ensures
        r@ == "./esift-checkpoint.json"@,
{
    "./esift-checkpoint.json".to_owned()
}

} // verus!

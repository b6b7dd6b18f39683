//! Tunable options for the OpenObserve sink.
//!
//! The default is the plain behavior: no compression, one serial request per
//! batch, basic auth, default TLS, fixed stream, no dead-letter, no retries.
//!
//! Four of the options are read and carried, but the sink does not act on them
//! yet: `max_in_flight`, `tls`, `stream_field` and `retry`. Whatever they say,
//! requests go out serially, over a default client, to the configured stream,
//! and each is sent once.

use crate::http::retry::RetryPolicy;
use vstd::prelude::*;

verus! {

/// Options of the sink.
#[derive(Debug, Clone)]
pub struct OpenObserveOptions {
    /// Request body compression.
    pub compression: Compression,
    /// Cap each `_bulk` request body to this many bytes. None = one request
    /// per batch.
    pub max_batch_bytes: Option<usize>,
    /// Max concurrent in-flight bulk requests. 0 or 1 means serial. Not acted on
    /// yet: requests always go out one after the other.
    pub max_in_flight: usize,
    /// Token auth value; when set, used instead of basic auth.
    pub token: Option<String>,
    /// TLS client options. Not acted on yet: the client trusts the system's
    /// certificates and verifies.
    pub tls: TlsOptions,
    /// Document field whose value selects the stream. None = fixed stream. Not
    /// acted on yet: every document goes to the configured stream.
    pub stream_field: Option<String>,
    /// Document field copied into `_timestamp`.
    pub timestamp_field: Option<String>,
    /// Write rejected docs here as NDJSON. None = drop after logging.
    pub dead_letter_path: Option<String>,
    /// Retry policy for transient failures. Not acted on yet: a request is sent
    /// once.
    pub retry: RetryPolicy,
}

/// Whether options are the default ones.
pub open spec fn plain(o: OpenObserveOptions) -> bool {
    &&& o.compression == Compression::Plain
    &&& o.max_batch_bytes is None
    &&& o.max_in_flight == 0
    &&& o.token is None
    &&& o.tls == (TlsOptions { ca_cert: None, client_cert: None, client_key: None, insecure: false })
    &&& o.stream_field is None
    &&& o.timestamp_field is None
    &&& o.dead_letter_path is None
    &&& o.retry == (RetryPolicy { max_retries: 0, base_backoff_ms: 200, max_backoff_ms: 5000 })
}

impl Default for OpenObserveOptions {
    fn default() -> (r: OpenObserveOptions)
        ensures
            plain(r),
    {
        OpenObserveOptions {
            compression: Compression::Plain,
            max_batch_bytes: None,
            max_in_flight: 0,
            token: None,
            tls: TlsOptions { ca_cert: None, client_cert: None, client_key: None, insecure: false },
            stream_field: None,
            timestamp_field: None,
            dead_letter_path: None,
            retry: RetryPolicy::default(),
        }
    }
}

/// Compression of request bodies.
#[derive(Debug, Clone, Copy, PartialEq, Eq, Structural)]
pub enum Compression {
    /// Sent as they are.
    Plain,
    Gzip,
}

/// TLS client options. They are carried, and not acted on yet.
#[derive(Debug, Clone)]
pub struct TlsOptions {
    /// Additional CA certificate to trust (PEM).
    pub ca_cert: Option<String>,
    /// Client certificate for mTLS (PEM).
    pub client_cert: Option<String>,
    /// Client private key for mTLS (PEM).
    pub client_key: Option<String>,
    /// Disable TLS verification. Dangerous; testing only.
    pub insecure: bool,
}

/// The default options change nothing about what is sent: nothing is compressed,
/// capped, stamped, routed by a field, authenticated by a token, retried or kept
/// aside.
pub proof fn defaults_are_plain(o: OpenObserveOptions)
    requires
        plain(o),
    ensures
        o.compression is Plain,
        o.max_batch_bytes is None,
        o.max_in_flight <= 1,
        o.token is None,
        o.tls.ca_cert is None,
        o.tls.client_cert is None,
        o.tls.client_key is None,
        !o.tls.insecure,
        o.stream_field is None,
        o.timestamp_field is None,
        o.dead_letter_path is None,
        o.retry.max_retries == 0,
        o.retry.base_backoff_ms <= o.retry.max_backoff_ms,
{
}

} // verus!

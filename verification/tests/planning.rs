use esift::config::{
    default_batch_size, default_checkpoint_path, default_query, default_slices,
    default_source_kind, DestConfig, SourceConfig,
};
use esift::dest::openobserve::config::OpenObserveOptions;
use esift::http::retry::RetryPolicy;
use esift::plan::{
    build_destination, build_source, extract_destination, needs_aws, preferred_region,
    read_compression, resolve_auth, source_needs, AwsLookup, DestFlags, DestPlan, SourceNeeds,
    SourcePlan, SourceSecrets,
};
use esift::source::datadog::archive::{CloudProvider, Compression};
use esift::source::datadog::decompress::Codec;
use esift::source::opensearch::Auth;

fn some(s: &str) -> Option<String> {
    Some(s.to_string())
}

fn config(kind: &str) -> SourceConfig {
    SourceConfig {
        kind: kind.to_string(),
        url: String::new(),
        index: String::new(),
        path: None,
        username: None,
        password: None,
        auth_type: None,
        aws_region: None,
        query: default_query(),
        batch_size: default_batch_size(),
        slices: default_slices(),
        dd_bucket: None,
        dd_prefix: None,
        dd_region: None,
        dd_compression: None,
        dd_cloud: None,
        dd_site: None,
        dd_api_key: None,
        dd_app_key: None,
        dd_query: None,
        dd_from: None,
        dd_to: None,
        dd_window_minutes: None,
    }
}

fn secrets() -> SourceSecrets {
    SourceSecrets {
        password: Ok(None),
        dd_api_key: Ok(None),
        dd_app_key: Ok(None),
    }
}

fn no_aws() -> AwsLookup {
    AwsLookup {
        provider: false,
        region: None,
    }
}

fn build(cfg: &SourceConfig, secrets: SourceSecrets) -> Result<SourcePlan, String> {
    build_source(cfg, secrets, no_aws(), None)
}

#[test]
fn defaults_are_filled_in() {
    assert_eq!(default_source_kind(), "opensearch");
    assert_eq!(default_query(), r#"{"match_all": {}}"#);
    assert_eq!(default_batch_size(), 500);
    assert_eq!(default_slices(), 1);
    assert_eq!(default_checkpoint_path(), "./esift-checkpoint.json");
    let retry = RetryPolicy::default();
    assert_eq!(
        (
            retry.max_retries,
            retry.base_backoff_ms,
            retry.max_backoff_ms
        ),
        (0, 200, 5000)
    );
}

#[test]
fn unknown_kinds_are_refused() {
    assert_eq!(
        build(&config("kafka"), secrets()).err().unwrap(),
        "unknown source kind 'kafka'"
    );
}

#[test]
fn file_sources_need_a_path() {
    assert_eq!(
        build(&config("file"), secrets()).err().unwrap(),
        "source.path is required for the file source"
    );
    let mut cfg = config("file");
    cfg.path = some("in.ndjson");
    assert!(matches!(
        build(&cfg, secrets()),
        Ok(SourcePlan::File(s)) if s.path == "in.ndjson"
    ));
}

#[test]
fn archive_sources_are_planned() {
    let mut cfg = config("datadog-archive");
    assert_eq!(
        build(&cfg, secrets()).err().unwrap(),
        "source.dd_bucket is required for the datadog-archive source"
    );
    cfg.dd_bucket = some("b");
    match build(&cfg, secrets()) {
        Ok(SourcePlan::DatadogArchive(s)) => {
            assert_eq!(s.bucket, "b");
            assert_eq!(s.prefix, "");
            assert_eq!(s.cloud, CloudProvider::S3);
            assert!(matches!(s.compression, Compression::Fixed(Codec::Zstd)));
        }
        _ => panic!("an archive should be planned"),
    }
    cfg.dd_cloud = some("Azure");
    cfg.dd_compression = some("auto");
    assert!(matches!(
        build(&cfg, secrets()),
        Ok(SourcePlan::DatadogArchive(s))
            if s.cloud == CloudProvider::Azure && matches!(s.compression, Compression::Auto)
    ));
    cfg.dd_cloud = some("Moon");
    assert_eq!(
        build(&cfg, secrets()).err().unwrap(),
        "Source error: unknown dd_cloud 'moon'. Use 's3', 'gcs', or 'azure'"
    );
    cfg.dd_compression = some("lz4");
    assert_eq!(
        build(&cfg, secrets()).err().unwrap(),
        "unknown dd_compression 'lz4'. Use 'zstd', 'gzip', or 'auto'"
    );
    assert!(matches!(
        read_compression(&some("gzip")),
        Ok(Compression::Fixed(Codec::Gzip))
    ));
}

#[test]
fn api_sources_need_both_keys() {
    let mut cfg = config("datadog-api");
    assert_eq!(
        build(&cfg, secrets()).err().unwrap(),
        "source.dd_api_key is required for the datadog-api source"
    );
    let with = |api: &str, app: Result<Option<String>, String>| SourceSecrets {
        password: Err("unused".to_string()),
        dd_api_key: Ok(some(api)),
        dd_app_key: app,
    };
    assert_eq!(
        build(&cfg, with("k", Ok(None))).err().unwrap(),
        "source.dd_app_key is required for the datadog-api source"
    );
    assert_eq!(
        build(&cfg, with("k", Err("gone".to_string()))).err().unwrap(),
        "gone"
    );
    match build(&cfg, with("k", Ok(some("a")))) {
        Ok(SourcePlan::DatadogApi(s)) => {
            assert_eq!(s.site, "datadoghq.com");
            assert_eq!(s.query, "");
            assert_eq!(s.window_minutes, 60);
            assert_eq!((s.api_key.as_str(), s.app_key.as_str()), ("k", "a"));
        }
        _ => panic!("an API source should be planned"),
    }
    cfg.dd_site = some("us5.datadoghq.com");
    cfg.dd_query = some("service:web");
    cfg.dd_window_minutes = Some(5);
    assert!(matches!(
        build(&cfg, with("k", Ok(some("a")))),
        Ok(SourcePlan::DatadogApi(s))
            if s.site == "us5.datadoghq.com" && s.query == "service:web" && s.window_minutes == 5
    ));
}

#[test]
fn index_sources_are_planned() {
    for kind in ["opensearch", ""] {
        let mut cfg = config(kind);
        cfg.url = "http://localhost:9200".to_string();
        assert_eq!(
            build(&cfg, secrets()).err().unwrap(),
            "source.url and source.index are required for the opensearch source"
        );
        cfg.index = "logs-*".to_string();
        cfg.username = some("u");
        cfg.slices = 0;
        match build(&cfg, secrets()) {
            Ok(SourcePlan::OpenSearch(s)) => {
                assert_eq!(s.index, "logs-*");
                assert_eq!(s.batch_size, 500);
                assert_eq!(s.slices, 1);
                assert_eq!(s.query.to_text(), r#"{"match_all":{}}"#);
                assert!(matches!(
                    s.auth,
                    Auth::Basic { username, password: None } if username == "u"
                ));
            }
            _ => panic!("an index should be planned"),
        }
        cfg.query = "{".to_string();
        assert!(build(&cfg, secrets()).is_err());
    }
}

#[test]
fn authentication_is_chosen() {
    let aws = |provider: bool, region: Option<&str>| AwsLookup {
        provider,
        region: region.map(|r| r.to_string()),
    };
    let auth = |t: &str, user: Option<String>, a: AwsLookup| resolve_auth(&some(t), user, None, a);
    assert!(matches!(
        auth("none", some("u"), no_aws()),
        Ok(Auth::Anonymous)
    ));
    assert!(matches!(
        resolve_auth(&None, None, some("p"), no_aws()),
        Ok(Auth::Anonymous)
    ));
    assert_eq!(
        auth("basic", None, no_aws()).err().unwrap(),
        "Username is required for basic auth"
    );
    assert!(auth("aws-sigv4", None, no_aws())
        .err()
        .unwrap()
        .starts_with("No AWS credentials provider found."));
    assert!(auth("aws-sigv4", None, aws(true, None))
        .err()
        .unwrap()
        .starts_with("AWS region is required for aws-sigv4."));
    assert!(matches!(
        auth("aws-sigv4", None, aws(true, Some("us-east-1"))),
        Ok(Auth::AwsSigV4 { region }) if region == "us-east-1"
    ));
    assert_eq!(
        auth("kerberos", None, no_aws()).err().unwrap(),
        "Unsupported source-auth-type 'kerberos'. Use 'basic', 'aws-sigv4', or 'none'."
    );
    assert!(needs_aws(&some("aws-sigv4")));
    assert!(!needs_aws(&some("basic")));
    assert!(!needs_aws(&None));
    assert_eq!(preferred_region(some("a"), some("b"), some("c")), some("a"));
    assert_eq!(preferred_region(None, some("b"), some("c")), some("b"));
    assert_eq!(preferred_region(None, None, some("c")), some("c"));
}

#[test]
fn only_the_secrets_of_its_kind_are_needed() {
    let needs = |kind: &str, auth_type: Option<String>| {
        let mut cfg = config(kind);
        cfg.auth_type = auth_type;
        source_needs(&cfg)
    };
    let none = SourceNeeds {
        password: false,
        keys: false,
        aws: false,
    };
    for kind in ["file", "datadog-archive", "other"] {
        assert_eq!(needs(kind, some("aws-sigv4")), none);
    }
    assert_eq!(
        needs("datadog-api", some("aws-sigv4")),
        SourceNeeds { keys: true, ..none }
    );
    for kind in ["opensearch", ""] {
        assert_eq!(
            needs(kind, some("basic")),
            SourceNeeds {
                password: true,
                ..none
            }
        );
        assert_eq!(
            needs(kind, some("aws-sigv4")),
            SourceNeeds {
                password: true,
                aws: true,
                ..none
            }
        );
    }
}

fn sink(options: OpenObserveOptions) -> DestConfig {
    DestConfig::OpenObserve {
        url: "http://oo".to_string(),
        org: "default".to_string(),
        stream: "s".to_string(),
        username: "a".to_string(),
        password: "env:P".to_string(),
        options: Box::new(options),
    }
}

#[test]
fn destinations_are_planned() {
    let unused = || Err::<String, String>("unused".to_string());
    assert!(matches!(
        build_destination(DestConfig::Stdout, unused(), Ok(None)),
        Ok(DestPlan::Stdout)
    ));
    assert!(matches!(
        build_destination(DestConfig::File { path: "o".into() }, unused(), Ok(None)),
        Ok(DestPlan::File(d)) if d.path == "o"
    ));
    let bucket = DestConfig::S3 {
        bucket: "b".into(),
        prefix: "p/".into(),
        region: some("r"),
    };
    assert!(matches!(
        build_destination(bucket, unused(), Ok(None)),
        Ok(DestPlan::S3(d)) if d.bucket == "b" && d.prefix == "p/" && d.region == some("r")
    ));
    let options = OpenObserveOptions {
        token: some("env:T"),
        max_batch_bytes: Some(9),
        ..Default::default()
    };
    match build_destination(sink(options), Ok("pw".into()), Ok(some("tok"))) {
        Ok(DestPlan::OpenObserve(d)) => {
            assert_eq!(d.bulk_url, "http://oo/api/default/_bulk");
            assert_eq!((d.username.as_str(), d.password.as_str()), ("a", "pw"));
            assert_eq!(d.options.token, some("tok"));
            assert_eq!(d.options.max_batch_bytes, Some(9));
        }
        _ => panic!("a sink should be planned"),
    }
    assert_eq!(
        build_destination(sink(OpenObserveOptions::default()), unused(), Ok(None))
            .err()
            .unwrap(),
        "unused"
    );
    assert_eq!(
        build_destination(
            sink(OpenObserveOptions::default()),
            Ok("pw".into()),
            Err("no token".into())
        )
        .err()
        .unwrap(),
        "no token"
    );
}

#[test]
fn quick_extractions_pick_their_destination() {
    let flags = |dest: &str| DestFlags {
        dest: dest.to_string(),
        url: some("http://oo"),
        org: "default".to_string(),
        stream: some("s"),
        username: some("u"),
        password: some("p"),
    };
    let pick = |f: DestFlags| extract_destination(f, Ok("pw".to_string()));
    assert!(matches!(pick(flags("stdout")), Ok(DestPlan::Stdout)));
    for dest in ["openobserve", "oo"] {
        assert!(matches!(
            pick(flags(dest)),
            Ok(DestPlan::OpenObserve(d)) if d.password == "pw" && d.stream == "s"
        ));
    }
    assert_eq!(
        pick(flags("tape")).err().unwrap(),
        "Unknown destination 'tape'. Use 'stdout' or 'openobserve'"
    );
    let mut f = flags("oo");
    f.password = None;
    assert_eq!(
        pick(f).err().unwrap(),
        "--dest-password required for openobserve"
    );
    let mut f = flags("oo");
    f.username = None;
    f.password = None;
    assert_eq!(
        pick(f).err().unwrap(),
        "--dest-username required for openobserve"
    );
    let mut f = flags("oo");
    f.stream = None;
    assert_eq!(
        pick(f).err().unwrap(),
        "--dest-stream required for openobserve"
    );
    let mut f = flags("oo");
    f.url = None;
    assert_eq!(pick(f).err().unwrap(), "--dest-url required for openobserve");
    assert_eq!(
        extract_destination(flags("oo"), Err("no secret".to_string()))
            .err()
            .unwrap(),
        "no secret"
    );
}

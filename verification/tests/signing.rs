use esift::http::sigv4::{
    apply_signature, can_sign, headers_with_host, sign_request_aws, signable_headers,
    AwsCredentials, RequestBody, Unsigned,
};
use esift::http::ParsedUrl;

fn credentials() -> AwsCredentials {
    AwsCredentials {
        access_key_id: "mock_access_key".to_string(),
        secret_access_key: "mock_secret_key".to_string(),
        session_token: Some("mock_session_token".to_string()),
    }
}

fn request(url: &str) -> Unsigned {
    Unsigned {
        method: "POST".to_string(),
        url: ParsedUrl::parse(url).unwrap(),
        headers: vec![("content-type".to_string(), b"application/json".to_vec())],
        body: RequestBody::Bytes(br#"{"size":100}"#.to_vec()),
    }
}

fn header<'a>(headers: &'a [(String, Vec<u8>)], name: &str) -> Option<&'a str> {
    headers
        .iter()
        .rev()
        .find(|h| h.0.eq_ignore_ascii_case(name))
        .map(|h| std::str::from_utf8(&h.1).unwrap())
}

#[test]
fn test_sigv4_signing() {
    let req = request("https://search-my-domain.us-east-1.es.amazonaws.com/_search");
    assert!(header(&req.headers, "host").is_none());
    assert!(header(&req.headers, "authorization").is_none());

    let signed = sign_request_aws(&credentials(), "us-east-1", 1_704_067_200, &req)
        .expect("signing should succeed");

    assert_eq!(
        header(&signed, "host"),
        Some("search-my-domain.us-east-1.es.amazonaws.com")
    );
    let auth = header(&signed, "authorization").expect("authorization header should be set");
    assert!(auth.starts_with("AWS4-HMAC-SHA256"));
    assert!(auth.contains("Credential=mock_access_key/"));
    assert!(auth.contains("us-east-1/es/aws4_request"));
    assert_eq!(
        header(&signed, "x-amz-security-token"),
        Some("mock_session_token")
    );
    assert_eq!(header(&signed, "x-amz-date"), Some("20240101T000000Z"));
    assert_eq!(
        auth,
        "AWS4-HMAC-SHA256 Credential=mock_access_key/20240101/us-east-1/es/aws4_request, \
         SignedHeaders=content-type;host;x-amz-date;x-amz-security-token, \
         Signature=adb669e5d1eabe7fecaef9b3b659e2c0534ecf5a808f8d6605409e88a60c89a8"
    );
}

#[test]
fn every_part_of_a_request_is_signed() {
    let url = "https://h.example/_search";
    let auth = |creds: &AwsCredentials, region: &str, secs: u64, req: &Unsigned| {
        let signed = sign_request_aws(creds, region, secs, req).unwrap();
        header(&signed, "authorization").unwrap().to_string()
    };
    let base = auth(&credentials(), "us-east-1", 0, &request(url));
    assert_eq!(base, auth(&credentials(), "us-east-1", 0, &request(url)));

    let mut other = credentials();
    other.secret_access_key = "other".to_string();
    assert_ne!(base, auth(&other, "us-east-1", 0, &request(url)));
    assert_ne!(base, auth(&credentials(), "eu-west-1", 0, &request(url)));
    assert_ne!(base, auth(&credentials(), "us-east-1", 1, &request(url)));
    let mut empty = request(url);
    empty.body = RequestBody::Empty;
    assert_ne!(base, auth(&credentials(), "us-east-1", 0, &empty));
    let mut get = request(url);
    get.method = "GET".to_string();
    assert_ne!(base, auth(&credentials(), "us-east-1", 0, &get));
    assert_ne!(
        base,
        auth(
            &credentials(),
            "us-east-1",
            0,
            &request("https://h.example/_pit")
        )
    );
    let mut tokenless = credentials();
    tokenless.session_token = None;
    let signed = sign_request_aws(&tokenless, "us-east-1", 0, &request(url)).unwrap();
    assert!(header(&signed, "x-amz-security-token").is_none());
}

#[test]
fn requests_that_cannot_be_signed_are_reported() {
    let fail = |req: &Unsigned| {
        sign_request_aws(&credentials(), "us-east-1", 0, req)
            .err()
            .unwrap()
            .message()
    };
    assert_eq!(
        ParsedUrl::parse("nowhere").err().unwrap().message(),
        "Source error: Invalid URL: relative URL without a base"
    );
    assert_eq!(
        fail(&request("data:text/plain,x")),
        "Source error: Request URL is missing a host name"
    );
    let mut streaming = request("https://h.example/");
    streaming.body = RequestBody::Streaming;
    assert_eq!(
        fail(&streaming),
        "Source error: Streaming request body is not supported for AWS SigV4 signing"
    );
    let mut odd = request("https://h.example/");
    odd.headers.push(("x-bad".to_string(), b"a\nb".to_vec()));
    assert_eq!(
        fail(&odd),
        "Source error: Failed to build temporary http request: failed to parse header value"
    );
}

#[test]
fn one_host_is_signed() {
    let own = vec![
        ("Host".to_string(), b"elsewhere".to_vec()),
        ("accept".to_string(), b"*/*".to_vec()),
        ("x-raw".to_string(), vec![0xe9]),
    ];
    let headers = headers_with_host("h.example", &own);
    assert_eq!(
        headers,
        vec![
            ("host".to_string(), b"h.example".to_vec()),
            ("accept".to_string(), b"*/*".to_vec()),
            ("x-raw".to_string(), vec![0xe9]),
        ]
    );
    // A value that is no text is sent, but not signed.
    assert_eq!(
        signable_headers(&headers),
        vec![
            ("host".to_string(), "h.example".to_string()),
            ("accept".to_string(), "*/*".to_string()),
        ]
    );
    let applied = apply_signature(headers, &vec![("authorization".to_string(), "A".to_string())]);
    assert_eq!(applied.len(), 4);
    assert_eq!(applied[3], ("authorization".to_string(), b"A".to_vec()));
}

#[test]
fn urls_are_signed_as_they_are_written_out() {
    let url = ParsedUrl::parse("HTTP:Example.com").unwrap();
    assert_eq!(url.as_str(), "http://example.com/");
    assert_eq!(url.host(), Some("example.com"));
    assert_eq!(ParsedUrl::parse("data:text/plain,x").unwrap().host(), None);

    let sign = |url: &str| {
        let req = request(url);
        assert!(can_sign(0, &req));
        sign_request_aws(&credentials(), "us-east-1", 0, &req).unwrap()
    };
    assert_eq!(sign("HTTP:Example.com"), sign("http://example.com/"));
    assert_ne!(sign("http://example.com/?a"), sign("http://example.com/"));
    assert!(sign("foo://h?+&%ff").len() > 3);
    assert!(sign("http://h#?x").len() > 3);
}

#[test]
fn requests_have_to_fit_the_signer() {
    let with_query = |n: usize| request(&format!("http://h/?{}", "+".repeat(n)));
    // Nine bytes in front of the question mark, then three for each.
    assert!(can_sign(0, &with_query(21_840)));
    assert!(!can_sign(0, &with_query(21_841)));
    assert!(!can_sign(0, &with_query(30_000)));
    let signed = sign_request_aws(&credentials(), "us-east-1", 0, &with_query(21_840));
    assert!(signed.is_ok());

    // A path is not encoded anew.
    let long = request(&format!("http://h/{}", "a".repeat(60_000)));
    assert!(can_sign(0, &long));
    assert!(sign_request_aws(&credentials(), "us-east-1", 0, &long).is_ok());

    // What no URI can hold is refused.
    let huge = with_query(70_000);
    assert!(can_sign(0, &huge));
    assert_eq!(
        sign_request_aws(&credentials(), "us-east-1", 0, &huge)
            .err()
            .unwrap()
            .message(),
        "Source error: Failed to build temporary http request: uri too long"
    );

    let mut many = request("http://h/");
    many.headers = (0..6_551).map(|n| (format!("x-{n}"), b"v".to_vec())).collect();
    assert!(can_sign(0, &many));
    assert!(sign_request_aws(&credentials(), "us-east-1", 0, &many).is_ok());
    many.headers.push(("y".to_string(), b"v".to_vec()));
    assert!(!can_sign(0, &many));

    assert!(can_sign(253_402_300_799, &request("http://h/")));
    assert!(!can_sign(253_402_300_800, &request("http://h/")));
}

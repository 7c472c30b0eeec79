use upf::{
    build_request, handle_response, DataType, Method, PartContent, Pattern, RequestBody,
    UploadError, UploadResponse, UploaderTemplate,
};

fn s(x: &str) -> String {
    x.to_string()
}

fn pairs(items: &[(&str, &str)]) -> Vec<(String, String)> {
    items.iter().map(|(k, v)| (s(k), s(v))).collect()
}

fn template(data: DataType, regex: Option<&str>, url: &str) -> UploaderTemplate {
    UploaderTemplate {
        method: Method::Post,
        request_url: s("https://host/up"),
        data,
        form: Vec::new(),
        file_form: None,
        headers: Vec::new(),
        regex: regex.map(s),
        url: s(url),
        additional_urls: Vec::new(),
        tags: Vec::new(),
    }
}

#[test]
fn scenario_multipart_post_with_file() {
    let mut t = template(DataType::Multipart, None, "https://host/view");
    t.file_form = Some(s("file"));
    let req = build_request(&t, vec![1, 2, 3], Some(s("a.png"))).unwrap();
    assert_eq!(req.method, Method::Post);
    assert_eq!(req.url, "https://host/up");
    match &req.body {
        RequestBody::Multipart(parts) => {
            assert_eq!(parts.len(), 1);
            assert_eq!(parts[0].name, "file");
            match &parts[0].content {
                PartContent::File { bytes, file_name } => {
                    assert_eq!(bytes, &vec![1u8, 2, 3]);
                    assert_eq!(file_name.as_deref(), Some("a.png"));
                }
                PartContent::Text(_) => panic!("expected a file part"),
            }
        }
        RequestBody::Empty => panic!("expected a multipart body"),
    }
    let resp = handle_response(200, s("anything"), t).unwrap();
    assert_eq!(resp.url, "https://host/view");
}

#[test]
fn scenario_capture_into_url() {
    let t = template(DataType::NoBody, Some(r#""id":"(\w+)""#), "https://cdn/$regex:1$");
    let resp = UploadResponse::find(r#"{"id":"abc123"}"#, t).unwrap();
    assert_eq!(resp.url, "https://cdn/abc123");
    assert!(resp.missing_groups.is_empty());
}

#[test]
fn scenario_server_error_status() {
    let t = template(DataType::NoBody, None, "https://host/view");
    match handle_response(500, s("server error"), t) {
        Err(UploadError::Response(status, body)) => {
            assert_eq!(status, 500);
            assert_eq!(body, "server error");
        }
        other => panic!("unexpected {:?}", other),
    }
}

#[test]
fn scenario_optional_group_not_participating() {
    let t = template(DataType::NoBody, Some(r"(\w+)-(\w+)?"), "https://x/$regex:1$/$regex:2$");
    let resp = UploadResponse::find("abc- rest", t).unwrap();
    assert_eq!(resp.url, "https://x/abc/$regex:2$");
    assert_eq!(resp.missing_groups, vec![2]);
}

#[test]
fn no_body_ignores_payload() {
    let mut t = template(DataType::NoBody, None, "u");
    t.file_form = Some(s("file"));
    t.form = pairs(&[("a", "1")]);
    let req = build_request(&t, vec![9; 1000], Some(s("f"))).unwrap();
    assert!(matches!(req.body, RequestBody::Empty));
}

#[test]
fn multipart_without_file_field_has_no_file_part() {
    let mut t = template(DataType::Multipart, None, "u");
    t.form = pairs(&[("b", "2"), ("a", "1")]);
    let req = build_request(&t, vec![1, 2, 3], Some(s("x.bin"))).unwrap();
    match &req.body {
        RequestBody::Multipart(parts) => {
            assert_eq!(parts.len(), 2);
            assert_eq!(parts[0].name, "b");
            assert!(matches!(&parts[0].content, PartContent::Text(v) if v == "2"));
            assert_eq!(parts[1].name, "a");
            assert!(matches!(&parts[1].content, PartContent::Text(v) if v == "1"));
        }
        RequestBody::Empty => panic!("expected a multipart body"),
    }
}

#[test]
fn multipart_file_part_first_then_form_without_file_name() {
    let mut t = template(DataType::Multipart, None, "u");
    t.file_form = Some(s("upload"));
    t.form = pairs(&[("key", "value")]);
    let req = build_request(&t, vec![7], None).unwrap();
    match &req.body {
        RequestBody::Multipart(parts) => {
            assert_eq!(parts.len(), 2);
            assert_eq!(parts[0].name, "upload");
            assert!(matches!(&parts[0].content, PartContent::File { bytes, file_name: None } if bytes == &vec![7u8]));
            assert_eq!(parts[1].name, "key");
            assert!(matches!(&parts[1].content, PartContent::Text(v) if v == "value"));
        }
        RequestBody::Empty => panic!("expected a multipart body"),
    }
}

#[test]
fn headers_copied_in_order() {
    let mut t = template(DataType::NoBody, None, "u");
    t.headers = pairs(&[("Authorization", "SECRET-REDACTED"), ("X-Extra", "caf\u{e9}\tok")]);
    let req = build_request(&t, Vec::new(), None).unwrap();
    assert_eq!(req.headers, t.headers);
}

#[test]
fn unsupported_data_kind_is_an_error() {
    for kind in [DataType::Plain, DataType::FormUrlEncoded, DataType::Json, DataType::Xml] {
        let t = template(kind, None, "u");
        match build_request(&t, vec![1], None) {
            Err(UploadError::UnsupportedData(d)) => assert_eq!(d, kind),
            other => panic!("unexpected {:?}", other),
        }
    }
}

#[test]
fn invalid_header_name_is_an_error() {
    let mut t = template(DataType::Multipart, None, "u");
    t.headers = pairs(&[("bad name", "v")]);
    assert!(matches!(build_request(&t, Vec::new(), None), Err(UploadError::InvalidHeaderName(_))));
    t.headers = pairs(&[("", "v")]);
    assert!(matches!(build_request(&t, Vec::new(), None), Err(UploadError::InvalidHeaderName(_))));
}

#[test]
fn invalid_header_value_is_an_error() {
    let mut t = template(DataType::Multipart, None, "u");
    t.headers = pairs(&[("X-Ok", "a\nb")]);
    assert!(matches!(build_request(&t, Vec::new(), None), Err(UploadError::InvalidHeaderValue(_))));
    t.headers = pairs(&[("X-Ok", "a\u{7f}")]);
    assert!(matches!(build_request(&t, Vec::new(), None), Err(UploadError::InvalidHeaderValue(_))));
}

#[test]
fn first_bad_header_decides_the_error() {
    let mut t = template(DataType::Json, None, "u");
    t.headers = pairs(&[("X-A", "fine"), ("X-B", "bad\r"), ("bad name", "v")]);
    assert!(matches!(build_request(&t, Vec::new(), None), Err(UploadError::InvalidHeaderValue(_))));
}

#[test]
fn pattern_not_found_carries_pattern() {
    let t = template(DataType::NoBody, Some(r"id=(\d+)"), "https://cdn/$regex:1$");
    match UploadResponse::find("no digits here", t) {
        Err(UploadError::RegexNotFound(p)) => assert_eq!(p, r"id=(\d+)"),
        other => panic!("unexpected {:?}", other),
    }
}

#[test]
fn invalid_pattern_is_an_error() {
    let t = template(DataType::NoBody, Some("(unclosed"), "u");
    assert!(matches!(UploadResponse::find("body", t), Err(UploadError::Regex(_))));
    assert!(Pattern::new(&s("(unclosed")).is_err());
}

#[test]
fn without_pattern_urls_are_literal() {
    let mut t = template(DataType::NoBody, None, "https://h/$regex:1$");
    t.additional_urls = pairs(&[("thumbnail", "https://h/t/$regex:0$"), ("deletion", "d")]);
    let resp = UploadResponse::find("whatever", t).unwrap();
    assert_eq!(resp.url, "https://h/$regex:1$");
    assert_eq!(resp.additional_urls, pairs(&[("thumbnail", "https://h/t/$regex:0$"), ("deletion", "d")]));
    assert!(resp.missing_groups.is_empty());
}

#[test]
fn secondary_urls_substituted_independently() {
    let mut t = template(DataType::NoBody, Some(r"(\w+)\.(\w+)"), "https://h/$regex:1$.$regex:2$");
    t.additional_urls = pairs(&[("thumbnail", "https://h/t/$regex:1$"), ("whole", "$regex:0$|$regex:0$")]);
    let resp = UploadResponse::find("file: pic.png", t).unwrap();
    assert_eq!(resp.url, "https://h/pic.png");
    assert_eq!(resp.additional_urls, pairs(&[("thumbnail", "https://h/t/pic"), ("whole", "pic.png|pic.png")]));
}

#[test]
fn multi_digit_group_index() {
    let t = template(DataType::NoBody, Some("(a)(b)(c)(d)(e)(f)(g)(h)(i)(j)(k)"), "$regex:10$|$regex:1$|$regex:11$");
    let resp = UploadResponse::find("abcdefghijk", t).unwrap();
    assert_eq!(resp.url, "j|a|k");
}

#[test]
fn substitution_in_index_order() {
    let groups = vec![Some(s("$regex:1$")), None, Some(s("two"))];
    let resp = UploadResponse::substitute_captures(
        s("<$regex:0$><$regex:1$><$regex:2$>"),
        pairs(&[("n", "$regex:2$$regex:2$")]),
        &groups,
    );
    assert_eq!(resp.url, "<$regex:1$><$regex:1$><two>");
    assert_eq!(resp.additional_urls, pairs(&[("n", "twotwo")]));
    assert_eq!(resp.missing_groups, vec![1]);
}

#[test]
fn success_status_range() {
    for status in [199u16, 300, 404] {
        let t = template(DataType::NoBody, None, "u");
        assert!(matches!(handle_response(status, s("b"), t), Err(UploadError::Response(code, _)) if code == status));
    }
    for status in [200u16, 201, 299] {
        let t = template(DataType::NoBody, None, "u");
        assert_eq!(handle_response(status, s("b"), t).unwrap().url, "u");
    }
}

#[test]
fn error_messages() {
    assert_eq!(UploadError::RegexNotFound(s("x")).message(), "Regex failed to capture anything");
    assert_eq!(UploadError::UnsupportedData(DataType::Xml).message(), "Unsupported data type");
}

#[test]
fn header_name_character_set_and_length() {
    let mut t = template(DataType::NoBody, None, "u");
    t.headers = vec![(s("X-\"Quoted\"!#$%&'*+-.^_`|~09"), s("v"))];
    assert!(build_request(&t, Vec::new(), None).is_ok());
    t.headers = vec![("a".repeat(65535), s("v"))];
    assert!(build_request(&t, Vec::new(), None).is_ok());
    t.headers = vec![("a".repeat(65536), s("v"))];
    assert!(matches!(build_request(&t, Vec::new(), None), Err(UploadError::InvalidHeaderName(_))));
    for bad in ["X:Y", "caf\u{e9}", "a(b)", "x/y"] {
        t.headers = vec![(s(bad), s("v"))];
        assert!(matches!(build_request(&t, Vec::new(), None), Err(UploadError::InvalidHeaderName(_))));
    }
}

#[test]
fn every_error_message() {
    assert_eq!(UploadError::Response(500, s("b")).message(), "Received an error status from server");
    assert_eq!(UploadError::RegexNotFound(s("p")).message(), "Regex failed to capture anything");
    assert_eq!(UploadError::UnsupportedData(DataType::Json).message(), "Unsupported data type");
    let t = template(DataType::NoBody, Some("("), "u");
    let e = UploadResponse::find("b", t).unwrap_err();
    assert_eq!(e.message(), "Failed to parse regex");
    let mut t = template(DataType::NoBody, None, "u");
    t.headers = pairs(&[("bad name", "v")]);
    assert_eq!(build_request(&t, Vec::new(), None).unwrap_err().message(), "Invalid header name");
    t.headers = pairs(&[("X-A", "a\nb")]);
    assert_eq!(build_request(&t, Vec::new(), None).unwrap_err().message(), "Invalid header value");
}

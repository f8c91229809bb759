use rhymessage::{Header, MessageHeaders};
use rhymuweb_client::headers::has_usable_limit;
use rhymuweb_client::request::write_host_value;
use rhymuweb_client::text::{decimal_text, same_text};
use rhymuweb_client::uri::{asks_for_tls, find_server_port, find_standard_port};
use rhymuweb_client::{
    Authority, ConnectionKey, ConnectionUse, Error, HttpClient, Request, Step, Uri,
};

fn segments(path: &[&str]) -> Vec<Vec<u8>> {
    path.iter().map(|segment| segment.as_bytes().to_vec()).collect()
}

fn uri(scheme: Option<&str>, host: &[u8], port: Option<u16>, path: &[&str]) -> Uri {
    Uri {
        scheme: scheme.map(|scheme| scheme.to_string()),
        authority: Some(Authority { userinfo: None, host: host.to_vec(), port }),
        path: segments(path),
        query: None,
        fragment: None,
    }
}

fn request_to(target: Uri) -> Request {
    let mut request = Request::new();
    request.target = target;
    request
}

fn add(request: &mut Request, name: &str, value: &str) {
    request.headers.add_header(Header { name: name.into(), value: value.to_string() });
}

fn fields(headers: &MessageHeaders) -> Vec<(String, String)> {
    headers
        .headers()
        .iter()
        .map(|header| (header.name.to_string(), header.value.clone()))
        .collect()
}

fn pairs(fields: &[(&str, &str)]) -> Vec<(String, String)> {
    fields.iter().map(|(name, value)| (name.to_string(), value.to_string())).collect()
}

fn bytes_sent(request: Request, connection_use: ConnectionUse) -> String {
    let client: HttpClient<()> = HttpClient::new();
    let recycling = client.fetch(request, connection_use).unwrap();
    match recycling.recycled(Some(1u8)) {
        Step::Send(sending, 1) => String::from_utf8(sending.raw_request().to_vec()).unwrap(),
        step => panic!("{:?}", step),
    }
}

#[test]
fn numbers_are_written_in_decimal() {
    assert_eq!("0", decimal_text(0));
    assert_eq!("9", decimal_text(9));
    assert_eq!("10", decimal_text(10));
    assert_eq!("8080", decimal_text(8080));
    assert_eq!("65535", decimal_text(65535));
    assert_eq!("18446744073709551615", decimal_text(u64::MAX));
}

#[test]
fn numbers_read_back() {
    for n in [0u64, 7, 10, 99, 100, 12345, u64::MAX] {
        assert_eq!(Ok(n), decimal_text(n).parse::<u64>());
    }
}

#[test]
fn texts_are_compared() {
    assert!(same_text("", ""));
    assert!(same_text("http", "http"));
    assert!(!same_text("http", "https"));
    assert!(!same_text("http", "HTTP"));
    assert!(!same_text("\u{e9}", "e"));
}

#[test]
fn standard_ports() {
    let of = |scheme: &str| find_standard_port(&Some(scheme.to_string()));
    assert_eq!(Some(80), of("http"));
    assert_eq!(Some(80), of("ws"));
    assert_eq!(Some(443), of("https"));
    assert_eq!(Some(443), of("wss"));
    assert_eq!(None, of("HTTP"));
    assert_eq!(None, of("ftp"));
    assert_eq!(None, find_standard_port(&None));
}

#[test]
fn secure_schemes() {
    for (scheme, secure) in [("http", false), ("ws", false), ("https", true), ("wss", true)] {
        assert_eq!(secure, asks_for_tls(&Some(scheme.to_string())));
        assert_eq!(secure, find_standard_port(&Some(scheme.to_string())) == Some(443));
    }
    assert!(!asks_for_tls(&None));
}

#[test]
fn given_port_comes_first() {
    assert_eq!(Some(8443), find_server_port(Some(8443), &Some("https".to_string())));
    assert_eq!(Some(443), find_server_port(None, &Some("https".to_string())));
    assert_eq!(Some(7), find_server_port(Some(7), &None));
    assert_eq!(None, find_server_port(None, &Some("gopher".to_string())));
}

#[test]
fn host_value_leaves_out_standard_ports() {
    let value = |port, scheme: &str| write_host_value("h", port, &Some(scheme.to_string()));
    assert_eq!("h", value(80, "http"));
    assert_eq!("h", value(80, "ws"));
    assert_eq!("h", value(443, "https"));
    assert_eq!("h", value(443, "wss"));
    assert_eq!("h:443", value(443, "http"));
    assert_eq!("h:80", value(80, "https"));
    assert_eq!("h:8080", value(8080, "http"));
    assert_eq!("h:80", value(80, "ftp"));
    assert_eq!("h:80", write_host_value("h", 80, &None));
}

#[test]
fn line_limits() {
    let mut headers = MessageHeaders::new();
    assert!(has_usable_limit(&headers));
    for (limit, usable) in [(0, false), (1, false), (2, true), (1000, true)] {
        headers.set_line_limit(Some(limit));
        assert_eq!(usable, has_usable_limit(&headers));
    }
    headers.set_line_limit(None);
    assert!(has_usable_limit(&headers));
}

#[test]
fn line_limit_test_keeps_the_headers() {
    let mut headers = MessageHeaders::new();
    headers.set_header("X", "1");
    headers.set_line_limit(Some(1000));
    assert!(has_usable_limit(&headers));
    assert_eq!(pairs(&[("X", "1")]), fields(&headers));
}

#[test]
fn new_request() {
    let request = Request::new();
    assert_eq!("GET", request.method);
    assert!(request.target.scheme.is_none());
    assert!(request.target.authority.is_none());
    assert!(request.target.path.is_empty());
    assert!(request.target.query.is_none());
    assert!(request.target.fragment.is_none());
    assert!(request.headers.headers().is_empty());
    assert!(request.body.is_empty());
    let mut headers = request.headers;
    headers.set_header("X", "y".repeat(995));
    assert!(headers.generate().is_ok());
    headers.set_header("X", "y".repeat(996));
    assert!(headers.generate().is_err());
}

#[test]
fn authority_and_scheme_are_taken() {
    let mut target = uri(Some("http"), b"h", Some(1), &["", "x"]);
    assert_eq!(Some("http"), target.take_scheme().as_deref());
    assert!(target.scheme.is_none());
    assert_eq!(b"h".to_vec(), target.take_authority().unwrap().host);
    assert!(target.authority.is_none());
    assert!(target.take_authority().is_none());
    assert_eq!(segments(&["", "x"]), target.path);
}

#[test]
fn request_without_authority() {
    let mut target = uri(Some("http"), b"h", None, &["", "foo"]);
    target.authority = None;
    match request_to(target).prepare(&ConnectionUse::SingleResource) {
        Err(Error::NoTargetAuthority(target)) => {
            assert_eq!(Some("http"), target.scheme.as_deref());
            assert_eq!(segments(&["", "foo"]), target.path);
        },
        other => panic!("{:?}", other),
    }
}

#[test]
fn request_without_port() {
    for scheme in [None, Some("foo"), Some("HTTP")] {
        let mut target = uri(scheme, b"\xff", None, &["", "foo"]);
        target.query = Some(b"bar".to_vec());
        match request_to(target).prepare(&ConnectionUse::SingleResource) {
            Err(Error::UnableToDetermineServerPort(target)) => {
                assert_eq!(scheme, target.scheme.as_deref());
                let authority = target.authority.unwrap();
                assert_eq!(b"\xff".to_vec(), authority.host);
                assert_eq!(None, authority.port);
                assert_eq!(segments(&["", "foo"]), target.path);
                assert_eq!(Some(b"bar".to_vec()), target.query);
            },
            other => panic!("{:?}", other),
        }
    }
}

#[test]
fn error_names_the_target_without_port() {
    let client: HttpClient<()> = HttpClient::new();
    let request = request_to(uri(Some("ftp"), b"www.example.com", None, &["", "foo"]));
    match client.fetch(request, ConnectionUse::SingleResource) {
        Err(Error::UnableToDetermineServerPort(target)) => {
            assert_eq!(Some("ftp"), target.scheme.as_deref());
            assert_eq!(b"www.example.com".to_vec(), target.authority.unwrap().host);
            assert_eq!(segments(&["", "foo"]), target.path);
        },
        other => panic!("{:?}", other),
    }
}

#[test]
fn request_with_host_that_is_not_text() {
    let request = request_to(uri(Some("http"), b"a\xffb", None, &[""]));
    match request.prepare(&ConnectionUse::SingleResource) {
        Err(Error::HostNotValidText(host)) => assert_eq!(b"a\xffb".to_vec(), host),
        other => panic!("{:?}", other),
    }
}

#[test]
fn request_with_host_beyond_ascii() {
    let request = request_to(uri(Some("http"), "h\u{f6}st".as_bytes(), None, &[""]));
    let prepared = request.prepare(&ConnectionUse::MultipleResources).unwrap();
    assert_eq!("h\u{f6}st", prepared.key.host);
    assert_eq!(
        Some("h\u{f6}st"),
        prepared.request.headers.header_value("Host").as_deref()
    );
}

#[test]
fn prepared_request() {
    let mut target = uri(Some("https"), b"www.example.com", None, &["", "foo"]);
    target.query = Some(b"bar".to_vec());
    let prepared = request_to(target).prepare(&ConnectionUse::SingleResource).unwrap();
    assert_eq!(
        ConnectionKey { host: "www.example.com".to_string(), port: 443, use_tls: true },
        prepared.key
    );
    assert!(prepared.request.target.scheme.is_none());
    assert!(prepared.request.target.authority.is_none());
    assert_eq!(Some(b"bar".to_vec()), prepared.request.target.query);
    assert_eq!(
        pairs(&[
            ("Host", "www.example.com"),
            ("Accept-Encoding", "gzip, deflate"),
            ("Connection", "close"),
        ]),
        fields(&prepared.request.headers)
    );
}

#[test]
fn preparing_keeps_method_and_body() {
    let mut request = request_to(uri(Some("http"), b"h", None, &[""]));
    request.method = "POST".to_string();
    request.body = b"say=Hi&to=Mom".to_vec();
    let prepared = request.prepare(&ConnectionUse::MultipleResources).unwrap();
    assert_eq!("POST", prepared.request.method);
    assert_eq!(b"say=Hi&to=Mom".to_vec(), prepared.request.body);
    assert_eq!(
        pairs(&[
            ("Host", "h"),
            ("Content-Length", "13"),
            ("Accept-Encoding", "gzip, deflate"),
        ]),
        fields(&prepared.request.headers)
    );
}

#[test]
fn client_headers_replace_those_of_the_user() {
    let mut request = request_to(uri(Some("ws"), b"h", Some(8080), &[""]));
    add(&mut request, "X-First", "1");
    add(&mut request, "hOST", "other");
    add(&mut request, "X-Second", "2");
    add(&mut request, "HOST", "another");
    add(&mut request, "upgrade", "mine");
    add(&mut request, "X-Third", "3");
    let connection_use = ConnectionUse::Upgrade { protocol: "websocket".to_string() };
    let prepared = request.prepare(&connection_use).unwrap();
    assert_eq!(
        pairs(&[
            ("X-First", "1"),
            ("hOST", "h:8080"),
            ("X-Second", "2"),
            ("upgrade", "websocket"),
            ("X-Third", "3"),
            ("Accept-Encoding", "gzip, deflate"),
            ("Connection", "upgrade"),
        ]),
        fields(&prepared.request.headers)
    );
}

#[test]
fn header_set_twice_has_the_second_value() {
    let mut request = request_to(uri(Some("http"), b"h", None, &[""]));
    request.set_agent_headers("first".to_string(), &ConnectionUse::SingleResource);
    request.set_agent_headers("second".to_string(), &ConnectionUse::SingleResource);
    assert_eq!(
        pairs(&[
            ("Host", "second"),
            ("Accept-Encoding", "gzip, deflate"),
            ("Connection", "close"),
        ]),
        fields(&request.headers)
    );
}

#[test]
fn other_headers_are_kept() {
    let mut request = request_to(uri(Some("http"), b"h", None, &[""]));
    add(&mut request, "Connection", "keep-alive");
    add(&mut request, "Content-Length", "7");
    add(&mut request, "Cookie", "a=b");
    add(&mut request, "cookie", "c=d");
    let prepared = request.prepare(&ConnectionUse::MultipleResources).unwrap();
    let headers = prepared.request.headers;
    assert_eq!(vec!["keep-alive"], headers.header_multi_value("Connection"));
    assert_eq!(vec!["7"], headers.header_multi_value("Content-Length"));
    assert_eq!(vec!["a=b", "c=d"], headers.header_multi_value("Cookie"));
}

#[test]
fn same_server_has_the_same_key() {
    let key = |target: Uri| request_to(target).prepare(&ConnectionUse::SingleResource).unwrap().key;
    let base = key(uri(Some("http"), b"h", None, &["", "foo"]));
    assert_eq!(base, key(uri(Some("ws"), b"h", Some(80), &["", "bar"])));
    assert_ne!(base, key(uri(Some("http"), b"h", Some(81), &["", "foo"])));
    assert_ne!(base, key(uri(Some("http"), b"i", None, &["", "foo"])));
    assert_ne!(base, key(uri(Some("https"), b"h", Some(80), &["", "foo"])));
}

#[test]
fn bytes_of_a_request() {
    let mut target = uri(Some("http"), b"www.example.com", None, &["", "foo"]);
    target.query = Some(b"bar".to_vec());
    assert_eq!(
        concat(&[
            "GET /foo?bar HTTP/1.1\r\n",
            "Host: www.example.com\r\n",
            "Accept-Encoding: gzip, deflate\r\n",
            "Connection: close\r\n",
            "\r\n",
        ]),
        bytes_sent(request_to(target), ConnectionUse::SingleResource)
    );
}

#[test]
fn bytes_of_a_request_with_body() {
    let mut request = request_to(uri(Some("http"), b"h", Some(8080), &[""]));
    request.method = "PUT".to_string();
    request.body = b"hello".to_vec();
    add(&mut request, "Content-Type", "text/plain");
    assert_eq!(
        concat(&[
            "PUT / HTTP/1.1\r\n",
            "Content-Type: text/plain\r\n",
            "Host: h:8080\r\n",
            "Content-Length: 5\r\n",
            "Accept-Encoding: gzip, deflate\r\n",
            "\r\n",
            "hello",
        ]),
        bytes_sent(request, ConnectionUse::MultipleResources)
    );
}

#[test]
fn bytes_of_an_upgrade_request() {
    let connection_use = ConnectionUse::Upgrade { protocol: "websocket".to_string() };
    let mut target = uri(Some("wss"), b"h", None, &["", "a", "b"]);
    target.fragment = Some(b"c".to_vec());
    assert_eq!(
        concat(&[
            "GET /a/b#c HTTP/1.1\r\n",
            "Host: h\r\n",
            "Accept-Encoding: gzip, deflate\r\n",
            "Connection: upgrade\r\n",
            "Upgrade: websocket\r\n",
            "\r\n",
        ]),
        bytes_sent(request_to(target), connection_use)
    );
}

#[test]
fn target_is_percent_encoded() {
    let mut target = uri(Some("http"), b"h", None, &["", "a b", "\u{e9}"]);
    target.query = Some(b"x+y".to_vec());
    let bytes = bytes_sent(request_to(target), ConnectionUse::MultipleResources);
    assert!(bytes.starts_with("GET /a%20b/%C3%A9?x%2By HTTP/1.1\r\n"));
}

#[test]
fn parts_of_the_target_keep_what_stands_for_itself() {
    let every: Vec<u8> = (0u8..=255).collect();
    let written = |plain: &str| -> String {
        every
            .iter()
            .map(|byte| {
                if byte.is_ascii_alphanumeric() || plain.contains(char::from(*byte)) {
                    char::from(*byte).to_string()
                } else {
                    format!("%{:02X}", byte)
                }
            })
            .collect()
    };
    let mut target = uri(Some("http"), b"h", None, &[""]);
    target.path.push(every.clone());
    target.query = Some(every.clone());
    target.fragment = Some(every.clone());
    let bytes = bytes_sent(request_to(target), ConnectionUse::MultipleResources);
    assert!(bytes.starts_with(&format!(
        "GET /{}?{}#{} HTTP/1.1\r\n",
        written("-._~!$&'()*+,;=:@"),
        written("-._~!$&'()*,;=:@/?"),
        written("-._~!$&'()*+,;=:@/?")
    )));
}

#[test]
fn ordinary_query() {
    let mut target = uri(Some("http"), b"h", None, &["", "foo"]);
    target.query = Some(b"a=b&c=d".to_vec());
    let bytes = bytes_sent(request_to(target), ConnectionUse::MultipleResources);
    assert!(bytes.starts_with("GET /foo?a=b&c=d HTTP/1.1\r\n"));
}

#[test]
fn request_with_relative_path() {
    let bytes = bytes_sent(
        request_to(uri(Some("http"), b"h", None, &[])),
        ConnectionUse::MultipleResources,
    );
    assert!(bytes.starts_with("GET  HTTP/1.1\r\n"));
}

#[test]
fn long_header_is_folded() {
    let mut request = request_to(uri(Some("http"), b"h", None, &[""]));
    add(&mut request, "X", &format!("{} {}", "a".repeat(990), "b".repeat(20)));
    let bytes = bytes_sent(request, ConnectionUse::MultipleResources);
    assert!(bytes.contains(&format!(
        "X: {}\r\n {}\r\n",
        "a".repeat(990),
        "b".repeat(20)
    )));
}

#[test]
fn header_is_folded_at_the_last_blank_that_fits() {
    let block = |limit: usize, value: &str| {
        let mut request = request_to(uri(Some("http"), b"h", None, &[""]));
        request.headers.set_line_limit(Some(limit));
        add(&mut request, "X", value);
        let bytes = bytes_sent(request, ConnectionUse::MultipleResources);
        let start = bytes.find("X: ").unwrap();
        let end = bytes.find("Host: ").unwrap();
        bytes[start..end].to_string()
    };
    let a = "a".repeat(20);
    let b = "b".repeat(10);
    // The blank right after the part that fits is within reach.
    assert_eq!(format!("X: {}{}\r\n c\r\n", a, b), block(35, &format!("{}{} c", a, b)));
    // Blanks before that stay where they are.
    assert_eq!(
        format!("X: {} \r\n\t{} c\r\n", a, "b".repeat(29)),
        block(34, &format!("{} \t{} c", a, "b".repeat(29)))
    );
    // A line may be folded more than once.
    assert_eq!(
        format!("X: {}\r\n\t{}\r\n c\r\n", a, "b".repeat(31)),
        block(34, &format!("{}\t{} c", a, "b".repeat(31)))
    );
    // Of blanks from there on only the last is left.
    assert_eq!(
        format!("X: {}{}\r\n\tc\r\n", a, b),
        block(35, &format!("{}{}  \tc", a, b))
    );
    assert_eq!(format!("X: {}{}\r\n \r\n", a, b), block(35, &format!("{}{}   ", a, b)));
    // What fits is not folded.
    let value = format!("{} {}", a, "b".repeat(8));
    assert_eq!(format!("X: {}\r\n", value), block(34, &value));
}

#[test]
fn header_is_not_folded_within_its_name() {
    let client: HttpClient<()> = HttpClient::new();
    let mut request = request_to(uri(Some("http"), b"h", None, &[""]));
    request.headers.set_line_limit(Some(34));
    add(&mut request, "X", &format!("{} b", "a".repeat(31)));
    assert!(matches!(
        client.fetch(request, ConnectionUse::SingleResource),
        Err(Error::BadRequest(_))
    ));
}

#[test]
fn long_header_that_cannot_be_folded() {
    let client: HttpClient<()> = HttpClient::new();
    let mut request = request_to(uri(Some("http"), b"h", None, &[""]));
    add(&mut request, "X", &"a".repeat(1000));
    assert!(matches!(
        client.fetch(request, ConnectionUse::SingleResource),
        Err(Error::BadRequest(rhymuweb::Error::Headers(
            rhymessage::Error::HeaderLineCouldNotBeFolded(_)
        )))
    ));
}

#[test]
fn long_header_without_limit() {
    let mut request = request_to(uri(Some("http"), b"h", None, &[""]));
    request.headers.set_line_limit(None);
    add(&mut request, "X", &"a".repeat(5000));
    let bytes = bytes_sent(request, ConnectionUse::MultipleResources);
    assert!(bytes.contains(&format!("X: {}\r\n", "a".repeat(5000))));
}

#[test]
fn fetch_with_useless_limit() {
    let client: HttpClient<()> = HttpClient::default();
    let mut request = request_to(uri(Some("http"), b"h", None, &[""]));
    request.headers.set_line_limit(Some(1));
    assert!(client.try_fetch(request, ConnectionUse::SingleResource).is_none());

    let mut request = Request::new();
    request.headers.set_line_limit(Some(1));
    assert!(matches!(
        client.try_fetch(request, ConnectionUse::SingleResource),
        Some(Err(Error::NoTargetAuthority(_)))
    ));

    let request = request_to(uri(Some("http"), b"h", None, &[""]));
    match client.try_fetch(request, ConnectionUse::SingleResource) {
        Some(Ok(recycling)) => assert_eq!("h", recycling.key().host),
        other => panic!("{:?}", other),
    }
}

#[test]
fn sent_bytes_end_with_the_body() {
    let mut request = request_to(uri(Some("http"), b"h", None, &[""]));
    request.body = b"\r\n\r\nbody".to_vec();
    let bytes = bytes_sent(request, ConnectionUse::SingleResource);
    assert!(bytes.ends_with("Connection: close\r\n\r\n\r\n\r\nbody"));
}

#[test]
fn request_that_could_not_be_written() {
    let key = ConnectionKey::new("h", 80, false);
    assert!(matches!(
        HttpClient::<()>::begin(
            key,
            Err(rhymuweb::Error::MessageTooLong),
            ConnectionUse::SingleResource
        ),
        Err(Error::BadRequest(rhymuweb::Error::MessageTooLong))
    ));
}

#[test]
fn tls_configuration() {
    let client: HttpClient<u32> = HttpClient::new();
    assert_eq!(None, client.tls_config());
    let client: HttpClient<u32> = HttpClient::default();
    assert_eq!(None, client.tls_config());
    let client = HttpClient::from_tls_config(42u32);
    assert_eq!(Some(&42), client.tls_config());
}

fn concat(parts: &[&str]) -> String {
    parts.concat()
}

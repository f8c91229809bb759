use rhymessage::MessageHeaders;
use rhymuweb_client::fetch::{Job, Receiving, Recycling};
use rhymuweb_client::headers::has_usable_limit;
use rhymuweb_client::response::{left_over, Exchange, Progress, Reply};
use rhymuweb_client::{
    ConnectionKey, ConnectionUse, Error, FetchResults, HttpClient, Parked, Request, Response, Step,
    Authority, Uri, RECEIVE_LIMIT,
};

const GZIPPED: [u8; 33] = [
    0x1F, 0x8B, 0x08, 0x00, 0x00, 0x00, 0x00, 0x00, 0x00, 0x0A, 0xF3, 0x48, 0xCD, 0xC9, 0xC9, 0xD7,
    0x51, 0x08, 0xCF, 0x2F, 0xCA, 0x49, 0x51, 0x04, 0x00, 0xD0, 0xC3, 0x4A, 0xEC, 0x0D, 0x00, 0x00,
    0x00,
];

fn upgrade_to(protocol: &str) -> ConnectionUse {
    ConnectionUse::Upgrade { protocol: protocol.to_string() }
}

fn job(use_tls: bool, connection_use: ConnectionUse) -> Job {
    Job {
        key: ConnectionKey::new("h", 8080, use_tls),
        raw_request: b"request".to_vec(),
        connection_use,
    }
}

fn broken() -> std::io::Error {
    std::io::Error::new(std::io::ErrorKind::Other, "broken")
}

fn receiving(connection_use: ConnectionUse, is_reused: bool) -> Receiving {
    let sending = if is_reused {
        match Recycling::new(job(false, connection_use)).recycled(Some('c')) {
            Step::Send(sending, 'c') => sending,
            step => panic!("{:?}", step),
        }
    } else {
        let connecting = match Recycling::new(job(false, connection_use)).recycled(None::<char>) {
            Step::Connect(connecting) => connecting,
            step => panic!("{:?}", step),
        };
        match connecting.connected(Ok('c')) {
            Step::Send(sending, 'c') => sending,
            step => panic!("{:?}", step),
        }
    };
    match sending.sent(Ok(()), 'c') {
        Step::Receive(receiving, 'c') => receiving,
        step => panic!("{:?}", step),
    }
}

fn receive(connection_use: ConnectionUse, pieces: &[&[u8]]) -> Step<char> {
    let mut receiving = receiving(connection_use, false);
    for piece in &pieces[..pieces.len() - 1] {
        receiving = match receiving.received(Ok(piece.to_vec()), 'c') {
            Step::Receive(receiving, 'c') => receiving,
            step => panic!("{:?}", step),
        };
    }
    receiving.received(Ok(pieces[pieces.len() - 1].to_vec()), 'c')
}

fn done(step: Step<char>) -> (FetchResults<char>, Option<Parked<char>>) {
    match step {
        Step::Done(results, parked) => (results, parked),
        step => panic!("{:?}", step),
    }
}

fn response(status_code: usize, trailer: &[u8]) -> Response {
    Response {
        status_code,
        reason_phrase: "Whatever".to_string(),
        headers: MessageHeaders::new(),
        body: b"body".to_vec(),
        trailer: trailer.to_vec(),
    }
}

#[test]
fn key_to_look_for() {
    let key = Recycling::new(job(true, ConnectionUse::SingleResource)).key();
    assert_eq!(ConnectionKey { host: "h".to_string(), port: 8080, use_tls: true }, key);
}

#[test]
fn kept_connection_is_used_at_once() {
    match Recycling::new(job(true, ConnectionUse::SingleResource)).recycled(Some('c')) {
        Step::Send(sending, 'c') => assert_eq!(b"request", sending.raw_request()),
        step => panic!("{:?}", step),
    }
}

#[test]
fn new_connection() {
    match Recycling::new(job(false, ConnectionUse::SingleResource)).recycled(None::<char>) {
        Step::Connect(connecting) => {
            assert_eq!("h:8080", connecting.address());
            assert!(matches!(connecting.connected(Ok('d')), Step::Send(_, 'd')));
        },
        step => panic!("{:?}", step),
    }
}

#[test]
fn new_connection_waits_for_tls() {
    let connecting = match Recycling::new(job(true, ConnectionUse::SingleResource))
        .recycled(None::<char>)
    {
        Step::Connect(connecting) => connecting,
        step => panic!("{:?}", step),
    };
    match connecting.connected(Ok('d')) {
        Step::Secure(securing, 'd') => {
            assert_eq!("h", securing.host());
            match securing.secured(Ok('e')) {
                Step::Send(sending, 'e') => assert_eq!(b"request", sending.raw_request()),
                step => panic!("{:?}", step),
            }
        },
        step => panic!("{:?}", step),
    }
}

#[test]
fn unable_to_connect() {
    match Recycling::new(job(true, ConnectionUse::SingleResource)).recycled(None::<char>) {
        Step::Connect(connecting) => assert!(matches!(
            connecting.connected(Err::<char, std::io::Error>(broken())),
            Step::Failed(Error::UnableToConnect(source)) if source.to_string() == "broken"
        )),
        step => panic!("{:?}", step),
    }
}

#[test]
fn tls_handshake_fails() {
    let connecting = match Recycling::new(job(true, ConnectionUse::SingleResource))
        .recycled(None::<char>)
    {
        Step::Connect(connecting) => connecting,
        step => panic!("{:?}", step),
    };
    match connecting.connected(Ok('d')) {
        Step::Secure(securing, 'd') => assert!(matches!(
            securing.secured(Err::<char, std::io::Error>(broken())),
            Step::Failed(Error::TlsHandshake(source)) if source.to_string() == "broken"
        )),
        step => panic!("{:?}", step),
    }
}

#[test]
fn unable_to_send() {
    match Recycling::new(job(false, ConnectionUse::SingleResource)).recycled(Some('c')) {
        Step::Send(sending, connection) => assert!(matches!(
            sending.sent(Err(broken()), connection),
            Step::Failed(Error::UnableToSend(source)) if source.to_string() == "broken"
        )),
        step => panic!("{:?}", step),
    }
}

#[test]
fn unable_to_receive() {
    assert!(matches!(
        receiving(ConnectionUse::SingleResource, true).received(Err(broken()), 'c'),
        Step::Failed(Error::UnableToReceive(source)) if source.to_string() == "broken"
    ));
}

#[test]
fn new_connection_is_lost() {
    assert!(matches!(
        receiving(ConnectionUse::MultipleResources, false).received(Ok(Vec::new()), 'c'),
        Step::Failed(Error::Disconnected)
    ));
}

#[test]
fn kept_connection_is_lost() {
    match receiving(ConnectionUse::MultipleResources, true).received(Ok(Vec::new()), 'c') {
        Step::Recycle(recycling) => {
            assert_eq!(ConnectionKey::new("h", 8080, false), recycling.key());
            match recycling.recycled(Some('d')) {
                Step::Send(sending, 'd') => {
                    assert_eq!(b"request", sending.raw_request());
                    match sending.sent(Ok(()), 'd') {
                        Step::Receive(receiving, 'd') => {
                            let whole = b"HTTP/1.1 204 No Content\r\n\r\n".to_vec();
                            let (results, _) = done(receiving.received(Ok(whole), 'd'));
                            assert_eq!(204, results.response.status_code);
                        },
                        step => panic!("{:?}", step),
                    }
                },
                step => panic!("{:?}", step),
            }
        },
        step => panic!("{:?}", step),
    }
}

#[test]
fn kept_connection_is_lost_within_the_response() {
    let receiving = match receiving(ConnectionUse::SingleResource, true)
        .received(Ok(b"HTTP/1.1 200 OK\r\nContent-Le".to_vec()), 'c')
    {
        Step::Receive(receiving, 'c') => receiving,
        step => panic!("{:?}", step),
    };
    let recycling = match receiving.received(Ok(Vec::new()), 'c') {
        Step::Recycle(recycling) => recycling,
        step => panic!("{:?}", step),
    };
    let sending = match recycling.recycled(Some('d')) {
        Step::Send(sending, 'd') => sending,
        step => panic!("{:?}", step),
    };
    let receiving = match sending.sent(Ok(()), 'd') {
        Step::Receive(receiving, 'd') => receiving,
        step => panic!("{:?}", step),
    };
    let whole = b"HTTP/1.1 200 OK\r\nContent-Length: 2\r\n\r\nab".to_vec();
    let (results, _) = done(receiving.received(Ok(whole), 'd'));
    assert_eq!(b"ab".to_vec(), results.response.body);
}

#[test]
fn response_in_one_piece() {
    let (results, parked) = done(receive(
        ConnectionUse::SingleResource,
        &[b"HTTP/1.1 404 Not Found\r\nX: y\r\nContent-Length: 5\r\n\r\nhello"],
    ));
    assert_eq!(404, results.response.status_code);
    assert_eq!("Not Found", results.response.reason_phrase);
    assert_eq!(Some("y"), results.response.headers.header_value("x").as_deref());
    assert_eq!(b"hello".to_vec(), results.response.body);
    assert!(results.upgrade.is_none());
    assert!(parked.is_none());
}

#[test]
fn response_in_many_pieces() {
    let whole: &[u8] = b"HTTP/1.1 200 OK\r\nX: y\r\n z\r\nContent-Length: 5\r\n\r\nhello";
    let pieces: Vec<&[u8]> = whole.chunks(1).collect();
    let (results, _) = done(receive(ConnectionUse::SingleResource, &pieces));
    assert_eq!(200, results.response.status_code);
    assert_eq!(Some("y z"), results.response.headers.header_value("X").as_deref());
    assert_eq!(b"hello".to_vec(), results.response.body);
}

#[test]
fn chunked_response() {
    let (results, _) = done(receive(
        ConnectionUse::SingleResource,
        &[
            b"HTTP/1.1 200 OK\r\nTransfer-Encoding: chunked\r\n\r\n5\r\nhel",
            b"lo\r\n1\r",
            b"\n!\r\n0\r\n\r\n",
        ],
    ));
    assert_eq!(b"hello!".to_vec(), results.response.body);
    assert_eq!(Some("6"), results.response.headers.header_value("Content-Length").as_deref());
}

#[test]
fn gzipped_response() {
    let mut whole =
        b"HTTP/1.1 200 OK\r\nContent-Encoding: gzip\r\nContent-Length: 33\r\n\r\n".to_vec();
    whole.extend_from_slice(&GZIPPED);
    let (results, _) = done(receive(ConnectionUse::SingleResource, &[&whole]));
    assert_eq!(b"Hello, World!".to_vec(), results.response.body);
    assert!(!results.response.headers.has_header("Content-Encoding"));
    assert_eq!(Some("13"), results.response.headers.header_value("Content-Length").as_deref());
}

#[test]
fn response_with_bad_coding() {
    assert!(matches!(
        receive(
            ConnectionUse::MultipleResources,
            &[b"HTTP/1.1 200 OK\r\nContent-Encoding: gzip\r\nContent-Length: 4\r\n\r\njunk"],
        ),
        Step::Failed(Error::BadResponse(rhymuweb::Error::BadContentEncoding(_)))
    ));
}

#[test]
fn response_that_is_none() {
    assert!(matches!(
        receive(ConnectionUse::MultipleResources, &[b"SMTP/1.1 200 OK\r\n\r\n"]),
        Step::Failed(Error::BadResponse(rhymuweb::Error::StatusLineProtocol(_)))
    ));
}

#[test]
fn connection_is_kept() {
    let (results, parked) = done(receive(
        ConnectionUse::MultipleResources,
        &[b"HTTP/1.1 101 Switching Protocols\r\n\r\nextra"],
    ));
    assert!(results.upgrade.is_none());
    let parked = parked.unwrap();
    assert_eq!(ConnectionKey::new("h", 8080, false), parked.key);
    assert_eq!('c', parked.connection);
}

#[test]
fn connection_is_upgraded() {
    let (results, parked) = done(receive(
        upgrade_to("websocket"),
        &[b"HTTP/1.1 101 Switching Protocols\r\nUpgrade: websocket\r\n\r\nextra"],
    ));
    let upgrade = results.upgrade.unwrap();
    assert_eq!('c', upgrade.connection);
    assert_eq!(b"extra".to_vec(), upgrade.trailer);
    assert_eq!(101, results.response.status_code);
    assert!(parked.is_none());
}

#[test]
fn connection_is_upgraded_after_a_response_of_stated_length() {
    let (results, _) = done(receive(
        upgrade_to("websocket"),
        &[b"HTTP/1.1 101 Switching Protocols\r\nContent-Length: 2\r\n\r\nokextra"],
    ));
    assert_eq!(b"ok".to_vec(), results.response.body);
    assert_eq!(b"extra".to_vec(), results.response.trailer);
    assert_eq!(b"extra".to_vec(), results.upgrade.unwrap().trailer);
}

#[test]
fn connection_is_not_upgraded() {
    let (results, parked) = done(receive(
        upgrade_to("websocket"),
        &[b"HTTP/1.1 200 OK\r\nContent-Length: 0\r\n\r\nextra"],
    ));
    assert!(results.upgrade.is_none());
    assert!(parked.is_none());
}

#[test]
fn conclusions() {
    let (results, parked) =
        job(true, upgrade_to("x")).conclude(response(101, b"ab"), b"cd".to_vec(), 'c');
    assert_eq!(b"abcd".to_vec(), results.upgrade.unwrap().trailer);
    assert_eq!(b"body".to_vec(), results.response.body);
    assert!(parked.is_none());

    let (results, parked) =
        job(true, upgrade_to("x")).conclude(response(100, b"ab"), b"cd".to_vec(), 'c');
    assert!(results.upgrade.is_none());
    assert!(parked.is_none());

    let (results, parked) = job(true, ConnectionUse::MultipleResources).conclude(
        response(500, b""),
        b"cd".to_vec(),
        'c',
    );
    assert_eq!(500, results.response.status_code);
    assert!(results.upgrade.is_none());
    assert_eq!(ConnectionKey::new("h", 8080, true), parked.unwrap().key);

    let (results, parked) =
        job(true, ConnectionUse::SingleResource).conclude(response(101, b""), Vec::new(), 'c');
    assert!(results.upgrade.is_none());
    assert!(parked.is_none());
}

#[test]
fn steps_after_decoding() {
    assert!(matches!(
        job(false, ConnectionUse::SingleResource).decoded(
            Err(rhymuweb::Error::MessageTooLong),
            Vec::new(),
            'c'
        ),
        Step::Failed(Error::BadResponse(rhymuweb::Error::MessageTooLong))
    ));
    let (results, _) = done(job(false, ConnectionUse::SingleResource).decoded(
        Ok(response(200, b"")),
        Vec::new(),
        'c',
    ));
    assert_eq!("Whatever", results.response.reason_phrase);
}

#[test]
fn steps_after_replies() {
    let reply = Reply::Bad(rhymuweb::Error::MessageTooLong);
    assert!(matches!(
        job(false, ConnectionUse::SingleResource).replied(true, reply, 'c'),
        Step::Failed(Error::BadResponse(rhymuweb::Error::MessageTooLong))
    ));
    let reply = Reply::More(Exchange::new());
    assert!(matches!(
        job(false, ConnectionUse::SingleResource).replied(true, reply, 'c'),
        Step::Receive(_, 'c')
    ));
    let reply = Reply::Whole { response: response(200, b""), rest: b"rest".to_vec() };
    let (results, _) = done(job(false, ConnectionUse::SingleResource).replied(true, reply, 'c'));
    assert_eq!(Some("4"), results.response.headers.header_value("Content-Length").as_deref());
}

#[test]
fn steps_after_disconnecting() {
    assert!(matches!(
        job(false, ConnectionUse::SingleResource).disconnected::<char>(true),
        Step::Recycle(_)
    ));
    assert!(matches!(
        job(false, ConnectionUse::SingleResource).disconnected::<char>(false),
        Step::Failed(Error::Disconnected)
    ));
}

#[test]
fn decoding_a_body_without_coding() {
    let response = response(200, b"t").decode().unwrap();
    assert_eq!(b"body".to_vec(), response.body);
    assert_eq!(b"t".to_vec(), response.trailer);
    assert_eq!(200, response.status_code);
    assert_eq!("Whatever", response.reason_phrase);
    assert_eq!(vec!["4"], response.headers.header_multi_value("Content-Length"));
}

#[test]
fn decoding_a_body_with_an_unknown_coding() {
    let mut encoded = response(200, b"");
    encoded.headers.set_header("Content-Encoding", "foobar, gzip");
    encoded.headers.set_header("Content-Length", "33");
    encoded.body = GZIPPED.to_vec();
    let decoded = encoded.decode().unwrap();
    assert_eq!(b"Hello, World!".to_vec(), decoded.body);
    assert_eq!(Some("foobar"), decoded.headers.header_value("Content-Encoding").as_deref());
    assert_eq!(Some("13"), decoded.headers.header_value("Content-Length").as_deref());
}

#[test]
fn decoding_keeps_other_headers_and_the_line_limit() {
    let mut encoded = response(200, b"");
    encoded.headers.set_header("X", "1");
    encoded.headers.set_header("Content-Encoding", "gzip");
    encoded.headers.set_header("Y", "2");
    encoded.headers.set_line_limit(Some(1));
    encoded.body = GZIPPED.to_vec();
    let decoded = encoded.decode().unwrap();
    let names: Vec<String> =
        decoded.headers.headers().iter().map(|header| header.name.to_string()).collect();
    assert_eq!(vec!["X", "Y", "Content-Length"], names);
    assert!(!has_usable_limit(&decoded.headers));
}

#[test]
fn bodies_are_put_into_responses() {
    let filled = response(404, b"t").with_body(Ok(b"other".to_vec())).unwrap();
    assert_eq!(b"other".to_vec(), filled.body);
    assert_eq!(404, filled.status_code);
    assert_eq!(b"t".to_vec(), filled.trailer);
    assert!(matches!(
        response(200, b"").with_body(Err(rhymuweb::Error::MessageTooLong)),
        Err(rhymuweb::Error::MessageTooLong)
    ));
}

#[test]
fn replies_after_parsing() {
    let piece = b"HTTP/1.1 204 No Content\r\n\r\nmore".to_vec();
    let mut parser = rhymuweb::Response::new();
    let consumed = parser.parse(&piece).unwrap().consumed;
    match Reply::after_parsing(parser, piece, Ok(Progress { complete: true, consumed })) {
        Reply::Whole { response, rest } => {
            assert_eq!(204, response.status_code);
            assert_eq!("No Content", response.reason_phrase);
            assert_eq!(b"more".to_vec(), rest);
        },
        reply => panic!("{:?}", reply),
    }

    let piece = b"HTTP/1.1 200 OK\r\nX: y".to_vec();
    let mut parser = rhymuweb::Response::new();
    let consumed = parser.parse(&piece).unwrap().consumed;
    match Reply::after_parsing(parser, piece, Ok(Progress { complete: false, consumed })) {
        Reply::More(exchange) => match exchange.receive(b"\r\n\r\n".to_vec()) {
            Reply::Whole { response, .. } => {
                assert_eq!(Some("y"), response.headers.header_value("X").as_deref());
            },
            reply => panic!("{:?}", reply),
        },
        reply => panic!("{:?}", reply),
    }

    let error = Err(rhymuweb::Error::MessageTooLong);
    assert!(matches!(
        Reply::after_parsing(rhymuweb::Response::new(), Vec::new(), error),
        Reply::Bad(rhymuweb::Error::MessageTooLong)
    ));
}

type Parts = (usize, String, Vec<(String, String)>, Vec<u8>);

fn parts_of(pieces: &[&[u8]]) -> Parts {
    let mut exchange = Exchange::new();
    for piece in pieces {
        exchange = match exchange.receive(piece.to_vec()) {
            Reply::More(exchange) => exchange,
            Reply::Whole { response, .. } => {
                assert!(has_usable_limit(&response.headers));
                let fields = response
                    .headers
                    .headers()
                    .iter()
                    .map(|header| (header.name.to_string(), header.value.clone()))
                    .collect();
                return (response.status_code, response.reason_phrase, fields, response.body);
            },
            reply => panic!("{:?}", reply),
        };
    }
    panic!("the response has no end")
}

#[test]
fn cuts_do_not_matter() {
    let streams: [&[u8]; 4] = [
        b"HTTP/1.1 200 OK\r\nX: y\r\n z\r\nW: v\r\nContent-Length: 5\r\n\r\nhelloextra",
        b"HTTP/1.1 204 No Content\r\nA: b\r\n\r\n folded? no\r\n",
        b"HTTP/1.1 200 OK\r\nContent-Length: 0\r\n\r\nextra",
        b"HTTP/1.1 200 OK\r\nTransfer-Encoding: chunked\r\n\r\n5;x=y\r\nhello\r\n1\r\n!\r\n\
          0\r\nT: u\r\n v\r\n\r\nextra",
    ];
    for stream in streams {
        let expected = parts_of(&[stream]);
        for size in 1..stream.len() {
            let pieces: Vec<&[u8]> = stream.chunks(size).collect();
            assert_eq!(expected, parts_of(&pieces));
            let (first, second) = stream.split_at(size);
            assert_eq!(expected, parts_of(&[first, second]));
        }
    }
    assert_eq!(
        (200, "OK".to_string(), b"hello!".to_vec()),
        {
            let (status_code, reason_phrase, _, body) = parts_of(&[streams[3]]);
            (status_code, reason_phrase, body)
        }
    );
}

#[test]
fn no_byte_is_lost() {
    let first = b"HTTP/1.1 200 OK\r\nX".to_vec();
    let exchange = match Exchange::new().receive(first) {
        Reply::More(exchange) => exchange,
        reply => panic!("{:?}", reply),
    };
    match exchange.receive(b": y\r\n\r\nmore".to_vec()) {
        Reply::Whole { response, rest } => {
            assert_eq!(Some("y"), response.headers.header_value("X").as_deref());
            assert_eq!(b"more".to_vec(), rest);
        },
        reply => panic!("{:?}", reply),
    }
}

#[test]
fn exchange_refuses_what_is_no_response() {
    assert!(matches!(
        Exchange::new().receive(b"junk\r\n".to_vec()),
        Reply::Bad(rhymuweb::Error::StatusLineNoProtocolDelimiter(_))
    ));
}

#[test]
fn bytes_left_over() {
    let progress = |consumed| Progress { complete: false, consumed };
    assert_eq!(b"llo".to_vec(), left_over(b"hello".to_vec(), progress(2)));
    assert_eq!(b"hello".to_vec(), left_over(b"hello".to_vec(), progress(0)));
    assert_eq!(Vec::<u8>::new(), left_over(b"hello".to_vec(), progress(5)));
}

#[test]
fn whole_fetch() {
    let client: HttpClient<()> = HttpClient::new();
    let mut request = Request::new();
    request.target = Uri {
        scheme: Some("http".to_string()),
        authority: Some(Authority {
            userinfo: None,
            host: b"www.example.com".to_vec(),
            port: None,
        }),
        path: vec![b"".to_vec(), b"foo".to_vec()],
        query: Some(b"bar".to_vec()),
        fragment: None,
    };
    let mut step: Step<char> =
        Step::Recycle(client.fetch(request, ConnectionUse::MultipleResources).unwrap());
    let mut log = Vec::new();
    let mut answers =
        vec![b"HTTP/1.1 200 OK\r\nContent-Length: 2\r\n\r\n".to_vec(), b"ok".to_vec()].into_iter();
    loop {
        step = match step {
            Step::Recycle(state) => {
                log.push(format!("recycle {:?}", state.key().host));
                state.recycled(None)
            },
            Step::Connect(state) => {
                log.push(format!("connect {:?}", state.address()));
                state.connected(Ok('c'))
            },
            Step::Secure(_, _) => panic!("no TLS was asked for"),
            Step::Send(state, connection) => {
                log.push(format!("send {}", state.raw_request().len()));
                state.sent(Ok(()), connection)
            },
            Step::Receive(state, connection) => {
                log.push("receive".to_string());
                state.received(Ok(answers.next().unwrap()), connection)
            },
            Step::Done(results, parked) => {
                assert_eq!(200, results.response.status_code);
                assert_eq!(b"ok".to_vec(), results.response.body);
                assert_eq!("www.example.com", parked.unwrap().key.host);
                break;
            },
            Step::Failed(error) => panic!("{}", error.message()),
        };
    }
    let length = concat(&[
        "GET /foo?bar HTTP/1.1\r\n",
        "Host: www.example.com\r\n",
        "Accept-Encoding: gzip, deflate\r\n\r\n",
    ])
    .len();
    assert_eq!(
        vec![
            "recycle \"www.example.com\"".to_string(),
            "connect \"www.example.com:80\"".to_string(),
            format!("send {}", length),
            "receive".to_string(),
            "receive".to_string(),
        ],
        log
    );
}

fn request_to(host: &str, path: &str) -> Request {
    let mut request = Request::new();
    request.target = Uri {
        scheme: Some("http".to_string()),
        authority: Some(Authority {
            userinfo: None,
            host: host.as_bytes().to_vec(),
            port: None,
        }),
        path: vec![Vec::new(), path.as_bytes().to_vec()],
        query: None,
        fragment: None,
    };
    request
}

fn left_by(connection_use: ConnectionUse, answer: &[u8]) -> Option<Parked<char>> {
    let client: HttpClient<()> = HttpClient::new();
    let recycling = client.fetch(request_to("h", "one"), connection_use).unwrap();
    let connecting = match recycling.recycled(None::<char>) {
        Step::Connect(connecting) => connecting,
        step => panic!("{:?}", step),
    };
    let sending = match connecting.connected(Ok('c')) {
        Step::Send(sending, 'c') => sending,
        step => panic!("{:?}", step),
    };
    let receiving = match sending.sent(Ok(()), 'c') {
        Step::Receive(receiving, 'c') => receiving,
        step => panic!("{:?}", step),
    };
    done(receiving.received(Ok(answer.to_vec()), 'c')).1
}

#[test]
fn fetches_share_a_connection() {
    let client: HttpClient<()> = HttpClient::new();
    let parked =
        left_by(ConnectionUse::MultipleResources, b"HTTP/1.1 204 No Content\r\n\r\n").unwrap();
    let second = client.fetch(request_to("h", "two"), ConnectionUse::SingleResource).unwrap();
    assert_eq!(parked.key, second.key());
    match second.recycled(Some(parked.connection)) {
        Step::Send(sending, 'c') => {
            assert!(sending.raw_request().starts_with(b"GET /two HTTP/1.1\r\n"));
            match sending.sent(Ok(()), 'c') {
                Step::Receive(receiving, 'c') => assert!(matches!(
                    receiving.received(Ok(Vec::new()), 'c'),
                    Step::Recycle(_)
                )),
                step => panic!("{:?}", step),
            }
        },
        step => panic!("{:?}", step),
    }
    let third = client.fetch(request_to("i", "two"), ConnectionUse::SingleResource).unwrap();
    assert_ne!(parked.key, third.key());
}

#[test]
fn fetches_that_leave_no_connection() {
    assert!(left_by(ConnectionUse::SingleResource, b"HTTP/1.1 204 No Content\r\n\r\n").is_none());
    for answer in ["HTTP/1.1 101 Switching Protocols\r\n\r\n", "HTTP/1.1 400 Bad\r\n\r\n"] {
        assert!(left_by(upgrade_to("websocket"), answer.as_bytes()).is_none());
    }
}

#[test]
fn nothing_is_left_from_before_starting_over() {
    let lost = match receiving(ConnectionUse::SingleResource, true)
        .received(Ok(b"HTTP/1.1 500 Lost\r\nX: y\r\nContent-Length: 9\r\n\r\nlost".to_vec()), 'c')
    {
        Step::Receive(receiving, 'c') => receiving,
        step => panic!("{:?}", step),
    };
    let recycling = match lost.received(Ok(Vec::new()), 'c') {
        Step::Recycle(recycling) => recycling,
        step => panic!("{:?}", step),
    };
    let sending = match recycling.recycled(Some('d')) {
        Step::Send(sending, 'd') => sending,
        step => panic!("{:?}", step),
    };
    let receiving = match sending.sent(Ok(()), 'd') {
        Step::Receive(receiving, 'd') => receiving,
        step => panic!("{:?}", step),
    };
    let whole = b"HTTP/1.1 200 OK\r\nContent-Length: 2\r\n\r\nab".to_vec();
    let (results, _) = done(receiving.received(Ok(whole), 'd'));
    assert_eq!(200, results.response.status_code);
    assert_eq!("OK", results.response.reason_phrase);
    assert!(!results.response.headers.has_header("X"));
    assert_eq!(b"ab".to_vec(), results.response.body);
}

#[test]
fn messages_of_errors() {
    let target = || Uri {
        scheme: None,
        authority: None,
        path: Vec::new(),
        query: None,
        fragment: None,
    };
    let messages = [
        (
            Error::BadRequest(rhymuweb::Error::MessageTooLong),
            "unable to generate HTTP request",
        ),
        (Error::BadResponse(rhymuweb::Error::MessageTooLong), "unable to parse HTTP response"),
        (Error::Disconnected, "disconnected from server"),
        (Error::HostNotValidText(Vec::new()), "unable to parse target URI host as text"),
        (Error::NoTargetAuthority(target()), "no authority provided in target URI"),
        (Error::TlsHandshake(broken()), "error performing TLS handshake with server"),
        (Error::UnableToConnect(broken()), "unable to connect to server host/port"),
        (
            Error::UnableToDetermineServerPort(target()),
            "unable to determine target server port from URI",
        ),
        (
            Error::UnableToGetPeerAddress(broken()),
            "unable to get peer address from connection",
        ),
        (Error::UnableToReceive(broken()), "unable to receive response from server"),
        (Error::UnableToSend(broken()), "unable to send request to server"),
    ];
    for (error, message) in messages {
        assert_eq!(message, error.message());
    }
}

#[test]
fn amount_to_receive() {
    assert_eq!(65536, RECEIVE_LIMIT);
}

fn concat(parts: &[&str]) -> String {
    parts.concat()
}

//! Requests: what the user asks for, what the user agent adds to it, and the
//! bytes that are sent.

use crate::connection::{ConnectionKey, ConnectionUse, KeyView};
use crate::error::{Error, ErrorView};
use crate::headers::{header_fields, is_usable_limit, line_limit, set_field, set_header, Field};
use crate::text::{decimal, decimal_text, digit};
use crate::uri::{
    asks_for_tls, find_server_port, find_standard_port, is_secure, server_port, standard_port,
    text_of, Uri, UriView,
};
use rhymessage::MessageHeaders;
use rhymuweb::Error as MessageError;
use vstd::prelude::*;
use vstd::utf8::*;

verus! {

/// A request for a web resource.
#[derive(Debug)]
pub struct Request {
    /// The method to apply to the resource.
    pub method: String,
    /// The resource.
    pub target: Uri,
    /// The headers of the request.
    pub headers: MessageHeaders,
    /// The body of the request.
    pub body: Vec<u8>,
}

/// What a [`Request`] stands for.
pub struct RequestView {
    pub method: Seq<char>,
    pub target: UriView,
    pub fields: Seq<Field>,
    pub line_limit: Option<usize>,
    pub body: Seq<u8>,
}

impl View for Request {
    type V = RequestView;

    open spec fn view(&self) -> RequestView {
        RequestView {
            method: self.method@,
            target: self.target@,
            fields: header_fields(self.headers),
            line_limit: line_limit(self.headers),
            body: self.body@,
        }
    }
}

/// A request that is ready to be sent, and where to send it.
#[derive(Debug)]
pub struct Prepared {
    /// The connections that lead to the server.
    pub key: ConnectionKey,
    /// The request as it goes to the server.
    pub request: Request,
}

/// What a [`Prepared`] stands for.
pub struct PreparedView {
    pub key: KeyView,
    pub request: RequestView,
}

impl View for Prepared {
    type V = PreparedView;

    open spec fn view(&self) -> PreparedView {
        PreparedView { key: self.key@, request: self.request@ }
    }
}

/// The value of the "Host" header: the name of the server, and its port unless
/// that is the standard one of the scheme.
pub open spec fn host_value(host: Seq<char>, port: u16, scheme: Option<Seq<char>>) -> Seq<char> {
    if standard_port(scheme) == Some(port) {
        host
    } else {
        host + ":"@ + decimal(port as nat)
    }
}

/// The headers of a request with those that the user agent sets.
pub open spec fn with_agent_fields(
    fields: Seq<Field>,
    host: Seq<char>,
    body: Seq<u8>,
    connection_use: ConnectionUse,
) -> Seq<Field> {
    let located = set_field(fields, "Host"@, host);
    let measured = if body.len() == 0 {
        located
    } else {
        set_field(located, "Content-Length"@, decimal(body.len()))
    };
    let accepting = set_field(measured, "Accept-Encoding"@, "gzip, deflate"@);
    match connection_use {
        ConnectionUse::SingleResource => set_field(accepting, "Connection"@, "close"@),
        ConnectionUse::MultipleResources => accepting,
        ConnectionUse::Upgrade { protocol } => set_field(
            set_field(accepting, "Connection"@, "upgrade"@),
            "Upgrade"@,
            protocol@,
        ),
    }
}

/// What becomes of a request: the error that keeps it from being sent, or the
/// request as it goes to the server.
pub open spec fn preparation(request: RequestView, connection_use: ConnectionUse) -> Result<
    PreparedView,
    ErrorView,
> {
    let scheme = request.target.scheme;
    let target = request.target.without_server();
    match request.target.authority {
        None => Err(ErrorView::NoTargetAuthority(request.target)),
        Some(authority) => match server_port(authority.port, scheme) {
            None => Err(ErrorView::UnableToDetermineServerPort(request.target)),
            Some(port) => if !valid_utf8(authority.host) {
                Err(ErrorView::HostNotValidText(authority.host))
            } else {
                let host = decode_utf8(authority.host);
                Ok(
                    PreparedView {
                        key: KeyView { host, port, use_tls: is_secure(scheme) },
                        request: RequestView {
                            target,
                            fields: with_agent_fields(
                                request.fields,
                                host_value(host, port, scheme),
                                request.body,
                                connection_use,
                            ),
                            ..request
                        },
                    },
                )
            },
        },
    }
}

/// Whether a byte stands for itself wherever it occurs in a URI.
pub open spec fn is_unreserved(byte: u8) -> bool {
    ||| 'a' as u8 <= byte <= 'z' as u8
    ||| 'A' as u8 <= byte <= 'Z' as u8
    ||| '0' as u8 <= byte <= '9' as u8
    ||| byte == '-' as u8
    ||| byte == '.' as u8
    ||| byte == '_' as u8
    ||| byte == '~' as u8
}

/// Whether a byte may delimit parts within a part of a URI.
pub open spec fn is_sub_delimiter(byte: u8) -> bool {
    ||| byte == '!' as u8
    ||| byte == '$' as u8
    ||| '&' as u8 <= byte <= ',' as u8
    ||| byte == ';' as u8
    ||| byte == '=' as u8
}

/// Whether a byte stands for itself in a segment of a path.
pub open spec fn is_plain_in_segment(byte: u8) -> bool {
    is_unreserved(byte) || is_sub_delimiter(byte) || byte == ':' as u8 || byte == '@' as u8
}

/// Whether a byte stands for itself in a fragment.
pub open spec fn is_plain_in_fragment(byte: u8) -> bool {
    is_plain_in_segment(byte) || byte == '/' as u8 || byte == '?' as u8
}

/// Whether a byte stands for itself in a query, where some servers would take
/// a plus sign for a space.
pub open spec fn is_plain_in_query(byte: u8) -> bool {
    is_plain_in_fragment(byte) && byte != '+' as u8
}

/// The upper case hexadecimal digit of a number below sixteen.
pub open spec fn hex_digit(d: nat) -> char {
    if d < 10 {
        digit(d)
    } else {
        (('A' as nat) + (d - 10)) as char
    }
}

/// The text of a part of a URI: bytes that stand for themselves as they are,
/// and any other as a percent sign and two hexadecimal digits.
pub open spec fn percent_encoded(part: Seq<u8>, is_plain: spec_fn(u8) -> bool) -> Seq<char>
    decreases part.len(),
{
    if part.len() == 0 {
        Seq::empty()
    } else {
        let byte = part.last();
        percent_encoded(part.drop_last(), is_plain) + if is_plain(byte) {
            seq![byte as char]
        } else {
            seq!['%', hex_digit((byte / 16) as nat), hex_digit((byte % 16) as nat)]
        }
    }
}

/// The segments of a path with a slash between each and the next.
pub open spec fn segments_text(path: Seq<Seq<u8>>) -> Seq<char>
    decreases path.len(),
{
    if path.len() == 0 {
        Seq::empty()
    } else {
        let last = percent_encoded(path.last(), |byte: u8| is_plain_in_segment(byte));
        if path.len() == 1 {
            last
        } else {
            segments_text(path.drop_last()) + "/"@ + last
        }
    }
}

/// The text of a path.  The empty absolute path is a single slash.
pub open spec fn path_text(path: Seq<Seq<u8>>) -> Seq<char> {
    if path.len() == 1 && path[0].len() == 0 {
        "/"@
    } else {
        segments_text(path)
    }
}

impl UriView {
    /// The text of path, query and fragment.
    pub open spec fn target_text(self) -> Seq<char> {
        let query = match self.query {
            Some(query) => "?"@ + percent_encoded(query, |byte: u8| is_plain_in_query(byte)),
            None => Seq::empty(),
        };
        let fragment = match self.fragment {
            Some(fragment) => "#"@ + percent_encoded(
                fragment,
                |byte: u8| is_plain_in_fragment(byte),
            ),
            None => Seq::empty(),
        };
        path_text(self.path) + query + fragment
    }
}

/// The line of a header, without line terminator.
pub open spec fn header_line(field: Field) -> Seq<u8> {
    encode_utf8(field.0 + ": "@ + field.1)
}

/// The bytes that end a line.
pub open spec fn line_terminator() -> Seq<u8> {
    seq![13u8, 10u8]
}

/// Whether a byte is a space or a tab.
pub open spec fn is_blank(byte: u8) -> bool {
    byte == 32 || byte == 9
}

/// The last blank of a line that is neither before nor after the given places.
pub open spec fn last_blank(line: Seq<u8>, from: nat, to: nat) -> Option<nat>
    decreases to,
{
    if to < from {
        None
    } else if is_blank(line[to as int]) {
        Some(to)
    } else if to == 0 {
        None
    } else {
        last_blank(line, from, (to - 1) as nat)
    }
}

/// The rest of a line that begins with blanks, with only the last of them.
pub open spec fn from_one_blank(rest: Seq<u8>) -> Seq<u8>
    decreases rest.len(),
{
    if rest.len() >= 2 && is_blank(rest[1]) {
        from_one_blank(rest.skip(1))
    } else {
        rest
    }
}

/// A header line, or what is left of it, as it is written: as it is if it is
/// no longer than the given length, and otherwise folded at the last blank
/// that leaves a part no longer than that, but at no blank before the given
/// place.  Of the blanks from there on, the last begins what is left.  Nothing
/// can be written if there is no blank to fold at.
pub open spec fn folded(line: Seq<u8>, length: nat, from: nat) -> Option<Seq<u8>>
    decreases line.len(),
    when from > 0
    via folding_ends
{
    if line.len() <= length {
        Some(line + line_terminator())
    } else {
        match last_blank(line, from, length) {
            Some(place) => match folded(from_one_blank(line.skip(place as int)), length, 1) {
                Some(rest) => Some(line.take(place as int) + line_terminator() + rest),
                None => None,
            },
            None => None,
        }
    }
}

#[via_fn]
proof fn folding_ends(line: Seq<u8>, length: nat, from: nat) {
    if line.len() > length {
        lemma_last_blank_lies_between(line, from, length);
        if let Some(place) = last_blank(line, from, length) {
            lemma_from_one_blank_is_no_longer(line.skip(place as int));
        }
    }
}

proof fn lemma_last_blank_lies_between(line: Seq<u8>, from: nat, to: nat)
    ensures
        last_blank(line, from, to) matches Some(place) ==> from <= place <= to,
    decreases to,
{
    if from <= to && !is_blank(line[to as int]) && to > 0 {
        lemma_last_blank_lies_between(line, from, (to - 1) as nat);
    }
}

proof fn lemma_from_one_blank_is_no_longer(rest: Seq<u8>)
    ensures
        from_one_blank(rest).len() <= rest.len(),
    decreases rest.len(),
{
    if rest.len() >= 2 && is_blank(rest[1]) {
        lemma_from_one_blank_is_no_longer(rest.skip(1));
    }
}

/// A header as it is written under a line limit, if it can be.  It can be
/// folded within its value, but not within its name.
pub open spec fn written_header(field: Field, line_limit: Option<usize>) -> Option<Seq<u8>> {
    match line_limit {
        Some(limit) => folded(
            header_line(field),
            (limit - 2) as nat,
            encode_utf8(field.0).len() + 2,
        ),
        None => Some(header_line(field) + line_terminator()),
    }
}

/// Headers as they are written under a line limit, if they can be, and the
/// empty line that ends them.
pub open spec fn written_headers(fields: Seq<Field>, line_limit: Option<usize>) -> Option<Seq<u8>>
    decreases fields.len(),
{
    if fields.len() == 0 {
        Some(line_terminator())
    } else {
        match (
            written_header(fields[0], line_limit),
            written_headers(fields.drop_first(), line_limit),
        ) {
            (Some(first), Some(rest)) => Some(first + rest),
            _ => None,
        }
    }
}

/// Whether a header fits on a line of its own under a line limit.
pub open spec fn fits(field: Field, line_limit: Option<usize>) -> bool {
    line_limit matches Some(limit) ==> header_line(field).len() + 2 <= limit
}

impl RequestView {
    /// Whether every header fits on a line of its own.
    pub open spec fn all_fit(self) -> bool {
        forall|i: int|
            0 <= i < self.fields.len() ==> fits(#[trigger] self.fields[i], self.line_limit)
    }

    /// The first line of the request, with its line terminator.
    pub open spec fn request_line(self) -> Seq<char> {
        self.method + " "@ + self.target.target_text() + " HTTP/1.1\r\n"@
    }

    /// The bytes that go to the server for the request, if its headers can be
    /// written: the request line, then the headers, then the body.
    pub open spec fn bytes(self) -> Option<Seq<u8>> {
        match written_headers(self.fields, self.line_limit) {
            Some(block) => Some(encode_utf8(self.request_line()) + block + self.body),
            None => None,
        }
    }
}

/// Calls [`rhymuweb::Request::generate`] on the request: the request line,
/// then the headers, then the body.  The target is written with percent
/// encoding, as [`rhymuri::Uri`] does it.  A header that does not fit on a
/// line is folded at blanks in its value, as [`MessageHeaders::generate`] does
/// it, and the call fails exactly if that is not possible for some header.
#[verifier::external_body]
pub(crate) fn generate(request: Request) -> (res: Result<Vec<u8>, MessageError>)
    requires
        request@.target == request@.target.without_server(),
        is_usable_limit(request@.line_limit),
    ensures
        match request@.bytes() {
            Some(bytes) => res is Ok && res->Ok_0@ == bytes,
            None => res is Err,
        },
{
    let mut target = rhymuri::Uri::default();
    target.set_path(request.target.path);
    target.set_query(request.target.query);
    target.set_fragment(request.target.fragment);
    let mut message = rhymuweb::Request::new();
    message.method = request.method.into();
    message.target = target;
    message.headers = request.headers;
    message.body = request.body;
    message.generate()
}

/// Write the value of the "Host" header.
pub fn write_host_value(host: &str, port: u16, scheme: &Option<String>) -> (value: String)
    ensures
        value@ == host_value(host@, port, text_of(*scheme)),
{
    let mut value = host.to_owned();
    let is_standard = match find_standard_port(scheme) {
        Some(standard) => standard == port,
        None => false,
    };
    if !is_standard {
        value.append(":");
        value.append(decimal_text(port as u64).as_str());
    }
    value
}

impl Request {
    /// Make a request with default method (GET), empty target URI, no headers
    /// or body, and header lines limited to 1000 bytes.
    pub fn new() -> (request: Request)
        ensures
            request@ == (RequestView {
                method: "GET"@,
                target: UriView {
                    scheme: None,
                    authority: None,
                    path: Seq::empty(),
                    query: None,
                    fragment: None,
                },
                fields: Seq::empty(),
                line_limit: Some(1000),
                body: Seq::empty(),
            }),
    {
        let mut headers = MessageHeaders::new();
        headers.set_line_limit(Some(1000));
        let request = Request {
            method: "GET".to_owned(),
            target: Uri {
                scheme: None,
                authority: None,
                path: Vec::new(),
                query: None,
                fragment: None,
            },
            headers,
            body: Vec::new(),
        };
        assert(request@.target.path =~= Seq::empty());
        request
    }

    /// Set the headers that the user agent takes care of.
    pub fn set_agent_headers(&mut self, host: String, connection_use: &ConnectionUse)
        ensures
            final(self)@ == (RequestView {
                fields: with_agent_fields(
                    old(self)@.fields,
                    host@,
                    old(self)@.body,
                    *connection_use,
                ),
                ..old(self)@
            }),
    {
        set_header(&mut self.headers, "Host", host);
        if !self.body.is_empty() {
            set_header(&mut self.headers, "Content-Length", decimal_text(self.body.len() as u64));
        }
        set_header(&mut self.headers, "Accept-Encoding", "gzip, deflate".to_owned());
        match connection_use {
            ConnectionUse::SingleResource => {
                set_header(&mut self.headers, "Connection", "close".to_owned());
            },
            ConnectionUse::MultipleResources => {},
            ConnectionUse::Upgrade { protocol } => {
                set_header(&mut self.headers, "Connection", "upgrade".to_owned());
                set_header(&mut self.headers, "Upgrade", protocol.clone());
            },
        }
    }

    /// Find the server for the request, and make the request ready to be sent
    /// there.
    pub fn prepare(self, connection_use: &ConnectionUse) -> (res: Result<Prepared, Error>)
        ensures
            match preparation(self@, *connection_use) {
                Ok(prepared) => res is Ok && res->Ok_0@ == prepared,
                Err(error) => res is Err && res->Err_0@ == error,
            },
    {
        let mut request = self;
        let authority = match request.target.take_authority() {
            Some(authority) => authority,
            None => {
                return Err(Error::NoTargetAuthority(request.target));
            },
        };
        let scheme = request.target.take_scheme();
        let port: u16 = match find_server_port(authority.port, &scheme) {
            Some(port) => port,
            None => {
                request.target.scheme = scheme;
                request.target.authority = Some(authority);
                return Err(Error::UnableToDetermineServerPort(request.target));
            },
        };
        let host = match core::str::from_utf8(authority.host.as_slice()) {
            Ok(host) => host.to_owned(),
            Err(_) => {
                return Err(Error::HostNotValidText(authority.host));
            },
        };
        let value = write_host_value(host.as_str(), port, &scheme);
        request.set_agent_headers(value, connection_use);
        Ok(Prepared { key: ConnectionKey::new(host.as_str(), port, asks_for_tls(&scheme)), request })
    }
}

/// The number that an upper case hexadecimal digit stands for.
pub open spec fn hex_value(c: char) -> int {
    if '0' <= c <= '9' {
        c as int - '0' as int
    } else {
        c as int - 'A' as int + 10
    }
}

/// The bytes that percent encoded text stands for.
pub open spec fn percent_decoded(text: Seq<char>) -> Seq<u8>
    decreases text.len(),
{
    if text.len() == 0 {
        Seq::empty()
    } else if text.len() >= 3 && text[text.len() - 3] == '%' {
        percent_decoded(text.take(text.len() - 3)).push(
            (16 * hex_value(text[text.len() - 2]) + hex_value(text.last())) as u8,
        )
    } else {
        percent_decoded(text.drop_last()).push(text.last() as u8)
    }
}

proof fn lemma_percent_sign_has_digits(part: Seq<u8>, is_plain: spec_fn(u8) -> bool)
    requires
        !is_plain('%' as u8),
    ensures
        ({
            let text = percent_encoded(part, is_plain);
            &&& text.len() >= 1 ==> text.last() != '%'
            &&& text.len() >= 2 ==> text[text.len() - 2] != '%'
        }),
    decreases part.len(),
{
    if part.len() > 0 {
        lemma_percent_sign_has_digits(part.drop_last(), is_plain);
    }
}

/// Percent encoded text reads back as the bytes that were written, where a
/// percent sign does not stand for itself.  Its characters are those that
/// stand for themselves, percent signs and hexadecimal digits.
pub proof fn percent_encoding_reads_back(part: Seq<u8>, is_plain: spec_fn(u8) -> bool)
    requires
        !is_plain('%' as u8),
    ensures
        percent_decoded(percent_encoded(part, is_plain)) == part,
        forall|i: int|
            0 <= i < percent_encoded(part, is_plain).len() ==> {
                let c = #[trigger] percent_encoded(part, is_plain)[i];
                ||| c == '%' || '0' <= c <= '9' || 'A' <= c <= 'F'
                ||| c as int <= 255 && is_plain(c as u8)
            },
    decreases part.len(),
{
    let text = percent_encoded(part, is_plain);
    if part.len() > 0 {
        let front = percent_encoded(part.drop_last(), is_plain);
        percent_encoding_reads_back(part.drop_last(), is_plain);
        lemma_percent_sign_has_digits(part.drop_last(), is_plain);
        if is_plain(part.last()) {
            assert(text.drop_last() =~= front);
        } else {
            assert(text.take(text.len() - 3) =~= front);
        }
        assert(percent_decoded(text) =~= part);
    }
}

/// The bytes that are written as they are: letters, digits and the marks of a
/// URI, but never what ends the part that they stand in, a percent sign, a
/// blank or anything beyond ASCII.
pub proof fn bytes_that_stand_for_themselves(byte: u8)
    ensures
        is_plain_in_segment(byte) ==> is_plain_in_fragment(byte),
        is_plain_in_query(byte) <==> is_plain_in_fragment(byte) && byte != 43,
        is_plain_in_segment(byte) <==> is_plain_in_fragment(byte) && byte != 47 && byte != 63,
        97 <= byte <= 122 || 65 <= byte <= 90 || 48 <= byte <= 57 ==> is_plain_in_segment(byte),
        is_plain_in_fragment(byte) ==> 33 <= byte <= 126 && byte != 34 && byte != 35 && byte != 37
            && byte != 60 && byte != 62 && !(91 <= byte <= 94) && byte != 96 && !(123 <= byte
            <= 125),
        33 <= byte <= 126 && byte != 34 && byte != 35 && byte != 37 && byte != 60 && byte != 62
            && !(91 <= byte <= 94) && byte != 96 && !(123 <= byte <= 125)
            ==> is_plain_in_fragment(byte),
{
}

/// The target is written part by part.  A fragment comes last, behind a number
/// sign.  A query comes before it, behind a question mark.  Segments of a path
/// are separated by slashes.  Each part is percent encoded on its own.
pub proof fn target_is_written_part_by_part(
    target: UriView,
    query: Seq<u8>,
    fragment: Seq<u8>,
    segment: Seq<u8>,
)
    ensures
        ({
            let bare = UriView { query: None, fragment: None, ..target };
            let queried = UriView { query: Some(query), ..bare };
            &&& (UriView { fragment: Some(fragment), ..target }).target_text() == (UriView {
                fragment: None,
                ..target
            }).target_text() + seq!['#'] + percent_encoded(
                fragment,
                |byte: u8| is_plain_in_fragment(byte),
            )
            &&& queried.target_text() == bare.target_text() + seq!['?'] + percent_encoded(
                query,
                |byte: u8| is_plain_in_query(byte),
            )
            &&& target.path.len() == 0 ==> bare.target_text() == Seq::<char>::empty()
            &&& target.path.len() == 0 && segment.len() > 0 ==> (UriView {
                path: seq![segment],
                ..bare
            }).target_text() == percent_encoded(segment, |byte: u8| is_plain_in_segment(byte))
            &&& target.path.len() == 1 && target.path[0].len() == 0 ==> bare.target_text() == seq![
                '/',
            ] && (UriView { path: target.path.push(segment), ..bare }).target_text() == seq!['/']
                + percent_encoded(segment, |byte: u8| is_plain_in_segment(byte))
            &&& target.path.len() > 1 || target.path.len() == 1 && target.path[0].len() > 0 ==> (
            UriView { path: target.path.push(segment), ..bare }).target_text()
                == bare.target_text() + seq!['/'] + percent_encoded(
                segment,
                |byte: u8| is_plain_in_segment(byte),
            )
        }),
{
    reveal_strlit("#");
    reveal_strlit("?");
    reveal_strlit("/");
    assert("#"@ =~= seq!['#'] && "?"@ =~= seq!['?'] && "/"@ =~= seq!['/']);
    let bare = UriView { query: None, fragment: None, ..target };
    let queried = UriView { query: Some(query), ..bare };
    let plain = |byte: u8| is_plain_in_segment(byte);
    let longer = target.path.push(segment);
    assert(longer.drop_last() =~= target.path);
    assert((UriView { fragment: Some(fragment), ..target }).target_text() =~= (UriView {
        fragment: None,
        ..target
    }).target_text() + seq!['#'] + percent_encoded(
        fragment,
        |byte: u8| is_plain_in_fragment(byte),
    ));
    assert(queried.target_text() =~= bare.target_text() + seq!['?'] + percent_encoded(
        query,
        |byte: u8| is_plain_in_query(byte),
    ));
    assert(bare.target_text() =~= path_text(target.path));
    assert((UriView { path: longer, ..bare }).target_text() =~= path_text(longer));
    assert((UriView { path: seq![segment], ..bare }).target_text() =~= path_text(seq![segment]));
    if target.path.len() == 1 && target.path[0].len() == 0 {
        assert(percent_encoded(target.path[0], plain) =~= Seq::<char>::empty());
        assert(segments_text(target.path) =~= Seq::<char>::empty());
        assert(segments_text(longer) =~= seq!['/'] + percent_encoded(segment, plain));
    }
}

/// What is left of bytes without blanks and line terminators.
pub open spec fn without_blanks(bytes: Seq<u8>) -> Seq<u8>
    decreases bytes.len(),
{
    if bytes.len() == 0 {
        Seq::empty()
    } else if bytes.last() == 32 || bytes.last() == 9 || bytes.last() == 13 || bytes.last() == 10 {
        without_blanks(bytes.drop_last())
    } else {
        without_blanks(bytes.drop_last()).push(bytes.last())
    }
}

proof fn lemma_without_blanks_joins(a: Seq<u8>, b: Seq<u8>)
    ensures
        without_blanks(a + b) == without_blanks(a) + without_blanks(b),
    decreases b.len(),
{
    if b.len() == 0 {
        assert(a + b =~= a);
        assert(without_blanks(a) + without_blanks(b) =~= without_blanks(a));
    } else {
        lemma_without_blanks_joins(a, b.drop_last());
        assert((a + b).drop_last() =~= a + b.drop_last());
        assert(without_blanks(a + b) =~= without_blanks(a) + without_blanks(b));
    }
}

proof fn lemma_terminator_is_blank()
    ensures
        without_blanks(line_terminator()) == Seq::<u8>::empty(),
{
    reveal_with_fuel(without_blanks, 3);
    assert(line_terminator().drop_last() =~= seq![13u8]);
    assert(line_terminator().drop_last().drop_last() =~= Seq::<u8>::empty());
}

proof fn lemma_dropping_blanks(rest: Seq<u8>)
    requires
        rest.len() > 0,
        is_blank(rest[0]),
    ensures
        without_blanks(from_one_blank(rest)) == without_blanks(rest),
        from_one_blank(rest).len() > 0,
        is_blank(from_one_blank(rest)[0]),
    decreases rest.len(),
{
    if rest.len() >= 2 && is_blank(rest[1]) {
        reveal_with_fuel(without_blanks, 2);
        lemma_dropping_blanks(rest.skip(1));
        assert(rest =~= seq![rest[0]] + rest.skip(1));
        lemma_without_blanks_joins(seq![rest[0]], rest.skip(1));
        assert(seq![rest[0]].drop_last() =~= Seq::<u8>::empty());
        assert(without_blanks(seq![rest[0]]) =~= Seq::<u8>::empty());
        assert(without_blanks(rest) =~= without_blanks(rest.skip(1)));
    }
}

proof fn lemma_last_blank_is_blank(line: Seq<u8>, from: nat, to: nat)
    ensures
        last_blank(line, from, to) matches Some(place) ==> is_blank(line[place as int]),
        last_blank(line, from, to) is None ==> forall|i: int|
            from <= i <= to ==> !is_blank(#[trigger] line[i]),
    decreases to,
{
    if from <= to && !is_blank(line[to as int]) && to > 0 {
        lemma_last_blank_is_blank(line, from, (to - 1) as nat);
    }
}

/// A header line that is folded loses nothing but blanks, and it ends with a
/// line terminator.  It can be written if it fits, and it cannot if it does
/// not fit and there is no blank to fold it at.
pub proof fn folding_loses_nothing_but_blanks(line: Seq<u8>, length: nat, from: nat)
    requires
        from > 0,
    ensures
        folded(line, length, from) matches Some(written) ==> {
            &&& without_blanks(written) == without_blanks(line)
            &&& written.len() >= 2
            &&& written.skip(written.len() - 2) == seq![13u8, 10u8]
        },
        line.len() <= length ==> folded(line, length, from) == Some(line + seq![13u8, 10u8]),
        line.len() > length && (forall|i: int|
            from <= i <= length ==> line[i] != 32 && #[trigger] line[i] != 9) ==> folded(
            line,
            length,
            from,
        ) is None,
    decreases line.len(),
{
    lemma_terminator_is_blank();
    if line.len() <= length {
        lemma_without_blanks_joins(line, line_terminator());
        let written = line + line_terminator();
        assert(without_blanks(written) =~= without_blanks(line));
        assert(written.skip(written.len() - 2) =~= seq![13u8, 10u8]);
    } else {
        lemma_last_blank_lies_between(line, from, length);
        lemma_last_blank_is_blank(line, from, length);
        if let Some(place) = last_blank(line, from, length) {
            let front = line.take(place as int);
            let back = line.skip(place as int);
            let rest = from_one_blank(back);
            lemma_from_one_blank_is_no_longer(back);
            lemma_dropping_blanks(back);
            folding_loses_nothing_but_blanks(rest, length, 1);
            if let Some(tail) = folded(rest, length, 1) {
                let written = front + line_terminator() + tail;
                lemma_without_blanks_joins(front, line_terminator());
                lemma_without_blanks_joins(front + line_terminator(), tail);
                lemma_without_blanks_joins(front, back);
                assert(front + back =~= line);
                assert(without_blanks(written) =~= without_blanks(line));
                assert(written.skip(written.len() - 2) =~= tail.skip(tail.len() - 2));
            }
        }
    }
}

/// Headers are written one after the other, each within the limit of the user,
/// and can be written exactly if each of them can.  With no limit each is
/// written on a line of its own, as its name, a colon, a space and its value.
pub proof fn headers_are_written_in_order(
    fields: Seq<Field>,
    field: Field,
    line_limit: Option<usize>,
)
    ensures
        written_headers(Seq::empty(), line_limit) == Some(seq![13u8, 10u8]),
        written_headers(seq![field] + fields, line_limit) is Some <==> written_header(
            field,
            line_limit,
        ) is Some && written_headers(fields, line_limit) is Some,
        written_headers(seq![field] + fields, line_limit) matches Some(block) ==> block
            == written_header(field, line_limit)->0 + written_headers(fields, line_limit)->0,
        written_header(field, None) == Some(
            encode_utf8(field.0 + ": "@ + field.1) + seq![13u8, 10u8],
        ),
        line_limit matches Some(limit) ==> limit >= 2 ==> (written_header(field, line_limit) matches
            Some(written) ==> without_blanks(written) == without_blanks(
            encode_utf8(field.0 + ": "@ + field.1),
        )),
{
    let all = seq![field] + fields;
    assert(all.drop_first() =~= fields);
    if let Some(limit) = line_limit {
        if limit >= 2 {
            folding_loses_nothing_but_blanks(
                header_line(field),
                (limit - 2) as nat,
                encode_utf8(field.0).len() + 2,
            );
        }
    }
}

} // verus!

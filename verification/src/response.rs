//! Responses: taking them in as bytes arrive, and undoing the coding of their
//! bodies.

use crate::headers::{field_values, header_fields, line_limit, other_fields, set_field, Field};
use crate::text::decimal;
use rhymessage::MessageHeaders;
use rhymuweb::Error as MessageError;
use rhymuweb::Response as ResponseParser;
use vstd::prelude::*;

verus! {

/// A response while it is taken in.
#[verifier::external_type_specification]
#[verifier::external_body]
pub struct ExResponseParser(ResponseParser);

/// A response to a request.
#[derive(Debug)]
pub struct Response {
    /// The numeric status code, which tells how the server fared with the
    /// request.
    pub status_code: usize,
    /// The description of the status code.
    pub reason_phrase: String,
    /// The headers of the response.
    pub headers: MessageHeaders,
    /// The body of the response.
    pub body: Vec<u8>,
    /// Bytes that came in the same piece as the end of a body of stated length
    /// and do not belong to the response.
    pub trailer: Vec<u8>,
}

/// What a [`Response`] stands for.
pub struct ResponseView {
    pub status_code: usize,
    pub reason_phrase: Seq<char>,
    pub fields: Seq<Field>,
    pub line_limit: Option<usize>,
    pub body: Seq<u8>,
    pub trailer: Seq<u8>,
}

impl View for Response {
    type V = ResponseView;

    open spec fn view(&self) -> ResponseView {
        ResponseView {
            status_code: self.status_code,
            reason_phrase: self.reason_phrase@,
            fields: header_fields(self.headers),
            line_limit: line_limit(self.headers),
            body: self.body@,
            trailer: self.trailer@,
        }
    }
}

/// Where a parser stands after it was given the beginning of a response.
pub struct Parsed {
    /// Whether the end of the response was found.
    pub complete: bool,
    /// How many bytes belong to what was parsed.
    pub consumed: nat,
    /// The response as far as it was parsed.
    pub response: ResponseView,
}

/// The bytes that a parser was given, first to last.  Bytes that were given
/// again because they had not been consumed count once.
pub uninterp spec fn parser_input(parser: ResponseParser) -> Seq<u8>;

/// Where a parser stands after it was given these bytes, as
/// [`ResponseParser::parse`] has it, or nothing if it rejected them.
pub uninterp spec fn parsed(input: Seq<u8>) -> Option<Parsed>;

/// Whether a parser accepts these bytes, consumes no more than there are, and
/// does not find the end of the response.
pub open spec fn is_open(input: Seq<u8>) -> bool {
    &&& parsed(input) is Some
    &&& !parsed(input)->0.complete
    &&& parsed(input)->0.consumed <= input.len()
}

/// The bytes that a parser does not consume of those it accepts.
pub open spec fn pending(input: Seq<u8>) -> Seq<u8> {
    input.skip(parsed(input)->0.consumed as int)
}

/// What a parser was given in all once it is given a piece of input after
/// other bytes, where the piece begins with those of them that are pending.
pub open spec fn continued(before: Seq<u8>, piece: Seq<u8>) -> Seq<u8> {
    before.take(parsed(before)->0.consumed as int) + piece
}

/// Whether some bytes end with others.
pub open spec fn ends_with(bytes: Seq<u8>, end: Seq<u8>) -> bool {
    bytes.len() >= end.len() && bytes.skip(bytes.len() - end.len()) == end
}

impl ResponseView {
    /// Whether two responses are the same, but for bytes that do not belong to
    /// them.
    pub open spec fn agrees_with(self, other: ResponseView) -> bool {
        self == (ResponseView { trailer: self.trailer, ..other })
    }
}

/// Whether a response that a parser has found to end with these bytes stays as
/// it is, whatever bytes follow.
pub open spec fn is_settled(input: Seq<u8>) -> bool {
    forall|more: Seq<u8>|
        {
            &&& (#[trigger] parsed(input + more)) is Some
            &&& parsed(input + more)->0.complete
            &&& parsed(input + more)->0.response.agrees_with(parsed(input)->0.response)
        }
}

/// [`ResponseParser::new`] makes a parser that was given nothing, has consumed
/// nothing, and has not found the end of a response.
pub assume_specification[ ResponseParser::new ]() -> (parser: ResponseParser)
    ensures
        parser_input(parser) == Seq::<u8>::empty(),
        is_open(parser_input(parser)),
;

/// How far a parser got with a piece of input.
#[derive(Clone, Copy, Debug, PartialEq, Eq)]
pub struct Progress {
    /// Whether the end of the response was found.
    pub complete: bool,
    /// How many bytes of the piece belong to what was parsed.
    pub consumed: usize,
}

/// Calls [`ResponseParser::parse`] with one more piece of input, while the
/// response has not ended.  The piece begins with the bytes that the parser
/// did not consume of what it was given before, as the parser asks for.  What
/// comes back depends on all the bytes, and not on how they were cut into
/// pieces.  No more bytes are consumed than the piece has.  Where the response
/// ends, the bytes that the parser keeps as its trailer are the last ones
/// consumed, and bytes that follow change nothing in the response but these.
/// The parser sets no limit on the length of a header line.
///
/// Nothing is said of a response that states a length beyond what memory can
/// hold: room for the body is set aside as soon as the length is known.
#[verifier::external_body]
fn parse(parser: &mut ResponseParser, piece: &[u8]) -> (res: Result<Progress, MessageError>)
    requires
        is_open(parser_input(*old(parser))),
        pending(parser_input(*old(parser))).is_prefix_of(piece@),
    ensures
        parser_input(*final(parser)) == continued(parser_input(*old(parser)), piece@),
        match parsed(continued(parser_input(*old(parser)), piece@)) {
            Some(after) => {
                &&& res is Ok
                &&& res->Ok_0.complete == after.complete
                &&& parsed(parser_input(*old(parser)))->0.consumed + res->Ok_0.consumed
                    == after.consumed
                &&& res->Ok_0.consumed <= piece@.len()
                &&& after.response.line_limit is None
            },
            None => res is Err,
        },
        res is Ok && res->Ok_0.complete ==> {
            &&& ends_with(
                piece@.take(res->Ok_0.consumed as int),
                parsed(parser_input(*final(parser)))->0.response.trailer,
            )
            &&& is_settled(parser_input(*final(parser)))
        },
{
    parser.parse(piece).map(
        |results|
            Progress {
                complete: match results.status {
                    rhymuweb::ResponseParseStatus::Complete => true,
                    rhymuweb::ResponseParseStatus::Incomplete => false,
                },
                consumed: results.consumed,
            },
    )
}

/// Moves the parts of a parsed response out of its [`ResponseParser`].
#[verifier::external_body]
fn into_response(parser: ResponseParser) -> (response: Response)
    requires
        parsed(parser_input(parser)) is Some,
    ensures
        response@ == parsed(parser_input(parser))->0.response,
{
    Response {
        status_code: parser.status_code,
        reason_phrase: parser.reason_phrase.into_owned(),
        headers: parser.headers,
        body: parser.body,
        trailer: parser.trailer,
    }
}

/// The headers and body of a message once the content codings of the body are
/// undone, as [`rhymuweb::coding::decode_body`] does it, or nothing if the
/// body is not what its codings make it out to be.
pub uninterp spec fn decoded(
    fields: Seq<(Seq<char>, Seq<char>)>,
    body: Seq<u8>,
) -> Option<(Seq<(Seq<char>, Seq<char>)>, Seq<u8>)>;

/// The headers that tell nothing of how long the body is and how it is coded.
pub open spec fn without_content_fields(fields: Seq<Field>) -> Seq<Field> {
    other_fields(other_fields(fields, "Content-Encoding"@), "Content-Length"@)
}

/// Calls [`rhymuweb::coding::decode_body`].  A body of which no header names a
/// coding stays as it is.  In any case "Content-Length" is then the length of
/// the body, and no header but "Content-Encoding" and "Content-Length" changes.
/// Where the call fails, the headers stay as they are.
#[verifier::external_body]
fn decode_body(headers: &mut MessageHeaders, body: Vec<u8>) -> (res: Result<Vec<u8>, MessageError>)
    ensures
        line_limit(*final(headers)) == line_limit(*old(headers)),
        match decoded(header_fields(*old(headers)), body@) {
            Some((fields, bytes)) => {
                &&& res is Ok
                &&& res->Ok_0@ == bytes
                &&& header_fields(*final(headers)) == fields
                &&& field_values(fields, "Content-Length"@) == seq![decimal(bytes.len())]
                &&& without_content_fields(fields) == without_content_fields(
                    header_fields(*old(headers)),
                )
            },
            None => res is Err && header_fields(*final(headers)) == header_fields(*old(headers)),
        },
        field_values(header_fields(*old(headers)), "Content-Encoding"@).len() == 0 ==> {
            &&& res is Ok
            &&& res->Ok_0@ == body@
            &&& header_fields(*final(headers)) == set_field(
                header_fields(*old(headers)),
                "Content-Length"@,
                decimal(body@.len()),
            )
        },
{
    rhymuweb::coding::decode_body(headers, body)
}

impl ResponseView {
    /// The response once the content codings of its body are undone, given
    /// what its headers and body then are.
    pub open spec fn with_content(self, content: Option<(Seq<Field>, Seq<u8>)>) -> Option<
        ResponseView,
    > {
        match content {
            Some((fields, body)) => Some(ResponseView { fields, body, ..self }),
            None => None,
        }
    }

    /// The response once the content codings of its body are undone.
    pub open spec fn decode(self) -> Option<ResponseView> {
        self.with_content(decoded(self.fields, self.body))
    }
}

impl Response {
    /// Put a body into the response, once its content codings were undone, or
    /// could not be.
    pub fn with_body(self, outcome: Result<Vec<u8>, MessageError>) -> (res: Result<
        Response,
        MessageError,
    >)
        ensures
            match outcome {
                Ok(body) => res is Ok && res->Ok_0 == (Response { body, ..self }),
                Err(source) => res == Err::<Response, MessageError>(source),
            },
    {
        match outcome {
            Ok(body) => {
                let mut response = self;
                response.body = body;
                Ok(response)
            },
            Err(source) => Err(source),
        }
    }

    /// Undo the content codings of the body.  "Content-Length" is then the
    /// length of the body, and no header but that and "Content-Encoding"
    /// changes.
    pub fn decode(self) -> (res: Result<Response, MessageError>)
        ensures
            match self@.decode() {
                Some(response) => res is Ok && res->Ok_0@ == response,
                None => res is Err,
            },
            res is Ok ==> {
                &&& field_values(res->Ok_0@.fields, "Content-Length"@) == seq![
                    decimal(res->Ok_0@.body.len()),
                ]
                &&& without_content_fields(res->Ok_0@.fields) == without_content_fields(
                    self@.fields,
                )
                &&& line_limit(res->Ok_0.headers) == line_limit(self.headers)
            },
            field_values(self@.fields, "Content-Encoding"@).len() == 0 ==> res is Ok
                && res->Ok_0@ == (ResponseView {
                fields: set_field(
                    self@.fields,
                    "Content-Length"@,
                    decimal(self@.body.len()),
                ),
                ..self@
            }),
    {
        let mut response = self;
        let body = response.body;
        response.body = Vec::new();
        let outcome = decode_body(&mut response.headers, body);
        response.with_body(outcome)
    }
}

/// A response that is coming in: what was parsed of it, and the bytes that
/// came in and are not parsed yet.
#[derive(Debug)]
pub struct Exchange {
    parser: ResponseParser,
    buffer: Vec<u8>,
}

/// What an [`Exchange`] stands for.
pub struct ExchangeView {
    /// The bytes that came in, first to last.
    pub received: Seq<u8>,
}

/// What a piece of input amounts to.
#[derive(Debug)]
pub enum Reply {
    /// The response has not ended yet.
    More(Exchange),
    /// The response has ended.
    Whole {
        /// The response.
        response: Response,
        /// The bytes that came in after it and that it did not keep.
        rest: Vec<u8>,
    },
    /// What came in is not a response.
    Bad(MessageError),
}

/// What a [`Reply`] stands for.
pub enum ReplyView {
    More(ExchangeView),
    Whole { response: ResponseView, rest: Seq<u8> },
    Bad,
}

impl View for Exchange {
    type V = ExchangeView;

    closed spec fn view(&self) -> ExchangeView {
        ExchangeView { received: parser_input(self.parser) }
    }
}

impl View for Reply {
    type V = ReplyView;

    open spec fn view(&self) -> ReplyView {
        match *self {
            Reply::More(exchange) => ReplyView::More(exchange@),
            Reply::Whole { response, rest } => ReplyView::Whole {
                response: response@,
                rest: rest@,
            },
            Reply::Bad(_) => ReplyView::Bad,
        }
    }
}

impl ExchangeView {
    /// The exchange before anything came in.
    pub open spec fn fresh() -> ExchangeView {
        ExchangeView { received: Seq::empty() }
    }

    /// The bytes that came in and were parsed.
    pub open spec fn taken(self) -> Seq<u8> {
        self.received.take(parsed(self.received)->0.consumed as int)
    }

    /// The bytes that came in and are not parsed yet.
    pub open spec fn pending(self) -> Seq<u8> {
        pending(self.received)
    }

    /// What more bytes amount to, given where the parser stands with them.
    pub open spec fn reply_to(self, data: Seq<u8>, parsed: Option<Parsed>) -> ReplyView {
        let received = self.received + data;
        match parsed {
            None => ReplyView::Bad,
            Some(parsed) => if parsed.complete {
                ReplyView::Whole {
                    response: parsed.response,
                    rest: received.skip(parsed.consumed as int),
                }
            } else {
                ReplyView::More(ExchangeView { received })
            },
        }
    }

    /// Whether the parser accepted all that came in, and the response has not
    /// ended.
    pub open spec fn is_open(self) -> bool {
        is_open(self.received)
    }

    /// Whether the parser, where it accepts more bytes, consumes no more than
    /// there are, and where the response ends with them, keeps as trailer the
    /// last bytes that it consumes, and has found a response that stays as it
    /// is and has no limit on the length of a header line.
    pub open spec fn heeds(self, data: Seq<u8>) -> bool {
        let received = self.received + data;
        parsed(received) matches Some(parsed) ==> {
            &&& parsed.consumed <= received.len()
            &&& parsed.complete ==> {
                &&& ends_with(received.take(parsed.consumed as int), parsed.response.trailer)
                &&& parsed.response.line_limit is None
                &&& is_settled(received)
            }
        }
    }

    /// What more bytes amount to.
    pub open spec fn reply(self, data: Seq<u8>) -> ReplyView {
        self.reply_to(data, parsed(self.received + data))
    }
}

/// Whether this is how far a parser got with the last piece of input that it
/// was given.
pub open spec fn is_progress(
    parser: ResponseParser,
    piece: Seq<u8>,
    progress: Progress,
) -> bool {
    let input = parser_input(parser);
    &&& parsed(input) is Some
    &&& progress.complete == parsed(input)->0.complete
    &&& progress.consumed <= piece.len()
    &&& parsed(input)->0.consumed <= input.len()
    &&& piece.skip(progress.consumed as int) == pending(input)
}

/// Keep the bytes of a piece of input that the parser did not consume.
pub fn left_over(input: Vec<u8>, progress: Progress) -> (rest: Vec<u8>)
    requires
        progress.consumed <= input@.len(),
    ensures
        rest@ == input@.skip(progress.consumed as int),
{
    let mut input = input;
    input.split_off(progress.consumed)
}

impl Reply {
    /// Tell what a piece of input amounts to, once the parser was given it.
    pub fn after_parsing(
        parser: ResponseParser,
        piece: Vec<u8>,
        outcome: Result<Progress, MessageError>,
    ) -> (reply: Reply)
        requires
            outcome matches Ok(progress) ==> is_progress(parser, piece@, progress),
        ensures
            match outcome {
                Ok(progress) => reply@ == (if progress.complete {
                    ReplyView::Whole {
                        response: parsed(parser_input(parser))->0.response,
                        rest: piece@.skip(progress.consumed as int),
                    }
                } else {
                    ReplyView::More(ExchangeView { received: parser_input(parser) })
                }),
                Err(source) => reply == Reply::Bad(source),
            },
    {
        match outcome {
            Ok(progress) => {
                let rest = left_over(piece, progress);
                if progress.complete {
                    Reply::Whole { response: into_response(parser), rest }
                } else {
                    Reply::More(Exchange { parser, buffer: rest })
                }
            },
            Err(source) => Reply::Bad(source),
        }
    }
}

impl Exchange {
    /// The parser accepted all that it was given, the response has not ended,
    /// and the bytes that wait are those that the parser did not consume.
    #[verifier::type_invariant]
    closed spec fn is_well_formed(self) -> bool {
        &&& is_open(parser_input(self.parser))
        &&& self.buffer@ == pending(parser_input(self.parser))
    }

    /// Start to take in a response.
    pub fn new() -> (exchange: Exchange)
        ensures
            exchange@ == ExchangeView::fresh(),
            exchange@.is_open(),
    {
        let parser = ResponseParser::new();
        let buffer: Vec<u8> = Vec::new();
        assert(buffer@ =~= pending(parser_input(parser)));
        Exchange { parser, buffer }
    }

    /// Take in more bytes of the response.
    ///
    /// Room for a body is set aside as soon as its length, or that of a chunk
    /// of it, is known.  The call does not return if a response states a
    /// length beyond what memory can hold.
    pub fn receive(self, data: Vec<u8>) -> (reply: Reply)
        ensures
            reply@ == self@.reply(data@),
            self@.is_open(),
            self@.heeds(data@),
            reply is More ==> reply->More_0@.is_open(),
    {
        proof {
            use_type_invariant(&self);
        }
        let ghost before = self@.received;
        let ghost received = before + data@;
        let Exchange { mut parser, mut buffer } = self;
        let mut data = data;
        buffer.append(&mut data);
        assert(pending(before).is_prefix_of(buffer@));
        assert(continued(before, buffer@) =~= received);
        let outcome = parse(&mut parser, buffer.as_slice());
        proof {
            if outcome is Ok {
                let taken = parsed(before)->0.consumed as int;
                let consumed = outcome->Ok_0.consumed as int;
                assert(buffer@.skip(consumed) =~= pending(received));
                assert(received.take(taken + consumed) =~= before.take(taken) + buffer@.take(
                    consumed,
                ));
                let trailer = parsed(received)->0.response.trailer;
                if outcome->Ok_0.complete {
                    let end = buffer@.take(consumed);
                    let all = received.take(taken + consumed);
                    assert(all.skip(all.len() - trailer.len()) =~= end.skip(
                        end.len() - trailer.len(),
                    ));
                }
            }
        }
        Reply::after_parsing(parser, buffer, outcome)
    }
}

} // verus!

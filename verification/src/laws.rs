//! What holds of the client as a whole.

use crate::client::beginning;
use crate::connection::{ConnectionUse, KeyView};
use crate::error::{Error, ErrorView};
use crate::fetch::{
    after_decoding, after_disconnect, after_reply, conclusion, next, Event, Job, JobView, State,
    Step, StepView, SWITCHING_PROTOCOLS,
};
use crate::headers::{
    field_values, header_fields, is_usable_limit, line_limit, other_fields,
    other_fields_keep_the_rest, same_name, set_field, set_header_reads_back, Field,
};
use crate::request::{
    fits, header_line, host_value, line_terminator, preparation, with_agent_fields,
    written_headers, Prepared, PreparedView, Request, RequestView,
};
use crate::response::{
    continued, decoded, ends_with, is_open, is_settled, parsed, pending, ExchangeView, Reply,
    ReplyView, Response, ResponseView,
};
use crate::text::{decimal, decimal_has_no_leading_zero, decimal_reads_back, decimal_value};
use crate::uri::{is_secure, secure_schemes_are_served_at_443, server_port, standard_port};
use vstd::prelude::*;
use vstd::utf8::{decode_utf8_encode_utf8, encode_utf8, valid_utf8};

verus! {

/// The value that the client gives to the header of the given name, if it
/// sets that header.
pub open spec fn agent_value(
    name: Seq<char>,
    host: Seq<char>,
    body: Seq<u8>,
    connection_use: ConnectionUse,
) -> Option<Seq<char>> {
    if same_name("Host"@, name) {
        Some(host)
    } else if same_name("Content-Length"@, name) && body.len() > 0 {
        Some(decimal(body.len()))
    } else if same_name("Accept-Encoding"@, name) {
        Some("gzip, deflate"@)
    } else if same_name("Connection"@, name) && connection_use is SingleResource {
        Some("close"@)
    } else if same_name("Connection"@, name) && connection_use is Upgrade {
        Some("upgrade"@)
    } else if same_name("Upgrade"@, name) && connection_use is Upgrade {
        Some(connection_use->protocol@)
    } else {
        None
    }
}

/// A header that the client sets goes to the server once and with the value
/// that the client gives it, whatever the user had put there.  Any other
/// header goes to the server with the values that the user gave it.
pub proof fn headers_that_are_sent(
    fields: Seq<Field>,
    host: Seq<char>,
    body: Seq<u8>,
    connection_use: ConnectionUse,
    name: Seq<char>,
)
    ensures
        field_values(with_agent_fields(fields, host, body, connection_use), name) == (
        match agent_value(name, host, body, connection_use) {
            Some(value) => seq![value],
            None => field_values(fields, name),
        }),
{
    lemma_lengths_of_names();
    let located = set_field(fields, "Host"@, host);
    let measured = if body.len() == 0 {
        located
    } else {
        set_field(located, "Content-Length"@, decimal(body.len()))
    };
    let accepting = set_field(measured, "Accept-Encoding"@, "gzip, deflate"@);
    set_header_reads_back(fields, "Host"@, host, name);
    set_header_reads_back(located, "Content-Length"@, decimal(body.len()), name);
    set_header_reads_back(measured, "Accept-Encoding"@, "gzip, deflate"@, name);
    set_header_reads_back(accepting, "Connection"@, "close"@, name);
    set_header_reads_back(accepting, "Connection"@, "upgrade"@, name);
    let told = set_field(accepting, "Connection"@, "upgrade"@);
    set_header_reads_back(told, "Upgrade"@, connection_use->protocol@, name);
}

proof fn lemma_lengths_of_names()
    ensures
        "Host"@.len() == 4,
        "Content-Length"@.len() == 14,
        "Accept-Encoding"@.len() == 15,
        "Connection"@.len() == 10,
        "Upgrade"@.len() == 7,
{
    reveal_strlit("Host");
    reveal_strlit("Content-Length");
    reveal_strlit("Accept-Encoding");
    reveal_strlit("Connection");
    reveal_strlit("Upgrade");
}

/// A request says once who it is for, how long its body is if it has one, what
/// codings are understood, and what the connection is for.
pub proof fn client_sets_its_headers(
    fields: Seq<Field>,
    host: Seq<char>,
    body: Seq<u8>,
    connection_use: ConnectionUse,
)
    ensures
        ({
            let sent = with_agent_fields(fields, host, body, connection_use);
            &&& field_values(sent, "Host"@) == seq![host]
            &&& body.len() > 0 ==> field_values(sent, "Content-Length"@) == seq![
                decimal(body.len()),
            ]
            &&& field_values(sent, "Accept-Encoding"@) == seq!["gzip, deflate"@]
            &&& connection_use is SingleResource ==> field_values(sent, "Connection"@) == seq![
                "close"@,
            ]
            &&& connection_use matches ConnectionUse::Upgrade { protocol } ==> field_values(
                sent,
                "Connection"@,
            ) == seq!["upgrade"@] && field_values(sent, "Upgrade"@) == seq![protocol@]
        }),
{
    lemma_lengths_of_names();
    headers_that_are_sent(fields, host, body, connection_use, "Host"@);
    headers_that_are_sent(fields, host, body, connection_use, "Content-Length"@);
    headers_that_are_sent(fields, host, body, connection_use, "Accept-Encoding"@);
    headers_that_are_sent(fields, host, body, connection_use, "Connection"@);
    headers_that_are_sent(fields, host, body, connection_use, "Upgrade"@);
}

/// What is sent is the request that the user made, but for the headers that
/// the client sets: the method, the body, and the path, query and fragment of
/// the target are the user's, and the target no longer names the server.
pub proof fn preparing_keeps_the_request(request: RequestView, connection_use: ConnectionUse)
    requires
        preparation(request, connection_use) is Ok,
    ensures
        ({
            let sent = preparation(request, connection_use)->Ok_0.request;
            &&& sent.method == request.method
            &&& sent.body == request.body
            &&& sent.line_limit == request.line_limit
            &&& sent.target.path == request.target.path
            &&& sent.target.query == request.target.query
            &&& sent.target.fragment == request.target.fragment
            &&& sent.target.scheme is None
            &&& sent.target.authority is None
        }),
{
}

/// The "Host" header of what is sent is the address of the server that the
/// client contacts, or the name of that server alone where it is contacted at
/// the standard port of the scheme.
pub proof fn host_header_names_the_server(request: RequestView, connection_use: ConnectionUse)
    requires
        preparation(request, connection_use) is Ok,
    ensures
        ({
            let prepared = preparation(request, connection_use)->Ok_0;
            field_values(prepared.request.fields, "Host"@) == seq![
                if standard_port(request.target.scheme) == Some(prepared.key.port) {
                    prepared.key.host
                } else {
                    prepared.key.address()
                },
            ]
        }),
{
    let key = preparation(request, connection_use)->Ok_0.key;
    client_sets_its_headers(
        request.fields,
        host_value(key.host, key.port, request.target.scheme),
        request.body,
        connection_use,
    );
}

/// The "Content-Length" header of a request with a body reads as the number of
/// bytes in the body.
pub proof fn content_length_is_the_length(request: RequestView, connection_use: ConnectionUse)
    requires
        preparation(request, connection_use) is Ok,
        request.body.len() > 0,
    ensures
        ({
            let sent = preparation(request, connection_use)->Ok_0.request;
            let lengths = field_values(sent.fields, "Content-Length"@);
            lengths.len() == 1 && decimal_value(lengths[0]) == sent.body.len()
        }),
{
    let key = preparation(request, connection_use)->Ok_0.key;
    client_sets_its_headers(
        request.fields,
        host_value(key.host, key.port, request.target.scheme),
        request.body,
        connection_use,
    );
    decimal_reads_back(request.body.len());
}

/// Which requests cannot be sent, and why: a request needs an authority, a
/// port that the authority or the scheme gives, and a host that is text, and
/// these are asked for in this order.
pub proof fn requests_that_cannot_be_sent(request: RequestView, connection_use: ConnectionUse)
    ensures
        ({
            let outcome = preparation(request, connection_use);
            let target = request.target;
            let has_port = target.authority is Some && server_port(
                target.authority->0.port,
                target.scheme,
            ) is Some;
            &&& outcome == Err::<PreparedView, ErrorView>(ErrorView::NoTargetAuthority(target))
                <==> target.authority is None
            &&& outcome == Err::<PreparedView, ErrorView>(
                ErrorView::UnableToDetermineServerPort(target),
            ) <==> target.authority is Some && !has_port
            &&& outcome == Err::<PreparedView, ErrorView>(
                ErrorView::HostNotValidText(target.authority->0.host),
            ) <==> has_port && !valid_utf8(target.authority->0.host)
            &&& outcome is Ok <==> has_port && valid_utf8(target.authority->0.host)
        }),
{
}

/// Headers, one on each line, and the empty line that ends them.
pub open spec fn header_lines(fields: Seq<Field>) -> Seq<u8>
    decreases fields.len(),
{
    if fields.len() == 0 {
        line_terminator()
    } else {
        header_line(fields[0]) + line_terminator() + header_lines(fields.drop_first())
    }
}

proof fn lemma_headers_that_fit(fields: Seq<Field>, line_limit: Option<usize>)
    requires
        forall|i: int| 0 <= i < fields.len() ==> fits(#[trigger] fields[i], line_limit),
    ensures
        written_headers(fields, line_limit) == Some(header_lines(fields)),
    decreases fields.len(),
{
    if fields.len() > 0 {
        assert(fits(fields[0], line_limit));
        let rest = fields.drop_first();
        assert forall|i: int| 0 <= i < rest.len() implies fits(#[trigger] rest[i], line_limit) by {
            assert(rest[i] == fields[i + 1]);
        }
        lemma_headers_that_fit(rest, line_limit);
    }
}

/// A request that can be sent is sent if each of its headers fits on a line,
/// and so always if there is no limit on the length of a line.  Each header
/// then goes to the server on a line of its own.
pub proof fn requests_that_fit_are_sent(request: RequestView, connection_use: ConnectionUse)
    requires
        preparation(request, connection_use) is Ok,
        request.line_limit is None || preparation(request, connection_use)->Ok_0.request.all_fit(),
    ensures
        beginning(request, connection_use) is Ok,
        ({
            let sent = preparation(request, connection_use)->Ok_0.request;
            beginning(request, connection_use)->Ok_0.job().raw_request == encode_utf8(
                sent.request_line(),
            ) + header_lines(sent.fields) + sent.body
        }),
{
    let sent = preparation(request, connection_use)->Ok_0.request;
    lemma_headers_that_fit(sent.fields, sent.line_limit);
}

/// The bytes that go to the server end with the body of the request.
pub proof fn sent_bytes_end_with_the_body(request: RequestView, connection_use: ConnectionUse)
    requires
        beginning(request, connection_use) is Ok,
    ensures
        ({
            let bytes = beginning(request, connection_use)->Ok_0.job().raw_request;
            &&& bytes.len() >= request.body.len()
            &&& bytes.skip(bytes.len() - request.body.len()) == request.body
        }),
{
    let bytes = beginning(request, connection_use)->Ok_0.job().raw_request;
    assert(bytes.skip(bytes.len() - request.body.len()) =~= request.body);
}

/// The step that a fetch has come to after the given events, if each of them
/// was one that the fetch waited for.
pub open spec fn run<C>(start: State, events: Seq<Event<C>>) -> Option<StepView<C>>
    decreases events.len(),
{
    if events.len() == 0 {
        Some(start.alone())
    } else {
        match run(start, events.drop_last()) {
            Some(StepView::Continue { state, .. }) => next(state, events.last()),
            _ => None,
        }
    }
}

/// How many of the events are attempts to connect to the server anew.
pub open spec fn attempts<C>(events: Seq<Event<C>>) -> nat
    decreases events.len(),
{
    if events.len() == 0 {
        0
    } else {
        attempts(events.drop_last()) + if events.last() is Connected {
            1nat
        } else {
            0nat
        }
    }
}

/// How many of the events are attempts to secure a connection.
pub open spec fn handshakes<C>(events: Seq<Event<C>>) -> nat
    decreases events.len(),
{
    if events.len() == 0 {
        0
    } else {
        handshakes(events.drop_last()) + if events.last() is Secured {
            1nat
        } else {
            0nat
        }
    }
}

/// How often a fetch in the given state has tried to connect anew.
pub open spec fn attempts_before(state: State) -> nat {
    match state {
        State::Recycling(_) => 0,
        State::Connecting(_) => 0,
        State::Securing(_) => 1,
        State::Sending { is_reused, .. } => if is_reused {
            0
        } else {
            1
        },
        State::Receiving { is_reused, .. } => if is_reused {
            0
        } else {
            1
        },
    }
}

/// How often a fetch in the given state has tried to secure a connection.
pub open spec fn handshakes_before(state: State) -> nat {
    match state {
        State::Sending { job, is_reused } => if !is_reused && job.key.use_tls {
            1
        } else {
            0
        },
        State::Receiving { job, is_reused, .. } => if !is_reused && job.key.use_tls {
            1
        } else {
            0
        },
        _ => 0,
    }
}

/// Throughout a fetch the server, the bytes of the request and the use of the
/// connection stay what they were at the beginning, however often the fetch
/// starts over; and the state tells how often the fetch has tried to connect
/// and to secure a connection.
pub proof fn fetch_keeps_its_job<C>(job: JobView, events: Seq<Event<C>>)
    ensures
        run(State::Recycling(job), events) matches Some(StepView::Continue { state, .. }) ==> {
            &&& state.job() == job
            &&& attempts(events) == attempts_before(state)
            &&& handshakes(events) == handshakes_before(state)
        },
    decreases events.len(),
{
    if events.len() > 0 {
        fetch_keeps_its_job(job, events.drop_last());
    }
}

/// A fetch connects to the server at most once.  If it starts over, that is
/// with connections that had been kept.
pub proof fn fetch_connects_at_most_once<C>(job: JobView, events: Seq<Event<C>>)
    requires
        run(State::Recycling(job), events) is Some,
    ensures
        attempts(events) <= 1,
{
    if events.len() > 0 {
        fetch_keeps_its_job(job, events.drop_last());
    }
}

/// A lost connection is reported only if the connection was made for this
/// fetch.  With a connection that had been kept, the fetch starts over.
pub proof fn lost_kept_connection_is_no_failure<C>(job: JobView, events: Seq<Event<C>>)
    requires
        run(State::Recycling(job), events) == Some(
            StepView::<C>::Failed(ErrorView::Disconnected),
        ),
    ensures
        attempts(events) == 1,
{
    fetch_keeps_its_job(job, events.drop_last());
}

/// If the server is to be contacted using TLS, the request goes over a new
/// connection only once that connection was secured.
pub proof fn request_waits_for_tls<C>(job: JobView, events: Seq<Event<C>>)
    requires
        job.key.use_tls,
        run(State::Recycling(job), events) matches Some(StepView::Continue { state, .. })
            && (state matches State::Sending { is_reused: false, .. }),
    ensures
        handshakes(events) == 1,
{
    fetch_keeps_its_job(job, events);
}

/// A response leaves the connection upgraded exactly if an upgrade was asked
/// for and the server agreed, and kept exactly if further resources are to be
/// fetched.  It is kept under the key that was looked for at the beginning.
pub proof fn connection_goes_where_it_should<C>(job: JobView, events: Seq<Event<C>>)
    ensures
        run(State::Recycling(job), events) matches Some(StepView::Done(answer)) ==> {
            &&& answer.upgrade is Some <==> job.connection_use is Upgrade
                && answer.response.status_code == SWITCHING_PROTOCOLS
            &&& answer.parked is Some <==> job.connection_use is MultipleResources
            &&& answer.parked matches Some((key, _)) ==> key == job.key
        },
{
    if events.len() > 0 {
        fetch_keeps_its_job(job, events.drop_last());
    }
}

/// A fetch that fails tells what went wrong: the input or output that failed,
/// and with what, or that the connection was closed, or that bytes came in
/// which do not make a response.
pub proof fn failures_tell_what_went_wrong<C>(job: JobView, events: Seq<Event<C>>)
    requires
        run(State::Recycling(job), events) is Some,
        events.len() > 0,
    ensures
        ({
            let step = run(State::Recycling(job), events)->0;
            &&& forall|source: std::io::Error| #[trigger]
                failed_with(step, ErrorView::UnableToConnect(source)) <==> events.last()
                    == Event::<C>::Connected(Err(source))
            &&& forall|source: std::io::Error| #[trigger]
                failed_with(step, ErrorView::TlsHandshake(source)) <==> events.last() == Event::<
                    C,
                >::Secured(Err(source))
            &&& forall|source: std::io::Error| #[trigger]
                failed_with(step, ErrorView::UnableToSend(source)) <==> (events.last() matches
                    Event::Sent(Err(e), _) && e == source)
            &&& forall|source: std::io::Error| #[trigger]
                failed_with(step, ErrorView::UnableToReceive(source)) <==> (events.last() matches
                    Event::Received(Err(e), _) && e == source)
            &&& failed_with(step, ErrorView::Disconnected) ==> (events.last() matches
                Event::Received(Ok(data), _) && data.len() == 0)
            &&& failed_with(step, ErrorView::BadResponse) ==> (events.last() matches
                Event::Received(Ok(data), _) && data.len() > 0)
            &&& step matches StepView::Failed(error) ==> {
                ||| error is UnableToConnect
                ||| error is TlsHandshake
                ||| error is UnableToSend
                ||| error is UnableToReceive
                ||| error is Disconnected
                ||| error is BadResponse
            }
        }),
{
}

/// Whether a fetch has failed with the given error.
pub open spec fn failed_with<C>(step: StepView<C>, error: ErrorView) -> bool {
    step == StepView::<C>::Failed(error)
}

/// A connection that is handed over or kept is the one over which the response
/// came in.
pub proof fn connection_is_the_one_used<C>(job: JobView, events: Seq<Event<C>>)
    ensures
        run(State::Recycling(job), events) matches Some(StepView::Done(answer)) ==> {
            &&& events.len() > 0
            &&& events.last() matches Event::Received(_, connection) && {
                &&& answer.upgrade matches Some((given, _)) ==> given == connection
                &&& answer.parked matches Some((_, given)) ==> given == connection
            }
        },
{
}

/// The exchange after the given pieces came in, if the response had not ended
/// with any of them.
pub open spec fn exchange_after(pieces: Seq<Seq<u8>>) -> Option<ExchangeView>
    decreases pieces.len(),
{
    if pieces.len() == 0 {
        Some(ExchangeView::fresh())
    } else {
        match exchange_after(pieces.drop_last()) {
            Some(exchange) => match exchange.reply(pieces.last()) {
                ReplyView::More(exchange) => Some(exchange),
                _ => None,
            },
            None => None,
        }
    }
}

/// While a response comes in, however its bytes are split into pieces, each
/// byte that came in is either parsed, once and in order, or still waiting to
/// be.
pub proof fn no_byte_is_lost(pieces: Seq<Seq<u8>>)
    requires
        exchange_after(pieces) matches Some(exchange) && exchange.is_open(),
    ensures
        ({
            let exchange = exchange_after(pieces)->0;
            pieces.flatten() == exchange.taken() + exchange.pending()
        }),
{
    let exchange = exchange_after(pieces)->0;
    lemma_all_is_received(pieces);
    assert(exchange.received =~= exchange.taken() + exchange.pending());
}

proof fn lemma_all_is_received(pieces: Seq<Seq<u8>>)
    requires
        exchange_after(pieces) is Some,
    ensures
        exchange_after(pieces)->0.received == pieces.flatten(),
    decreases pieces.len(),
{
    if pieces.len() == 0 {
        assert(pieces.flatten() =~= Seq::empty());
    } else {
        lemma_all_is_received(pieces.drop_last());
        assert(pieces.flatten() =~= pieces.drop_last().flatten() + pieces.last()) by {
            pieces.lemma_flatten_and_flatten_alt_are_equivalent();
            pieces.drop_last().lemma_flatten_and_flatten_alt_are_equivalent();
        }
    }
}

/// When a response ends, each byte that came in was either parsed, once and in
/// order, or is left over after the response.
pub proof fn no_byte_is_lost_at_the_end(pieces: Seq<Seq<u8>>, last: Seq<u8>)
    requires
        exchange_after(pieces) matches Some(exchange) && {
            &&& exchange.heeds(last)
            &&& exchange.reply(last) is Whole
        },
    ensures
        ({
            let all = pieces.flatten() + last;
            all == all.take(parsed(all)->0.consumed as int) + exchange_after(pieces)->0.reply(
                last,
            )->rest
        }),
{
    let all = pieces.flatten() + last;
    lemma_all_is_received(pieces);
    assert(all =~= all.take(parsed(all)->0.consumed as int) + exchange_after(pieces)->0.reply(
        last,
    )->rest);
}

/// The bytes that go with an upgraded connection are the last ones that came
/// in: those that the parser kept as not belonging to the response, and those
/// left over after it.
pub proof fn trailer_is_what_came_last<C>(
    pieces: Seq<Seq<u8>>,
    last: Seq<u8>,
    job: JobView,
    is_reused: bool,
    connection: C,
)
    requires
        exchange_after(pieces) matches Some(exchange) && {
            &&& exchange.heeds(last)
            &&& exchange.reply(last) is Whole
        },
    ensures
        ({
            let exchange = exchange_after(pieces)->0;
            let state = State::Receiving { job, is_reused, exchange };
            next(state, Event::Received(Ok(last), connection)) matches Some(StepView::Done(answer))
                ==> (answer.upgrade matches Some((_, trailer)) ==> ends_with(
                pieces.flatten() + last,
                trailer,
            ))
        }),
{
    let all = pieces.flatten() + last;
    let kept = parsed(all)->0.response.trailer;
    let taken = all.take(parsed(all)->0.consumed as int);
    let rest = exchange_after(pieces)->0.reply(last)->rest;
    lemma_all_is_received(pieces);
    no_byte_is_lost_at_the_end(pieces, last);
    assert(all.skip(all.len() - (kept + rest).len()) =~= taken.skip(taken.len() - kept.len())
        + rest);
    assert(ends_with(all, kept + rest));
}

/// The response that is found at the end of the given pieces.
pub open spec fn response_in(pieces: Seq<Seq<u8>>, last: Seq<u8>) -> Option<ResponseView> {
    match exchange_after(pieces) {
        Some(exchange) => match exchange.reply(last) {
            ReplyView::Whole { response, .. } => Some(response),
            _ => None,
        },
        None => None,
    }
}

/// How the network cuts what the server sends into pieces does not matter: two
/// responses found in one stream of bytes, each in as many pieces of it as it
/// took, are the same in status, reason, headers and body, before and after
/// their content codings are undone.
pub proof fn cuts_do_not_matter(
    stream: Seq<u8>,
    one: Seq<Seq<u8>>,
    one_last: Seq<u8>,
    other: Seq<Seq<u8>>,
    other_last: Seq<u8>,
)
    requires
        (one.flatten() + one_last).is_prefix_of(stream),
        (other.flatten() + other_last).is_prefix_of(stream),
        response_in(one, one_last) is Some,
        response_in(other, other_last) is Some,
        exchange_after(one)->0.heeds(one_last),
        exchange_after(other)->0.heeds(other_last),
    ensures
        ({
            let found = response_in(one, one_last)->0;
            let again = response_in(other, other_last)->0;
            &&& found.agrees_with(again)
            &&& found.decode() is Some <==> again.decode() is Some
            &&& found.decode() is Some ==> found.decode()->0.agrees_with(again.decode()->0)
        }),
{
    let a = one.flatten() + one_last;
    let b = other.flatten() + other_last;
    lemma_all_is_received(one);
    lemma_all_is_received(other);
    if a.len() <= b.len() {
        let more = b.skip(a.len() as int);
        assert(a + more =~= b);
        assert(parsed(a + more) is Some);
    } else {
        let more = a.skip(b.len() as int);
        assert(b + more =~= a);
        assert(parsed(b + more) is Some);
    }
}

/// The bytes that came in since the request was last sent.
pub open spec fn bytes_since_sent<C>(events: Seq<Event<C>>) -> Seq<u8>
    decreases events.len(),
{
    if events.len() == 0 {
        Seq::empty()
    } else {
        match events.last() {
            Event::Sent(_, _) => Seq::empty(),
            Event::Received(Ok(data), _) => bytes_since_sent(events.drop_last()) + data,
            _ => bytes_since_sent(events.drop_last()),
        }
    }
}

/// While a response comes in, what there is of it is the bytes that came in
/// since the request was last sent.  Nothing is left from before the fetch
/// started over.
pub proof fn exchange_holds_the_bytes<C>(job: JobView, events: Seq<Event<C>>)
    ensures
        run(State::Recycling(job), events) matches Some(StepView::Continue { state, .. }) ==> (
        state matches State::Receiving { exchange, .. } ==> exchange.received == bytes_since_sent(
            events,
        )),
    decreases events.len(),
{
    if events.len() > 0 {
        exchange_holds_the_bytes(job, events.drop_last());
    }
}

/// What a fetch makes of bytes that come in depends on the bytes that came in
/// since the request was last sent, and on nothing before that: it fails if
/// they are no response or the content codings of the response cannot be
/// undone, it goes on if the response has not ended, and otherwise it is done.
pub proof fn bytes_decide_the_outcome<C>(job: JobView, events: Seq<Event<C>>)
    requires
        run(State::Recycling(job), events) is Some,
        events.len() > 0,
        events.last() matches Event::Received(Ok(data), _) && data.len() > 0,
    ensures
        ({
            let step = run(State::Recycling(job), events)->0;
            let bytes = bytes_since_sent(events);
            match parsed(bytes) {
                None => failed_with(step, ErrorView::BadResponse),
                Some(parsed) => if !parsed.complete {
                    step matches StepView::Continue { state: State::Receiving { exchange, .. }, .. }
                        && exchange.received == bytes
                } else {
                    match parsed.response.decode() {
                        Some(response) => step == StepView::Done(
                            conclusion(
                                job,
                                response,
                                bytes.skip(parsed.consumed as int),
                                events.last()->Received_1,
                            ),
                        ),
                        None => failed_with(step, ErrorView::BadResponse),
                    }
                },
            }
        }),
{
    fetch_keeps_its_job(job, events.drop_last());
    exchange_holds_the_bytes(job, events.drop_last());
}

/// The response that a fetch gives is the one that the server sent: the bytes
/// that came in since the request was last sent make a whole response, and the
/// answer is that response once its content codings are undone.
pub proof fn answer_is_what_the_server_sent<C>(job: JobView, events: Seq<Event<C>>)
    ensures
        run(State::Recycling(job), events) matches Some(StepView::Done(answer)) ==> (parsed(
            bytes_since_sent(events),
        ) matches Some(parsed) && {
            &&& parsed.complete
            &&& parsed.response.decode() == Some(answer.response)
        }),
{
    if run(State::Recycling(job), events) matches Some(StepView::Done(_)) {
        bytes_decide_the_outcome(job, events);
    }
}

/// The answer of a fetch does not depend on how the network cuts what the
/// server sends into pieces: fetches that get a response out of one stream of
/// bytes give the same status, reason, headers and body.
pub proof fn cuts_do_not_change_the_answer<C>(
    stream: Seq<u8>,
    one: JobView,
    one_events: Seq<Event<C>>,
    other: JobView,
    other_events: Seq<Event<C>>,
)
    requires
        bytes_since_sent(one_events).is_prefix_of(stream),
        bytes_since_sent(other_events).is_prefix_of(stream),
        run(State::Recycling(one), one_events) matches Some(StepView::Done(_)),
        run(State::Recycling(other), other_events) matches Some(StepView::Done(_)),
        is_settled(bytes_since_sent(one_events)),
        is_settled(bytes_since_sent(other_events)),
    ensures
        run(State::Recycling(one), one_events)->0->Done_0.response.agrees_with(
            run(State::Recycling(other), other_events)->0->Done_0.response,
        ),
{
    let a = bytes_since_sent(one_events);
    let b = bytes_since_sent(other_events);
    answer_is_what_the_server_sent(one, one_events);
    answer_is_what_the_server_sent(other, other_events);
    if a.len() <= b.len() {
        let more = b.skip(a.len() as int);
        assert(a + more =~= b);
        assert(parsed(a + more) is Some);
    } else {
        let more = a.skip(b.len() as int);
        assert(b + more =~= a);
        assert(parsed(b + more) is Some);
    }
}

/// Whether two requests go to the same server in the same way.
pub open spec fn same_server(one: RequestView, other: RequestView) -> bool {
    let one = one.target;
    let other = other.target;
    &&& one.authority->0.host == other.authority->0.host
    &&& server_port(one.authority->0.port, one.scheme) == server_port(
        other.authority->0.port,
        other.scheme,
    )
    &&& is_secure(one.scheme) == is_secure(other.scheme)
}

/// Two requests may share a connection exactly if they go to the same host, at
/// the same port, and both or neither using TLS.
pub proof fn same_server_same_key(
    one: RequestView,
    one_use: ConnectionUse,
    other: RequestView,
    other_use: ConnectionUse,
)
    requires
        preparation(one, one_use) is Ok,
        preparation(other, other_use) is Ok,
    ensures
        preparation(one, one_use)->Ok_0.key == preparation(other, other_use)->Ok_0.key
            <==> same_server(one, other),
{
    decode_utf8_encode_utf8(one.target.authority->0.host);
    decode_utf8_encode_utf8(other.target.authority->0.host);
}

/// The connection that is found under a key where the given one, if any, was
/// kept and is still there, and no other was kept.
pub open spec fn found<C>(parked: Option<(KeyView, C)>, key: KeyView) -> Option<C> {
    match parked {
        Some((kept_under, connection)) => if kept_under == key {
            Some(connection)
        } else {
            None
        },
        None => None,
    }
}

/// How two fetches share a connection.  If the first was to be followed by
/// others, and the second goes to the same server, the second sends its
/// request over the connection that the first used.  Otherwise, and so always
/// if the first was for a single resource or an upgrade, the first leaves no
/// connection for the second, which makes one.
pub proof fn fetches_share_a_connection<C>(
    one: RequestView,
    one_use: ConnectionUse,
    events: Seq<Event<C>>,
    other: RequestView,
    other_use: ConnectionUse,
)
    requires
        beginning(one, one_use) is Ok,
        run(beginning(one, one_use)->Ok_0, events) matches Some(StepView::Done(_)),
        beginning(other, other_use) is Ok,
    ensures
        ({
            let answer = run(beginning(one, one_use)->Ok_0, events)->0->Done_0;
            let start = beginning(other, other_use)->Ok_0;
            next(start, Event::Recycled(found(answer.parked, start.job().key))) == Some(
                if one_use is MultipleResources && same_server(one, other) {
                    State::Sending { job: start.job(), is_reused: true }.with(
                        events.last()->Received_1,
                    )
                } else {
                    State::Connecting(start.job()).alone()
                },
            )
        }),
{
    let job = beginning(one, one_use)->Ok_0.job();
    connection_goes_where_it_should(job, events);
    connection_is_the_one_used(job, events);
    same_server_same_key(one, one_use, other, other_use);
}

/// However many connections are kept, one that is used again leads to the
/// server that the request is for: where some fetch gave it to be kept under
/// the key that is looked for, that fetch was to be followed by others, went
/// to the same server, and used this connection.
pub proof fn kept_connection_leads_to_the_server<C>(
    one: RequestView,
    one_use: ConnectionUse,
    events: Seq<Event<C>>,
    other: RequestView,
    other_use: ConnectionUse,
    connection: C,
)
    requires
        beginning(one, one_use) is Ok,
        beginning(other, other_use) is Ok,
        run(beginning(one, one_use)->Ok_0, events) matches Some(StepView::Done(answer))
            && answer.parked == Some((beginning(other, other_use)->Ok_0.job().key, connection)),
    ensures
        one_use is MultipleResources,
        same_server(one, other),
        events.last() matches Event::Received(_, used) && used == connection,
        next(beginning(other, other_use)->Ok_0, Event::Recycled(Some(connection))) == Some(
            State::Sending {
                job: beginning(other, other_use)->Ok_0.job(),
                is_reused: true,
            }.with(connection),
        ),
{
    let job = beginning(one, one_use)->Ok_0.job();
    connection_goes_where_it_should(job, events);
    connection_is_the_one_used(job, events);
    same_server_same_key(one, one_use, other, other_use);
}

/// The server that is contacted is the one that the target names.  Its port is
/// the one in the authority, whatever the scheme; only where there is none, it
/// is 80 for `http` and `ws`, and 443 for `https` and `wss`.  The connection is
/// secured exactly for `https` and `wss`, whatever the port.
pub proof fn server_is_the_one_that_the_target_names(
    request: RequestView,
    connection_use: ConnectionUse,
)
    requires
        preparation(request, connection_use) is Ok,
    ensures
        ({
            let key = preparation(request, connection_use)->Ok_0.key;
            let scheme = request.target.scheme;
            let authority = request.target.authority;
            &&& authority is Some
            &&& encode_utf8(key.host) == authority->0.host
            &&& authority->0.port matches Some(port) ==> key.port == port
            &&& authority->0.port is None ==> {
                ||| key.port == 80 && (scheme == Some("http"@) || scheme == Some("ws"@))
                ||| key.port == 443 && (scheme == Some("https"@) || scheme == Some("wss"@))
            }
            &&& key.use_tls <==> scheme == Some("https"@) || scheme == Some("wss"@)
        }),
{
    decode_utf8_encode_utf8(request.target.authority->0.host);
}

/// A request can be sent exactly if its target has an authority, there is a
/// port in the authority or the scheme is one of `http`, `ws`, `https` and
/// `wss`, and the host is text.  Otherwise the first of these that is missing
/// is reported, with the target as the user gave it, or the host.
pub proof fn what_a_target_needs(request: RequestView, connection_use: ConnectionUse)
    ensures
        ({
            let target = request.target;
            let scheme = target.scheme;
            let outcome = preparation(request, connection_use);
            let has_port = target.authority->0.port is Some || scheme == Some("http"@) || scheme
                == Some("ws"@) || scheme == Some("https"@) || scheme == Some("wss"@);
            if target.authority is None {
                outcome matches Err(ErrorView::NoTargetAuthority(given)) && given == target
            } else if !has_port {
                outcome matches Err(ErrorView::UnableToDetermineServerPort(given)) && given
                    == target
            } else if !valid_utf8(target.authority->0.host) {
                outcome matches Err(ErrorView::HostNotValidText(host)) && host
                    == target.authority->0.host
            } else {
                outcome is Ok
            }
        }),
{
}

/// The standard ports of schemes, told by the schemes.
pub proof fn ports_of_schemes(scheme: Option<Seq<char>>, given: Option<u16>)
    ensures
        standard_port(scheme) == Some(80u16) <==> scheme == Some("http"@) || scheme == Some("ws"@),
        standard_port(scheme) == Some(443u16) <==> scheme == Some("https"@) || scheme == Some(
            "wss"@,
        ),
        standard_port(scheme) matches Some(port) ==> port == 80 || port == 443,
        is_secure(scheme) <==> scheme == Some("https"@) || scheme == Some("wss"@),
        given is Some ==> server_port(given, scheme) == given,
        given is None ==> server_port(given, scheme) == standard_port(scheme),
{
    secure_schemes_are_served_at_443(scheme);
    reveal_strlit("http");
    reveal_strlit("ws");
    reveal_strlit("https");
    reveal_strlit("wss");
    assert("http"@.len() == 4 && "ws"@.len() == 2 && "https"@.len() == 5 && "wss"@.len() == 3);
}

/// The address that is connected to is the host, a colon and the port in
/// decimal.  It tells the port: what stands behind the host and the colon
/// reads as the port, and has no leading zero.
pub proof fn address_is_host_and_port(key: KeyView)
    ensures
        ({
            let address = key.address();
            let port = address.skip(key.host.len() as int + 1);
            &&& address.len() > key.host.len() + 1
            &&& address.take(key.host.len() as int) == key.host
            &&& address[key.host.len() as int] == ':'
            &&& decimal_value(port) == key.port
            &&& forall|i: int| 0 <= i < port.len() ==> '0' <= #[trigger] port[i] <= '9'
            &&& port.len() > 1 ==> port[0] != '0'
        }),
{
    reveal_strlit(":");
    decimal_reads_back(key.port as nat);
    decimal_has_no_leading_zero(key.port as nat);
    let address = key.address();
    assert(address.take(key.host.len() as int) =~= key.host);
    assert(address.skip(key.host.len() as int + 1) =~= decimal(key.port as nat));
}

/// The "Host" header is sent once.  It is the name of the server alone where
/// `http` or `ws` is served at port 80, or `https` or `wss` at port 443, and
/// otherwise the name, a colon and the port.
pub proof fn host_header_tells_the_port_if_it_has_to(
    request: RequestView,
    connection_use: ConnectionUse,
)
    requires
        preparation(request, connection_use) is Ok,
    ensures
        ({
            let prepared = preparation(request, connection_use)->Ok_0;
            let scheme = request.target.scheme;
            let key = prepared.key;
            let is_standard = {
                ||| key.port == 80 && (scheme == Some("http"@) || scheme == Some("ws"@))
                ||| key.port == 443 && (scheme == Some("https"@) || scheme == Some("wss"@))
            };
            field_values(prepared.request.fields, "Host"@) == seq![
                if is_standard {
                    key.host
                } else {
                    key.host + seq![':'] + decimal(key.port as nat)
                },
            ]
        }),
{
    reveal_strlit(":");
    assert(":"@ =~= seq![':']);
    ports_of_schemes(request.target.scheme, None);
    host_header_names_the_server(request, connection_use);
}

/// A header that is not among those that the client takes care of for the
/// given body and use goes to the server with the values that the user gave
/// it.
pub proof fn headers_of_the_user_are_sent(
    request: RequestView,
    connection_use: ConnectionUse,
    name: Seq<char>,
)
    requires
        preparation(request, connection_use) is Ok,
        !same_name("Host"@, name),
        request.body.len() > 0 ==> !same_name("Content-Length"@, name),
        !same_name("Accept-Encoding"@, name),
        !(connection_use is MultipleResources) ==> !same_name("Connection"@, name),
        connection_use is Upgrade ==> !same_name("Upgrade"@, name),
    ensures
        field_values(preparation(request, connection_use)->Ok_0.request.fields, name)
            == field_values(request.fields, name),
{
    let key = preparation(request, connection_use)->Ok_0.key;
    headers_that_are_sent(
        request.fields,
        host_value(key.host, key.port, request.target.scheme),
        request.body,
        connection_use,
        name,
    );
}

/// The headers that the client sets, in a request as it is sent.
pub proof fn sent_request_has_the_headers_of_the_client(
    request: RequestView,
    connection_use: ConnectionUse,
)
    requires
        preparation(request, connection_use) is Ok,
    ensures
        ({
            let sent = preparation(request, connection_use)->Ok_0.request.fields;
            &&& request.body.len() > 0 ==> field_values(sent, "Content-Length"@) == seq![
                decimal(request.body.len()),
            ]
            &&& field_values(sent, "Accept-Encoding"@) == seq!["gzip, deflate"@]
            &&& connection_use is SingleResource ==> field_values(sent, "Connection"@) == seq![
                "close"@,
            ]
            &&& connection_use matches ConnectionUse::Upgrade { protocol } ==> {
                &&& field_values(sent, "Connection"@) == seq!["upgrade"@]
                &&& field_values(sent, "Upgrade"@) == seq![protocol@]
            }
        }),
{
    let key = preparation(request, connection_use)->Ok_0.key;
    client_sets_its_headers(
        request.fields,
        host_value(key.host, key.port, request.target.scheme),
        request.body,
        connection_use,
    );
}

proof fn lemma_other_fields_in_any_order(fields: Seq<Field>, a: Seq<char>, b: Seq<char>)
    ensures
        other_fields(other_fields(fields, a), b) == other_fields(other_fields(fields, b), a),
    decreases fields.len(),
{
    reveal_with_fuel(other_fields, 2);
    if fields.len() > 0 {
        let rest = fields.drop_first();
        lemma_other_fields_in_any_order(rest, a, b);
        if !same_name(fields[0].0, a) {
            assert(other_fields(fields, a).drop_first() =~= other_fields(rest, a));
        }
        if !same_name(fields[0].0, b) {
            assert(other_fields(fields, b).drop_first() =~= other_fields(rest, b));
        }
    }
}

spec fn without_agent_fields(fields: Seq<Field>) -> Seq<Field> {
    other_fields(
        other_fields(
            other_fields(
                other_fields(other_fields(fields, "Host"@), "Content-Length"@),
                "Accept-Encoding"@,
            ),
            "Connection"@,
        ),
        "Upgrade"@,
    )
}

proof fn lemma_setting_keeps_what_is_left(fields: Seq<Field>, name: Seq<char>, value: Seq<char>)
    requires
        name == "Host"@ || name == "Content-Length"@ || name == "Accept-Encoding"@ || name
            == "Connection"@ || name == "Upgrade"@,
    ensures
        without_agent_fields(set_field(fields, name, value)) == without_agent_fields(fields),
{
    set_header_reads_back(fields, name, value, name);
    lemma_leave_out_first(fields, name);
    lemma_leave_out_first(set_field(fields, name, value), name);
}

proof fn lemma_leave_out_first(fields: Seq<Field>, name: Seq<char>)
    requires
        name == "Host"@ || name == "Content-Length"@ || name == "Accept-Encoding"@ || name
            == "Connection"@ || name == "Upgrade"@,
    ensures
        without_agent_fields(fields) == without_agent_fields(other_fields(fields, name)),
{
    let f1 = other_fields(fields, "Host"@);
    let f2 = other_fields(f1, "Content-Length"@);
    let f3 = other_fields(f2, "Accept-Encoding"@);
    let f4 = other_fields(f3, "Connection"@);
    lemma_other_fields_in_any_order(fields, name, "Host"@);
    lemma_other_fields_in_any_order(f1, name, "Content-Length"@);
    lemma_other_fields_in_any_order(f2, name, "Accept-Encoding"@);
    lemma_other_fields_in_any_order(f3, name, "Connection"@);
    lemma_other_fields_in_any_order(f4, name, "Upgrade"@);
    other_fields_keep_the_rest(fields, name, name);
    other_fields_keep_the_rest(f1, name, name);
    other_fields_keep_the_rest(f2, name, name);
    other_fields_keep_the_rest(f3, name, name);
    other_fields_keep_the_rest(f4, name, name);
}

/// The headers that the client never sets are sent as the user spelled them,
/// all of them and in the same order.
pub proof fn headers_of_the_user_keep_their_order(
    request: RequestView,
    connection_use: ConnectionUse,
)
    requires
        preparation(request, connection_use) is Ok,
    ensures
        other_fields(
            other_fields(
                other_fields(
                    other_fields(
                        other_fields(
                            preparation(request, connection_use)->Ok_0.request.fields,
                            "Host"@,
                        ),
                        "Content-Length"@,
                    ),
                    "Accept-Encoding"@,
                ),
                "Connection"@,
            ),
            "Upgrade"@,
        ) == other_fields(
            other_fields(
                other_fields(
                    other_fields(other_fields(request.fields, "Host"@), "Content-Length"@),
                    "Accept-Encoding"@,
                ),
                "Connection"@,
            ),
            "Upgrade"@,
        ),
{
    let key = preparation(request, connection_use)->Ok_0.key;
    let host = host_value(key.host, key.port, request.target.scheme);
    let length = decimal(request.body.len());
    let located = set_field(request.fields, "Host"@, host);
    let measured = if request.body.len() == 0 {
        located
    } else {
        set_field(located, "Content-Length"@, length)
    };
    let accepting = set_field(measured, "Accept-Encoding"@, "gzip, deflate"@);
    let told = set_field(accepting, "Connection"@, "upgrade"@);
    lemma_setting_keeps_what_is_left(request.fields, "Host"@, host);
    lemma_setting_keeps_what_is_left(located, "Content-Length"@, length);
    lemma_setting_keeps_what_is_left(measured, "Accept-Encoding"@, "gzip, deflate"@);
    lemma_setting_keeps_what_is_left(accepting, "Connection"@, "close"@);
    lemma_setting_keeps_what_is_left(accepting, "Connection"@, "upgrade"@);
    lemma_setting_keeps_what_is_left(told, "Upgrade"@, connection_use->protocol@);
}

/// A fetch begins exactly if the request can be prepared and written.  It then
/// begins without a connection, for the server of the prepared request, with
/// the bytes of the prepared request, and with the use of the connection that
/// the user gave.
pub proof fn fetch_begins_with_what_was_asked(request: RequestView, connection_use: ConnectionUse)
    ensures
        match (preparation(request, connection_use), beginning(request, connection_use)) {
            (Err(error), began) => began == Err::<State, ErrorView>(error),
            (Ok(prepared), Err(error)) => error is BadRequest && prepared.request.bytes() is None,
            (Ok(prepared), Ok(state)) => {
                &&& state is Recycling
                &&& state->Recycling_0.key == prepared.key
                &&& prepared.request.bytes() == Some(state->Recycling_0.raw_request)
                &&& state->Recycling_0.connection_use == connection_use
            },
        },
{
}

/// The bytes that are sent are the method, a space, the text of the target and
/// the version on a line, then the headers as they are written under the limit
/// of the user, then the body of the user.
pub proof fn sent_bytes_are_the_request(request: RequestView, connection_use: ConnectionUse)
    requires
        beginning(request, connection_use) is Ok,
    ensures
        ({
            let bytes = beginning(request, connection_use)->Ok_0->Recycling_0.raw_request;
            let fields = preparation(request, connection_use)->Ok_0.request.fields;
            written_headers(fields, request.line_limit) matches Some(block) && bytes
                == encode_utf8(
                request.method + " "@ + request.target.target_text() + " HTTP/1.1\r\n"@,
            ) + block + request.body
        }),
{
}

/// Each step of a fetch comes of the event that was waited for, and goes on
/// with the connection that the event brought.  A request goes over a
/// connection that had been kept, or over a new one, which is the secured one
/// if TLS is to be used.  A fetch starts over only with a connection that had
/// been kept and was closed.
pub proof fn each_state_comes_of_one_event<C>(job: JobView, events: Seq<Event<C>>)
    requires
        events.len() > 0,
    ensures
        run(State::Recycling(job), events) matches Some(
            StepView::Continue { state, connection },
        ) ==> match state {
            State::Recycling(_) => {
                &&& connection is None
                &&& attempts(events) == 0
                &&& events.last() matches Event::Received(Ok(data), _) && data.len() == 0
            },
            State::Connecting(_) => {
                &&& connection is None
                &&& events.last() == Event::<C>::Recycled(None)
            },
            State::Securing(_) => {
                &&& job.key.use_tls
                &&& connection matches Some(given) && events.last() == Event::Connected(Ok(given))
            },
            State::Sending { is_reused, .. } => connection matches Some(given) && {
                if is_reused {
                    events.last() == Event::Recycled(Some(given))
                } else if job.key.use_tls {
                    events.last() == Event::Secured(Ok(given))
                } else {
                    events.last() == Event::Connected(Ok(given))
                }
            },
            State::Receiving { is_reused, .. } => connection matches Some(given) && {
                &&& is_reused <==> attempts(events) == 0
                &&& {
                    ||| events.last() matches Event::Sent(Ok(_), used) && used == given
                    ||| events.last() matches Event::Received(Ok(data), used) && used == given
                        && data.len() > 0
                }
            },
        },
{
    fetch_keeps_its_job(job, events);
    fetch_keeps_its_job(job, events.drop_last());
}

/// Nothing but a failure, a lost connection or a response ends a fetch.  What
/// succeeded leads on, and so does the loss of a connection that had been kept.
pub proof fn what_succeeds_leads_on<C>(job: JobView, events: Seq<Event<C>>)
    requires
        run(State::Recycling(job), events) is Some,
        events.len() > 0,
        ({
            ||| events.last() is Recycled
            ||| events.last() matches Event::Connected(Ok(_))
            ||| events.last() matches Event::Secured(Ok(_))
            ||| events.last() matches Event::Sent(Ok(_), _)
            ||| events.last() matches Event::Received(Ok(data), _) && data.len() == 0 && attempts(
                events,
            ) == 0
        }),
    ensures
        run(State::Recycling(job), events)->0 is Continue,
{
    fetch_keeps_its_job(job, events.drop_last());
}

/// A connection that was made for the fetch and is closed before the response
/// has ended makes the fetch fail, and nothing else makes it report that it was
/// disconnected.
pub proof fn lost_new_connection_is_reported<C>(job: JobView, events: Seq<Event<C>>)
    requires
        run(State::Recycling(job), events) is Some,
        events.len() > 0,
    ensures
        run(State::Recycling(job), events) == Some(StepView::<C>::Failed(ErrorView::Disconnected))
            <==> attempts(events) == 1 && (events.last() matches Event::Received(Ok(data), _)
            && data.len() == 0),
{
    fetch_keeps_its_job(job, events.drop_last());
}

/// A request to `https` or `wss` goes over a new connection after one
/// handshake, and any other request after none, whatever the port.
pub proof fn scheme_decides_on_tls<C>(
    request: RequestView,
    connection_use: ConnectionUse,
    events: Seq<Event<C>>,
)
    requires
        beginning(request, connection_use) is Ok,
        attempts(events) == 1,
        run(beginning(request, connection_use)->Ok_0, events) matches Some(
            StepView::Continue { state, .. },
        ) && (state is Sending || state is Receiving),
    ensures
        handshakes(events) == (if request.target.scheme == Some("https"@) || request.target.scheme
            == Some("wss"@) {
            1nat
        } else {
            0nat
        }),
{
    server_is_the_one_that_the_target_names(request, connection_use);
    fetch_keeps_its_job(beginning(request, connection_use)->Ok_0.job(), events);
}

/// Throughout a fetch, the server that is looked for, connected to and secured
/// for is the one that the target names, and what is sent is the prepared
/// request.
pub proof fn every_state_serves_the_request<C>(
    request: RequestView,
    connection_use: ConnectionUse,
    events: Seq<Event<C>>,
)
    requires
        beginning(request, connection_use) is Ok,
    ensures
        run(beginning(request, connection_use)->Ok_0, events) matches Some(
            StepView::Continue { state, .. },
        ) ==> {
            let prepared = preparation(request, connection_use)->Ok_0;
            &&& state.job().key == prepared.key
            &&& prepared.request.bytes() == Some(state.job().raw_request)
            &&& state.job().connection_use == connection_use
        },
{
    fetch_keeps_its_job(beginning(request, connection_use)->Ok_0.job(), events);
}

/// Undoing the content codings of a response replaces its body and its
/// headers, and nothing else: status, reason, line limit and trailer stay.
pub proof fn decoding_replaces_the_content_alone(response: ResponseView)
    ensures
        response.decode() is Some <==> decoded(response.fields, response.body) is Some,
        response.decode() matches Some(after) ==> {
            &&& after.status_code == response.status_code
            &&& after.reason_phrase == response.reason_phrase
            &&& after.line_limit == response.line_limit
            &&& after.trailer == response.trailer
            &&& decoded(response.fields, response.body) == Some((after.fields, after.body))
        },
{
}

/// What bytes amount to is told by where the parser stands with all bytes that
/// came in: they are no response if it rejects them, the response has not
/// ended if it did not find the end, and otherwise the response is the one it
/// found, and what it did not consume is left over.
pub proof fn all_bytes_decide_the_reply(exchange: ExchangeView, data: Seq<u8>)
    ensures
        exchange.reply(data) is Bad <==> parsed(exchange.received + data) is None,
        parsed(exchange.received + data) matches Some(parsed) ==> {
            &&& parsed.complete ==> {
                &&& exchange.reply(data) matches ReplyView::Whole { response, rest } && response
                    == parsed.response && rest == (exchange.received + data).skip(
                    parsed.consumed as int,
                )
            }
            &&& !parsed.complete ==> {
                &&& exchange.reply(data) matches ReplyView::More(after) && after.received
                    == exchange.received + data
            }
        },
{
}

/// The answer of a fetch has the status, reason and trailer of the response
/// that the server sent, and the headers and body that undoing its content
/// codings gives.
pub proof fn answer_keeps_status_and_reason<C>(
    request: RequestView,
    connection_use: ConnectionUse,
    events: Seq<Event<C>>,
)
    requires
        beginning(request, connection_use) is Ok,
    ensures
        run(beginning(request, connection_use)->Ok_0, events) matches Some(StepView::Done(answer))
            ==> (parsed(bytes_since_sent(events)) matches Some(parsed) && {
            &&& parsed.complete
            &&& answer.response.status_code == parsed.response.status_code
            &&& answer.response.reason_phrase == parsed.response.reason_phrase
            &&& answer.response.line_limit == parsed.response.line_limit
            &&& answer.response.trailer == parsed.response.trailer
            &&& decoded(parsed.response.fields, parsed.response.body) == Some(
                (answer.response.fields, answer.response.body),
            )
        }),
{
    let job = beginning(request, connection_use)->Ok_0.job();
    answer_is_what_the_server_sent(job, events);
    decoding_replaces_the_content_alone(parsed(bytes_since_sent(events))->0.response);
}

/// A fetch ends with an upgraded connection exactly if the user asked for an
/// upgrade and the server answered with status 101.  The connection is the one
/// over which the response came in.  With it go all bytes that came in and do
/// not belong to the response: those that the parser kept, and those that it
/// did not consume.
pub proof fn upgrade_loses_nothing<C>(
    request: RequestView,
    connection_use: ConnectionUse,
    events: Seq<Event<C>>,
)
    requires
        beginning(request, connection_use) is Ok,
    ensures
        run(beginning(request, connection_use)->Ok_0, events) matches Some(StepView::Done(answer))
            ==> (parsed(bytes_since_sent(events)) matches Some(parsed) && {
            &&& answer.upgrade is Some <==> connection_use is Upgrade
                && parsed.response.status_code == 101
            &&& answer.upgrade matches Some((connection, trailer)) ==> {
                &&& events.last() matches Event::Received(_, used) && used == connection
                &&& trailer == parsed.response.trailer + bytes_since_sent(events).skip(
                    parsed.consumed as int,
                )
                &&& parsed.consumed <= bytes_since_sent(events).len() ==> trailer.len()
                    + parsed.consumed == bytes_since_sent(events).len()
                    + parsed.response.trailer.len()
            }
        }),
{
    let job = beginning(request, connection_use)->Ok_0.job();
    if run(State::Recycling(job), events) matches Some(StepView::Done(_)) {
        bytes_decide_the_outcome(job, events);
        answer_is_what_the_server_sent(job, events);
        decoding_replaces_the_content_alone(parsed(bytes_since_sent(events))->0.response);
    }
}

/// A fetch ends with a connection to be kept exactly if the user is going to
/// fetch further resources.  The connection is the one over which the response
/// came in, and it is kept for the server that the target names.
pub proof fn connection_is_kept_if_asked<C>(
    request: RequestView,
    connection_use: ConnectionUse,
    events: Seq<Event<C>>,
)
    requires
        beginning(request, connection_use) is Ok,
    ensures
        run(beginning(request, connection_use)->Ok_0, events) matches Some(StepView::Done(answer))
            ==> {
            &&& answer.parked is Some <==> connection_use is MultipleResources
            &&& answer.parked matches Some((key, connection)) ==> {
                &&& events.last() matches Event::Received(_, used) && used == connection
                &&& key == preparation(request, connection_use)->Ok_0.key
            }
        },
{
    let job = beginning(request, connection_use)->Ok_0.job();
    connection_goes_where_it_should(job, events);
    connection_is_the_one_used(job, events);
}

/// A fetch reports a bad response exactly if bytes came in, and all that came
/// in since the request was sent is no response, or a whole response whose
/// content codings cannot be undone.  While the response has not ended, the
/// fetch goes on, and once it has, the fetch is over.
pub proof fn response_is_bad_or_the_answer<C>(job: JobView, events: Seq<Event<C>>)
    requires
        run(State::Recycling(job), events) is Some,
        events.len() > 0,
    ensures
        ({
            let step = run(State::Recycling(job), events)->0;
            let outcome = parsed(bytes_since_sent(events));
            let came_in = events.last() matches Event::Received(Ok(data), _) && data.len() > 0;
            &&& step == StepView::<C>::Failed(ErrorView::BadResponse) <==> came_in && {
                ||| outcome is None
                ||| outcome->0.complete && decoded(
                    outcome->0.response.fields,
                    outcome->0.response.body,
                ) is None
            }
            &&& step is Done <==> came_in && outcome is Some && outcome->0.complete && decoded(
                outcome->0.response.fields,
                outcome->0.response.body,
            ) is Some
            &&& came_in && outcome is Some && !outcome->0.complete ==> step is Continue
        }),
{
    if (events.last() matches Event::Received(Ok(data), _) && data.len() > 0) {
        bytes_decide_the_outcome(job, events);
        if parsed(bytes_since_sent(events)) is Some {
            decoding_replaces_the_content_alone(parsed(bytes_since_sent(events))->0.response);
        }
    }
}

/// What becomes of a connection is decided by its use and, for an upgrade, by
/// the status.  In each case the response is handed on as it is.
pub proof fn use_decides_on_the_connection<C>(
    job: JobView,
    response: ResponseView,
    rest: Seq<u8>,
    connection: C,
)
    ensures
        ({
            let answer = conclusion(job, response, rest, connection);
            &&& answer.response == response
            &&& answer.upgrade is Some <==> job.connection_use is Upgrade && response.status_code
                == 101
            &&& answer.upgrade matches Some((given, trailer)) ==> given == connection && trailer
                == response.trailer + rest && trailer.len() == response.trailer.len() + rest.len()
            &&& answer.parked is Some <==> job.connection_use is MultipleResources
            &&& answer.parked matches Some((key, given)) ==> key == job.key && given == connection
        }),
{
}

/// A job goes on after a lost connection by starting over if the connection had
/// been kept, and otherwise fails; after decoding it is done, or fails with a
/// bad response if there is no response; and after a reply it receives more
/// over the same connection, decodes, or fails with a bad response.
pub proof fn jobs_go_on<C>(
    job: JobView,
    is_reused: bool,
    response: ResponseView,
    reply: ReplyView,
    rest: Seq<u8>,
    connection: C,
)
    ensures
        ({
            let lost = after_disconnect::<C>(job, is_reused);
            &&& is_reused ==> (lost matches StepView::Continue { state, connection: None } && state
                == State::Recycling(job))
            &&& !is_reused ==> (lost matches StepView::Failed(error) && error is Disconnected)
        }),
        after_decoding(job, Some(response), rest, connection) == StepView::Done(
            conclusion(job, response, rest, connection),
        ),
        after_decoding(job, None, rest, connection) matches StepView::Failed(error) && error
            is BadResponse,
        ({
            let step = after_reply(job, is_reused, reply, connection);
            match reply {
                ReplyView::More(exchange) => step matches StepView::Continue {
                    state,
                    connection: Some(given),
                } && given == connection && state == (State::Receiving {
                    job,
                    is_reused,
                    exchange,
                }),
                ReplyView::Whole { response: found, rest: left } => match decoded(
                    found.fields,
                    found.body,
                ) {
                    Some((fields, body)) => step == StepView::Done(
                        conclusion(
                            job,
                            ResponseView {
                                status_code: found.status_code,
                                reason_phrase: found.reason_phrase,
                                fields,
                                line_limit: found.line_limit,
                                body,
                                trailer: found.trailer,
                            },
                            left,
                            connection,
                        ),
                    ),
                    None => step matches StepView::Failed(error) && error is BadResponse,
                },
                ReplyView::Bad => step matches StepView::Failed(error) && error is BadResponse,
            }
        }),
{
}

/// A parser is always given first what it did not consume of the bytes before,
/// and then the bytes that came in, so that in all it was given each byte once
/// and in order.
pub proof fn parser_is_given_every_byte_once(before: Seq<u8>, data: Seq<u8>)
    requires
        is_open(before),
    ensures
        parsed(before) matches Some(parsed) && !parsed.complete && parsed.consumed <= before.len(),
        pending(before) == before.skip(parsed(before)->0.consumed as int),
        continued(before, data) == before.take(parsed(before)->0.consumed as int) + data,
        continued(before, pending(before) + data) == before + data,
{
    assert(continued(before, pending(before) + data) =~= before + data);
}

/// A limit on the length of a line leaves room for the line terminator exactly
/// if it is two bytes or more, and no limit always does.
pub proof fn usable_limits(limit: Option<usize>)
    ensures
        is_usable_limit(limit) <==> (limit is None || limit->0 >= 2),
{
}

/// What stands for a URI or a request shows each of its parts as it is.
pub proof fn requests_are_seen_whole(request: Request)
    ensures
        ({
            let target = request.target;
            let seen = request@.target;
            &&& request@.method == request.method@
            &&& request@.fields == header_fields(request.headers)
            &&& request@.line_limit == line_limit(request.headers)
            &&& request@.body == request.body@
            &&& seen == target@
            &&& seen.scheme is Some <==> target.scheme is Some
            &&& target.scheme matches Some(scheme) ==> seen.scheme->0 == scheme@
            &&& seen.authority is Some <==> target.authority is Some
            &&& target.authority matches Some(authority) ==> {
                &&& seen.authority->0.host == authority.host@
                &&& seen.authority->0.port == authority.port
                &&& seen.authority->0.userinfo is Some <==> authority.userinfo is Some
                &&& authority.userinfo matches Some(userinfo) ==> seen.authority->0.userinfo->0
                    == userinfo@
            }
            &&& seen.path.len() == target.path@.len()
            &&& forall|i: int|
                0 <= i < target.path@.len() ==> #[trigger] seen.path[i] == target.path@[i]@
            &&& seen.query is Some <==> target.query is Some
            &&& target.query matches Some(query) ==> seen.query->0 == query@
            &&& seen.fragment is Some <==> target.fragment is Some
            &&& target.fragment matches Some(fragment) ==> seen.fragment->0 == fragment@
        }),
{
}

/// What stands for a key, a job or a prepared request shows each of its parts
/// as it is.
pub proof fn jobs_are_seen_whole(job: Job, prepared: Prepared)
    ensures
        job@.key.host == job.key.host@,
        job@.key.port == job.key.port,
        job@.key.use_tls == job.key.use_tls,
        job@.raw_request == job.raw_request@,
        job@.connection_use == job.connection_use,
        prepared@.key == prepared.key@,
        prepared@.request == prepared.request@,
{
}

/// What stands for a response, or for what bytes of it amount to, shows each
/// of its parts as it is.
pub proof fn responses_are_seen_whole(response: Response, reply: Reply)
    ensures
        response@.status_code == response.status_code,
        response@.reason_phrase == response.reason_phrase@,
        response@.fields == header_fields(response.headers),
        response@.line_limit == line_limit(response.headers),
        response@.body == response.body@,
        response@.trailer == response.trailer@,
        match reply {
            Reply::More(exchange) => reply@ matches ReplyView::More(seen) && seen == exchange@,
            Reply::Whole { response, rest } => reply@ matches ReplyView::Whole {
                response: seen,
                rest: left,
            } && seen == response@ && left == rest@,
            Reply::Bad(_) => reply@ is Bad,
        },
{
}

/// What stands for a step shows what is to be done, with which connection, or
/// the outcome with each of its parts as it is.
pub proof fn steps_are_seen_whole<C>(step: Step<C>)
    ensures
        match step {
            Step::Recycle(state) => {
                &&& state@ is Recycling
                &&& step@ matches StepView::Continue { state: seen, connection: None } && seen
                    == state@
            },
            Step::Connect(state) => {
                &&& state@ is Connecting
                &&& step@ matches StepView::Continue { state: seen, connection: None } && seen
                    == state@
            },
            Step::Secure(state, connection) => {
                &&& state@ is Securing
                &&& step@ matches StepView::Continue { state: seen, connection: Some(given) }
                    && seen == state@ && given == connection
            },
            Step::Send(state, connection) => {
                &&& state@ is Sending
                &&& step@ matches StepView::Continue { state: seen, connection: Some(given) }
                    && seen == state@ && given == connection
            },
            Step::Receive(state, connection) => {
                &&& state@ is Receiving
                &&& step@ matches StepView::Continue { state: seen, connection: Some(given) }
                    && seen == state@ && given == connection
            },
            Step::Done(results, parked) => step@ matches StepView::Done(answer) && {
                &&& answer.response == results.response@
                &&& answer.upgrade is Some <==> results.upgrade is Some
                &&& results.upgrade matches Some(upgrade) ==> answer.upgrade == Some(
                    (upgrade.connection, upgrade.trailer@),
                )
                &&& answer.parked is Some <==> parked is Some
                &&& parked matches Some(parked) ==> answer.parked == Some(
                    (parked.key@, parked.connection),
                )
            },
            Step::Failed(error) => step@ matches StepView::Failed(seen) && seen == error@,
        },
{
}

/// What stands for a state tells the job of that state, whatever the state.
pub proof fn states_tell_their_job(state: State)
    ensures
        match state {
            State::Recycling(job) => state.job() == job,
            State::Connecting(job) => state.job() == job,
            State::Securing(job) => state.job() == job,
            State::Sending { job, .. } => state.job() == job,
            State::Receiving { job, .. } => state.job() == job,
        },
{
}

/// What stands for an error shows its kind, what it carries, and the text that
/// describes it.
pub proof fn errors_are_seen_and_described(error: Error)
    ensures
        match error {
            Error::BadRequest(_) => error@ is BadRequest && error@.message()
                == "unable to generate HTTP request"@,
            Error::BadResponse(_) => error@ is BadResponse && error@.message()
                == "unable to parse HTTP response"@,
            Error::Disconnected => error@ is Disconnected && error@.message()
                == "disconnected from server"@,
            Error::HostNotValidText(host) => error@ == ErrorView::HostNotValidText(host@)
                && error@.message() == "unable to parse target URI host as text"@,
            Error::NoTargetAuthority(target) => error@ == ErrorView::NoTargetAuthority(target@)
                && error@.message() == "no authority provided in target URI"@,
            Error::TlsHandshake(source) => error@ == ErrorView::TlsHandshake(source)
                && error@.message() == "error performing TLS handshake with server"@,
            Error::UnableToConnect(source) => error@ == ErrorView::UnableToConnect(source)
                && error@.message() == "unable to connect to server host/port"@,
            Error::UnableToDetermineServerPort(target) => error@
                == ErrorView::UnableToDetermineServerPort(target@) && error@.message()
                == "unable to determine target server port from URI"@,
            Error::UnableToGetPeerAddress(source) => error@ == ErrorView::UnableToGetPeerAddress(
                source,
            ) && error@.message() == "unable to get peer address from connection"@,
            Error::UnableToReceive(source) => error@ == ErrorView::UnableToReceive(source)
                && error@.message() == "unable to receive response from server"@,
            Error::UnableToSend(source) => error@ == ErrorView::UnableToSend(source)
                && error@.message() == "unable to send request to server"@,
        },
{
}

} // verus!

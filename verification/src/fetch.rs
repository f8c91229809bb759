//! Fetching a resource, one step at a time.
//!
//! Talking to the server is not done here.  Each state of a fetch says what is
//! to be done next and has one method, which takes what came of that and gives
//! the next step.

use crate::connection::{ConnectionKey, ConnectionUse, KeyView};
use crate::error::{Error, ErrorView};
use crate::response::{Exchange, ExchangeView, Reply, ReplyView, Response, ResponseView};
use crate::text::{decimal, decimal_text};
use rhymuweb::Error as MessageError;
use vstd::prelude::*;

verus! {

/// The most bytes to ask a connection for at a time.
pub const RECEIVE_LIMIT: usize = 65536;

/// The status code of a response after which the connection speaks the
/// protocol asked for.
pub const SWITCHING_PROTOCOLS: usize = 101;

/// This holds information to provide to a higher-level protocol in the case
/// where an HTTP connection is upgraded after a response.
#[derive(Debug)]
pub struct ConnectionUpgrade<C> {
    /// This holds the underlying transport layer connection, which becomes the
    /// caller's responsibility.
    pub connection: C,
    /// This holds any extra bytes received by the client after the end
    /// of the upgrade response.
    pub trailer: Vec<u8>,
}

/// This holds all the results from fetching a web resource.
#[derive(Debug)]
pub struct FetchResults<C> {
    /// This contains the parts of the HTTP response returned by the server.
    pub response: Response,
    /// If the connection was upgraded to a higher-level protocol, this
    /// contains all the information to provide to that protocol.
    pub upgrade: Option<ConnectionUpgrade<C>>,
}

/// A connection to be kept for another fetch, and the key to find it by.
#[derive(Debug)]
pub struct Parked<C> {
    /// The key of the connection.
    pub key: ConnectionKey,
    /// The connection.
    pub connection: C,
}

/// The outcome of a fetch that got a response, as a value.
pub struct Answer<C> {
    /// The response.
    pub response: ResponseView,
    /// The connection, and the bytes received after the response, where the
    /// connection was upgraded.
    pub upgrade: Option<(C, Seq<u8>)>,
    /// The connection to be kept for another fetch, and its key.
    pub parked: Option<(KeyView, C)>,
}

/// What stays the same throughout a fetch.
#[derive(Debug)]
pub struct Job {
    /// Where to send the request.
    pub key: ConnectionKey,
    /// The bytes of the request.
    pub raw_request: Vec<u8>,
    /// What the connection is for.
    pub connection_use: ConnectionUse,
}

/// What a [`Job`] stands for.
pub struct JobView {
    pub key: KeyView,
    pub raw_request: Seq<u8>,
    pub connection_use: ConnectionUse,
}

impl View for Job {
    type V = JobView;

    open spec fn view(&self) -> JobView {
        JobView {
            key: self.key@,
            raw_request: self.raw_request@,
            connection_use: self.connection_use,
        }
    }
}

/// To be done: look for a connection to the server that was kept.
#[derive(Debug)]
pub struct Recycling {
    job: Job,
}

/// To be done: connect to the server.
#[derive(Debug)]
pub struct Connecting {
    job: Job,
}

/// To be done: secure the connection with Transport Layer Security.
#[derive(Debug)]
pub struct Securing {
    job: Job,
}

/// To be done: send the request.
#[derive(Debug)]
pub struct Sending {
    job: Job,
    is_reused: bool,
}

/// To be done: receive bytes of the response.
#[derive(Debug)]
pub struct Receiving {
    job: Job,
    is_reused: bool,
    exchange: Exchange,
}

/// What is to be done next in a fetch.
#[derive(Debug)]
pub enum Step<C> {
    /// Look for a connection that was kept.
    Recycle(Recycling),
    /// Connect to the server.
    Connect(Connecting),
    /// Secure the connection.
    Secure(Securing, C),
    /// Send the request over the connection.
    Send(Sending, C),
    /// Receive bytes of the response over the connection.
    Receive(Receiving, C),
    /// Nothing: the response is in.  Keep the connection if it is given.
    Done(FetchResults<C>, Option<Parked<C>>),
    /// Nothing: the fetch failed.
    Failed(Error),
}

/// What a state of a fetch stands for.
pub enum State {
    Recycling(JobView),
    Connecting(JobView),
    Securing(JobView),
    Sending { job: JobView, is_reused: bool },
    Receiving { job: JobView, is_reused: bool, exchange: ExchangeView },
}

/// What a [`Step`] stands for: the state of the fetch and the connection it
/// holds, or its outcome.
pub enum StepView<C> {
    Continue { state: State, connection: Option<C> },
    Done(Answer<C>),
    Failed(ErrorView),
}

/// What came of that which was to be done.
pub enum Event<C> {
    /// A connection that was kept, if there was one.
    Recycled(Option<C>),
    /// A new connection.
    Connected(Result<C, std::io::Error>),
    /// The connection, secured.
    Secured(Result<C, std::io::Error>),
    /// The request was sent over the connection.
    Sent(Result<(), std::io::Error>, C),
    /// Bytes came in over the connection, or none if it was closed.
    Received(Result<Seq<u8>, std::io::Error>, C),
}

impl Recycling {
    /// What stays the same throughout the fetch.
    pub closed spec fn task(self) -> JobView {
        self.job@
    }
}

impl View for Recycling {
    type V = State;

    open spec fn view(&self) -> State {
        State::Recycling(self.task())
    }
}

impl Connecting {
    /// What stays the same throughout the fetch.
    pub closed spec fn task(self) -> JobView {
        self.job@
    }
}

impl View for Connecting {
    type V = State;

    open spec fn view(&self) -> State {
        State::Connecting(self.task())
    }
}

impl Securing {
    /// What stays the same throughout the fetch.
    pub closed spec fn task(self) -> JobView {
        self.job@
    }
}

impl View for Securing {
    type V = State;

    open spec fn view(&self) -> State {
        State::Securing(self.task())
    }
}

impl Sending {
    /// What stays the same throughout the fetch.
    pub closed spec fn task(self) -> JobView {
        self.job@
    }

    /// Whether the connection was one that had been kept.
    pub closed spec fn has_kept_connection(self) -> bool {
        self.is_reused
    }
}

impl View for Sending {
    type V = State;

    open spec fn view(&self) -> State {
        State::Sending { job: self.task(), is_reused: self.has_kept_connection() }
    }
}

impl Receiving {
    /// What stays the same throughout the fetch.
    pub closed spec fn task(self) -> JobView {
        self.job@
    }

    /// Whether the connection was one that had been kept.
    pub closed spec fn has_kept_connection(self) -> bool {
        self.is_reused
    }

    /// The response that is coming in.
    pub closed spec fn incoming(self) -> ExchangeView {
        self.exchange@
    }
}

impl View for Receiving {
    type V = State;

    open spec fn view(&self) -> State {
        State::Receiving {
            job: self.task(),
            is_reused: self.has_kept_connection(),
            exchange: self.incoming(),
        }
    }
}

/// What results of a fetch and a connection to be kept stand for.
pub open spec fn answer_of<C>(results: FetchResults<C>, parked: Option<Parked<C>>) -> Answer<C> {
    Answer {
        response: results.response@,
        upgrade: match results.upgrade {
            Some(upgrade) => Some((upgrade.connection, upgrade.trailer@)),
            None => None,
        },
        parked: match parked {
            Some(parked) => Some((parked.key@, parked.connection)),
            None => None,
        },
    }
}

impl<C> View for Step<C> {
    type V = StepView<C>;

    open spec fn view(&self) -> StepView<C> {
        match *self {
            Step::Recycle(state) => StepView::Continue { state: state@, connection: None },
            Step::Connect(state) => StepView::Continue { state: state@, connection: None },
            Step::Secure(state, connection) => StepView::Continue {
                state: state@,
                connection: Some(connection),
            },
            Step::Send(state, connection) => StepView::Continue {
                state: state@,
                connection: Some(connection),
            },
            Step::Receive(state, connection) => StepView::Continue {
                state: state@,
                connection: Some(connection),
            },
            Step::Done(results, parked) => StepView::Done(answer_of(results, parked)),
            Step::Failed(error) => StepView::Failed(error@),
        }
    }
}

impl State {
    /// What stays the same throughout the fetch.
    pub open spec fn job(self) -> JobView {
        match self {
            State::Recycling(job) => job,
            State::Connecting(job) => job,
            State::Securing(job) => job,
            State::Sending { job, .. } => job,
            State::Receiving { job, .. } => job,
        }
    }

    /// Whether the parser accepted all that came in of a response, and the
    /// response has not ended.
    pub open spec fn is_open(self) -> bool {
        self matches State::Receiving { exchange, .. } ==> exchange.is_open()
    }

    /// The fetch goes on in this state and with this connection.
    pub open spec fn with<C>(self, connection: C) -> StepView<C> {
        StepView::Continue { state: self, connection: Some(connection) }
    }

    /// The fetch goes on in this state and without a connection.
    pub open spec fn alone<C>(self) -> StepView<C> {
        StepView::Continue { state: self, connection: None }
    }
}

impl KeyView {
    /// The address of the server.
    pub open spec fn address(self) -> Seq<char> {
        self.host + ":"@ + decimal(self.port as nat)
    }
}

/// What becomes of a connection once the response is in, given the bytes that
/// came in after the response and that it did not keep.
pub open spec fn conclusion<C>(
    job: JobView,
    response: ResponseView,
    rest: Seq<u8>,
    connection: C,
) -> Answer<C> {
    match job.connection_use {
        ConnectionUse::SingleResource => Answer { response, upgrade: None, parked: None },
        ConnectionUse::MultipleResources => Answer {
            response,
            upgrade: None,
            parked: Some((job.key, connection)),
        },
        ConnectionUse::Upgrade { .. } => if response.status_code == SWITCHING_PROTOCOLS {
            Answer { response, upgrade: Some((connection, response.trailer + rest)), parked: None }
        } else {
            Answer { response, upgrade: None, parked: None }
        },
    }
}

/// The step after the server closed the connection before the response ended.
pub open spec fn after_disconnect<C>(job: JobView, is_reused: bool) -> StepView<C> {
    if is_reused {
        State::Recycling(job).alone()
    } else {
        StepView::Failed(ErrorView::Disconnected)
    }
}

/// The step after the content codings of the response were undone, or could
/// not be.
pub open spec fn after_decoding<C>(
    job: JobView,
    decoded: Option<ResponseView>,
    rest: Seq<u8>,
    connection: C,
) -> StepView<C> {
    match decoded {
        Some(response) => StepView::Done(conclusion(job, response, rest, connection)),
        None => StepView::Failed(ErrorView::BadResponse),
    }
}

/// The step after bytes of the response came in.
pub open spec fn after_reply<C>(
    job: JobView,
    is_reused: bool,
    reply: ReplyView,
    connection: C,
) -> StepView<C> {
    match reply {
        ReplyView::More(exchange) => State::Receiving { job, is_reused, exchange }.with(connection),
        ReplyView::Whole { response, rest } => after_decoding(
            job,
            response.decode(),
            rest,
            connection,
        ),
        ReplyView::Bad => StepView::Failed(ErrorView::BadResponse),
    }
}

/// The step after an event, if the event is one that the state waits for.
pub open spec fn next<C>(state: State, event: Event<C>) -> Option<StepView<C>> {
    match (state, event) {
        (State::Recycling(job), Event::Recycled(kept)) => Some(
            match kept {
                Some(connection) => State::Sending { job, is_reused: true }.with(connection),
                None => State::Connecting(job).alone(),
            },
        ),
        (State::Connecting(job), Event::Connected(result)) => Some(
            match result {
                Ok(connection) => if job.key.use_tls {
                    State::Securing(job).with(connection)
                } else {
                    State::Sending { job, is_reused: false }.with(connection)
                },
                Err(source) => StepView::Failed(ErrorView::UnableToConnect(source)),
            },
        ),
        (State::Securing(job), Event::Secured(result)) => Some(
            match result {
                Ok(connection) => State::Sending { job, is_reused: false }.with(connection),
                Err(source) => StepView::Failed(ErrorView::TlsHandshake(source)),
            },
        ),
        (State::Sending { job, is_reused }, Event::Sent(result, connection)) => Some(
            match result {
                Ok(_) => State::Receiving { job, is_reused, exchange: ExchangeView::fresh() }.with(
                    connection,
                ),
                Err(source) => StepView::Failed(ErrorView::UnableToSend(source)),
            },
        ),
        (
            State::Receiving { job, is_reused, exchange },
            Event::Received(result, connection),
        ) => Some(
            match result {
                Ok(data) => if data.len() == 0 {
                    after_disconnect(job, is_reused)
                } else {
                    after_reply(job, is_reused, exchange.reply(data), connection)
                },
                Err(source) => StepView::Failed(ErrorView::UnableToReceive(source)),
            },
        ),
        _ => None,
    }
}

impl Recycling {
    /// Start to fetch.
    pub fn new(job: Job) -> (state: Recycling)
        ensures
            state@ == State::Recycling(job@),
    {
        Recycling { job }
    }

    /// The key of the connection to look for.
    pub fn key(&self) -> (key: ConnectionKey)
        ensures
            key@ == self@.job().key,
    {
        ConnectionKey::new(self.job.key.host.as_str(), self.job.key.port, self.job.key.use_tls)
    }

    /// Go on with a connection that was kept, if there was one.
    pub fn recycled<C>(self, kept: Option<C>) -> (step: Step<C>)
        ensures
            next(self@, Event::Recycled(kept)) == Some(step@),
    {
        match kept {
            Some(connection) => Step::Send(
                Sending { job: self.job, is_reused: true },
                connection,
            ),
            None => Step::Connect(Connecting { job: self.job }),
        }
    }
}

impl Connecting {
    /// The address to connect to.
    pub fn address(&self) -> (address: String)
        ensures
            address@ == self@.job().key.address(),
    {
        let mut address = self.job.key.host.clone();
        address.append(":");
        address.append(decimal_text(self.job.key.port as u64).as_str());
        address
    }

    /// Go on with the new connection.
    pub fn connected<C>(self, result: Result<C, std::io::Error>) -> (step: Step<C>)
        ensures
            next(self@, Event::Connected(result)) == Some(step@),
    {
        match result {
            Ok(connection) => if self.job.key.use_tls {
                Step::Secure(Securing { job: self.job }, connection)
            } else {
                Step::Send(Sending { job: self.job, is_reused: false }, connection)
            },
            Err(source) => Step::Failed(Error::UnableToConnect(source)),
        }
    }
}

impl Securing {
    /// The name of the server, for which the connection is to be secured.
    pub fn host(&self) -> (host: &str)
        ensures
            host@ == self@.job().key.host,
    {
        self.job.key.host.as_str()
    }

    /// Go on with the secured connection.
    pub fn secured<C>(self, result: Result<C, std::io::Error>) -> (step: Step<C>)
        ensures
            next(self@, Event::Secured(result)) == Some(step@),
    {
        match result {
            Ok(connection) => Step::Send(Sending { job: self.job, is_reused: false }, connection),
            Err(source) => Step::Failed(Error::TlsHandshake(source)),
        }
    }
}

impl Sending {
    /// The bytes to send.
    pub fn raw_request(&self) -> (bytes: &[u8])
        ensures
            bytes@ == self@.job().raw_request,
    {
        self.job.raw_request.as_slice()
    }

    /// Go on once the request was sent.
    pub fn sent<C>(self, result: Result<(), std::io::Error>, connection: C) -> (step: Step<C>)
        ensures
            next(self@, Event::Sent(result, connection)) == Some(step@),
            step@ matches StepView::Continue { state, .. } ==> state.is_open(),
    {
        match result {
            Ok(_) => Step::Receive(
                Receiving {
                    job: self.job,
                    is_reused: self.is_reused,
                    exchange: Exchange::new(),
                },
                connection,
            ),
            Err(source) => Step::Failed(Error::UnableToSend(source)),
        }
    }
}

impl Job {
    /// Decide what becomes of the connection once the response is in.
    pub fn conclude<C>(self, response: Response, rest: Vec<u8>, connection: C) -> (results: (
        FetchResults<C>,
        Option<Parked<C>>,
    ))
        ensures
            answer_of(results.0, results.1) == conclusion(self@, response@, rest@, connection),
            results.0.response == response,
    {
        match self.connection_use {
            ConnectionUse::SingleResource => (FetchResults { response, upgrade: None }, None),
            ConnectionUse::MultipleResources => (
                FetchResults { response, upgrade: None },
                Some(Parked { key: self.key, connection }),
            ),
            ConnectionUse::Upgrade { .. } => {
                if response.status_code == SWITCHING_PROTOCOLS {
                    let mut rest = rest;
                    let mut trailer = response.trailer.clone();
                    assert(trailer@ =~= response.trailer@);
                    trailer.append(&mut rest);
                    (
                        FetchResults {
                            response,
                            upgrade: Some(ConnectionUpgrade { connection, trailer }),
                        },
                        None,
                    )
                } else {
                    (FetchResults { response, upgrade: None }, None)
                }
            },
        }
    }

    /// Go on once the content codings of the response were undone, or could
    /// not be.
    pub fn decoded<C>(
        self,
        outcome: Result<Response, MessageError>,
        rest: Vec<u8>,
        connection: C,
    ) -> (step: Step<C>)
        ensures
            step@ == after_decoding(
                self@,
                match outcome {
                    Ok(response) => Some(response@),
                    Err(_) => None,
                },
                rest@,
                connection,
            ),
            match outcome {
                Ok(response) => step is Done && step->Done_0.response == response,
                Err(source) => step == Step::<C>::Failed(Error::BadResponse(source)),
            },
    {
        match outcome {
            Ok(response) => {
                let (results, parked) = self.conclude(response, rest, connection);
                Step::Done(results, parked)
            },
            Err(source) => Step::Failed(Error::BadResponse(source)),
        }
    }

    /// Go on once bytes of the response came in.
    pub fn replied<C>(self, is_reused: bool, reply: Reply, connection: C) -> (step: Step<C>)
        ensures
            step@ == after_reply(self@, is_reused, reply@, connection),
            reply matches Reply::Bad(source) ==> step == Step::<C>::Failed(
                Error::BadResponse(source),
            ),
    {
        match reply {
            Reply::More(exchange) => Step::Receive(
                Receiving { job: self, is_reused, exchange },
                connection,
            ),
            Reply::Whole { response, rest } => self.decoded(response.decode(), rest, connection),
            Reply::Bad(source) => Step::Failed(Error::BadResponse(source)),
        }
    }

    /// Go on once the server closed the connection before the response ended:
    /// try again if the connection was one that had been kept, since the
    /// server may have closed it before it saw the request.
    pub fn disconnected<C>(self, is_reused: bool) -> (step: Step<C>)
        ensures
            step@ == after_disconnect::<C>(self@, is_reused),
    {
        if is_reused {
            Step::Recycle(Recycling { job: self })
        } else {
            Step::Failed(Error::Disconnected)
        }
    }
}

impl Receiving {
    /// Go on with the bytes that came in, none if the server closed the
    /// connection.
    ///
    /// Room for a body is set aside as soon as its length, or that of a chunk
    /// of it, is known.  The call does not return if a response states a
    /// length beyond what memory can hold.
    pub fn received<C>(self, result: Result<Vec<u8>, std::io::Error>, connection: C) -> (step: Step<
        C,
    >)
        ensures
            next(
                self@,
                Event::Received(
                    match result {
                        Ok(data) => Ok(data@),
                        Err(source) => Err(source),
                    },
                    connection,
                ),
            ) == Some(step@),
            result matches Ok(data) ==> data@.len() > 0 ==> {
                &&& self@.is_open()
                &&& self@->exchange.heeds(data@)
            },
            step@ matches StepView::Continue { state, .. } ==> state.is_open(),
    {
        let data = match result {
            Ok(data) => data,
            Err(source) => {
                return Step::Failed(Error::UnableToReceive(source));
            },
        };
        if data.is_empty() {
            return self.job.disconnected(self.is_reused);
        }
        let reply = self.exchange.receive(data);
        self.job.replied(self.is_reused, reply, connection)
    }
}

} // verus!

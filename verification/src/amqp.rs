//! The message queue side of the service: what is published when a flight
//! plan is accepted, and what can go wrong while the queue is set up.

use crate::grpc::FlightPlanRequest;
use vstd::prelude::*;
use vstd::string::StringSliceAdditionalSpecFns;

verus! {

/// Name of the exchange for flight plan messages.
pub const EXCHANGE_NAME_FLIGHTPLAN: &'static str = "flightplan";

/// Name of the queue for cargo messages.
pub const QUEUE_NAME_CARGO: &'static str = "cargo";

/// Routing key for cargo messages.
pub const ROUTING_KEY_CARGO: &'static str = "cargo";

/// What can go wrong with the message queue.
#[derive(Clone, Copy, Debug, PartialEq, Eq, Structural)]
pub enum AMQPError {
    /// Could not publish.
    CouldNotPublish,
    /// Could not connect to the pool.
    CouldNotConnect,
    /// Missing configuration.
    MissingConfiguration,
    /// Could not create channel.
    CouldNotCreateChannel,
    /// Could not declare queue.
    CouldNotDeclareQueue,
    /// Could not declare exchange.
    CouldNotDeclareExchange,
}

impl AMQPError {
    /// The text of the error.
    pub open spec fn text(self) -> Seq<char> {
        match self {
            AMQPError::CouldNotPublish => "error: Could not publish to queue."@,
            AMQPError::CouldNotConnect => "error: Could not connect to amqp pool."@,
            AMQPError::MissingConfiguration =>
                "error: Missing configuration for amqp pool connection."@,
            AMQPError::CouldNotCreateChannel => "error: Could not create channel."@,
            AMQPError::CouldNotDeclareQueue => "error: Could not declare queue."@,
            AMQPError::CouldNotDeclareExchange => "error: Could not declare exchange."@,
        }
    }

    /// Writes the error out.
    pub fn message(&self) -> (message: &'static str)
        ensures
            message@ == self.text(),
    {
        match self {
            AMQPError::CouldNotPublish => "error: Could not publish to queue.",
            AMQPError::CouldNotConnect => "error: Could not connect to amqp pool.",
            AMQPError::MissingConfiguration => {
                "error: Missing configuration for amqp pool connection."
            },
            AMQPError::CouldNotCreateChannel => "error: Could not create channel.",
            AMQPError::CouldNotDeclareQueue => "error: Could not declare queue.",
            AMQPError::CouldNotDeclareExchange => "error: Could not declare exchange.",
        }
    }
}

/// The steps in which the queue is set up, in their order.
#[derive(Clone, Copy, Debug, PartialEq, Eq, Structural)]
pub enum SetupStep {
    /// A connection is taken from the pool.
    Connect,
    /// A channel is opened on the connection.
    CreateChannel,
    /// The cargo queue is declared.
    DeclareQueue,
    /// The flight plan exchange is declared.
    DeclareExchange,
    /// The cargo queue is bound to the exchange.
    BindQueue,
}

impl SetupStep {
    /// The step that follows this one, if it is not the last.
    pub open spec fn successor(self) -> Option<SetupStep> {
        match self {
            SetupStep::Connect => Some(SetupStep::CreateChannel),
            SetupStep::CreateChannel => Some(SetupStep::DeclareQueue),
            SetupStep::DeclareQueue => Some(SetupStep::DeclareExchange),
            SetupStep::DeclareExchange => Some(SetupStep::BindQueue),
            SetupStep::BindQueue => None,
        }
    }

    /// The error with which the setup ends when this step fails.
    pub open spec fn failure(self) -> AMQPError {
        match self {
            SetupStep::Connect => AMQPError::CouldNotConnect,
            SetupStep::CreateChannel => AMQPError::CouldNotCreateChannel,
            SetupStep::DeclareQueue => AMQPError::CouldNotDeclareQueue,
            SetupStep::DeclareExchange => AMQPError::CouldNotDeclareExchange,
            SetupStep::BindQueue => AMQPError::CouldNotDeclareExchange,
        }
    }

    /// The step with which the setup starts.
    pub fn first() -> (step: SetupStep)
        ensures
            step == SetupStep::Connect,
    {
        SetupStep::Connect
    }

    /// Says how the setup goes on after this step, which went well if
    /// `done` is true: with the next step, or, after the last, with nothing
    /// more to do; a step that failed ends the setup with its error.
    pub fn advance(&self, done: bool) -> (next: Result<Option<SetupStep>, AMQPError>)
        ensures
            done ==> next == Ok::<Option<SetupStep>, AMQPError>(self.successor()),
            !done ==> next == Err::<Option<SetupStep>, AMQPError>(self.failure()),
    {
        if !done {
            return Err(
                match self {
                    SetupStep::Connect => AMQPError::CouldNotConnect,
                    SetupStep::CreateChannel => AMQPError::CouldNotCreateChannel,
                    SetupStep::DeclareQueue => AMQPError::CouldNotDeclareQueue,
                    SetupStep::DeclareExchange => AMQPError::CouldNotDeclareExchange,
                    SetupStep::BindQueue => AMQPError::CouldNotDeclareExchange,
                },
            );
        }
        Ok(
            match self {
                SetupStep::Connect => Some(SetupStep::CreateChannel),
                SetupStep::CreateChannel => Some(SetupStep::DeclareQueue),
                SetupStep::DeclareQueue => Some(SetupStep::DeclareExchange),
                SetupStep::DeclareExchange => Some(SetupStep::BindQueue),
                SetupStep::BindQueue => None,
            },
        )
    }
}

/// Picks the address of the queue out of the configuration: without one
/// there is nothing to connect to.
pub fn pool_address(url: Option<String>) -> (address: Result<String, AMQPError>)
    ensures
        url matches Some(u) ==> address == Ok::<String, AMQPError>(u),
        url is None ==> address == Err::<String, AMQPError>(AMQPError::MissingConfiguration),
{
    match url {
        Some(address) => Ok(address),
        None => Err(AMQPError::MissingConfiguration),
    }
}

/// One message for the queue.
#[derive(Debug)]
pub struct Publication {
    /// The exchange that the message goes to.
    pub exchange: &'static str,
    /// The key by which the exchange routes it.
    pub routing_key: &'static str,
    /// The body of the message.
    pub payload: Vec<u8>,
}

/// The error of `serde_json`.
#[verifier::external_type_specification]
#[verifier::external_body]
pub struct ExJsonError(serde_json::Error);

/// The bytes that `serde_json::to_vec` writes for the string `text`: the
/// JSON string literal of `text`, between double quotes.
pub uninterp spec fn json_string(text: Seq<char>) -> Seq<u8>;

/// Writes `text` as a JSON string literal with `serde_json::to_vec`. The
/// call succeeds: a string is written into a vector, which takes every
/// write, and neither of the two reasons for which the call may fail, a
/// value that refuses to be written and a map with keys that are no strings,
/// can hold of a string. Its bytes are the ones that `json_string` names.
#[verifier::external_body]
fn json_bytes(text: &str) -> (bytes: Result<Vec<u8>, serde_json::Error>)
    ensures
        bytes is Ok,
        bytes matches Ok(b) ==> b@ == json_string(text@),
{
    serde_json::to_vec(text)
}

/// The JSON object that stands for a flight plan request, given the JSON
/// string literals of its key and of its data.
pub open spec fn flight_plan_frame(flight_plan_id: Seq<u8>, data: Seq<u8>) -> Seq<u8> {
    "{\"flight_plan_id\":".spec_bytes() + flight_plan_id + ",\"data\":".spec_bytes() + data
        + "}".spec_bytes()
}

/// Puts the JSON string literals of a request's key and data into the JSON
/// object that stands for the request.
pub fn frame_flight_plan(flight_plan_id: Vec<u8>, data: Vec<u8>) -> (payload: Vec<u8>)
    ensures
        payload@ == flight_plan_frame(flight_plan_id@, data@),
{
    let mut flight_plan_id = flight_plan_id;
    let mut data = data;
    let mut payload = "{\"flight_plan_id\":".as_bytes_vec();
    payload.append(&mut flight_plan_id);
    let mut middle = ",\"data\":".as_bytes_vec();
    payload.append(&mut middle);
    payload.append(&mut data);
    let mut end = "}".as_bytes_vec();
    payload.append(&mut end);
    payload
}

/// Whether `message` is the message that tells the queue of `request`.
pub open spec fn tells_of(message: Publication, request: FlightPlanRequest) -> bool {
    &&& message.exchange@ == EXCHANGE_NAME_FLIGHTPLAN@
    &&& message.routing_key@ == QUEUE_NAME_CARGO@
    &&& message.payload@ == flight_plan_frame(
        json_string(request.flight_plan_id@),
        json_string(request.data@),
    )
}

/// Builds the message that tells the queue of a flight plan request: the
/// key and the data of the request are written as JSON and framed as one
/// object.
pub fn flight_plan_publication(request: &FlightPlanRequest) -> (message: Option<Publication>)
    ensures
        message matches Some(m) && tells_of(m, *request),
{
    let flight_plan_id = json_bytes(request.flight_plan_id.as_str());
    let data = json_bytes(request.data.as_str());
    publication_of(flight_plan_id, data)
}

/// Whether `message` is what is published when the writing of a request's
/// key and of its data as JSON ended as `flight_plan_id` and `data` say:
/// the two framed as one object for the cargo queue of the flight plan
/// exchange, or nothing where one of them could not be written.
pub open spec fn publication_fits(
    flight_plan_id: Result<Vec<u8>, serde_json::Error>,
    data: Result<Vec<u8>, serde_json::Error>,
    message: Option<Publication>,
) -> bool {
    match (flight_plan_id, data) {
        (Ok(key), Ok(body)) => message matches Some(m) && m.exchange@
            == EXCHANGE_NAME_FLIGHTPLAN@ && m.routing_key@ == QUEUE_NAME_CARGO@ && m.payload@
            == flight_plan_frame(key@, body@),
        _ => message is None,
    }
}

/// Makes the message for the queue out of how the writing of a request's
/// key and of its data as JSON ended: there is a message exactly when both
/// were written.
pub fn publication_of(
    flight_plan_id: Result<Vec<u8>, serde_json::Error>,
    data: Result<Vec<u8>, serde_json::Error>,
) -> (message: Option<Publication>)
    ensures
        publication_fits(flight_plan_id, data, message),
{
    match (flight_plan_id, data) {
        (Ok(key), Ok(body)) => Some(
            Publication {
                exchange: EXCHANGE_NAME_FLIGHTPLAN,
                routing_key: QUEUE_NAME_CARGO,
                payload: frame_flight_plan(key, body),
            },
        ),
        _ => None,
    }
}

} // verus!

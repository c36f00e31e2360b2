//! What a platform is asked to do, and what it sees when asked
use vstd::prelude::*;

use crate::config::Config;
use crate::msg::{Id, Message, Token};
use crate::to_bytes::{spec_message_bytes, spec_message_size, spec_wire_size, MessageToBytesError};
use crate::net::{same_addr, Addrd};
use crate::time::Instant;
use crate::toad_string::String;

pub use crate::runtime::Retryable;

verus! {

/// `log::Level`, carried as an opaque value
#[verifier::external_type_specification]
#[verifier::external_body]
pub struct ExLevel(log::Level);

/// The clock failed to give the time
#[derive(Debug, Clone, Copy, PartialEq, Eq, Structural)]
pub struct ClockError;

/// Default [`PlatformError`] implementation
#[derive(Debug)]
pub enum Error<Step, Socket> {
    /// A message could not be written as bytes
    MessageToBytes(MessageToBytesError),
    /// A step of the runtime failed
    Step(Step),
    /// The socket failed
    Socket(Socket),
    /// The clock failed
    Clock(ClockError),
}

/// Errors that may be encountered during the CoAP lifecycle
pub trait PlatformError<StepError, SocketError>: Sized {
    /// Convert a [`MessageToBytesError`] to this error
    fn msg_to_bytes(e: MessageToBytesError) -> Self;

    /// Convert a step error to this error
    fn step(e: StepError) -> Self;

    /// Convert a socket error to this error
    fn socket(e: SocketError) -> Self;

    /// Convert a clock error to this error
    fn clock(e: ClockError) -> Self;
}

impl<Step, Socket> PlatformError<Step, Socket> for Error<Step, Socket> {
    fn msg_to_bytes(e: MessageToBytesError) -> (r: Self)
        ensures
            r == Error::<Step, Socket>::MessageToBytes(e),
    {
        Error::MessageToBytes(e)
    }

    fn step(e: Step) -> (r: Self)
        ensures
            r == Error::<Step, Socket>::Step(e),
    {
        Error::Step(e)
    }

    fn socket(e: Socket) -> (r: Self)
        ensures
            r == Error::<Step, Socket>::Socket(e),
    {
        Error::Socket(e)
    }

    fn clock(e: ClockError) -> (r: Self)
        ensures
            r == Error::<Step, Socket>::Clock(e),
    {
        Error::Clock(e)
    }
}

/// What sending a message puts on the wire: its id and token, and its bytes
/// addressed to its destination. A message too long for a datagram of
/// `max_size` bytes (`None`: no limit) is refused, and so is one with an
/// option that cannot be written.
pub fn dgram_of(msg: Addrd<Message>, max_size: Option<usize>) -> (r: Result<(Id, Token, Addrd<Vec<u8>>), MessageToBytesError>)
    requires
        msg.0.wf(),
        spec_message_size(msg.0@) <= usize::MAX,
    ensures
        match max_size {
            Some(max) if max < spec_wire_size(msg.0@) => r == Err::<
                (Id, Token, Addrd<Vec<u8>>),
                MessageToBytesError,
            >(MessageToBytesError::TooLong { capacity: max, size: spec_wire_size(msg.0@) as usize }),
            _ => if crate::msg::opt::wire::opts_fit(msg.0.opts@, 0) {
                r matches Ok((id, token, d)) && id == msg.0.id && token@ == msg.0.token@ && d.1 == msg.1
                    && d.0@ == spec_message_bytes(msg.0@)
            } else {
                r == Err::<(Id, Token, Addrd<Vec<u8>>), MessageToBytesError>(
                    MessageToBytesError::OptionOutOfRange,
                )
            },
        },
{
    let Addrd(m, addr) = msg;
    let id = m.id;
    let token = m.token.copied();
    match m.try_into_bytes(max_size) {
        Ok(bytes) => Ok((id, token, Addrd(bytes, addr))),
        Err(e) => Err(e),
    }
}

/// The `==` of `log::Level`, which is derived on a field-less enum: two
/// levels compare equal exactly when they are the same level.
#[verifier::external_body]
fn same_level(a: &log::Level, b: &log::Level) -> (r: bool)
    ensures
        r == (*a == *b),
{
    a == b
}

/// A side effect that the runtime asks the platform to perform
#[derive(Debug)]
pub enum Effect {
    /// Send a message
    Send(Addrd<Message>),
    /// Log a line
    Log(log::Level, String<1000>),
    /// Do nothing
    Nop,
}

impl Effect {
    /// Is this a [`Effect::Send`]?
    pub fn is_send(&self) -> (r: bool)
        ensures
            r == (*self is Send),
    {
        self.get_send().is_some()
    }

    /// The message of a [`Effect::Send`]
    pub fn get_send(&self) -> (r: Option<&Addrd<Message>>)
        ensures
            r == match *self {
                Effect::Send(m) => Some(&m),
                _ => None::<&Addrd<Message>>,
            },
    {
        match self {
            Effect::Send(r) => Some(r),
            _ => None,
        }
    }
}

/// Two effects are equal when both send equal messages to the same address,
/// or both log the same text at the same level; `Nop` equals nothing.
impl PartialEq for Effect {
    fn eq(&self, other: &Self) -> (r: bool) {
        match (self, other) {
            (Effect::Send(a), Effect::Send(b)) => a.0 == b.0 && same_addr(&a.1, &b.1),
            (Effect::Log(al, am), Effect::Log(bl, bm)) => same_level(al, bl) && am == bm,
            _ => false,
        }
    }
}

impl vstd::std_specs::cmp::PartialEqSpecImpl for Effect {
    open spec fn obeys_eq_spec() -> bool {
        true
    }

    open spec fn eq_spec(&self, other: &Self) -> bool {
        match (*self, *other) {
            (Effect::Send(a), Effect::Send(b)) => crate::msg::same_message(a.0@, b.0@) && a.1 == b.1,
            (Effect::Log(al, am), Effect::Log(bl, bm)) => al == bl && am.bytes() == bm.bytes(),
            _ => false,
        }
    }
}

impl Default for Effect {
    fn default() -> (r: Effect)
        ensures
            r is Nop,
    {
        Effect::Nop
    }
}

/// What the platform sees at one moment: the time, a datagram if one was
/// received, and the configuration
#[non_exhaustive]
#[derive(Debug)]
pub struct Snapshot {
    /// The current time
    pub time: Instant,
    /// The datagram received, if any
    pub recvd_dgram: Option<Addrd<Vec<u8>>>,
    /// The runtime configuration
    pub config: Config,
}

impl Snapshot {
    /// A snapshot of the given time, datagram and configuration
    pub fn new(time: Instant, recvd_dgram: Option<Addrd<Vec<u8>>>, config: Config) -> (r: Snapshot)
        ensures
            r == (Snapshot { time, recvd_dgram, config }),
    {
        Snapshot { time, recvd_dgram, config }
    }
}

} // verus!

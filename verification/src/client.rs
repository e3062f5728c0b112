//! What a feed's connection delivers, and where the connection is made.
//!
//! The socket itself is the caller's. Here is decided what a frame that was
//! read means for the listener, and how the endpoint of a feed is written.

use crate::constants::FeedInfo;
use crate::error::ClientError;
use crate::text::text_of_bytes;
use vstd::prelude::*;
use vstd::string::StringExecFns;
use vstd::utf8::{decode_utf8, valid_utf8};

verus! {

/// The kind of a frame.
#[derive(Clone, Copy, Debug, PartialEq, Eq, Structural)]
pub enum OpCode {
    Continuation,
    Text,
    Binary,
    Close,
    Ping,
    Pong,
}

/// What a read gave, as a value: `None` where the read failed, else the kind
/// of the frame and its payload.
pub open spec fn message_of(frame: Option<(OpCode, Seq<u8>)>) -> Result<Seq<char>, ClientError> {
    match frame {
        None => Err(ClientError::Error),
        Some((OpCode::Text, payload)) => if valid_utf8(payload) {
            Ok(decode_utf8(payload))
        } else {
            Err(ClientError::ParsingError)
        },
        Some((OpCode::Close, _)) => Err(ClientError::EndpointClosedConnection),
        Some((OpCode::Binary, _)) => Err(ClientError::ParsingError),
        Some((OpCode::Continuation, _)) => Err(ClientError::ParsingError),
        Some((OpCode::Ping, _)) => Err(ClientError::Error),
        Some((OpCode::Pong, _)) => Err(ClientError::Error),
    }
}

/// A message as a value.
pub open spec fn message_view(message: Result<String, ClientError>) -> Result<
    Seq<char>,
    ClientError,
> {
    match message {
        Ok(text) => Ok(text@),
        Err(e) => Err(e),
    }
}

/// The message that a read gave.
///
/// A text frame is the message it carries; one that is not UTF-8, and any
/// other data frame, is a parsing error. A close frame says that the peer
/// has closed the connection. A failed read, and a control frame that should
/// have been answered before it got here, is an error of the transport.
pub fn read_msg(frame: Option<(OpCode, Vec<u8>)>) -> (message: Result<String, ClientError>)
    ensures
        message_view(message) == message_of(
            match frame {
                Some((opcode, payload)) => Some((opcode, payload@)),
                None => None,
            },
        ),
{
    match frame {
        None => Err(ClientError::Error),
        Some((opcode, payload)) => match opcode {
            OpCode::Text => match text_of_bytes(payload) {
                Some(text) => Ok(text),
                None => Err(ClientError::ParsingError),
            },
            OpCode::Close => Err(ClientError::EndpointClosedConnection),
            OpCode::Binary => Err(ClientError::ParsingError),
            OpCode::Continuation => Err(ClientError::ParsingError),
            OpCode::Ping => Err(ClientError::Error),
            OpCode::Pong => Err(ClientError::Error),
        },
    }
}

/// The character of a digit.
pub open spec fn digit_char(d: int) -> char {
    if d == 0 {
        '0'
    } else if d == 1 {
        '1'
    } else if d == 2 {
        '2'
    } else if d == 3 {
        '3'
    } else if d == 4 {
        '4'
    } else if d == 5 {
        '5'
    } else if d == 6 {
        '6'
    } else if d == 7 {
        '7'
    } else if d == 8 {
        '8'
    } else {
        '9'
    }
}

/// A number in decimal digits, without leading zeros.
pub open spec fn decimal_digits(n: nat) -> Seq<char>
    decreases n,
{
    if n < 10 {
        seq![digit_char(n as int)]
    } else {
        decimal_digits(n / 10).push(digit_char((n % 10) as int))
    }
}

/// Host and port of an endpoint, as they stand in a `Host` header.
pub open spec fn address_of(domain: Seq<char>, port: u16) -> Seq<char> {
    domain + ":"@ + decimal_digits(port as nat)
}

/// The address at which an endpoint is asked to switch to WebSocket.
pub open spec fn uri_of(domain: Seq<char>, port: u16, path: Seq<char>) -> Seq<char> {
    "wss://"@ + address_of(domain, port) + path
}

/// One digit as text.
fn digit_text(d: u16) -> (text: &'static str)
    requires
        d < 10,
    ensures
        text@ == seq![digit_char(d as int)],
{
    proof {
        reveal_strlit("0");
        reveal_strlit("1");
        reveal_strlit("2");
        reveal_strlit("3");
        reveal_strlit("4");
        reveal_strlit("5");
        reveal_strlit("6");
        reveal_strlit("7");
        reveal_strlit("8");
        reveal_strlit("9");
    }
    let text = if d == 0 {
        "0"
    } else if d == 1 {
        "1"
    } else if d == 2 {
        "2"
    } else if d == 3 {
        "3"
    } else if d == 4 {
        "4"
    } else if d == 5 {
        "5"
    } else if d == 6 {
        "6"
    } else if d == 7 {
        "7"
    } else if d == 8 {
        "8"
    } else {
        "9"
    };
    assert(text@ =~= seq![digit_char(d as int)]);
    text
}

/// Appends a number in decimal digits.
fn append_decimal(text: &mut String, n: u16)
    ensures
        final(text)@ == old(text)@ + decimal_digits(n as nat),
    decreases n,
{
    if n >= 10 {
        append_decimal(text, n / 10);
    }
    text.append(digit_text(n % 10));
    assert(text@ =~= old(text)@ + decimal_digits(n as nat));
}

impl<'a> FeedInfo<'a> {
    /// Host and port, as they stand in a `Host` header.
    pub fn address(&self) -> (address: String)
        ensures
            address@ == address_of(self.domain@, self.port),
    {
        let mut address = self.domain.to_owned();
        address.append(":");
        append_decimal(&mut address, self.port);
        address
    }

    /// The address at which the endpoint is asked to switch to WebSocket.
    pub fn uri(&self) -> (uri: String)
        ensures
            uri@ == uri_of(self.domain@, self.port, self.path@),
    {
        let mut uri = "wss://".to_owned();
        let address = self.address();
        uri.append(address.as_str());
        uri.append(self.path);
        uri
    }
}

} // verus!

//! One request/response exchange with the daemon, as a state machine over the
//! bytes read from the connection. The caller sends the framed request, then
//! asks `next_read` what to read, hands what it read to `feed`, and repeats
//! until the exchange is finished.
use crate::codec::{parse_hex4, parse_length};
use crate::errors::{AdbSocketError, Response};
use crate::text::string_from_utf8;
use vstd::prelude::*;
use vstd::utf8::*;

verus! {

/// Whether the reply starts with a four-byte status token.
#[derive(Debug, Clone, Copy, PartialEq, Eq, Structural)]
pub enum StatusPrefix {
    Present,
    Absent,
}

/// How the reply's body is delimited.
#[derive(Debug, Clone, Copy, PartialEq, Eq, Structural)]
pub enum BodyMode {
    /// No body is read.
    NoBody,
    /// The body runs until the daemon closes the stream.
    ToEof,
    /// Four hexadecimal digits give the body's length in bytes.
    LengthPrefixed,
}

/// How a command's reply is framed.
#[derive(Debug, Clone, Copy, PartialEq, Eq, Structural)]
pub struct FrameConfig {
    pub status: StatusPrefix,
    pub body: BodyMode,
}

/// What the caller must read next.
#[derive(Debug, Clone, Copy, PartialEq, Eq, Structural)]
pub enum ReadStep {
    /// Exactly this many bytes.
    Exact(usize),
    /// Everything until the daemon closes the stream.
    ToEof,
    /// Nothing: the response is ready.
    Finished,
}

/// Where an exchange stands.
#[derive(Debug)]
pub enum Phase {
    AwaitStatus,
    AwaitLength,
    AwaitBody(usize),
    AwaitEof,
    Done(Response),
}

/// An exchange in progress: the body mode, the status token read so far
/// (empty when the reply has none) and the phase.
#[derive(Debug)]
pub struct Exchange {
    pub body: BodyMode,
    pub token: Vec<u8>,
    pub phase: Phase,
}

/// The token `OKAY`.
pub open spec fn okay_token() -> Seq<u8> {
    seq![0x4Fu8, 0x4Bu8, 0x41u8, 0x59u8]
}

/// The token `FAIL`.
pub open spec fn fail_token() -> Seq<u8> {
    seq![0x46u8, 0x41u8, 0x49u8, 0x4Cu8]
}

/// `r` is the classified outcome of a reply with this status token and text:
/// `OKAY` gives `Okay`, `FAIL` gives `Fail`, any other token (or none) gives
/// `Unknown`, each carrying the text.
pub open spec fn is_outcome(r: Response, token: Seq<u8>, text: Seq<char>) -> bool {
    match r {
        Response::Okay(s) => token == okay_token() && s@ == text,
        Response::Fail(s) => token == fail_token() && s@ == text,
        Response::Unknown(s) => token != okay_token() && token != fail_token() && s@ == text,
    }
}

/// A status token other than `OKAY` and `FAIL` always classifies as
/// `Unknown`, never as `Okay` or `Fail`, whatever the text.
pub proof fn lemma_other_tokens_unknown(r: Response, token: Seq<u8>, text: Seq<char>)
    requires
        is_outcome(r, token, text),
        token != okay_token(),
        token != fail_token(),
    ensures
        r is Unknown,
{
}

fn is_token(token: &[u8], a: u8, b: u8, c: u8, d: u8) -> (r: bool)
    ensures
        r == (token@ == seq![a, b, c, d]),
{
    if token.len() == 4 && token[0] == a && token[1] == b && token[2] == c && token[3] == d {
        assert(token@ =~= seq![a, b, c, d]);
        true
    } else {
        false
    }
}

/// Classifies a reply by its status token: `OKAY` is `Okay`, `FAIL` is
/// `Fail`, anything else is `Unknown`, each carrying the body.
pub fn classify(token: &[u8], body: String) -> (r: Response)
    ensures
        is_outcome(r, token@, body@),
        token@ != okay_token() && token@ != fail_token() ==> r is Unknown,
{
    if is_token(token, 0x4F, 0x4B, 0x41, 0x59) {
        Response::Okay(body)
    } else if is_token(token, 0x46, 0x41, 0x49, 0x4C) {
        Response::Fail(body)
    } else {
        Response::Unknown(body)
    }
}

impl Exchange {
    /// The phase that follows the status token (or its absence) in this body
    /// mode: with no body the response is ready and its text is empty.
    pub open spec fn after_status(self) -> bool {
        match self.body {
            BodyMode::NoBody => self.phase matches Phase::Done(r) && is_outcome(
                r,
                self.token@,
                Seq::empty(),
            ),
            BodyMode::ToEof => self.phase is AwaitEof,
            BodyMode::LengthPrefixed => self.phase is AwaitLength,
        }
    }

    /// What the caller must read in this phase.
    pub open spec fn step_of(self) -> ReadStep {
        match self.phase {
            Phase::AwaitStatus => ReadStep::Exact(4),
            Phase::AwaitLength => ReadStep::Exact(4),
            Phase::AwaitBody(n) => ReadStep::Exact(n),
            Phase::AwaitEof => ReadStep::ToEof,
            Phase::Done(_) => ReadStep::Finished,
        }
    }

    /// The bytes handed to `feed` are what this phase asked for.
    pub open spec fn accepts(self, data: Seq<u8>) -> bool {
        match self.step_of() {
            ReadStep::Exact(n) => data.len() == n,
            ReadStep::ToEof => true,
            ReadStep::Finished => false,
        }
    }

    fn finish_status(body: BodyMode, token: Vec<u8>) -> (r: Exchange)
        ensures
            r.body == body,
            r.token@ == token@,
            r.after_status(),
    {
        let phase = match body {
            BodyMode::NoBody => Phase::Done(classify(token.as_slice(), String::new())),
            BodyMode::ToEof => Phase::AwaitEof,
            BodyMode::LengthPrefixed => Phase::AwaitLength,
        };
        Exchange { body, token, phase }
    }

    /// Starts the exchange for a request sent with this framing: the status
    /// token comes first where the reply has one.
    pub fn new(config: FrameConfig) -> (r: Exchange)
        ensures
            r.body == config.body,
            config.status is Present ==> r.phase is AwaitStatus && r.token@.len() == 0,
            config.status is Absent ==> r.token@.len() == 0 && r.after_status(),
    {
        match config.status {
            StatusPrefix::Present => Exchange {
                body: config.body,
                token: Vec::new(),
                phase: Phase::AwaitStatus,
            },
            StatusPrefix::Absent => Exchange::finish_status(config.body, Vec::new()),
        }
    }

    /// What to read next.
    pub fn next_read(&self) -> (r: ReadStep)
        ensures
            r == self.step_of(),
    {
        match &self.phase {
            Phase::AwaitStatus => ReadStep::Exact(4),
            Phase::AwaitLength => ReadStep::Exact(4),
            Phase::AwaitBody(n) => ReadStep::Exact(*n),
            Phase::AwaitEof => ReadStep::ToEof,
            Phase::Done(_) => ReadStep::Finished,
        }
    }

    /// Takes the bytes that `next_read` asked for. The status token and the
    /// body must be valid UTF-8 and a length field four hexadecimal digits;
    /// otherwise the exchange fails with `InvalidString` or `InvalidHex`
    /// carrying those bytes.
    pub fn feed(&mut self, data: Vec<u8>) -> (r: Result<(), AdbSocketError>)
        requires
            old(self).accepts(data@),
        ensures
            match old(self).phase {
                Phase::AwaitStatus => if valid_utf8(data@) {
                    &&& r is Ok
                    &&& final(self).body == old(self).body
                    &&& final(self).token@ == data@
                    &&& final(self).after_status()
                } else {
                    r matches Err(AdbSocketError::InvalidString(b)) && b@ == data@
                },
                Phase::AwaitLength => match parse_hex4(data@) {
                    Some(n) => {
                        &&& r is Ok
                        &&& final(self).body == old(self).body
                        &&& final(self).token@ == old(self).token@
                        &&& final(self).phase matches Phase::AwaitBody(m) && m == n
                    },
                    None => r matches Err(AdbSocketError::InvalidHex(b)) && b@ == data@,
                },
                _ => if valid_utf8(data@) {
                    &&& r is Ok
                    &&& final(self).body == old(self).body
                    &&& final(self).token@ == old(self).token@
                    &&& final(self).phase matches Phase::Done(o) && is_outcome(
                        o,
                        old(self).token@,
                        decode_utf8(data@),
                    )
                } else {
                    r matches Err(AdbSocketError::InvalidString(b)) && b@ == data@
                },
            },
    {
        match self.phase {
            Phase::AwaitStatus => {
                let copy = data.clone();
                match string_from_utf8(data) {
                    Some(_) => {
                        *self = Exchange::finish_status(self.body, copy);
                        Ok(())
                    },
                    None => Err(AdbSocketError::InvalidString(copy)),
                }
            },
            Phase::AwaitLength => {
                let n = parse_length(data.as_slice())?;
                self.phase = Phase::AwaitBody(n);
                Ok(())
            },
            _ => {
                let copy = data.clone();
                match string_from_utf8(data) {
                    Some(text) => {
                        self.phase = Phase::Done(classify(self.token.as_slice(), text));
                        Ok(())
                    },
                    None => Err(AdbSocketError::InvalidString(copy)),
                }
            },
        }
    }

    /// The response of a finished exchange.
    pub fn into_response(self) -> (r: Option<Response>)
        ensures
            self.phase is Done <==> r is Some,
            self.phase matches Phase::Done(o) ==> r == Some(o),
    {
        match self.phase {
            Phase::Done(o) => Some(o),
            _ => None,
        }
    }
}

} // verus!

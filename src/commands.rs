//! The daemon commands that the client sends, each with the framing of its
//! reply.
use crate::codec::{encode_request, frame, MAX_COMMAND_LEN};
use crate::exchange::{BodyMode, FrameConfig, StatusPrefix};
use vstd::prelude::*;
use vstd::string::{StringExecFns, StringSliceAdditionalSpecFns};
use vstd::utf8::*;

verus! {

/// A framed request and how its reply is framed.
#[derive(Debug)]
pub struct Request {
    pub payload: Vec<u8>,
    pub frame: FrameConfig,
}

/// `r` sends the command `text` and reads its reply with `config`.
pub open spec fn sends(r: Request, text: Seq<char>, config: FrameConfig) -> bool {
    r.payload@ == frame(encode_utf8(text)) && r.frame == config
}

/// Status token, then a length-prefixed body.
pub open spec fn host_frame() -> FrameConfig {
    FrameConfig { status: StatusPrefix::Present, body: BodyMode::LengthPrefixed }
}

/// Status token, then a body that runs to the end of the stream.
pub open spec fn shell_frame() -> FrameConfig {
    FrameConfig { status: StatusPrefix::Present, body: BodyMode::ToEof }
}

/// Status token alone.
pub open spec fn status_frame() -> FrameConfig {
    FrameConfig { status: StatusPrefix::Present, body: BodyMode::NoBody }
}

fn framed(cmd: &str, config: FrameConfig) -> (r: Request)
    requires
        encode_utf8(cmd@).len() <= MAX_COMMAND_LEN,
    ensures
        sends(r, cmd@, config),
{
    Request { payload: encode_request(cmd), frame: config }
}

fn framed_with_arg(prefix: &str, arg: &str, config: FrameConfig) -> (r: Request)
    requires
        encode_utf8(prefix@ + arg@).len() <= MAX_COMMAND_LEN,
    ensures
        sends(r, prefix@ + arg@, config),
{
    let text = String::from_str(prefix).concat(arg);
    framed(text.as_str(), config)
}

impl Request {
    /// `host:version`: the daemon's protocol version.
    pub fn version() -> (r: Request)
        ensures
            sends(r, "host:version"@, host_frame()),
    {
        let cmd = "host:version";
        proof {
            reveal_strlit("host:version");
            is_ascii_chars_encode_utf8(cmd@);
        }
        framed(cmd, FrameConfig { status: StatusPrefix::Present, body: BodyMode::LengthPrefixed })
    }

    /// `host:devices`: the attached devices.
    pub fn devices() -> (r: Request)
        ensures
            sends(r, "host:devices"@, host_frame()),
    {
        let cmd = "host:devices";
        proof {
            reveal_strlit("host:devices");
            is_ascii_chars_encode_utf8(cmd@);
        }
        framed(cmd, FrameConfig { status: StatusPrefix::Present, body: BodyMode::LengthPrefixed })
    }

    /// `host:transport:<serial>`: binds the connection to one device.
    pub fn transport(serial: &str) -> (r: Request)
        requires
            encode_utf8("host:transport:"@ + serial@).len() <= MAX_COMMAND_LEN,
        ensures
            sends(r, "host:transport:"@ + serial@, status_frame()),
    {
        framed_with_arg(
            "host:transport:",
            serial,
            FrameConfig { status: StatusPrefix::Present, body: BodyMode::NoBody },
        )
    }

    /// `shell:<cmd>`: runs a command on the bound device; its output runs to
    /// the end of the stream.
    pub fn shell(cmd: &str) -> (r: Request)
        requires
            encode_utf8("shell:"@ + cmd@).len() <= MAX_COMMAND_LEN,
        ensures
            sends(r, "shell:"@ + cmd@, shell_frame()),
    {
        framed_with_arg(
            "shell:",
            cmd,
            FrameConfig { status: StatusPrefix::Present, body: BodyMode::ToEof },
        )
    }

    /// The dump of all the device's properties.
    pub fn properties() -> (r: Request)
        ensures
            sends(r, "shell:getprop:"@, shell_frame()),
    {
        let cmd = "shell:getprop:";
        proof {
            reveal_strlit("shell:getprop:");
            is_ascii_chars_encode_utf8(cmd@);
        }
        framed(cmd, FrameConfig { status: StatusPrefix::Present, body: BodyMode::ToEof })
    }

    /// One property of the device, answered by the status token alone.
    pub fn property(name: &str) -> (r: Request)
        requires
            encode_utf8("shell:getprop:"@ + name@).len() <= MAX_COMMAND_LEN,
        ensures
            sends(r, "shell:getprop:"@ + name@, status_frame()),
    {
        framed_with_arg(
            "shell:getprop:",
            name,
            FrameConfig { status: StatusPrefix::Present, body: BodyMode::NoBody },
        )
    }

    /// The list of installed packages, with the shell's error output dropped.
    pub fn packages() -> (r: Request)
        ensures
            sends(r, "shell:pm list packages 2> /dev/null"@, shell_frame()),
    {
        let cmd = "shell:pm list packages 2> /dev/null";
        proof {
            reveal_strlit("shell:pm list packages 2> /dev/null");
            is_ascii_chars_encode_utf8(cmd@);
        }
        framed(cmd, FrameConfig { status: StatusPrefix::Present, body: BodyMode::ToEof })
    }
}

} // verus!

//! The error and outcome types of the client.
use vstd::prelude::*;

verus! {

/// Failures of the connection and of decoding a reply.
#[derive(Debug)]
pub enum AdbSocketError {
    /// The daemon cannot be reached; carries the system's words.
    ServerError(String),
    /// Bytes that should be text are not valid UTF-8; carries the bytes.
    InvalidString(Vec<u8>),
    /// A length field is not four hexadecimal digits; carries the field.
    InvalidHex(Vec<u8>),
    /// A read or a write on the connection failed; carries the system's words.
    IOError(String),
}

/// What the daemon answered, by its status token, with the reply's text.
#[derive(Debug)]
pub enum Response {
    Okay(String),
    Fail(String),
    Unknown(String),
}

/// Errors when looking a device up by its serial number.
#[derive(Debug)]
pub enum AdbDeviceError {
    DeviceNotFound(String),
    GeneralErrors(PradbErrors),
}

/// Errors of a shell command on a device.
#[derive(Debug)]
pub enum AdbShellError {
    SocketError(AdbSocketError),
    /// The daemon answered `FAIL` or an unknown token; carries its text.
    ResponseError(String),
    Unknown,
    InvalidExitCode(String),
}

/// The output and exit code of a finished shell command.
#[derive(Debug)]
pub struct CommandResult {
    pub output: String,
    pub exit_code: i32,
}

/// Errors of the daemon-level commands.
#[derive(Debug)]
pub enum PradbErrors {
    /// The daemon answered `FAIL`; carries that response.
    ResponseRelated(Response),
    AdbRelated(AdbSocketError),
    IOError(String),
    /// The daemon answered an unknown token, or its reply could not be read.
    Unknown(Option<String>),
}

/// Errors when reading the property table of a device.
#[derive(Debug)]
pub enum PropertiesErrors {
    ServerError(AdbSocketError),
    ResponseError(String),
}

/// Errors when reading one property of a device.
#[derive(Debug)]
pub enum SinglePropertyErrors {
    ServerError(AdbSocketError),
    UnknownProperty(String),
}

/// Errors when listing the packages of a device.
#[derive(Debug)]
pub enum PackagesError {
    ServerError(AdbSocketError),
    ResponseError(String),
}

/// Errors when installing a package on a device.
#[derive(Debug)]
pub enum InstallError {
    ServerError(AdbShellError),
    ResponseError(String),
    /// The installer's output names an error; carries that output.
    PackageNotInstalled(String),
    /// The package file does not exist on this machine.
    FileNotFound,
}

} // verus!

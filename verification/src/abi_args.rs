//! The arguments of the `eth_abi` attribute, and the errors of the derivation.
use vstd::prelude::*;
use crate::abi_json::{decimal, decimal_chars};
use crate::idl::join3;
use crate::path::string_from_chars;

verus! {

/// `std::io::Error`, carried through unopened.
#[verifier::external_type_specification]
#[verifier::external_body]
pub struct ExIoError(std::io::Error);

/// `serde_json::Error`, carried through unopened.
#[verifier::external_type_specification]
#[verifier::external_body]
pub struct ExJsonError(serde_json::Error);

/// Errors that may occur while writing the JSON ABI file.
#[derive(Debug)]
pub enum JsonError {
    FailedToCreateDirectory(std::io::Error),
    FailedToCreateJsonFile(std::io::Error),
    FailedToWriteJsonAbiFile(serde_json::Error),
}

impl JsonError {
    /// The creation of the directory that will contain the JSON file failed.
    pub fn failed_to_create_dir(err: std::io::Error) -> (r: JsonError)
        ensures
            r == JsonError::FailedToCreateDirectory(err),
    {
        JsonError::FailedToCreateDirectory(err)
    }

    /// The creation of the JSON ABI file failed.
    pub fn failed_to_create_json_file(err: std::io::Error) -> (r: JsonError)
        ensures
            r == JsonError::FailedToCreateJsonFile(err),
    {
        JsonError::FailedToCreateJsonFile(err)
    }

    /// The writing of the JSON ABI file failed.
    pub fn failed_to_write_json_abi_file(err: serde_json::Error) -> (r: JsonError)
        ensures
            r == JsonError::FailedToWriteJsonAbiFile(err),
    {
        JsonError::FailedToWriteJsonAbiFile(err)
    }

    /// A short description of the error.
    pub fn description(&self) -> (r: &'static str)
        ensures
            r@ == failure_description(json_failure(self)),
    {
        match self {
            JsonError::FailedToCreateDirectory(_) => "failed to create directory for the JSON abi file",
            JsonError::FailedToCreateJsonFile(_) => "failed to create JSON abi file",
            JsonError::FailedToWriteJsonAbiFile(_) => "failed to write JSON abi file",
        }
    }
}

/// Kinds of errors that may be encountered in invocations of `eth_abi`.
#[derive(Debug)]
pub enum ErrorKind {
    /// An error that occurred upon a JSON operation.
    JsonError(JsonError),
    /// An invalid number of arguments was passed to `eth_abi`.
    InvalidNumberOfArguments {
        /// The number of found arguments.
        found: usize,
    },
    /// A malformatted argument was passed to `eth_abi`.
    MalformattedArgument {
        /// The index of the malformatted argument.
        index: usize,
    },
}

/// An error encountered in an invocation of `eth_abi`.
#[derive(Debug)]
pub struct AbiError {
    kind: ErrorKind,
}

/// Which step of writing the JSON ABI file failed.
pub enum JsonFailure {
    CreateDirectory,
    CreateJsonFile,
    WriteJsonAbiFile,
}

/// The short description of a failed step.
pub open spec fn failure_description(f: JsonFailure) -> Seq<char> {
    match f {
        JsonFailure::CreateDirectory => "failed to create directory for the JSON abi file"@,
        JsonFailure::CreateJsonFile => "failed to create JSON abi file"@,
        JsonFailure::WriteJsonAbiFile => "failed to write JSON abi file"@,
    }
}

pub open spec fn json_failure(e: &JsonError) -> JsonFailure {
    match e {
        JsonError::FailedToCreateDirectory(_) => JsonFailure::CreateDirectory,
        JsonError::FailedToCreateJsonFile(_) => JsonFailure::CreateJsonFile,
        JsonError::FailedToWriteJsonAbiFile(_) => JsonFailure::WriteJsonAbiFile,
    }
}

/// The model of an `ErrorKind`: a JSON error by the step that failed.
pub enum ErrorKindV {
    JsonError(JsonFailure),
    InvalidNumberOfArguments { found: usize },
    MalformattedArgument { index: usize },
}

impl View for AbiError {
    type V = ErrorKindV;

    closed spec fn view(&self) -> ErrorKindV {
        match self.kind {
            ErrorKind::JsonError(e) => ErrorKindV::JsonError(json_failure(&e)),
            ErrorKind::InvalidNumberOfArguments { found } => ErrorKindV::InvalidNumberOfArguments {
                found,
            },
            ErrorKind::MalformattedArgument { index } => ErrorKindV::MalformattedArgument { index },
        }
    }
}

impl AbiError {
    fn from_kind(kind: ErrorKind) -> (e: AbiError)
        ensures
            e.kind == kind,
    {
        AbiError { kind }
    }

    /// Wraps an error of a JSON operation.
    pub fn from(json_err: JsonError) -> (e: AbiError)
        ensures
            e@ == ErrorKindV::JsonError(json_failure(&json_err)),
    {
        AbiError::from_kind(ErrorKind::JsonError(json_err))
    }

    /// Returns the error kind of `self`.
    fn kind(&self) -> (k: &ErrorKind)
        ensures
            *k == self.kind,
    {
        &self.kind
    }

    /// An invalid number of arguments passed to `eth_abi` has been found.
    pub fn invalid_number_of_arguments(found: usize) -> (e: AbiError)
        requires
            found != 1 && found != 2,
        ensures
            e@ == (ErrorKindV::InvalidNumberOfArguments { found }),
    {
        AbiError::from_kind(ErrorKind::InvalidNumberOfArguments { found })
    }

    /// A malformatted argument passed to `eth_abi` has been found at the given index.
    pub fn malformatted_argument(index: usize) -> (e: AbiError)
        requires
            index <= 1,
        ensures
            e@ == (ErrorKindV::MalformattedArgument { index }),
    {
        AbiError::from_kind(ErrorKind::MalformattedArgument { index })
    }

    /// A short description of the error.
    pub fn description(&self) -> (r: &'static str)
        ensures
            self@ is InvalidNumberOfArguments ==> r@
                == "encountered an invalid number of arguments passed to eth_abi: expected 1 or 2"@,
            self@ is MalformattedArgument ==> r@
                == "encountered malformatted argument passed to eth_abi: expected identifier (e.g. `Foo`))"@,
            self@ matches ErrorKindV::JsonError(f) ==> r@ == failure_description(f),
    {
        match self.kind() {
            ErrorKind::JsonError(err) => err.description(),
            ErrorKind::InvalidNumberOfArguments { .. } => {
                "encountered an invalid number of arguments passed to eth_abi: expected 1 or 2"
            },
            ErrorKind::MalformattedArgument { .. } => {
                "encountered malformatted argument passed to eth_abi: expected identifier (e.g. `Foo`))"
            },
        }
    }
}

/// An argument of the attribute: a bare identifier, or anything else (as source text).
pub enum NestedMeta {
    Word(String),
    Other(String),
}

/// Arguments given to the `eth_abi` attribute macro.
pub struct Args {
    /// The required name of the endpoint.
    endpoint_name: String,
    /// The optional name of the client.
    client_name: Option<String>,
}

pub struct ArgsV {
    pub endpoint_name: Seq<char>,
    pub client_name: Option<Seq<char>>,
}

impl View for Args {
    type V = ArgsV;

    closed spec fn view(&self) -> ArgsV {
        ArgsV {
            endpoint_name: self.endpoint_name@,
            client_name: match self.client_name {
                Some(c) => Some(c@),
                None => None,
            },
        }
    }
}

impl Args {
    /// Extracts the endpoint name and the optional client name: one or two bare
    /// identifiers are expected.
    pub fn from_attribute_args(attr_args: Vec<NestedMeta>) -> (r: Result<Args, AbiError>)
        ensures
            attr_args@.len() == 0 || attr_args@.len() > 2 ==> (r matches Err(e) && e@ == (
            ErrorKindV::InvalidNumberOfArguments { found: attr_args@.len() as usize })),
            1 <= attr_args@.len() <= 2 && attr_args@[0] is Other ==> (r matches Err(e) && e@ == (
            ErrorKindV::MalformattedArgument { index: 0 })),
            attr_args@.len() == 2 && attr_args@[0] is Word && attr_args@[1] is Other ==> (r matches Err(
                e,
            ) && e@ == (ErrorKindV::MalformattedArgument { index: 1 })),
            1 <= attr_args@.len() <= 2 && attr_args@[0] is Word && attr_args@[attr_args@.len() - 1] is Word
                ==> (r matches Ok(a) && a@ == (ArgsV {
                endpoint_name: attr_args@[0]->Word_0@,
                client_name: if attr_args@.len() == 2 {
                    Some(attr_args@[1]->Word_0@)
                } else {
                    None
                },
            })),
    {
        if attr_args.len() == 0 || attr_args.len() > 2 {
            return Err(AbiError::invalid_number_of_arguments(attr_args.len()));
        }
        let endpoint_name = match &attr_args[0] {
            NestedMeta::Word(ident) => ident.clone(),
            NestedMeta::Other(_) => return Err(AbiError::malformatted_argument(0)),
        };
        let client_name = if attr_args.len() == 2 {
            match &attr_args[1] {
                NestedMeta::Word(ident) => Some(ident.clone()),
                NestedMeta::Other(_) => return Err(AbiError::malformatted_argument(1)),
            }
        } else {
            None
        };
        Ok(Args { endpoint_name, client_name })
    }

    /// Returns the given endpoint name.
    pub fn endpoint_name(&self) -> (r: &str)
        ensures
            r@ == self@.endpoint_name,
    {
        self.endpoint_name.as_str()
    }

    /// Returns the optional client name.
    pub fn client_name(&self) -> (r: Option<&str>)
        ensures
            match r {
                Some(c) => self@.client_name == Some(c@),
                None => self@.client_name is None,
            },
    {
        match &self.client_name {
            Some(s) => Some(s.as_str()),
            None => None,
        }
    }
}

/// The `Debug` text of an I/O error (`<std::io::Error as Debug>::fmt`); nothing is
/// stated of it.
#[verifier::external_body]
fn io_error_text(e: &std::io::Error) -> String {
    format!("{:?}", e)
}

/// The `Debug` text of a JSON error (`<serde_json::Error as Debug>::fmt`); nothing is
/// stated of it.
#[verifier::external_body]
fn json_error_text(e: &serde_json::Error) -> String {
    format!("{:?}", e)
}

/// What a JSON error tells the user first: which step failed.
pub open spec fn failure_prefix(f: JsonFailure) -> Seq<char> {
    match f {
        JsonFailure::CreateDirectory => "failed to create directory for JSON abi file: "@,
        JsonFailure::CreateJsonFile => "failed to create JSON abi file: "@,
        JsonFailure::WriteJsonAbiFile => "failed to write JSON abi file: "@,
    }
}

pub open spec fn json_message_prefix(e: &JsonError) -> Seq<char> {
    failure_prefix(json_failure(e))
}

impl JsonError {
    /// What the error tells the user: what failed, then the underlying error's
    /// `Debug` text.
    pub fn message(&self) -> (r: String)
        ensures
            exists|t: Seq<char>| r@ == json_message_prefix(self) + t,
    {
        let (prefix, inner) = match self {
            JsonError::FailedToCreateDirectory(err) => (
                "failed to create directory for JSON abi file: ",
                io_error_text(err),
            ),
            JsonError::FailedToCreateJsonFile(err) => ("failed to create JSON abi file: ", io_error_text(err)),
            JsonError::FailedToWriteJsonAbiFile(err) => (
                "failed to write JSON abi file: ",
                json_error_text(err),
            ),
        };
        let r = join3(prefix, inner.as_str(), "");
        proof {
            reveal_strlit("");
            assert(r@ =~= json_message_prefix(self) + inner@);
        }
        r
    }
}

impl AbiError {
    /// What the error tells the user.
    pub fn message(&self) -> (r: String)
        ensures
            self@ matches ErrorKindV::InvalidNumberOfArguments { found } ==> r@ == "found "@ + decimal(
                found as nat,
            ) + " arguments passed to eth_abi but expected 1 or 2"@,
            self@ matches ErrorKindV::MalformattedArgument { index } ==> r@
                == "found non-identifier argument at index "@ + decimal(index as nat) + " passed to eth_abi"@,
            self@ matches ErrorKindV::JsonError(f) ==> exists|t: Seq<char>| r@ == failure_prefix(f) + t,
    {
        match self.kind() {
            ErrorKind::JsonError(err) => err.message(),
            ErrorKind::InvalidNumberOfArguments { found } => {
                let d = decimal_chars(*found as u64);
                let n = string_from_chars(d.as_slice());
                join3("found ", n.as_str(), " arguments passed to eth_abi but expected 1 or 2")
            },
            ErrorKind::MalformattedArgument { index } => {
                let d = decimal_chars(*index as u64);
                let n = string_from_chars(d.as_slice());
                join3("found non-identifier argument at index ", n.as_str(), " passed to eth_abi")
            },
        }
    }
}

} // verus!

//! The errors of the runtime and of the wasm module.

use vstd::prelude::*;
use crate::decimal::{decimal_digits, decimal_text, widen};

verus! {

/// Why a query failed.
#[derive(Clone, Copy, Debug, PartialEq, Eq)]
pub enum QueryError {
    /// No handler answers the path that was asked for.
    PathNotFound,
    /// The height that was asked for has not been committed.
    InvalidHeight,
    /// What was asked for is not in the state.
    NotFound,
    /// The request could not be read.
    InvalidRequest,
    /// The module does not answer queries of this kind.
    Unsupported,
    /// Something inside went wrong.
    Internal,
}

/// The kinds of failure of the virtual machine that the module tells
/// apart.
#[derive(Clone, Copy, Debug, PartialEq, Eq, Structural)]
pub enum VmErrorKind {
    /// The code could not be compiled.
    Compile,
    /// The code failed the checks that are made before it runs.
    StaticValidation,
    /// Anything else.
    Other,
}

/// Why the wasm module failed.
#[derive(Debug)]
pub enum WasmError {
    /// The code could not be compiled.
    CompileErr { source: String, code_id: u64 },
    /// A contract failed while it ran or was queried.
    RuntimeErr { source: String },
    /// A contract or a code was looked for and not found.
    NotFound { kind: &'static str },
    /// The sender may not do what it tried.
    Unauthorized { action: &'static str },
    /// The message or query is malformed.
    InvalidRequest { reason: String },
    /// Something inside went wrong.
    Internal { reason: String },
}

impl WasmError {
    /// The response code of each kind of error: 5 for what was not found,
    /// 4 for what was not allowed, 3 for a malformed request, and 1 for
    /// all others. None is 0, the code of success.
    pub open spec fn code(&self) -> u32 {
        match self {
            WasmError::NotFound { .. } => 5,
            WasmError::Unauthorized { .. } => 4,
            WasmError::InvalidRequest { .. } => 3,
            WasmError::Internal { .. } | WasmError::CompileErr { .. } | WasmError::RuntimeErr {
                ..
            } => 1,
        }
    }

    /// The error in words.
    pub open spec fn text(&self) -> Seq<char> {
        match self {
            WasmError::CompileErr { source, code_id } => "compilation failed for code "@ + widen(
                decimal_digits(*code_id as nat),
            ) + ": "@ + source@,
            WasmError::RuntimeErr { source } => "runtime error: "@ + source@,
            WasmError::NotFound { kind } => kind@ + " not found"@,
            WasmError::Unauthorized { action } => "unauthorized: "@ + action@,
            WasmError::InvalidRequest { reason } => "invalid request: "@ + reason@,
            WasmError::Internal { reason } => "internal error: "@ + reason@,
        }
    }

    /// The response code that stands for this error.
    pub fn abci_code(&self) -> (c: u32)
        ensures
            c == self.code(),
            c != 0,
    {
        match self {
            WasmError::NotFound { .. } => 5,
            WasmError::Unauthorized { .. } => 4,
            WasmError::InvalidRequest { .. } => 3,
            WasmError::Internal { .. } | WasmError::CompileErr { .. } | WasmError::RuntimeErr {
                ..
            } => 1,
        }
    }

    /// The error in words.
    pub fn message(&self) -> (s: String)
        ensures
            s@ == self.text(),
    {
        match self {
            WasmError::CompileErr { source, code_id } => String::from_str(
                "compilation failed for code ",
            ).concat(decimal_text(*code_id).as_str()).concat(": ").concat(source.as_str()),
            WasmError::RuntimeErr { source } => String::from_str("runtime error: ").concat(
                source.as_str(),
            ),
            WasmError::NotFound { kind } => String::from_str(kind).concat(" not found"),
            WasmError::Unauthorized { action } => String::from_str("unauthorized: ").concat(action),
            WasmError::InvalidRequest { reason } => String::from_str("invalid request: ").concat(
                reason.as_str(),
            ),
            WasmError::Internal { reason } => String::from_str("internal error: ").concat(
                reason.as_str(),
            ),
        }
    }

    /// The error that a failure of the virtual machine becomes: a compile
    /// error, for a code id that is not known yet, where the code did not
    /// compile or did not pass the static checks, and a runtime error
    /// else.
    pub fn from_vm(kind: VmErrorKind, message: String) -> (e: WasmError)
        ensures
            e == match kind {
                VmErrorKind::Compile | VmErrorKind::StaticValidation => WasmError::CompileErr {
                    source: message,
                    code_id: 0,
                },
                VmErrorKind::Other => WasmError::RuntimeErr { source: message },
            },
    {
        match kind {
            VmErrorKind::Compile | VmErrorKind::StaticValidation => WasmError::CompileErr {
                source: message,
                code_id: 0,
            },
            VmErrorKind::Other => WasmError::RuntimeErr { source: message },
        }
    }

    /// The error that a failure with the given words inside the module
    /// becomes.
    pub fn internal(reason: String) -> (e: WasmError)
        ensures
            e == (WasmError::Internal { reason }),
    {
        WasmError::Internal { reason }
    }

    /// The error that a request becomes which could not be read, with the
    /// reader's words.
    pub fn invalid_request(reason: String) -> (e: WasmError)
        ensures
            e == (WasmError::InvalidRequest { reason }),
    {
        WasmError::InvalidRequest { reason }
    }

    /// The error as a transaction's failure under the module's codespace.
    pub fn into_tx_error(self, codespace: &'static str) -> (e: TxError)
        ensures
            e.code() == self.code(),
            e.message() == self.text(),
            e.codespace() == codespace@,
    {
        let code = self.abci_code() as u16;
        TxError::new(self.message(), code, codespace)
    }
}

/// Why a transaction failed: a response code that is not 0, words, and
/// the module that speaks.
#[derive(Debug)]
pub struct TxError {
    msg: String,
    code: u16,
    codespace: &'static str,
}

impl TxError {
    #[verifier::type_invariant]
    spec fn nonzero(&self) -> bool {
        self.code != 0
    }

    /// The response code.
    pub closed spec fn code(&self) -> u16 {
        self.code
    }

    /// The words.
    pub closed spec fn message(&self) -> Seq<char> {
        self.msg@
    }

    /// The module that speaks.
    pub closed spec fn codespace(&self) -> Seq<char> {
        self.codespace@
    }

    /// A failure with the given words and code. The code of a failure is
    /// not 0.
    pub fn new(msg: String, code: u16, codespace: &'static str) -> (e: TxError)
        requires
            code != 0,
        ensures
            e.code() == code,
            e.message() == msg@,
            e.codespace() == codespace@,
    {
        TxError { msg, code, codespace }
    }

    /// The response code, which is not 0.
    pub fn response_code(&self) -> (c: u16)
        ensures
            c == self.code(),
            c != 0,
    {
        proof {
            use_type_invariant(self);
        }
        self.code
    }

    /// The words.
    pub fn response_message(&self) -> (s: &String)
        ensures
            s@ == self.message(),
    {
        &self.msg
    }

    /// The module that speaks.
    pub fn response_codespace(&self) -> (s: &'static str)
        ensures
            s@ == self.codespace(),
    {
        self.codespace
    }
}

} // verus!

//! Error reporting for the dialect build pipeline.

use vstd::prelude::*;
use vstd::string::StringExecFns;

verus! {

/// Everything that can go wrong while preparing a dialect build.
///
/// All variants are configuration or tool failures detected before or while
/// the external generator runs; none of them is recoverable by retrying.
#[derive(Debug)]
pub enum Error {
    /// No output directory was supplied and the ambient build-output
    /// variable is absent.
    MissingOutDir,
    /// No LLVM/MLIR installation could be located.
    LlvmNotFound,
    /// The mlir-tblgen binary is absent; holds the path that was probed.
    TblgenNotFound(String),
    /// mlir-tblgen exited with a failure; holds the action and the captured
    /// diagnostic text.
    TblgenFailed(String),
    /// The configured namespace is malformed; holds the full diagnostic.
    InvalidNamespace(String),
    /// A TableGen file path has no usable base name; holds the full
    /// diagnostic.
    InvalidPath(String),
}

/// The rendered diagnostic text of each error variant.
pub open spec fn error_message_spec(e: Error) -> Seq<char> {
    match e {
        Error::MissingOutDir => "OUT_DIR environment variable not set. This crate must be used from a build script."@,
        Error::LlvmNotFound => "Could not find LLVM/MLIR installation. Ensure llvm-config is in PATH, or set LLVM_PREFIX."@,
        Error::TblgenNotFound(p) => "Could not find mlir-tblgen binary at "@ + p@,
        Error::TblgenFailed(m) => "mlir-tblgen failed: "@ + m@,
        Error::InvalidNamespace(m) => m@,
        Error::InvalidPath(m) => m@,
    }
}

impl Error {
    /// Render the error as human-readable text.
    pub fn message(&self) -> (r: String)
        ensures
            r@ == error_message_spec(*self),
    {
        match self {
            Error::MissingOutDir => "OUT_DIR environment variable not set. This crate must be used from a build script.".to_owned(),
            Error::LlvmNotFound => "Could not find LLVM/MLIR installation. Ensure llvm-config is in PATH, or set LLVM_PREFIX.".to_owned(),
            Error::TblgenNotFound(p) => {
                let mut s = "Could not find mlir-tblgen binary at ".to_owned();
                s.append(p.as_str());
                s
            },
            Error::TblgenFailed(m) => {
                let mut s = "mlir-tblgen failed: ".to_owned();
                s.append(m.as_str());
                s
            },
            Error::InvalidNamespace(m) => m.clone(),
            Error::InvalidPath(m) => m.clone(),
        }
    }
}

} // verus!

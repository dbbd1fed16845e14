//! Mapping of the engine's last-error code to a typed result.

use vstd::prelude::*;
use vstd::string::*;

verus! {

/// The engine reports success with this code.
pub const FPDF_ERR_SUCCESS: u32 = 0;
/// Unknown error.
pub const FPDF_ERR_UNKNOWN: u32 = 1;
/// File not found or could not be opened.
pub const FPDF_ERR_FILE: u32 = 2;
/// File not in PDF format or corrupted.
pub const FPDF_ERR_FORMAT: u32 = 3;
/// Password required or incorrect password.
pub const FPDF_ERR_PASSWORD: u32 = 4;
/// Unsupported security scheme.
pub const FPDF_ERR_SECURITY: u32 = 5;
/// Page not found or content error.
pub const FPDF_ERR_PAGE: u32 = 6;

/// The failures that the engine can report.
#[derive(Debug, Clone, Copy, PartialEq, Eq, Structural)]
pub enum PDFiumError {
    Unknown,
    FileError,
    FormatError,
    PasswordError,
    SecurityError,
    PageError,
}

/// The failure that a raw error code stands for, if it stands for one.
///
/// Code 0 and every code that the engine does not define stand for none: the
/// engine leaves the code undefined after a call that succeeded.
pub open spec fn error_of_code(code: u32) -> Option<PDFiumError> {
    if code == FPDF_ERR_UNKNOWN {
        Some(PDFiumError::Unknown)
    } else if code == FPDF_ERR_FILE {
        Some(PDFiumError::FileError)
    } else if code == FPDF_ERR_FORMAT {
        Some(PDFiumError::FormatError)
    } else if code == FPDF_ERR_PASSWORD {
        Some(PDFiumError::PasswordError)
    } else if code == FPDF_ERR_SECURITY {
        Some(PDFiumError::SecurityError)
    } else if code == FPDF_ERR_PAGE {
        Some(PDFiumError::PageError)
    } else {
        None
    }
}

/// What a call that reports through the last-error code returned.
pub open spec fn result_of_code(code: u32) -> Result<(), PDFiumError> {
    match error_of_code(code) {
        Some(e) => Err(e),
        None => Ok(()),
    }
}

/// What a call that returns a success flag returned, given the flag and the
/// last-error code that was read after it.
pub open spec fn result_of_flag(ok: i32, code: u32) -> Result<(), PDFiumError> {
    if ok == 1 {
        Ok(())
    } else {
        match error_of_code(code) {
            Some(e) => Err(e),
            None => Err(PDFiumError::Unknown),
        }
    }
}

/// Maps the engine's last-error code to a result.
pub fn handle_err(code: u32) -> (res: Result<(), PDFiumError>)
    ensures
        res == result_of_code(code),
        res is Ok <==> !(1 <= code <= 6),
{
    match code {
        FPDF_ERR_SUCCESS => Ok(()),
        FPDF_ERR_UNKNOWN => Err(PDFiumError::Unknown),
        FPDF_ERR_FILE => Err(PDFiumError::FileError),
        FPDF_ERR_FORMAT => Err(PDFiumError::FormatError),
        FPDF_ERR_PASSWORD => Err(PDFiumError::PasswordError),
        FPDF_ERR_SECURITY => Err(PDFiumError::SecurityError),
        FPDF_ERR_PAGE => Err(PDFiumError::PageError),
        _ => Ok(()),
    }
}

/// Maps the success flag of an engine call, with the last-error code read
/// after it, to a result: a flag other than 1 is always a failure, and is
/// `Unknown` where the code names no failure.
pub fn handle_fail(ok: i32, code: u32) -> (res: Result<(), PDFiumError>)
    ensures
        res == result_of_flag(ok, code),
        res is Ok <==> ok == 1,
{
    if ok == 1 {
        Ok(())
    } else {
        match handle_err(code) {
            Err(e) => Err(e),
            Ok(()) => Err(PDFiumError::Unknown),
        }
    }
}

impl PDFiumError {
    /// The text by which a failure of the engine is reported, the same for
    /// each of them.
    pub fn message(&self) -> (res: String)
        ensures
            res@ == "PDFiumError"@,
    {
        String::from_str("PDFiumError")
    }
}

} // verus!

//! Diagnostic records for script errors the external engine reports.
//!
//! When a run leaves a pending exception, the embedding pulls the engine's
//! error report (raw, NUL-terminated text fields and a source position) and
//! the functions here turn it into a plain diagnostic record. This class of
//! failure is recoverable at the embedding boundary; the rooting core takes
//! no action on it.

use vstd::prelude::*;

use vstd::string::StringExecFns;

verus! {

/// Information about one runtime script error.
pub struct ErrorInfo {
    /// The error message.
    pub message: String,
    /// The file name.
    pub filename: String,
    /// The line number.
    pub lineno: u32,
    /// The column number.
    pub column: u32,
}

/// An engine error report with its raw text fields already decoded: the
/// engine leaves the file name unset for errors without a source file.
pub struct ErrorReport {
    /// The file name, when the engine recorded one.
    pub filename: Option<String>,
    /// The line number.
    pub lineno: u32,
    /// The column number.
    pub column: u32,
    /// The error message.
    pub message: String,
}

/// The length of the NUL-terminated text at the start of `bytes`: the index
/// of the first zero byte, or `None` when no zero byte ends the text.
pub fn nul_index(bytes: &[u8]) -> (r: Option<usize>)
    ensures
        match r {
            Some(i) => {
                &&& i < bytes@.len()
                &&& bytes@[i as int] == 0
                &&& forall|j: int| 0 <= j < i ==> bytes@[j] != 0
            },
            None => forall|j: int| 0 <= j < bytes@.len() ==> bytes@[j] != 0,
        },
{
    let n = bytes.len();
    let mut i: usize = 0;
    while i < n
        invariant
            i <= n,
            n == bytes@.len(),
            forall|j: int| 0 <= j < i ==> bytes@[j] != 0,
        decreases n - i,
    {
        if bytes[i] == 0 {
            return Some(i);
        }
        i = i + 1;
    }
    None
}

impl ErrorInfo {
    /// Build the record from the engine's error report, when the engine had
    /// one for the exception object: `None` comes back exactly when there was
    /// no report. A report without a file name is recorded as "none".
    pub fn from_native_error(report: Option<ErrorReport>) -> (r: Option<ErrorInfo>)
        ensures
            match report {
                Some(rep) => match r {
                    Some(info) => {
                        &&& info.message == rep.message
                        &&& info.lineno == rep.lineno
                        &&& info.column == rep.column
                        &&& (match rep.filename {
                            Some(name) => info.filename == name,
                            None => info.filename@ == "none"@,
                        })
                    },
                    None => false,
                },
                None => r is None,
            },
    {
        match report {
            Some(rep) => {
                let filename = match rep.filename {
                    Some(name) => name,
                    None => String::from_str("none"),
                };
                Some(
                    ErrorInfo {
                        message: rep.message,
                        filename,
                        lineno: rep.lineno,
                        column: rep.column,
                    },
                )
            },
            None => None,
        }
    }

    /// Build the record from an exception object: succeeds exactly when the
    /// engine carries a native error report for it.
    pub fn from_object(report: Option<ErrorReport>) -> (r: Option<ErrorInfo>)
        ensures
            match report {
                Some(rep) => match r {
                    Some(info) => {
                        &&& info.message == rep.message
                        &&& info.lineno == rep.lineno
                        &&& info.column == rep.column
                        &&& (match rep.filename {
                            Some(name) => info.filename == name,
                            None => info.filename@ == "none"@,
                        })
                    },
                    None => false,
                },
                None => r is None,
            },
    {
        if let Some(info) = ErrorInfo::from_native_error(report) {
            return Some(info);
        }
        None
    }

    /// Build the record for a pending exception value. An exception object
    /// with a native report gives that report's record; otherwise the
    /// stringified exception value is reported as an uncaught exception with
    /// no source position. An exception that is neither is a failed
    /// stringification, on which the embedding panics, so the caller rules it
    /// out.
    pub fn from_value(object_report: Option<ErrorReport>, stringified: Option<String>) -> (r:
        ErrorInfo)
        requires
            object_report is Some || stringified is Some,
        ensures
            match object_report {
                Some(rep) => {
                    &&& r.message == rep.message
                    &&& r.lineno == rep.lineno
                    &&& r.column == rep.column
                    &&& (match rep.filename {
                        Some(name) => r.filename == name,
                        None => r.filename@ == "none"@,
                    })
                },
                None => {
                    &&& r.message@ == "uncaught exception: "@ + stringified.unwrap()@
                    &&& r.filename@ == Seq::<char>::empty()
                    &&& r.lineno == 0
                    &&& r.column == 0
                },
            },
    {
        if let Some(info) = ErrorInfo::from_object(object_report) {
            return info;
        }
        let string = stringified.unwrap();
        let message = String::from_str("uncaught exception: ").concat(string.as_str());
        ErrorInfo { message, filename: String::new(), lineno: 0, column: 0 }
    }
}

} // verus!

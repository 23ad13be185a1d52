//! Checks and names for saving a transcript to a text file.

use vstd::prelude::*;
use vstd::string::*;
use crate::text::{
    decimal, decimal_string, digits_value, is_blank, join, lemma_decimal_denotes, trim, trimmed,
};

verus! {

/// Why a transcript was not saved.
#[derive(Debug)]
pub enum ExportError {
    /// The transcript is empty or white space only.
    EmptyTranscript,
    /// The target directory is not an absolute path.
    PathNotAbsolute,
    /// The documents directory could not be found.
    DocumentsDirectoryUnavailable { detail: String },
    /// The target directory could not be created.
    CreateDirectoryFailed { detail: String },
    /// The file could not be written.
    WriteFailed { detail: String },
}

/// The message of an export error, as the user interface receives it.
pub open spec fn export_message(e: ExportError) -> Seq<char> {
    match e {
        ExportError::EmptyTranscript => "empty_transcript"@,
        ExportError::PathNotAbsolute => "export_path_must_be_absolute"@,
        ExportError::DocumentsDirectoryUnavailable { detail } => "documents_directory_unavailable:"@
            + detail@,
        ExportError::CreateDirectoryFailed { detail } => "create_export_directory_failed:"@
            + detail@,
        ExportError::WriteFailed { detail } => "write_transcript_failed:"@ + detail@,
    }
}

impl ExportError {
    /// The message of the error (see `export_message`).
    pub fn message(&self) -> (m: String)
        ensures
            m@ == export_message(*self),
    {
        match self {
            ExportError::EmptyTranscript => String::from_str("empty_transcript"),
            ExportError::PathNotAbsolute => String::from_str("export_path_must_be_absolute"),
            ExportError::DocumentsDirectoryUnavailable { detail } => join(
                "documents_directory_unavailable:",
                detail.as_str(),
            ),
            ExportError::CreateDirectoryFailed { detail } => join(
                "create_export_directory_failed:",
                detail.as_str(),
            ),
            ExportError::WriteFailed { detail } => join("write_transcript_failed:", detail.as_str()),
        }
    }
}

/// The folder, inside the documents directory, that transcripts go to by
/// default.
pub open spec fn export_folder_text() -> Seq<char> {
    "TransEcho"@
}

/// The default export folder's name (see `export_folder_text`).
pub fn export_folder_name() -> (r: &'static str)
    ensures
        r@ == export_folder_text(),
{
    "TransEcho"
}

/// The name of a transcript saved at `timestamp_secs` (seconds since the
/// epoch): `TransEcho-<seconds>.txt`.
pub open spec fn transcript_file_text(timestamp_secs: nat) -> Seq<char> {
    "TransEcho-"@ + decimal(timestamp_secs) + ".txt"@
}

/// The file name of a transcript is `TransEcho-`, a string of ASCII digits
/// that denotes the timestamp itself, and `.txt`; so transcripts saved at
/// different seconds get different names.
pub proof fn lemma_file_name_denotes_timestamp(t: nat, u: nat)
    ensures
        exists|d: Seq<char>|
            #![trigger digits_value(d)]
            transcript_file_text(t) == "TransEcho-"@ + d + ".txt"@ && d.len() >= 1 && digits_value(d)
                == t && forall|i: int| 0 <= i < d.len() ==> '0' <= #[trigger] d[i] <= '9',
        t != u ==> transcript_file_text(t) != transcript_file_text(u),
{
    lemma_decimal_denotes(t);
    lemma_decimal_denotes(u);
    let dt = decimal(t);
    assert(digits_value(dt) == t);
    let a = transcript_file_text(t);
    let b = transcript_file_text(u);
    if a == b {
        let p = "TransEcho-"@;
        let q = ".txt"@;
        let du = decimal(u);
        assert(a.len() == p.len() + dt.len() + q.len());
        assert(b.len() == p.len() + du.len() + q.len());
        assert(dt =~= a.subrange(p.len() as int, a.len() - q.len()));
        assert(du =~= b.subrange(p.len() as int, b.len() - q.len()));
    }
}

/// The file name of a transcript (see `transcript_file_text`).
pub fn transcript_file_name(timestamp_secs: u64) -> (r: String)
    ensures
        r@ == transcript_file_text(timestamp_secs as nat),
{
    let digits = decimal_string(timestamp_secs);
    join(join("TransEcho-", digits.as_str()).as_str(), ".txt")
}

/// The decision on an export request, given whether the (trimmed) target
/// directory is absolute: a blank transcript is refused first, then a
/// relative directory; otherwise the directory is the target.
pub open spec fn export_decision(
    content: Seq<char>,
    directory: Seq<char>,
    directory_is_absolute: bool,
) -> Result<Seq<char>, ExportError> {
    if is_blank(content) {
        Err(ExportError::EmptyTranscript)
    } else if !directory_is_absolute {
        Err(ExportError::PathNotAbsolute)
    } else {
        Ok(directory)
    }
}

/// A blank transcript is refused whatever the directory; a non-blank one
/// is refused exactly when its directory is not absolute, and otherwise goes
/// to that directory unchanged. The refusals read `empty_transcript` and
/// `export_path_must_be_absolute`; the failures with a detail read their
/// prefix followed by the detail.
pub proof fn lemma_export_rules(content: Seq<char>, directory: Seq<char>, absolute: bool, detail: String)
    ensures
        is_blank(content) ==> export_decision(content, directory, absolute) matches Err(
            ExportError::EmptyTranscript,
        ),
        !is_blank(content) && !absolute ==> export_decision(content, directory, absolute) matches Err(
            ExportError::PathNotAbsolute,
        ),
        !is_blank(content) && absolute ==> export_decision(content, directory, absolute) == Ok::<
            Seq<char>,
            ExportError,
        >(directory),
        export_message(ExportError::EmptyTranscript) == "empty_transcript"@,
        export_message(ExportError::PathNotAbsolute) == "export_path_must_be_absolute"@,
        export_message(ExportError::DocumentsDirectoryUnavailable { detail })
            == "documents_directory_unavailable:"@ + detail@,
        export_message(ExportError::CreateDirectoryFailed { detail })
            == "create_export_directory_failed:"@ + detail@,
        export_message(ExportError::WriteFailed { detail }) == "write_transcript_failed:"@ + detail@,
        export_folder_text() == "TransEcho"@,
{
}

/// Decides an export request (see `export_decision`): `directory` is the
/// already trimmed target directory.
pub fn decide_export<'a>(content: &str, directory: &'a str, directory_is_absolute: bool) -> (r:
    Result<&'a str, ExportError>)
    ensures
        match (r, export_decision(content@, directory@, directory_is_absolute)) {
            (Ok(d), Ok(v)) => d@ == v,
            (Err(ExportError::EmptyTranscript), Err(ExportError::EmptyTranscript)) => true,
            (Err(ExportError::PathNotAbsolute), Err(ExportError::PathNotAbsolute)) => true,
            _ => false,
        },
{
    if trim(content).is_empty() {
        proof {
            crate::text::lemma_trimmed_shape(content@);
        }
        return Err(ExportError::EmptyTranscript);
    }
    proof {
        crate::text::lemma_trimmed_shape(content@);
    }
    if !directory_is_absolute {
        return Err(ExportError::PathNotAbsolute);
    }
    Ok(directory)
}

/// Whether `path` is an absolute path, as `std::path::Path::is_absolute`
/// judges it for the platform the library is built for (on Unix: it starts
/// with `/`; on Windows: a drive or UNC prefix followed by a root).
pub uninterp spec fn path_absolute(path: Seq<char>) -> bool;

/// Calls `std::path::Path::is_absolute` on `path`. For a given build the
/// answer depends on `path` alone (nothing is read at run time); the rule
/// itself differs between platforms and is not written out here, only named
/// (`path_absolute`).
#[verifier::external_body]
fn path_is_absolute(path: &str) -> (b: bool)
    ensures
        b == path_absolute(path@),
{
    std::path::Path::new(path).is_absolute()
}

/// Checks an export request: the transcript must not be blank, and the
/// target directory, trimmed, must be absolute on this platform. A blank
/// transcript is refused whatever the directory; otherwise the result is the
/// trimmed directory when it is absolute, else the refusal of a relative one.
pub fn export_target<'a>(output_directory: &'a str, content: &str) -> (r: Result<
    &'a str,
    ExportError,
>)
    ensures
        is_blank(content@) ==> r matches Err(ExportError::EmptyTranscript),
        !is_blank(content@) ==> match r {
            Ok(d) => d@ == trimmed(output_directory@) && path_absolute(trimmed(output_directory@)),
            Err(ExportError::PathNotAbsolute) => !path_absolute(trimmed(output_directory@)),
            _ => false,
        },
{
    let directory = trim(output_directory);
    let absolute = path_is_absolute(directory);
    decide_export(content, directory, absolute)
}

} // verus!

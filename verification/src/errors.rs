//! The error taxonomy: malformed archives are reported per entry name,
//! missing records are a caller error, and a corrupt archive container is
//! reported as such.

use vstd::prelude::*;

verus! {

/// Why an uploaded volume archive was rejected.
#[derive(Debug)]
pub enum InvalidMokuroFileError {
    /// A declared or required entry is absent from the archive, or — for the
    /// metadata entry — present but unreadable.
    MissingFile(Vec<u8>),
}

impl Clone for InvalidMokuroFileError {
    fn clone(&self) -> (r: Self)
        ensures
            r@ == self@,
    {
        match self {
            InvalidMokuroFileError::MissingFile(name) => {
                let r = InvalidMokuroFileError::MissingFile(name.clone());
                proof {
                    assert(r@ =~= self@);
                }
                r
            }
        }
    }
}

impl View for InvalidMokuroFileError {
    type V = Seq<u8>;

    /// The name of the entry at fault.
    open spec fn view(&self) -> Seq<u8> {
        match self {
            InvalidMokuroFileError::MissingFile(name) => name.deep_view(),
        }
    }
}

/// Every error this library surfaces.
#[derive(Debug)]
pub enum AppError {
    /// An uploaded archive was rejected; the payload names the entry.
    InvalidMokuroFile(InvalidMokuroFileError),
    /// A non-metadata entry was present but could not be parsed; the payload
    /// names the entry.
    MalformedEntry(Vec<u8>),
    /// A record that a caller asserted to exist was not found.
    MissingRecord,
    /// The archive container itself could not be read or written.
    ArchiveError,
}

impl Clone for AppError {
    fn clone(&self) -> (r: Self)
        ensures
            r@ == self@,
    {
        match self {
            AppError::InvalidMokuroFile(e) => AppError::InvalidMokuroFile(e.clone()),
            AppError::MalformedEntry(name) => {
                let r = AppError::MalformedEntry(name.clone());
                proof {
                    assert(r@ =~= self@);
                }
                r
            }
            AppError::MissingRecord => AppError::MissingRecord,
            AppError::ArchiveError => AppError::ArchiveError,
        }
    }
}

/// The mathematical value of an [`AppError`].
pub ghost enum AppErrorV {
    InvalidMokuroFile(Seq<u8>),
    MalformedEntry(Seq<u8>),
    MissingRecord,
    ArchiveError,
}

impl View for AppError {
    type V = AppErrorV;

    open spec fn view(&self) -> AppErrorV {
        match self {
            AppError::InvalidMokuroFile(e) => AppErrorV::InvalidMokuroFile(e@),
            AppError::MalformedEntry(name) => AppErrorV::MalformedEntry(name.deep_view()),
            AppError::MissingRecord => AppErrorV::MissingRecord,
            AppError::ArchiveError => AppErrorV::ArchiveError,
        }
    }
}

/// An import failure paired with the name of the file that caused it, so a
/// batch of uploads can report per-file failures without aborting the
/// rest.
pub struct ExtractionError {
    pub error: AppError,
    pub filename: Vec<u8>,
}

impl ExtractionError {
    pub fn new(error: AppError, filename: Vec<u8>) -> (r: ExtractionError)
        ensures
            r.error == error,
            r.filename == filename,
    {
        ExtractionError { error, filename }
    }
}

} // verus!

//! Physical validation of publication files before any remote effect.

use crate::digest::{hex_digest, hex_sha256};
use crate::text::{decimal, decimal_text, joined, joined3, option_text, same_text};
use vstd::prelude::*;

verus! {

/// What was found at the place of a publication file. Where something could not
/// be done with it, the cause is kept in words.
#[derive(Debug, PartialEq, Eq)]
pub enum FileObservation {
    /// Nothing is there.
    Missing { cause: String },
    /// Something other than a regular file is there.
    NotRegular,
    /// Its real location could not be found out.
    Unresolvable { cause: String },
    /// It really lies outside the publication root.
    OutsideRoot,
    /// It could not be opened.
    Unopened { declared_size: u64, cause: String },
    /// It could not be read to the end.
    Unhashed { declared_size: u64, cause: String },
    /// It was read to the end.
    Read { declared_size: u64, bytes_read: u64, sha256: String },
    /// It was read to the end and could not be rewound.
    NotRewound { declared_size: u64, bytes_read: u64, sha256: String, cause: String },
}

/// The mathematical form of an observation.
pub enum FileObservationView {
    Missing { cause: Seq<char> },
    NotRegular,
    Unresolvable { cause: Seq<char> },
    OutsideRoot,
    Unopened { declared_size: u64, cause: Seq<char> },
    Unhashed { declared_size: u64, cause: Seq<char> },
    Read { declared_size: u64, bytes_read: u64, sha256: Seq<char> },
    NotRewound { declared_size: u64, bytes_read: u64, sha256: Seq<char>, cause: Seq<char> },
}

impl View for FileObservation {
    type V = FileObservationView;

    open spec fn view(&self) -> FileObservationView {
        match *self {
            FileObservation::Missing { cause } => FileObservationView::Missing { cause: cause@ },
            FileObservation::NotRegular => FileObservationView::NotRegular,
            FileObservation::Unresolvable { cause } => FileObservationView::Unresolvable {
                cause: cause@,
            },
            FileObservation::OutsideRoot => FileObservationView::OutsideRoot,
            FileObservation::Unopened { declared_size, cause } => FileObservationView::Unopened {
                declared_size,
                cause: cause@,
            },
            FileObservation::Unhashed { declared_size, cause } => FileObservationView::Unhashed {
                declared_size,
                cause: cause@,
            },
            FileObservation::Read { declared_size, bytes_read, sha256 } =>
                FileObservationView::Read { declared_size, bytes_read, sha256: sha256@ },
            FileObservation::NotRewound { declared_size, bytes_read, sha256, cause } =>
                FileObservationView::NotRewound {
                declared_size,
                bytes_read,
                sha256: sha256@,
                cause: cause@,
            },
        }
    }
}

impl FileObservation {
    /// The observation of a regular file inside the root that was read to the
    /// end.
    pub fn of_content(declared_size: u64, content: &[u8]) -> (r: FileObservation)
        ensures
            r@ == (FileObservationView::Read {
                declared_size,
                bytes_read: content@.len() as u64,
                sha256: hex_sha256(content@),
            }),
    {
        FileObservation::Read {
            declared_size,
            bytes_read: content.len() as u64,
            sha256: hex_digest(content),
        }
    }

    /// A copy of the observation.
    pub fn copy(&self) -> (r: FileObservation)
        ensures
            r@ == self@,
    {
        match self {
            FileObservation::Missing { cause } => FileObservation::Missing { cause: cause.clone() },
            FileObservation::NotRegular => FileObservation::NotRegular,
            FileObservation::Unresolvable { cause } => FileObservation::Unresolvable {
                cause: cause.clone(),
            },
            FileObservation::OutsideRoot => FileObservation::OutsideRoot,
            FileObservation::Unopened { declared_size, cause } => FileObservation::Unopened {
                declared_size: *declared_size,
                cause: cause.clone(),
            },
            FileObservation::Unhashed { declared_size, cause } => FileObservation::Unhashed {
                declared_size: *declared_size,
                cause: cause.clone(),
            },
            FileObservation::Read { declared_size, bytes_read, sha256 } => FileObservation::Read {
                declared_size: *declared_size,
                bytes_read: *bytes_read,
                sha256: sha256.clone(),
            },
            FileObservation::NotRewound { declared_size, bytes_read, sha256, cause } =>
                FileObservation::NotRewound {
                declared_size: *declared_size,
                bytes_read: *bytes_read,
                sha256: sha256.clone(),
                cause: cause.clone(),
            },
        }
    }
}

/// Why a publication file is not the planned one.
#[derive(Debug, Clone, Copy, PartialEq, Eq, Structural)]
pub enum SourceError {
    Missing,
    NotRegular,
    Unresolvable,
    OutsideRoot,
    WrongSize,
    Unopened,
    Unhashed,
    ChangedWhileRead,
    WrongDigest,
    NotRewound,
}

/// What is wrong with a publication file as the planned one.
pub open spec fn source_error(seen: FileObservationView, sha256: Seq<char>, size_bytes: u64) -> Option<
    SourceError,
> {
    match seen {
        FileObservationView::Missing { .. } => Some(SourceError::Missing),
        FileObservationView::NotRegular => Some(SourceError::NotRegular),
        FileObservationView::Unresolvable { .. } => Some(SourceError::Unresolvable),
        FileObservationView::OutsideRoot => Some(SourceError::OutsideRoot),
        FileObservationView::Unopened { declared_size, .. } => if declared_size != size_bytes {
            Some(SourceError::WrongSize)
        } else {
            Some(SourceError::Unopened)
        },
        FileObservationView::Unhashed { declared_size, .. } => if declared_size != size_bytes {
            Some(SourceError::WrongSize)
        } else {
            Some(SourceError::Unhashed)
        },
        FileObservationView::Read { declared_size, bytes_read, sha256: found } => content_error(
            declared_size,
            bytes_read,
            found,
            sha256,
            size_bytes,
        ),
        FileObservationView::NotRewound { declared_size, bytes_read, sha256: found, .. } =>
            match content_error(declared_size, bytes_read, found, sha256, size_bytes) {
            Some(e) => Some(e),
            None => Some(SourceError::NotRewound),
        },
    }
}

/// What is wrong with the size and the digest of a file that was read.
pub open spec fn content_error(
    declared_size: u64,
    bytes_read: u64,
    found: Seq<char>,
    sha256: Seq<char>,
    size_bytes: u64,
) -> Option<SourceError> {
    if declared_size != size_bytes {
        Some(SourceError::WrongSize)
    } else if bytes_read != declared_size {
        Some(SourceError::ChangedWhileRead)
    } else if found != sha256 {
        Some(SourceError::WrongDigest)
    } else {
        None
    }
}

fn check_content(
    declared_size: u64,
    bytes_read: u64,
    found: &str,
    sha256: &str,
    size_bytes: u64,
) -> (r: Result<(), SourceError>)
    ensures
        match content_error(declared_size, bytes_read, found@, sha256@, size_bytes) {
            Some(e) => r == Err::<(), SourceError>(e),
            None => r is Ok,
        },
{
    if declared_size != size_bytes {
        Err(SourceError::WrongSize)
    } else if bytes_read != declared_size {
        Err(SourceError::ChangedWhileRead)
    } else if !same_text(found, sha256) {
        Err(SourceError::WrongDigest)
    } else {
        Ok(())
    }
}

/// Checks a publication file against its planned digest and size.
pub fn open_validated_source(seen: &FileObservation, sha256: &str, size_bytes: u64) -> (r: Result<
    (),
    SourceError,
>)
    ensures
        match source_error(seen@, sha256@, size_bytes) {
            Some(e) => r == Err::<(), SourceError>(e),
            None => r is Ok,
        },
{
    match seen {
        FileObservation::Missing { .. } => Err(SourceError::Missing),
        FileObservation::NotRegular => Err(SourceError::NotRegular),
        FileObservation::Unresolvable { .. } => Err(SourceError::Unresolvable),
        FileObservation::OutsideRoot => Err(SourceError::OutsideRoot),
        FileObservation::Unopened { declared_size, .. } => {
            if *declared_size != size_bytes {
                Err(SourceError::WrongSize)
            } else {
                Err(SourceError::Unopened)
            }
        },
        FileObservation::Unhashed { declared_size, .. } => {
            if *declared_size != size_bytes {
                Err(SourceError::WrongSize)
            } else {
                Err(SourceError::Unhashed)
            }
        },
        FileObservation::Read { declared_size, bytes_read, sha256: found } => check_content(
            *declared_size,
            *bytes_read,
            found.as_str(),
            sha256,
            size_bytes,
        ),
        FileObservation::NotRewound { declared_size, bytes_read, sha256: found, .. } => {
            match check_content(*declared_size, *bytes_read, found.as_str(), sha256, size_bytes) {
                Ok(()) => Err(SourceError::NotRewound),
                Err(e) => Err(e),
            }
        },
    }
}

/// Who looks at a file: the words for it, and how a cause is added to them.
#[derive(Debug, Clone, Copy, PartialEq, Eq, Structural)]
pub enum SourceRole {
    /// A file that goes to the repository; causes follow a colon.
    PublicationFile,
    /// A file that goes to storage; causes stand in brackets.
    SourceFile,
}

/// The words for a file.
pub open spec fn role_text(role: SourceRole) -> Seq<char> {
    match role {
        SourceRole::PublicationFile => "publication file"@,
        SourceRole::SourceFile => "source file"@,
    }
}

/// A text with its cause.
pub open spec fn caused_text(role: SourceRole, text: Seq<char>, cause: Seq<char>) -> Seq<char> {
    match role {
        SourceRole::PublicationFile => text + ": "@ + cause,
        SourceRole::SourceFile => text + " ("@ + cause + ")"@,
    }
}

/// What is wrong with the file, in words.
pub open spec fn source_problem_text(
    role: SourceRole,
    source: Seq<char>,
    seen: FileObservationView,
    sha256: Seq<char>,
    size_bytes: u64,
) -> Option<Seq<char>> {
    let noun = role_text(role);
    match source_error(seen, sha256, size_bytes) {
        None => None,
        Some(e) => Some(
            match e {
                SourceError::Missing => caused_text(
                    role,
                    noun + " does not exist: "@ + source,
                    seen_cause(seen),
                ),
                SourceError::NotRegular => noun + " is not a regular file: "@ + source,
                SourceError::Unresolvable => caused_text(
                    role,
                    "failed to resolve "@ + noun + ": "@ + source,
                    seen_cause(seen),
                ),
                SourceError::OutsideRoot => noun + " escapes the publication root: "@ + source,
                SourceError::WrongSize => noun + " size "@ + decimal_text(
                    declared_size(seen) as nat,
                ) + " does not match the desired "@ + decimal_text(size_bytes as nat) + " bytes: "@
                    + source,
                SourceError::Unopened => caused_text(
                    role,
                    "failed to open "@ + noun + ": "@ + source,
                    seen_cause(seen),
                ),
                SourceError::Unhashed => caused_text(
                    role,
                    "failed to hash "@ + noun + ": "@ + source,
                    seen_cause(seen),
                ),
                SourceError::ChangedWhileRead => noun + " changed while it was hashed: "@ + source,
                SourceError::WrongDigest => noun + " SHA-256 "@ + found_digest(seen)
                    + " does not match the desired "@ + sha256 + ": "@ + source,
                SourceError::NotRewound => caused_text(
                    role,
                    "failed to rewind "@ + noun + ": "@ + source,
                    seen_cause(seen),
                ),
            },
        ),
    }
}

/// The size that the file system gave for a file.
pub open spec fn declared_size(seen: FileObservationView) -> u64 {
    match seen {
        FileObservationView::Unopened { declared_size, .. } => declared_size,
        FileObservationView::Unhashed { declared_size, .. } => declared_size,
        FileObservationView::Read { declared_size, .. } => declared_size,
        FileObservationView::NotRewound { declared_size, .. } => declared_size,
        _ => 0,
    }
}

/// The digest of a file that was read.
pub open spec fn found_digest(seen: FileObservationView) -> Seq<char> {
    match seen {
        FileObservationView::Read { sha256, .. } => sha256,
        FileObservationView::NotRewound { sha256, .. } => sha256,
        _ => Seq::empty(),
    }
}

/// Why something could not be done with a file.
pub open spec fn seen_cause(seen: FileObservationView) -> Seq<char> {
    match seen {
        FileObservationView::Missing { cause } => cause,
        FileObservationView::Unresolvable { cause } => cause,
        FileObservationView::Unopened { cause, .. } => cause,
        FileObservationView::Unhashed { cause, .. } => cause,
        FileObservationView::NotRewound { cause, .. } => cause,
        _ => Seq::empty(),
    }
}

fn declared(seen: &FileObservation) -> (r: u64)
    ensures
        r == declared_size(seen@),
{
    match seen {
        FileObservation::Unopened { declared_size, .. } => *declared_size,
        FileObservation::Unhashed { declared_size, .. } => *declared_size,
        FileObservation::Read { declared_size, .. } => *declared_size,
        FileObservation::NotRewound { declared_size, .. } => *declared_size,
        _ => 0,
    }
}

fn digest_seen(seen: &FileObservation) -> (r: String)
    ensures
        r@ == found_digest(seen@),
{
    match seen {
        FileObservation::Read { sha256, .. } => sha256.clone(),
        FileObservation::NotRewound { sha256, .. } => sha256.clone(),
        _ => String::new(),
    }
}

/// A text with the cause of what was seen.
fn caused(role: SourceRole, text: String, seen: &FileObservation) -> (r: String)
    ensures
        r@ == caused_text(role, text@, seen_cause(seen@)),
{
    let cause: String = match seen {
        FileObservation::Missing { cause } => cause.clone(),
        FileObservation::Unresolvable { cause } => cause.clone(),
        FileObservation::Unopened { cause, .. } => cause.clone(),
        FileObservation::Unhashed { cause, .. } => cause.clone(),
        FileObservation::NotRewound { cause, .. } => cause.clone(),
        _ => String::new(),
    };
    match role {
        SourceRole::PublicationFile => joined3(text.as_str(), ": ", cause.as_str()),
        SourceRole::SourceFile => {
            let mut r: String = joined3(text.as_str(), " (", cause.as_str());
            r.append(")");
            r
        },
    }
}

fn failed_to(verb: &str, noun: &str, source: &str) -> (r: String)
    ensures
        r@ == verb@ + noun@ + ": "@ + source@,
{
    let mut text: String = joined3(verb, noun, ": ");
    text.append(source);
    text
}

/// What is wrong with the file as the planned one, in words.
pub fn source_problem(
    role: SourceRole,
    source: &str,
    seen: &FileObservation,
    sha256: &str,
    size_bytes: u64,
) -> (r: Option<String>)
    ensures
        option_text(r) == source_problem_text(role, source@, seen@, sha256@, size_bytes),
{
    let error: SourceError = match open_validated_source(seen, sha256, size_bytes) {
        Ok(()) => {
            return None;
        },
        Err(e) => e,
    };
    let noun: &str = match role {
        SourceRole::PublicationFile => "publication file",
        SourceRole::SourceFile => "source file",
    };
    Some(
        match error {
            SourceError::Missing => caused(role, joined3(noun, " does not exist: ", source), seen),
            SourceError::NotRegular => joined3(noun, " is not a regular file: ", source),
            SourceError::Unresolvable => caused(
                role,
                failed_to("failed to resolve ", noun, source),
                seen,
            ),
            SourceError::OutsideRoot => joined3(noun, " escapes the publication root: ", source),
            SourceError::WrongSize => {
                let mut text: String = joined3(noun, " size ", decimal(declared(seen)).as_str());
                text.append(" does not match the desired ");
                text.append(decimal(size_bytes).as_str());
                text.append(" bytes: ");
                text.append(source);
                text
            },
            SourceError::Unopened => caused(role, failed_to("failed to open ", noun, source), seen),
            SourceError::Unhashed => caused(role, failed_to("failed to hash ", noun, source), seen),
            SourceError::ChangedWhileRead => {
                joined3(noun, " changed while it was hashed: ", source)
            },
            SourceError::WrongDigest => {
                let mut text: String = joined(noun, " SHA-256 ");
                text.append(digest_seen(seen).as_str());
                text.append(" does not match the desired ");
                text.append(sha256);
                text.append(": ");
                text.append(source);
                text
            },
            SourceError::NotRewound => caused(
                role,
                failed_to("failed to rewind ", noun, source),
                seen,
            ),
        },
    )
}

} // verus!

//! The failure taxonomy of the library: configuration errors, lookup errors
//! and the explicit not-implemented engine paths.  Every failure of a run
//! surfaces as one of these values; nothing is silently suppressed.

use vstd::prelude::*;

verus! {

/// A terminal failure of a backup, restore or listing run.
#[derive(Debug)]
pub enum CoreError {
    /// A backup was requested but the configuration has no `source` block.
    MissingSource,
    /// A restore was requested but the configuration has no `destination` block.
    MissingDestination,
    /// The source-type override names an engine this tool does not know.
    UnrecognizedSourceType(String),
    /// The selected engine is declared but its transfer path is not implemented.
    NotImplemented,
    /// `latest` was requested but the catalog holds no backups.
    NoBackupsAvailable,
    /// A backup was requested by name but the catalog does not list it.
    BackupNotFound(String),
    /// The chosen backup is encrypted but no encryption key is configured.
    MissingEncryptionKey,
}

impl CoreError {
    /// Operator-facing description of the failure.
    pub fn describe(&self) -> (r: String)
        ensures
            self is MissingSource ==> r@ == "missing <source> object in the configuration file"@,
            self is MissingDestination ==> r@
                == "missing <destination> object in the configuration file"@,
            self is UnrecognizedSourceType ==> r@ == "source type '"@ + self->UnrecognizedSourceType_0@
                + "' not recognized"@,
            self is NotImplemented ==> r@ == "not implemented"@,
            self is NoBackupsAvailable ==> r@ == "no backups available"@,
            self is BackupNotFound ==> r@ == "backup '"@ + self->BackupNotFound_0@
                + "' not found"@,
            self is MissingEncryptionKey ==> r@ == "missing encryption key"@,
    {
        match self {
            CoreError::MissingSource => String::from_str(
                "missing <source> object in the configuration file",
            ),
            CoreError::MissingDestination => String::from_str(
                "missing <destination> object in the configuration file",
            ),
            CoreError::UnrecognizedSourceType(v) => {
                let mut s = String::from_str("source type '");
                s.append(v.as_str());
                s.append("' not recognized");
                s
            }
            CoreError::NotImplemented => String::from_str("not implemented"),
            CoreError::NoBackupsAvailable => String::from_str("no backups available"),
            CoreError::BackupNotFound(v) => {
                let mut s = String::from_str("backup '");
                s.append(v.as_str());
                s.append("' not found");
                s
            }
            CoreError::MissingEncryptionKey => String::from_str("missing encryption key"),
        }
    }
}

} // verus!

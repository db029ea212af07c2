//! Application preferences and the rules for loading them from a primary
//! copy with a backup.
//!
//! Reading and writing the files is the caller's part; this module decides
//! which document wins and what is kept.
use vstd::prelude::*;

verus! {

/// The document format this version reads and writes.
pub const SCHEMA_VERSION: u16 = 1;

#[derive(Clone, Copy, Debug, PartialEq, Eq, Structural)]
pub struct ApplicationPreferences {
    pub safe_command_mode: bool,
}

impl Default for ApplicationPreferences {
    /// Safe command mode is on unless the operator turns it off.
    fn default() -> (r: Self)
        ensures
            r.safe_command_mode,
    {
        ApplicationPreferences { safe_command_mode: true }
    }
}

#[derive(Clone, Copy, Debug, PartialEq, Eq, Structural)]
pub struct ApplicationPreferencesUpdate {
    pub safe_command_mode: bool,
}

/// The stored document: a schema version and the preferences.
#[derive(Clone, Copy, Debug, PartialEq, Eq, Structural)]
pub struct StoredPreferences {
    pub schema_version: u16,
    pub preferences: ApplicationPreferences,
}

impl Default for StoredPreferences {
    fn default() -> (r: Self)
        ensures
            r == default_document(),
    {
        StoredPreferences {
            schema_version: SCHEMA_VERSION,
            preferences: ApplicationPreferences::default(),
        }
    }
}

/// The document used when no file exists yet.
pub open spec fn default_document() -> StoredPreferences {
    StoredPreferences {
        schema_version: SCHEMA_VERSION,
        preferences: ApplicationPreferences { safe_command_mode: true },
    }
}

/// Why preferences could not be loaded or saved.
#[derive(Debug, PartialEq, Eq)]
pub enum PreferencesError {
    UnsupportedSchema(u16),
    /// The file is not a preferences document; the parser's message.
    InvalidFile(String),
    /// Both copies failed; the two messages.
    CorruptCopies { primary: String, backup: String },
    /// Reading or writing failed; the path and the system's message.
    Io { path: String, message: String },
}

/// Accepts only the current schema version.
pub fn validate(document: &StoredPreferences) -> (r: Result<(), PreferencesError>)
    ensures
        r is Ok <==> document.schema_version == SCHEMA_VERSION,
        r matches Err(PreferencesError::UnsupportedSchema(v)) ==> v == document.schema_version,
        r is Err ==> r matches Err(PreferencesError::UnsupportedSchema(_)),
{
    if document.schema_version != SCHEMA_VERSION {
        return Err(PreferencesError::UnsupportedSchema(document.schema_version));
    }
    Ok(())
}

/// What reading one copy gave: nothing there, a document, or a failure.
#[derive(Debug)]
pub enum CopyRead {
    Missing,
    Found(StoredPreferences),
    Failed(PreferencesError),
}

/// What to do after reading the primary copy.
#[derive(Debug)]
pub enum PrimaryDecision {
    /// Use this document.
    Use(StoredPreferences),
    /// The primary copy failed; read the backup. The primary's failure is kept.
    ReadBackup(PreferencesError),
}

/// What to do after reading the backup copy.
#[derive(Debug)]
pub enum BackupDecision {
    /// Write this document back as the primary copy, then use it.
    Restore(StoredPreferences),
    Fail(PreferencesError),
}

/// A missing primary means defaults; a failed one sends the caller to the backup.
pub fn after_primary(primary: CopyRead) -> (d: PrimaryDecision)
    ensures
        match primary {
            CopyRead::Missing => d == PrimaryDecision::Use(default_document()),
            CopyRead::Found(doc) => d == PrimaryDecision::Use(doc),
            CopyRead::Failed(e) => d == PrimaryDecision::ReadBackup(e),
        },
{
    match primary {
        CopyRead::Missing => PrimaryDecision::Use(StoredPreferences::default()),
        CopyRead::Found(doc) => PrimaryDecision::Use(doc),
        CopyRead::Failed(e) => PrimaryDecision::ReadBackup(e),
    }
}

/// A valid backup is restored; a missing one leaves the primary's failure;
/// two failures are reported together with their messages.
pub fn after_backup(
    primary_failure: PreferencesError,
    primary_message: String,
    backup: CopyRead,
    backup_message: String,
) -> (d: BackupDecision)
    ensures
        match backup {
            CopyRead::Found(doc) => d == BackupDecision::Restore(doc),
            CopyRead::Missing => d == BackupDecision::Fail(primary_failure),
            CopyRead::Failed(_) => d == BackupDecision::Fail(
                PreferencesError::CorruptCopies { primary: primary_message, backup: backup_message },
            ),
        },
{
    match backup {
        CopyRead::Found(doc) => BackupDecision::Restore(doc),
        CopyRead::Missing => BackupDecision::Fail(primary_failure),
        CopyRead::Failed(_) => BackupDecision::Fail(
            PreferencesError::CorruptCopies { primary: primary_message, backup: backup_message },
        ),
    }
}

/// The document that an update stores.
pub fn updated_document(update: ApplicationPreferencesUpdate) -> (d: StoredPreferences)
    ensures
        d.schema_version == SCHEMA_VERSION,
        d.preferences.safe_command_mode == update.safe_command_mode,
{
    StoredPreferences {
        schema_version: SCHEMA_VERSION,
        preferences: ApplicationPreferences { safe_command_mode: update.safe_command_mode },
    }
}

/// The preferences in force, and whether they are kept in a file.
#[derive(Debug)]
pub struct ApplicationPreferencesStore {
    persistent: bool,
    document: StoredPreferences,
}

impl ApplicationPreferencesStore {
    pub closed spec fn document(&self) -> StoredPreferences {
        self.document
    }

    pub closed spec fn is_persistent(&self) -> bool {
        self.persistent
    }

    /// A store that lives only in memory, with the defaults.
    pub fn in_memory() -> (s: Self)
        ensures
            s.document() == default_document(),
            !s.is_persistent(),
    {
        ApplicationPreferencesStore { persistent: false, document: StoredPreferences::default() }
    }

    /// A file-backed store over a loaded document, if its schema is supported.
    pub fn from_document(document: StoredPreferences) -> (r: Result<Self, PreferencesError>)
        ensures
            match r {
                Ok(s) => document.schema_version == SCHEMA_VERSION && s.document() == document
                    && s.is_persistent(),
                Err(e) => document.schema_version != SCHEMA_VERSION && e
                    == PreferencesError::UnsupportedSchema(document.schema_version),
            },
    {
        match validate(&document) {
            Ok(()) => Ok(ApplicationPreferencesStore { persistent: true, document }),
            Err(e) => Err(e),
        }
    }

    /// Whether updates must be written to a file before they are committed.
    pub fn persistent(&self) -> (r: bool)
        ensures
            r == self.is_persistent(),
    {
        self.persistent
    }

    pub fn preferences(&self) -> (p: ApplicationPreferences)
        ensures
            p == self.document().preferences,
    {
        self.document.preferences
    }

    /// Replaces the preferences with the update. A file-backed store's caller
    /// first writes [`updated_document`] and passes the outcome as `written`:
    /// when that write failed, its error is returned and the preferences stay
    /// as they were. A store in memory writes nothing and ignores `written`.
    pub fn update(
        &mut self,
        update: ApplicationPreferencesUpdate,
        written: Result<(), PreferencesError>,
    ) -> (r: Result<ApplicationPreferences, PreferencesError>)
        ensures
            final(self).is_persistent() == old(self).is_persistent(),
            match written {
                Err(e) if old(self).is_persistent() => r == Err::<ApplicationPreferences, _>(e)
                    && final(self).document() == old(self).document(),
                _ => final(self).document() == (StoredPreferences {
                    schema_version: SCHEMA_VERSION,
                    preferences: ApplicationPreferences { safe_command_mode: update.safe_command_mode },
                }) && r == Ok::<_, PreferencesError>(final(self).document().preferences),
            },
    {
        if self.persistent {
            match written {
                Err(e) => {
                    return Err(e);
                },
                Ok(()) => {},
            }
        }
        self.document = updated_document(update);
        Ok(self.document.preferences)
    }
}

} // verus!

//! What the database pool of the caller reports, and the address under
//! which it opens the catalog file.

use vstd::prelude::*;

verus! {

/// Database errors.
#[derive(Debug, Clone)]
pub enum DatabaseError {
    /// The database could not be reached, or a statement failed.
    ConnectionError(String),
    /// A migration failed.
    MigrationError(String),
    /// The database file could not be prepared.
    IoError(String),
}

impl DatabaseError {
    /// The error as a line of text.
    pub open spec fn text(&self) -> Seq<char> {
        match self {
            DatabaseError::ConnectionError(e) => "Database connection error: "@ + e@,
            DatabaseError::MigrationError(e) => "Migration error: "@ + e@,
            DatabaseError::IoError(e) => "IO error: "@ + e@,
        }
    }

    /// The error as a line of text.
    pub fn message(&self) -> (r: String)
        ensures
            r@ == self.text(),
    {
        match self {
            DatabaseError::ConnectionError(e) => String::from_str(
                "Database connection error: ",
            ).concat(e.as_str()),
            DatabaseError::MigrationError(e) => String::from_str("Migration error: ").concat(
                e.as_str(),
            ),
            DatabaseError::IoError(e) => String::from_str("IO error: ").concat(e.as_str()),
        }
    }
}

/// The address of a catalog file for the database driver: `file:` and the
/// absolute path.
pub fn database_url(absolute_path: &str) -> (r: String)
    ensures
        r@ == "file:"@ + absolute_path@,
{
    String::from_str("file:").concat(absolute_path)
}

} // verus!

//! Configuration: the scope filter's pattern lists and optional
//! per-table settings.

use vstd::prelude::*;

use crate::error::ErrorKind;

verus! {

/// The include/exclude pattern lists that decide catalog visibility.
/// Patterns use `LIKE`-style wildcards and apply to schema-qualified
/// table names.
#[derive(Debug)]
pub struct ScopeConfig {
    /// A name is visible only if it matches one of these patterns.
    pub includes: Vec<String>,
    /// A name matching any of these patterns is never visible.
    pub exclude: Vec<String>,
}

/// Optional per-table settings.
#[derive(Debug)]
pub struct TableConfig {
    /// The schema that disambiguates the table when its unqualified name
    /// appears in more than one visible schema.
    pub schema: Option<String>,
    /// The table's unqualified name.
    pub table: String,
    /// An optional human description shown instead of the catalog's.
    pub description: Option<String>,
    /// Column names to present as the table's lookup summary.
    pub lookup: Option<Vec<String>>,
}

/// The whole configuration.
#[derive(Debug)]
pub struct Config {
    /// The visibility scope.
    pub scope: ScopeConfig,
    /// Per-table settings, if any.
    pub tables: Option<Vec<TableConfig>>,
}

/// Rejects a scope whose include list is empty. Visibility is an
/// explicit opt-in: with no include pattern nothing would ever be
/// visible, which is a configuration fault to surface at startup, not a
/// state to discover lazily.
pub fn validate_scope(scope: &ScopeConfig) -> (r: Result<(), ErrorKind>)
    ensures
        r is Ok <==> scope.includes@.len() > 0,
        r is Err ==> r->Err_0 == ErrorKind::Configuration,
{
    if scope.includes.len() == 0 {
        Err(ErrorKind::Configuration)
    } else {
        Ok(())
    }
}

} // verus!

//! Column metadata: declared type, ordinal position, nullability and
//! identity/generation semantics.

use vstd::prelude::*;

verus! {

/// A column's 1-based ordinal position within its table.
pub type Position = i16;

/// How a column's identity value is produced by the database.
#[derive(Clone, Copy, Debug, PartialEq, Eq, Structural)]
pub enum Identity {
    /// The sequence always supplies the value; user input is rejected.
    AlwaysGenerated,
    /// The sequence supplies the value only when none is given.
    GeneratedByDefault,
}

/// How a generated column's value is produced.
#[derive(Clone, Copy, Debug, PartialEq, Eq, Structural)]
pub enum Generated {
    /// Computed from an expression and persisted; never user-writable.
    Stored,
}

/// One column of a table, as read from the catalog's introspection views.
#[derive(Debug, PartialEq)]
pub struct Column {
    /// The declared data type's canonical name, e.g. `integer` or `text`.
    pub data_type: String,
    /// An optional human description (a catalog comment).
    pub description: Option<String>,
    /// The generation expression, present iff the column is generated or
    /// defaulted from an expression.
    pub expression: Option<String>,
    /// The stored-generation kind, if any.
    pub generated: Option<Generated>,
    /// The identity-generation kind, if any.
    pub identity: Option<Identity>,
    /// The column's name, unique within its table.
    pub name: String,
    /// Whether the column admits NULL.
    pub nullable: bool,
    /// The 1-based ordinal position; defines canonical iteration order.
    pub position: Position,
}

impl Clone for Column {
    fn clone(&self) -> (res: Self)
        ensures
            res == *self,
    {
        Column {
            data_type: self.data_type.clone(),
            description: match &self.description {
                None => None,
                Some(d) => Some(d.clone()),
            },
            expression: match &self.expression {
                None => None,
                Some(e) => Some(e.clone()),
            },
            generated: self.generated,
            identity: self.identity,
            name: self.name.clone(),
            nullable: self.nullable,
            position: self.position,
        }
    }
}

impl Column {
    /// Whether the database alone writes this column: its identity is
    /// always generated, or its value is computed and stored. Such
    /// columns are excluded from INSERT and UPDATE input surfaces.
    pub open spec fn spec_always_generated(&self) -> bool {
        self.identity == Some(Identity::AlwaysGenerated) || self.generated == Some(
            Generated::Stored,
        )
    }

    /// Whether user input for this column is mandatory: it rejects NULL
    /// and no expression supplies a value in input's absence.
    pub open spec fn spec_required(&self) -> bool {
        !self.nullable && self.expression is None
    }

    /// Executable form of [`Self::spec_always_generated`].
    pub fn always_generated(&self) -> (r: bool)
        ensures
            r == self.spec_always_generated(),
    {
        let by_identity = match self.identity {
            Some(Identity::AlwaysGenerated) => true,
            _ => false,
        };
        let by_generation = match self.generated {
            Some(Generated::Stored) => {
                assert(self.generated == Some(Generated::Stored));
                true
            },
            None => false,
        };
        by_identity || by_generation
    }

    /// Executable form of [`Self::spec_required`].
    pub fn required(&self) -> (r: bool)
        ensures
            r == self.spec_required(),
    {
        !self.nullable && self.expression.is_none()
    }
}

} // verus!

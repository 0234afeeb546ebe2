//! The point-lookup facade: one equality condition on the field `field`.

use vstd::prelude::*;
use crate::cache::{CacheRow, CacheStore};

verus! {

/// Whether a lookup compares case-sensitively; this table matches field
/// names exactly either way.
#[derive(Clone, Copy, Debug, PartialEq, Eq)]
pub enum Case {
    Sensitive,
    Insensitive,
}

/// A handle to a secondary index.
#[derive(Clone, Copy, Debug, PartialEq, Eq)]
pub struct IndexHandle(pub usize);

/// One condition of a lookup. Dates are seconds since the Unix epoch.
#[derive(Clone, Debug, PartialEq, Eq)]
pub enum Condition {
    Equals { field: String, value: String },
    BetweenDates { field: String, from: i64, to: i64 },
    FromDate { field: String, from: i64 },
    ToDate { field: String, to: i64 },
}

/// Why a lookup returned no row.
#[derive(Clone, Copy, Debug, PartialEq, Eq)]
pub enum LookupError {
    /// The conditions are not one equality on `field`: a usage error.
    Rejected,
    /// The lookup was well formed and no row is held for its value.
    NotFound,
}

impl LookupError {
    /// The message reported to the caller.
    pub fn message(&self) -> (r: String)
        ensures
            *self == LookupError::Rejected ==> r@ == "Only equality condition is allowed"@,
            *self == LookupError::NotFound ==> r@ == "No value found"@,
    {
        match self {
            LookupError::Rejected => String::from_str("Only equality condition is allowed"),
            LookupError::NotFound => String::from_str("No value found"),
        }
    }
}

/// The name of the one field a condition may test.
pub open spec fn lookup_field() -> Seq<char> {
    "field"@
}

/// The lookup key asked for by `conditions`: present exactly when they are a
/// single equality on `field`.
pub open spec fn lookup_key_of(conditions: Seq<Condition>) -> Option<Seq<char>> {
    if conditions.len() == 1 {
        match conditions[0] {
            Condition::Equals { field, value } => if field@ == lookup_field() {
                Some(value@)
            } else {
                None
            },
            _ => None,
        }
    } else {
        None
    }
}

/// The outcome of a lookup against a table with contents `table`.
pub open spec fn lookup_outcome(
    table: Map<Seq<char>, (Seq<char>, Seq<char>)>,
    conditions: Seq<Condition>,
    r: Result<CacheRow, LookupError>,
) -> bool {
    match lookup_key_of(conditions) {
        None => r == Err::<CacheRow, LookupError>(LookupError::Rejected),
        Some(k) => if table.contains_key(k) {
            r matches Ok(row) && row@ == table[k]
        } else {
            r == Err::<CacheRow, LookupError>(LookupError::NotFound)
        },
    }
}

/// Returns the value that `conditions` look up, or `None` when they are not
/// a single equality on `field`.
pub fn lookup_key(conditions: &[Condition]) -> (r: Option<&String>)
    ensures
        r matches Some(k) ==> lookup_key_of(conditions@) == Some(k@),
        r is None ==> lookup_key_of(conditions@) is None,
{
    if conditions.len() != 1 {
        return None;
    }
    match &conditions[0] {
        Condition::Equals { field, value } => {
            let name = String::from_str("field");
            proof {
                reveal_strlit("field");
            }
            if *field == name {
                Some(value)
            } else {
                None
            }
        },
        _ => None,
    }
}

impl CacheStore {
    /// Looks up the row that `conditions` ask for.
    pub fn find_table_row(&self, conditions: &[Condition]) -> (r: Result<CacheRow, LookupError>)
        requires
            self.wf(),
        ensures
            lookup_outcome(self@, conditions@, r),
    {
        match lookup_key(conditions) {
            Some(k) => match self.get(k) {
                Some(row) => Ok(row),
                None => Err(LookupError::NotFound),
            },
            None => Err(LookupError::Rejected),
        }
    }

    /// Looks up the rows that `conditions` ask for: the one row of a hit, none
    /// on a miss.
    pub fn find_table_rows(&self, conditions: &[Condition]) -> (r: Result<Vec<CacheRow>, LookupError>)
        requires
            self.wf(),
        ensures
            rows_outcome(self@, conditions@, r),
    {
        match self.find_table_row(conditions) {
            Ok(row) => Ok(vec![row]),
            Err(LookupError::NotFound) => Ok(Vec::new()),
            Err(LookupError::Rejected) => Err(LookupError::Rejected),
        }
    }
}

/// The outcome of a lookup of many rows against a table with contents `table`.
pub open spec fn rows_outcome(
    table: Map<Seq<char>, (Seq<char>, Seq<char>)>,
    conditions: Seq<Condition>,
    r: Result<Vec<CacheRow>, LookupError>,
) -> bool {
    match lookup_key_of(conditions) {
        None => r == Err::<Vec<CacheRow>, LookupError>(LookupError::Rejected),
        Some(k) => r matches Ok(rows) && if table.contains_key(k) {
            rows@.len() == 1 && rows@[0]@ == table[k]
        } else {
            rows@.len() == 0
        },
    }
}

/// A lookup that is not one equality on `field` (no condition, two or more,
/// a date condition, or another field name) is rejected as a usage error,
/// never answered as a miss, whatever the table holds.
pub proof fn lemma_rejected_shapes(
    table: Map<Seq<char>, (Seq<char>, Seq<char>)>,
    conditions: Seq<Condition>,
    r: Result<CacheRow, LookupError>,
)
    requires
        lookup_outcome(table, conditions, r),
        conditions.len() != 1 || !(conditions[0] matches Condition::Equals { field, .. } && field@
            == lookup_field()),
    ensures
        r == Err::<CacheRow, LookupError>(LookupError::Rejected),
{
}

} // verus!

//! The closed set of physical SQL dialects and how a dialect is selected by name.

use vstd::prelude::*;
use vstd::string::*;

use crate::text::same_text;

verus! {

/// One of the supported physical SQL flavors.
#[derive(Clone, Copy, Debug, PartialEq, Eq, Structural)]
pub enum Dialect {
    BigQuery,
    MySQL,
    Postgres,
    Snowflake,
    MSSQL,
    Trino,
    Clickhouse,
    Canner,
    Datafusion,
    DuckDB,
    Oracle,
}

/// A dialect name that is not among the supported ones.
#[derive(Debug, PartialEq, Eq)]
pub struct UnsupportedDialectError {
    /// The name as it was requested.
    pub name: String,
}

impl UnsupportedDialectError {
    /// The diagnostic: the name that was asked for, and the names that are
    /// supported.
    pub fn message(&self) -> (r: String)
        ensures
            r@ == "Unsupported dialect: "@ + self.name@
                + ". Supported dialects: bigquery, mysql, postgres, snowflake, mssql, trino, clickhouse, canner, datafusion, duckdb, oracle"@,
    {
        let mut s = String::from_str("Unsupported dialect: ");
        s.append(self.name.as_str());
        s.append(
            ". Supported dialects: bigquery, mysql, postgres, snowflake, mssql, trino, clickhouse, canner, datafusion, duckdb, oracle",
        );
        s
    }
}

/// The Unicode lowercase form of a string, as `str::to_lowercase` computes it.
pub uninterp spec fn lowercase(s: Seq<char>) -> Seq<char>;

/// Calls `str::to_lowercase`. The contract only gives the result its name:
/// the lowercase form is a function of the characters of `s`.
#[verifier::external_body]
fn to_lowercase(s: &str) -> (r: String)
    ensures
        r@ == lowercase(s@),
{
    s.to_lowercase()
}

/// The dialect that a lowercase name selects, if any.
pub open spec fn dialect_named(lower: Seq<char>) -> Option<Dialect> {
    if lower == "bigquery"@ {
        Some(Dialect::BigQuery)
    } else if lower == "mysql"@ {
        Some(Dialect::MySQL)
    } else if lower == "postgres"@ || lower == "postgresql"@ {
        Some(Dialect::Postgres)
    } else if lower == "snowflake"@ {
        Some(Dialect::Snowflake)
    } else if lower == "mssql"@ || lower == "sqlserver"@ {
        Some(Dialect::MSSQL)
    } else if lower == "trino"@ {
        Some(Dialect::Trino)
    } else if lower == "clickhouse"@ {
        Some(Dialect::Clickhouse)
    } else if lower == "canner"@ {
        Some(Dialect::Canner)
    } else if lower == "datafusion"@ {
        Some(Dialect::Datafusion)
    } else if lower == "duckdb"@ {
        Some(Dialect::DuckDB)
    } else if lower == "oracle"@ {
        Some(Dialect::Oracle)
    } else {
        None
    }
}

/// Selects a dialect by a name that is already in lowercase.
pub fn dialect_from_lowercase(lower: &str) -> (r: Option<Dialect>)
    ensures
        r == dialect_named(lower@),
{
    if same_text(lower, "bigquery") {
        Some(Dialect::BigQuery)
    } else if same_text(lower, "mysql") {
        Some(Dialect::MySQL)
    } else if same_text(lower, "postgres") || same_text(lower, "postgresql") {
        Some(Dialect::Postgres)
    } else if same_text(lower, "snowflake") {
        Some(Dialect::Snowflake)
    } else if same_text(lower, "mssql") || same_text(lower, "sqlserver") {
        Some(Dialect::MSSQL)
    } else if same_text(lower, "trino") {
        Some(Dialect::Trino)
    } else if same_text(lower, "clickhouse") {
        Some(Dialect::Clickhouse)
    } else if same_text(lower, "canner") {
        Some(Dialect::Canner)
    } else if same_text(lower, "datafusion") {
        Some(Dialect::Datafusion)
    } else if same_text(lower, "duckdb") {
        Some(Dialect::DuckDB)
    } else if same_text(lower, "oracle") {
        Some(Dialect::Oracle)
    } else {
        None
    }
}

/// Selects a dialect by name, ignoring case. A name outside the supported set
/// is handed back in the error.
pub fn parse_dialect(name: &str) -> (r: Result<Dialect, UnsupportedDialectError>)
    ensures
        match dialect_named(lowercase(name@)) {
            Some(d) => r == Ok::<Dialect, UnsupportedDialectError>(d),
            None => r is Err && r->Err_0.name@ == name@,
        },
{
    let lower = to_lowercase(name);
    match dialect_from_lowercase(lower.as_str()) {
        Some(d) => Ok(d),
        None => Err(UnsupportedDialectError { name: String::from_str(name) }),
    }
}

} // verus!

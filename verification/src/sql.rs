//! The SQL statements that the explorer sends to the database engine.
use vstd::prelude::*;

verus! {

/// Number of rows a query result is cut to.
pub const ROW_LIMIT: u64 = 2048;

/// Number of record batches read from a query result.
pub const MAX_BATCHES: usize = 5;

/// The name of the view under which the opened file can be queried.
pub open spec fn spec_data_view_name() -> Seq<char> {
    "df"@
}

/// The query shown before the user has run one of their own.
pub open spec fn spec_default_query() -> Seq<char> {
    "SELECT * FROM df"@
}

/// The statement that exposes the file at `path` as the view `view`.
pub open spec fn spec_create_view_statement(view: Seq<char>, path: Seq<char>) -> Seq<char> {
    "CREATE OR REPLACE VIEW "@ + view + " AS SELECT * FROM '"@ + path + "'"@
}

/// The statement that reads every column of the file at `path`.
pub open spec fn spec_schema_statement(path: Seq<char>) -> Seq<char> {
    "SELECT * FROM '"@ + path + "'"@
}

/// A user query wrapped so that at most `ROW_LIMIT` rows come back.
pub open spec fn spec_limited_query(query: Seq<char>) -> Seq<char> {
    "SELECT * FROM ("@ + query + ") LIMIT 2048"@
}

/// The name of the view under which the opened file can be queried.
pub fn data_view_name() -> (r: &'static str)
    ensures
        r@ == spec_data_view_name(),
{
    "df"
}

/// The query to run: the one given, or the default query when none is.
pub fn resolve_query(query: Option<&str>) -> (r: String)
    ensures
        r@ == match query {
            Some(q) => q@,
            None => spec_default_query(),
        },
{
    match query {
        Some(q) => String::from_str(q),
        None => String::from_str("SELECT * FROM df"),
    }
}

/// `CREATE OR REPLACE VIEW {view_name} AS SELECT * FROM '{path_name}'`.
pub fn create_view_statement(view_name: &str, path_name: &str) -> (r: String)
    ensures
        r@ == spec_create_view_statement(view_name@, path_name@),
{
    let mut r = String::from_str("CREATE OR REPLACE VIEW ");
    r.append(view_name);
    r.append(" AS SELECT * FROM '");
    r.append(path_name);
    r.append("'");
    r
}

/// `SELECT * FROM '{path_name}'`.
pub fn schema_statement(path_name: &str) -> (r: String)
    ensures
        r@ == spec_schema_statement(path_name@),
{
    let mut r = String::from_str("SELECT * FROM '");
    r.append(path_name);
    r.append("'");
    r
}

/// The limited statement wraps every query whole: it opens with
/// `SELECT * FROM (`, closes with `) LIMIT 2048`, and between the two stands the
/// query itself, so it is 27 characters longer than the query.
pub proof fn law_limited_query_wraps_whole_query(query: Seq<char>)
    ensures
        spec_limited_query(query).len() == query.len() + 27,
        spec_limited_query(query).take(15) == "SELECT * FROM ("@,
        spec_limited_query(query).subrange(15, 15 + query.len() as int) == query,
        spec_limited_query(query).skip(15 + query.len() as int) == ") LIMIT 2048"@,
{
    reveal_strlit("SELECT * FROM (");
    reveal_strlit(") LIMIT 2048");
    let s = spec_limited_query(query);
    assert(s.take(15) =~= "SELECT * FROM ("@);
    assert(s.subrange(15, 15 + query.len() as int) =~= query);
    assert(s.skip(15 + query.len() as int) =~= ") LIMIT 2048"@);
}

/// `SELECT * FROM ({query}) LIMIT 2048`.
pub fn limited_query(query: &str) -> (r: String)
    ensures
        r@ == spec_limited_query(query@),
        r@.len() == query@.len() + 27,
        r@.take(15) == "SELECT * FROM ("@,
        r@.subrange(15, 15 + query@.len() as int) == query@,
        r@.skip(15 + query@.len() as int) == ") LIMIT 2048"@,
{
    proof {
        law_limited_query_wraps_whole_query(query@);
    }
    let mut r = String::from_str("SELECT * FROM (");
    r.append(query);
    r.append(") LIMIT 2048");
    r
}

} // verus!

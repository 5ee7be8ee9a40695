//! Creation of the database that the configuration names.
use vstd::prelude::*;
use crate::text::push_char;

verus! {

/// The database servers the backend can work with.
#[derive(Debug, Clone, Copy, PartialEq, Eq, Structural)]
pub enum DbBackend {
    MySql,
    Postgres,
    Sqlite,
}

/// The statements that create the database `table` on a server of the
/// given kind: MySQL creates it unless it exists; PostgreSQL drops it and
/// creates it anew; SQLite needs none.
pub open spec fn spec_init_statements(backend: DbBackend, table: Seq<char>) -> Seq<Seq<char>> {
    match backend {
        DbBackend::MySql => seq!["CREATE DATABASE IF NOT EXISTS `"@ + table + "`;"@],
        DbBackend::Postgres => seq![
            "DROP DATABASE IF EXISTS \""@ + table + "\";"@,
            "CREATE DATABASE \""@ + table + "\";"@,
        ],
        DbBackend::Sqlite => Seq::<Seq<char>>::empty(),
    }
}

fn wrapped(before: &str, table: &str, after: &str) -> (s: String)
    ensures
        s@ == before@ + table@ + after@,
{
    let mut s = String::from_str(before);
    s.append(table);
    s.append(after);
    s
}

/// Builds the statements that create the database `table`.
pub fn init_statements(backend: DbBackend, table: &str) -> (v: Vec<String>)
    ensures
        v@.len() == spec_init_statements(backend, table@).len(),
        forall|i: int| 0 <= i < v@.len() ==> #[trigger] v@[i]@ == spec_init_statements(backend, table@)[i],
{
    let mut v: Vec<String> = Vec::new();
    match backend {
        DbBackend::MySql => {
            v.push(wrapped("CREATE DATABASE IF NOT EXISTS `", table, "`;"));
        },
        DbBackend::Postgres => {
            v.push(wrapped("DROP DATABASE IF EXISTS \"", table, "\";"));
            v.push(wrapped("CREATE DATABASE \"", table, "\";"));
        },
        DbBackend::Sqlite => {},
    }
    v
}

/// The address to reconnect to once the database exists: the server's
/// address followed by `/` and the database name; SQLite keeps its
/// connection.
pub fn database_url(backend: DbBackend, base: &str, table: &str) -> (r: Option<String>)
    ensures
        backend == DbBackend::Sqlite ==> r is None,
        backend != DbBackend::Sqlite ==> (r matches Some(u) && u@ == base@ + seq!['/'] + table@),
{
    match backend {
        DbBackend::Sqlite => None,
        _ => {
            let mut u = String::from_str(base);
            push_char(&mut u, '/');
            u.append(table);
            Some(u)
        },
    }
}

} // verus!

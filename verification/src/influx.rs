//! What a client of a time-series database's HTTP interface decides: where
//! to connect, what to ask, and what a response status means. Sending the
//! requests is left to the caller.

use crate::text::{decimal, push_decimal};
use vstd::prelude::*;
use vstd::string::StringExecFns;

verus! {

/// Port on which the database listens unless told otherwise.
pub const DEFAULT_PORT: u16 = 8086;

/// Status of a request that was carried out.
pub const STATUS_OK: u16 = 200;

/// Status of a request that was carried out and has nothing to say.
pub const STATUS_NO_CONTENT: u16 = 204;

/// The scheme of an HTTP address.
#[derive(Clone, Copy, Debug, PartialEq, Eq, Structural)]
pub enum HttpProtocol {
    /// Plain HTTP.
    HTTP,
    /// HTTP over TLS.
    HTTPS,
}

impl HttpProtocol {
    /// The scheme as it is written in an address.
    pub open spec fn name_text(self) -> Seq<char> {
        match self {
            HttpProtocol::HTTP => "http"@,
            HttpProtocol::HTTPS => "https"@,
        }
    }

    /// The scheme as it is written in an address.
    pub fn name(&self) -> (text: &'static str)
        ensures
            text@ == self.name_text(),
    {
        match self {
            HttpProtocol::HTTP => "http",
            HttpProtocol::HTTPS => "https",
        }
    }

    /// The port that the scheme uses unless told otherwise.
    pub fn port(&self) -> (port: u16)
        ensures
            port == match *self {
                HttpProtocol::HTTP => 80u16,
                HttpProtocol::HTTPS => 443u16,
            },
    {
        match self {
            HttpProtocol::HTTP => 80,
            HttpProtocol::HTTPS => 443,
        }
    }
}

/// Why a request gave no result.
#[derive(Clone, Copy, Debug, PartialEq, Eq, Structural)]
pub enum ErrorType {
    /// The server answered with a status that is not a success.
    RequestErrorCode(u16),
    /// The answer is no table: the CSV reader refused it.
    CSVError,
}

/// The error type of the CSV crate, carried through unopened.
#[verifier::external_type_specification]
#[verifier::external_body]
pub struct ExCsvError(irox_csv::CSVError);

/// The table that the CSV reader makes of a text: its rows after the
/// header, in order, each as the pairs of a column's name and the row's
/// value in that column; or nothing, where the reader refuses the text.
pub uninterp spec fn csv_table(text: Seq<char>) -> Option<Seq<Seq<(Seq<char>, Seq<char>)>>>;

/// `irox_csv::CSVMapReader` over the bytes of a text, in its default
/// dialect: `new` reads the header row, `for_each` hands out every row after
/// it, and `Row::into_items` pairs each value of a row with the name of its
/// column. What comes out depends on the text alone; it is known by its
/// name only.
#[verifier::external_body]
fn csv_rows(text: &str) -> (r: Result<Vec<Vec<(String, String)>>, irox_csv::CSVError>)
    ensures
        match r {
            Ok(rows) => csv_table(text@) == Some(table_view(rows@)),
            Err(_) => csv_table(text@) is None,
        },
{
    let mut rows = Vec::new();
    irox_csv::CSVMapReader::new(text.as_bytes())?.for_each(|row| rows.push(row.into_items()))?;
    Ok(rows)
}

/// Where the database is reached.
#[derive(Clone, Debug)]
pub struct InfluxDBConnectionParams {
    pub(crate) host: String,
    pub(crate) port: u16,
    pub(crate) scheme: HttpProtocol,
}

/// Connection parameters as a mathematical value.
pub struct ConnectionParamsView {
    /// Name or address of the host.
    pub host: Seq<char>,
    /// Port on the host.
    pub port: u16,
    /// Scheme of the address.
    pub scheme: HttpProtocol,
}

impl View for InfluxDBConnectionParams {
    type V = ConnectionParamsView;

    closed spec fn view(&self) -> ConnectionParamsView {
        ConnectionParamsView { host: self.host@, port: self.port, scheme: self.scheme }
    }
}

/// The parameters used where none are given: plain HTTP to port 8086 of
/// the local host.
pub open spec fn default_params() -> ConnectionParamsView {
    ConnectionParamsView { host: "localhost"@, port: DEFAULT_PORT, scheme: HttpProtocol::HTTP }
}

/// The address under which the database's interface is found: scheme, host
/// and port.
pub open spec fn base_url_text(params: ConnectionParamsView) -> Seq<char> {
    params.scheme.name_text() + "://"@ + params.host + ":"@ + decimal(params.port as nat)
}

impl Default for InfluxDBConnectionParams {
    fn default() -> (params: Self)
        ensures
            params@ == default_params(),
    {
        InfluxDBConnectionParams {
            host: String::from_str("localhost"),
            port: DEFAULT_PORT,
            scheme: HttpProtocol::HTTP,
        }
    }
}

impl InfluxDBConnectionParams {
    /// Name or address of the host.
    pub fn host(&self) -> (host: &str)
        ensures
            host@ == self@.host,
    {
        self.host.as_str()
    }

    /// Port on the host.
    pub fn port(&self) -> (port: u16)
        ensures
            port == self@.port,
    {
        self.port
    }

    /// Scheme of the address.
    pub fn scheme(&self) -> (scheme: HttpProtocol)
        ensures
            scheme == self@.scheme,
    {
        self.scheme
    }

    /// The address under which the database's interface is found.
    pub fn base_url(&self) -> (url: String)
        ensures
            url@ == base_url_text(self@),
    {
        let mut url = String::from_str(self.scheme.name());
        url.append("://");
        url.append(self.host.as_str());
        url.append(":");
        push_decimal(&mut url, self.port as u64);
        url
    }
}

/// Collects the parts of connection parameters; parts that are not given
/// take their default.
#[derive(Clone, Debug)]
pub struct InfluxConnectionBuilder {
    host: Option<String>,
    port: Option<u16>,
    scheme: Option<HttpProtocol>,
}

/// A builder as a mathematical value.
pub struct ConnectionBuilderView {
    /// The host, if one was given.
    pub host: Option<Seq<char>>,
    /// The port, if one was given.
    pub port: Option<u16>,
    /// The scheme, if one was given.
    pub scheme: Option<HttpProtocol>,
}

impl View for InfluxConnectionBuilder {
    type V = ConnectionBuilderView;

    closed spec fn view(&self) -> ConnectionBuilderView {
        ConnectionBuilderView {
            host: match self.host {
                Some(h) => Some(h@),
                None => None,
            },
            port: self.port,
            scheme: self.scheme,
        }
    }
}

/// The parameters that a builder stands for: each part as given, or its
/// default.
pub open spec fn resolved(builder: ConnectionBuilderView) -> ConnectionParamsView {
    ConnectionParamsView {
        host: match builder.host {
            Some(h) => h,
            None => default_params().host,
        },
        port: match builder.port {
            Some(p) => p,
            None => default_params().port,
        },
        scheme: match builder.scheme {
            Some(s) => s,
            None => default_params().scheme,
        },
    }
}

impl Default for InfluxConnectionBuilder {
    fn default() -> (builder: Self)
        ensures
            builder@ == (ConnectionBuilderView { host: None, port: None, scheme: None }),
    {
        InfluxConnectionBuilder { host: None, port: None, scheme: None }
    }
}

impl InfluxConnectionBuilder {
    /// Sets the host.
    pub fn with_host(self, host: String) -> (builder: Self)
        ensures
            builder@ == (ConnectionBuilderView { host: Some(host@), ..self@ }),
    {
        InfluxConnectionBuilder { host: Some(host), port: self.port, scheme: self.scheme }
    }

    /// Sets the host, or forgets the one that was set.
    pub fn maybe_host(self, host: Option<String>) -> (builder: Self)
        ensures
            builder@ == (ConnectionBuilderView {
                host: match host {
                    Some(h) => Some(h@),
                    None => None,
                },
                ..self@
            }),
    {
        InfluxConnectionBuilder { host, port: self.port, scheme: self.scheme }
    }

    /// Sets the port.
    pub fn with_port(self, port: u16) -> (builder: Self)
        ensures
            builder@ == (ConnectionBuilderView { port: Some(port), ..self@ }),
    {
        InfluxConnectionBuilder { host: self.host, port: Some(port), scheme: self.scheme }
    }

    /// Sets the port, or forgets the one that was set.
    pub fn maybe_port(self, port: Option<u16>) -> (builder: Self)
        ensures
            builder@ == (ConnectionBuilderView { port, ..self@ }),
    {
        InfluxConnectionBuilder { host: self.host, port, scheme: self.scheme }
    }

    /// Sets the scheme.
    pub fn with_scheme(self, scheme: HttpProtocol) -> (builder: Self)
        ensures
            builder@ == (ConnectionBuilderView { scheme: Some(scheme), ..self@ }),
    {
        InfluxConnectionBuilder { host: self.host, port: self.port, scheme: Some(scheme) }
    }

    /// Sets the scheme, or forgets the one that was set.
    pub fn maybe_scheme(self, scheme: Option<HttpProtocol>) -> (builder: Self)
        ensures
            builder@ == (ConnectionBuilderView { scheme, ..self@ }),
    {
        InfluxConnectionBuilder { host: self.host, port: self.port, scheme }
    }

    /// The parameters that were collected, defaults filled in.
    pub fn params(self) -> (params: InfluxDBConnectionParams)
        ensures
            params@ == resolved(self@),
    {
        let mut params = InfluxDBConnectionParams::default();
        if let Some(host) = self.host {
            params.host = host;
        }
        if let Some(port) = self.port {
            params.port = port;
        }
        if let Some(scheme) = self.scheme {
            params.scheme = scheme;
        }
        params
    }
}

/// What the status of the answer to a ping means: 200 and 204 say that
/// the server is there, any other status is an error that carries it.
pub fn ping_outcome(status: u16) -> (r: Result<(), ErrorType>)
    ensures
        r == (if status == STATUS_OK || status == STATUS_NO_CONTENT {
            Ok::<(), ErrorType>(())
        } else {
            Err::<(), ErrorType>(ErrorType::RequestErrorCode(status))
        }),
{
    if status == STATUS_OK || status == STATUS_NO_CONTENT {
        Ok(())
    } else {
        Err(ErrorType::RequestErrorCode(status))
    }
}

/// What the status of the answer to a query means: 200 says that the
/// body holds the result, any other status is an error that carries it.
pub fn query_outcome(status: u16) -> (r: Result<(), ErrorType>)
    ensures
        r == (if status == STATUS_OK {
            Ok::<(), ErrorType>(())
        } else {
            Err::<(), ErrorType>(ErrorType::RequestErrorCode(status))
        }),
{
    if status == STATUS_OK {
        Ok(())
    } else {
        Err(ErrorType::RequestErrorCode(status))
    }
}

/// The query part of the address of a query on database `db`.
pub fn database_query(db: &str) -> (query: String)
    ensures
        query@ == "db="@ + db@,
{
    let mut query = String::from_str("db=");
    query.append(db);
    query
}

/// A statement that is asked of one database, or of all: `statement` alone
/// where no database is named, and followed by ` ON ` and the name where
/// one is.
pub fn statement_on(statement: &str, db: Option<&str>) -> (text: String)
    ensures
        text@ == match db {
            Some(name) => statement@ + " ON "@ + name@,
            None => statement@,
        },
{
    let mut text = String::from_str(statement);
    if let Some(name) = db {
        text.append(" ON ");
        text.append(name);
    }
    text
}

/// The values that the rows of a table hold under `column`, in the order of
/// the rows. A row is a list of entries, each a column name and a value;
/// of a row that names the column more than once the last entry counts.
pub open spec fn column_values(rows: Seq<Seq<(Seq<char>, Seq<char>)>>, column: Seq<char>) -> Seq<
    Seq<char>,
>
    decreases rows.len(),
{
    if rows.len() == 0 {
        Seq::empty()
    } else {
        match row_value(rows.last(), column) {
            Some(v) => column_values(rows.drop_last(), column).push(v),
            None => column_values(rows.drop_last(), column),
        }
    }
}

/// The value that a row holds under `column`: that of its last entry for
/// the column.
pub open spec fn row_value(row: Seq<(Seq<char>, Seq<char>)>, column: Seq<char>) -> Option<
    Seq<char>,
>
    decreases row.len(),
{
    if row.len() == 0 {
        None
    } else if row.last().0 == column {
        Some(row.last().1)
    } else {
        row_value(row.drop_last(), column)
    }
}

/// The view of a table of strings.
pub open spec fn table_view(rows: Seq<Vec<(String, String)>>) -> Seq<Seq<(Seq<char>, Seq<char>)>> {
    Seq::new(rows.len(), |i: int| row_view(rows[i]@))
}

/// The view of a row of strings.
pub open spec fn row_view(row: Seq<(String, String)>) -> Seq<(Seq<char>, Seq<char>)> {
    Seq::new(row.len(), |j: int| (row[j].0@, row[j].1@))
}

/// The view of a list of strings.
pub open spec fn strings_view(strings: Seq<String>) -> Seq<Seq<char>> {
    Seq::new(strings.len(), |i: int| strings[i]@)
}

/// The value that `row` holds under `column`, if it holds one.
pub fn value_in_row(row: &Vec<(String, String)>, column: &str) -> (r: Option<String>)
    ensures
        match r {
            Some(v) => row_value(row_view(row@), column@) == Some(v@),
            None => row_value(row_view(row@), column@) is None,
        },
{
    let wanted = String::from_str(column);
    let mut j: usize = row.len();
    proof {
        assert(row_view(row@).take(j as int) =~= row_view(row@));
    }
    while j > 0
        invariant
            j <= row@.len(),
            wanted@ == column@,
            row_value(row_view(row@), column@) == row_value(row_view(row@).take(j as int), column@),
        decreases j,
    {
        let ghost front = row_view(row@).take(j as int);
        proof {
            assert(front.last() == row_view(row@)[j - 1]);
            assert(front.drop_last() =~= row_view(row@).take(j - 1));
        }
        if row[j - 1].0 == wanted {
            return Some(row[j - 1].1.clone());
        }
        j = j - 1;
    }
    None
}

/// The names of the databases that the rows of an answer list: the values
/// of the column `name`, in the order of the rows.
pub fn database_names(rows: &Vec<Vec<(String, String)>>) -> (names: Vec<String>)
    ensures
        strings_view(names@) == column_values(table_view(rows@), "name"@),
{
    let mut names: Vec<String> = Vec::new();
    let mut i: usize = 0;
    while i < rows.len()
        invariant
            i <= rows@.len(),
            strings_view(names@) == column_values(table_view(rows@).take(i as int), "name"@),
        decreases rows@.len() - i,
    {
        let ghost before = strings_view(names@);
        let ghost next = table_view(rows@).take(i + 1);
        proof {
            assert(next.drop_last() =~= table_view(rows@).take(i as int));
            assert(next.last() == row_view(rows@[i as int]@));
        }
        match value_in_row(&rows[i], "name") {
            Some(name) => {
                let ghost text = name@;
                names.push(name);
                proof {
                    assert(strings_view(names@) =~= before.push(text));
                }
            },
            None => {},
        }
        i = i + 1;
    }
    proof {
        assert(table_view(rows@).take(i as int) =~= table_view(rows@));
    }
    names
}

/// The rows of an answer in CSV, each as the pairs of a column's name and
/// the row's value; an answer that the CSV reader refuses is an error.
pub fn rows_in_answer(answer: &str) -> (r: Result<Vec<Vec<(String, String)>>, ErrorType>)
    ensures
        match csv_table(answer@) {
            Some(table) => r is Ok && table_view(r->Ok_0@) == table,
            None => r == Err::<Vec<Vec<(String, String)>>, ErrorType>(ErrorType::CSVError),
        },
{
    rows_or_error(csv_rows(answer))
}

/// The rows that the CSV reader gave, or the error that stands for its
/// refusal.
pub fn rows_or_error(read: Result<Vec<Vec<(String, String)>>, irox_csv::CSVError>) -> (r: Result<
    Vec<Vec<(String, String)>>,
    ErrorType,
>)
    ensures
        match read {
            Ok(rows) => r == Ok::<Vec<Vec<(String, String)>>, ErrorType>(rows),
            Err(_) => r == Err::<Vec<Vec<(String, String)>>, ErrorType>(ErrorType::CSVError),
        },
{
    match read {
        Ok(rows) => Ok(rows),
        Err(_) => Err(ErrorType::CSVError),
    }
}

/// The names of the databases that an answer in CSV lists: the values of
/// its column `name`, in the order of its rows.
pub fn database_names_in(answer: &str) -> (r: Result<Vec<String>, ErrorType>)
    ensures
        match csv_table(answer@) {
            Some(table) => r is Ok && strings_view(r->Ok_0@) == column_values(table, "name"@),
            None => r == Err::<Vec<String>, ErrorType>(ErrorType::CSVError),
        },
{
    match rows_in_answer(answer) {
        Ok(rows) => Ok(database_names(&rows)),
        Err(e) => Err(e),
    }
}

} // verus!

use irox_sirf::influx::{
    database_names, database_names_in, database_query, ping_outcome, query_outcome, rows_in_answer,
    rows_or_error, statement_on, value_in_row, ErrorType, HttpProtocol, InfluxConnectionBuilder,
    InfluxDBConnectionParams,
};

fn row(entries: &[(&str, &str)]) -> Vec<(String, String)> {
    entries.iter().map(|(k, v)| (k.to_string(), v.to_string())).collect()
}

#[test]
fn default_parameters() {
    let params = InfluxDBConnectionParams::default();
    assert_eq!(params.host(), "localhost");
    assert_eq!(params.port(), 8086);
    assert_eq!(params.scheme(), HttpProtocol::HTTP);
    assert_eq!(params.base_url(), "http://localhost:8086");
    assert_eq!(InfluxConnectionBuilder::default().params().base_url(), "http://localhost:8086");
}

#[test]
fn the_builder_fills_in_defaults() {
    let params = InfluxConnectionBuilder::default()
        .with_host(String::from("db.example.org"))
        .with_scheme(HttpProtocol::HTTPS)
        .params();
    assert_eq!(params.base_url(), "https://db.example.org:8086");
    let params = InfluxConnectionBuilder::default().with_port(0).params();
    assert_eq!(params.base_url(), "http://localhost:0");
    let params = InfluxConnectionBuilder::default().with_port(65535).maybe_host(None).params();
    assert_eq!(params.base_url(), "http://localhost:65535");
    let params = InfluxConnectionBuilder::default()
        .with_host(String::from("a"))
        .with_port(1)
        .with_scheme(HttpProtocol::HTTPS)
        .maybe_host(Some(String::from("::1")))
        .maybe_port(None)
        .maybe_scheme(None)
        .params();
    assert_eq!(params.base_url(), "http://::1:8086");
    let params = InfluxConnectionBuilder::default()
        .maybe_port(Some(443))
        .maybe_scheme(Some(HttpProtocol::HTTPS))
        .params();
    assert_eq!((params.host(), params.port(), params.scheme()), ("localhost", 443, HttpProtocol::HTTPS));
}

#[test]
fn schemes_have_names_and_ports() {
    assert_eq!(HttpProtocol::HTTP.name(), "http");
    assert_eq!(HttpProtocol::HTTPS.name(), "https");
    assert_eq!(HttpProtocol::HTTP.port(), 80);
    assert_eq!(HttpProtocol::HTTPS.port(), 443);
}

#[test]
fn what_a_status_means() {
    assert_eq!(ping_outcome(200), Ok(()));
    assert_eq!(ping_outcome(204), Ok(()));
    assert_eq!(ping_outcome(201), Err(ErrorType::RequestErrorCode(201)));
    assert_eq!(ping_outcome(404), Err(ErrorType::RequestErrorCode(404)));
    assert_eq!(ping_outcome(0), Err(ErrorType::RequestErrorCode(0)));
    assert_eq!(query_outcome(200), Ok(()));
    assert_eq!(query_outcome(204), Err(ErrorType::RequestErrorCode(204)));
    assert_eq!(query_outcome(500), Err(ErrorType::RequestErrorCode(500)));
}

#[test]
fn what_is_asked() {
    assert_eq!(database_query("telemetry"), "db=telemetry");
    assert_eq!(database_query(""), "db=");
    assert_eq!(statement_on("SHOW RETENTION POLICIES", None), "SHOW RETENTION POLICIES");
    assert_eq!(statement_on("SHOW RETENTION POLICIES", Some("gps")), "SHOW RETENTION POLICIES ON gps");
    assert_eq!(statement_on("SHOW TAG KEYS", Some("gps")), "SHOW TAG KEYS ON gps");
}

#[test]
fn the_names_of_the_databases() {
    let rows = vec![
        row(&[("name", "_internal"), ("tags", "")]),
        row(&[("tags", "x")]),
        row(&[("tags", ""), ("name", "gps"), ("name", "second")]),
        row(&[]),
        row(&[("Name", "no"), ("name ", "no"), ("name", "")]),
    ];
    assert_eq!(database_names(&rows), vec!["_internal", "second", ""]);
    assert_eq!(database_names(&vec![]), Vec::<String>::new());
    assert_eq!(value_in_row(&rows[2], "name"), Some(String::from("second")));
    assert_eq!(value_in_row(&rows[2], "tags"), Some(String::new()));
    assert_eq!(value_in_row(&rows[2], "nam"), None);
    assert_eq!(value_in_row(&rows[3], "name"), None);
}

#[test]
fn the_rows_of_an_answer() {
    let answer = "name,tags\r\n_internal,a\r\ngps,\"b,c\"\r\n";
    let rows = rows_in_answer(answer).unwrap();
    assert_eq!(rows.len(), 2);
    assert_eq!(rows[0], row(&[("name", "_internal"), ("tags", "a")]));
    assert_eq!(rows[1].len(), 2);
    assert_eq!(rows[1][0], (String::from("name"), String::from("gps")));
    assert_eq!(rows[1][1].0, "tags");
    assert_eq!(database_names_in(answer), Ok(vec![String::from("_internal"), String::from("gps")]));
    assert_eq!(database_names_in("tags\r\na\r\n"), Ok(vec![]));
}

#[test]
fn an_answer_that_is_no_table_is_refused() {
    assert_eq!(rows_in_answer(""), Err(ErrorType::CSVError));
    assert_eq!(database_names_in(""), Err(ErrorType::CSVError));
    assert_eq!(rows_in_answer("a,b\r\n1\r\n"), Err(ErrorType::CSVError));
    assert_eq!(database_names_in("name,b\r\n1\r\n"), Err(ErrorType::CSVError));
    let refused = irox_csv::CSVMapReader::new("".as_bytes()).map(|_| vec![]);
    assert_eq!(rows_or_error(refused), Err(ErrorType::CSVError));
    assert_eq!(rows_or_error(Ok(vec![row(&[("a", "b")])])), Ok(vec![row(&[("a", "b")])]));
}

use pubmed_cite::citation::PubmedError;
use pubmed_cite::json::Json;
use pubmed_cite::request::Request;
use pubmed_cite::session::{decimal_string, progress, search_ids, Action, Session, Stage};

fn search_body(ids: &[&str]) -> Vec<u8> {
    let list: Vec<String> = ids.iter().map(|i| format!("\"{}\"", i)).collect();
    format!("{{\"header\":{{}},\"esearchresult\":{{\"count\":\"{}\",\"idlist\":[{}]}}}}", ids.len(), list.join(","))
        .into_bytes()
}

fn summary_body(id: &str) -> Vec<u8> {
    format!(
        "{{\"result\":{{\"uids\":[\"{id}\"],\"{id}\":{{\"authors\":[{{\"name\":\"Smith J\"}},{{\"name\":\"Doe A\"}}],\
         \"title\":\"On &lt;i&gt;E. coli&lt;/i&gt;\",\"source\":\"Nature\",\"pubdate\":\"2020\",\
         \"volume\":\"5\",\"issue\":\"2\",\"pages\":\"1-9\",\"elocationid\":\"doi: 10.1/{id}\"}}}}}}"
    )
    .into_bytes()
}

fn param<'a>(r: &'a Request, key: &str) -> &'a str {
    r.params.iter().find(|p| p.0 == key).map(|p| p.1.as_str()).unwrap()
}

/// Runs a session over a search reply and summary replies for each id asked
/// for; gives the ids asked for, the printed lines and the last action.
fn drive(search: Vec<u8>) -> (Vec<String>, Vec<String>, Action) {
    let (mut s, _) = Session::start("q");
    let mut action = s.step(&search);
    let mut asked = vec![];
    let mut printed = vec![];
    loop {
        match action {
            Action::Fetch { request, lines } => {
                printed.extend(lines);
                let id = param(&request, "id").to_string();
                asked.push(id.clone());
                action = s.step(&summary_body(&id));
            }
            other => return (asked, printed, other),
        }
    }
}

#[test]
fn search_term_is_normalized_into_the_request() {
    let (s, r) = Session::start("covid vaccine\n");
    assert_eq!(s.stage(), Stage::Searching);
    assert_eq!(r.endpoint, "https://eutils.ncbi.nlm.nih.gov/entrez/eutils/esearch.fcgi");
    assert_eq!(param(&r, "db"), "pubmed");
    assert_eq!(param(&r, "term"), "covid+vaccine");
    assert_eq!(param(&r, "retmode"), "json");
}

#[test]
fn request_url_encodes_the_pairs() {
    let (_, r) = Session::start("covid vaccine");
    assert_eq!(
        r.url().unwrap(),
        "https://eutils.ncbi.nlm.nih.gov/entrez/eutils/esearch.fcgi?db=pubmed&term=covid%2Bvaccine&retmode=json"
    );
    let d = Request::summary("123");
    assert_eq!(d.url().unwrap(), "https://eutils.ncbi.nlm.nih.gov/entrez/eutils/esummary.fcgi?db=pubmed&id=123&retmode=json");
}

#[test]
fn bad_endpoint_gives_no_url() {
    let r = Request { endpoint: "not a url".to_string(), params: vec![] };
    assert!(r.url().is_none());
}

#[test]
fn seven_ids_give_five_lookups_in_order() {
    let (asked, printed, last) = drive(search_body(&["1", "2", "3", "4", "5", "6", "7"]));
    assert_eq!(asked, vec!["1", "2", "3", "4", "5"]);
    assert!(printed.contains(&"Retrieving articles 5 of 5".to_string()));
    match last {
        Action::Finish { lines } => assert_eq!(lines[0], "PubMed ID: 5"),
        _ => panic!("run did not finish"),
    }
}

#[test]
fn three_ids_give_three_lookups() {
    let (asked, _, last) = drive(search_body(&["30", "20", "10"]));
    assert_eq!(asked, vec!["30", "20", "10"]);
    assert!(matches!(last, Action::Finish { .. }));
}

#[test]
fn five_ids_give_five_lookups() {
    let (asked, _, _) = drive(search_body(&["1", "2", "3", "4", "5"]));
    assert_eq!(asked.len(), 5);
}

#[test]
fn printed_lines_of_a_run() {
    let (_, printed, last) = drive(search_body(&["11", "22"]));
    assert_eq!(
        printed,
        vec![
            "------------------------",
            "Beginning article search",
            "------------------------",
            "Retrieving articles 1 of 2",
            "PubMed ID: 11",
            "Smith J, Doe A. On <i>E. coli</i>. Nature 2020; 5(2): 1-9. doi: 10.1/11",
            "------------------------",
            "Retrieving articles 2 of 2",
        ]
    );
    match last {
        Action::Finish { lines } => assert_eq!(
            lines,
            vec![
                "PubMed ID: 22",
                "Smith J, Doe A. On <i>E. coli</i>. Nature 2020; 5(2): 1-9. doi: 10.1/22",
                "------------------------",
            ]
        ),
        _ => panic!("run did not finish"),
    }
}

#[test]
fn empty_id_list_finishes_with_message() {
    let (asked, printed, last) = drive(search_body(&[]));
    assert!(asked.is_empty());
    assert!(printed.is_empty());
    match last {
        Action::Finish { lines } => assert_eq!(lines, vec!["No articles found! Please try another search term."]),
        _ => panic!("run did not finish"),
    }
}

#[test]
fn missing_id_list_aborts() {
    let (mut s, _) = Session::start("q");
    match s.step(b"{\"esearchresult\":{}}") {
        Action::Abort { error } => assert_eq!(error, PubmedError::NoArticles),
        _ => panic!("run did not abort"),
    }
    assert_eq!(s.stage(), Stage::Done);
}

#[test]
fn invalid_json_aborts() {
    let (mut s, _) = Session::start("q");
    match s.step(b"<html>") {
        Action::Abort { error } => assert_eq!(error, PubmedError::Decode),
        _ => panic!("run did not abort"),
    }
}

#[test]
fn missing_authors_aborts_the_whole_run() {
    let (mut s, _) = Session::start("q");
    let first = s.step(&search_body(&["1", "2", "3"]));
    assert!(matches!(first, Action::Fetch { .. }));
    let reply = b"{\"result\":{\"1\":{\"title\":\"T\"}}}";
    match s.step(reply) {
        Action::Abort { error } => assert_eq!(error, PubmedError::NoAuthors),
        _ => panic!("run did not abort"),
    }
    assert_eq!(s.stage(), Stage::Done);
}

#[test]
fn search_ids_keep_the_first_five() {
    let ids = Json::Array((1..=8).map(|i| Json::Str(i.to_string())).collect());
    let resp = Json::Object(vec![(
        "esearchresult".to_string(),
        Json::Object(vec![("idlist".to_string(), ids)]),
    )]);
    assert_eq!(search_ids(&resp).unwrap(), vec!["1", "2", "3", "4", "5"]);
    assert_eq!(search_ids(&Json::Null).err(), Some(PubmedError::Decode));
}

#[test]
fn non_string_id_is_a_decode_error() {
    let resp = Json::Object(vec![(
        "esearchresult".to_string(),
        Json::Object(vec![("idlist".to_string(), Json::Array(vec![Json::Number("1".to_string())]))]),
    )]);
    assert_eq!(search_ids(&resp).err(), Some(PubmedError::Decode));
}

#[test]
fn decimal_and_progress() {
    assert_eq!(decimal_string(0), "0");
    assert_eq!(decimal_string(7), "7");
    assert_eq!(decimal_string(305), "305");
    assert_eq!(progress(1, 5), "Retrieving articles 1 of 5");
}

use pubmed_cite::citation::{article_record, join_authors, unescape_title, ArticleRecord, PubmedError};
use pubmed_cite::json::{get_member, same_text, Json};
use pubmed_cite::text::{normalize_query, replace_str};

fn s(t: &str) -> String {
    t.to_string()
}

fn obj(members: Vec<(&str, Json)>) -> Json {
    Json::Object(members.into_iter().map(|(k, v)| (s(k), v)).collect())
}

fn text(t: &str) -> Json {
    Json::Str(s(t))
}

fn summary(id: &str, info: Json) -> Json {
    obj(vec![("result", obj(vec![("uids", Json::Array(vec![text(id)])), (id, info)]))])
}

fn full_info() -> Json {
    obj(vec![
        ("authors", Json::Array(vec![obj(vec![("name", text("Smith J"))]), obj(vec![("name", text("Doe A"))])])),
        ("title", text("Effects of &lt;i&gt;X&lt;/i&gt; on Y")),
        ("source", text("J Med")),
        ("pubdate", text("2020 Jan")),
        ("volume", text("12")),
        ("issue", text("3")),
        ("pages", text("45-67")),
        ("elocationid", text("10.1000/xyz")),
    ])
}

#[test]
fn normalizes_spaces_to_plus() {
    assert_eq!(normalize_query("covid vaccine"), "covid+vaccine");
}

#[test]
fn normalizes_and_trims_line_end() {
    assert_eq!(normalize_query("covid vaccine\n"), "covid+vaccine");
    assert_eq!(normalize_query("\t a b \r\n"), "+a+b+");
    assert_eq!(normalize_query(""), "");
    assert_eq!(normalize_query("\n"), "");
}

#[test]
fn normalized_has_no_space() {
    let q = normalize_query("  heart   attack  risk ");
    assert!(!q.contains(' '));
    assert_eq!(q, "++heart+++attack++risk+");
}

#[test]
fn replace_is_left_to_right() {
    assert_eq!(replace_str("aaa", "aa", "b"), "ba");
    assert_eq!(replace_str("xaay", "a", "bc"), "xbcbcy");
    assert_eq!(replace_str("", "a", "b"), "");
}

#[test]
fn unescapes_italic_tags() {
    assert_eq!(unescape_title("A &lt;i&gt;B&lt;/i&gt; C"), "A <i>B</i> C");
}

#[test]
fn unescape_leaves_other_text() {
    assert_eq!(unescape_title("Plain &amp; simple &lt;b&gt;"), "Plain &amp; simple &lt;b&gt;");
    assert_eq!(unescape_title(""), "");
}

#[test]
fn joins_two_authors() {
    assert_eq!(join_authors(&vec![s("Smith J"), s("Doe A")]), "Smith J, Doe A");
}

#[test]
fn single_author_has_no_separator() {
    assert_eq!(join_authors(&vec![s("Smith J")]), "Smith J");
    assert_eq!(join_authors(&vec![]), "");
}

#[test]
fn formats_full_citation() {
    let resp = summary("123", full_info());
    let rec = article_record(&resp, "123").unwrap();
    assert_eq!(
        rec.citation(),
        "Smith J, Doe A. Effects of <i>X</i> on Y. J Med 2020 Jan; 12(3): 45-67. 10.1000/xyz"
    );
}

#[test]
fn absent_pages_leave_an_empty_place() {
    let info = obj(vec![
        ("authors", Json::Array(vec![obj(vec![("name", text("Smith J"))])])),
        ("title", text("T")),
        ("source", text("J")),
        ("pubdate", text("2021")),
        ("volume", text("12")),
        ("issue", text("3")),
        ("elocationid", text("10.1000/xyz")),
    ]);
    let rec = article_record(&summary("9", info), "9").unwrap();
    assert_eq!(rec.pages, "");
    assert_eq!(rec.citation(), "Smith J. T. J 2021; 12(3): . 10.1000/xyz");
}

#[test]
fn record_with_no_fields_but_authors() {
    let info = obj(vec![("authors", Json::Array(vec![]))]);
    let rec: ArticleRecord = article_record(&summary("1", info), "1").unwrap();
    assert_eq!(rec.citation(), ". .  ; (): . ");
}

#[test]
fn non_string_field_counts_as_absent() {
    let info = obj(vec![("authors", Json::Array(vec![])), ("volume", Json::Number(s("12")))]);
    let rec = article_record(&summary("1", info), "1").unwrap();
    assert_eq!(rec.volume, "");
}

#[test]
fn missing_authors_is_an_error() {
    let info = obj(vec![("title", text("T"))]);
    assert_eq!(article_record(&summary("1", info), "1").err(), Some(PubmedError::NoAuthors));
}

#[test]
fn author_without_name_is_an_error() {
    let info = obj(vec![("authors", Json::Array(vec![obj(vec![("name", text("A"))]), obj(vec![])]))]);
    assert_eq!(article_record(&summary("1", info), "1").err(), Some(PubmedError::NoAuthorName));
}

#[test]
fn missing_entry_is_an_error() {
    assert_eq!(article_record(&summary("1", full_info()), "2").err(), Some(PubmedError::NoInformation));
    assert_eq!(article_record(&obj(vec![]), "1").err(), Some(PubmedError::NoInformation));
}

#[test]
fn non_object_summary_is_a_decode_error() {
    assert_eq!(article_record(&Json::Array(vec![]), "1").err(), Some(PubmedError::Decode));
}

#[test]
fn member_lookup_takes_first_match() {
    let j = obj(vec![("a", text("1")), ("a", text("2"))]);
    match get_member(&j, "a") {
        Some(Json::Str(v)) => assert_eq!(v, "1"),
        _ => panic!("member not found"),
    }
    assert!(get_member(&j, "b").is_none());
    assert!(get_member(&text("a"), "a").is_none());
    assert!(same_text("abc", "abc"));
    assert!(!same_text("abc", "abd"));
}

#[test]
fn error_messages() {
    assert_eq!(PubmedError::NoAuthors.message(), "No authors found. Skipping..");
    assert_eq!(PubmedError::NoArticles.message(), "No articles found! Please try another search term.");
    assert_eq!(PubmedError::NoInformation.message(), "No information found. Skipping..");
    assert_eq!(PubmedError::NoAuthorName.message(), "No name found for author. Skipping..");
}

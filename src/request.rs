use vstd::prelude::*;

verus! {

/// A GET request: an endpoint and the query pairs to append to it.
pub struct Request {
    pub endpoint: String,
    pub params: Vec<(String, String)>,
}

#[verifier::ext_equal]
pub struct RequestView {
    pub endpoint: Seq<char>,
    pub params: Seq<(Seq<char>, Seq<char>)>,
}

pub open spec fn pair_views(ps: Seq<(String, String)>) -> Seq<(Seq<char>, Seq<char>)> {
    ps.map_values(|p: (String, String)| (p.0@, p.1@))
}

impl View for Request {
    type V = RequestView;

    open spec fn view(&self) -> RequestView {
        RequestView { endpoint: self.endpoint@, params: pair_views(self.params@) }
    }
}

/// The URL that the url crate makes of an endpoint and query pairs, or
/// `None` where it cannot parse the endpoint.
pub uninterp spec fn url_with_params(
    endpoint: Seq<char>,
    params: Seq<(Seq<char>, Seq<char>)>,
) -> Option<Seq<char>>;

/// Relies on reqwest::Url::parse_with_params (the url crate): it parses the
/// endpoint and appends the pairs, form-urlencoded, to its query; the text of
/// the URL depends on these alone.
#[verifier::external_body]
fn url_of(endpoint: &str, params: &Vec<(String, String)>) -> (r: Option<String>)
    ensures
        match r {
            Some(u) => url_with_params(endpoint@, pair_views(params@)) == Some(u@),
            None => url_with_params(endpoint@, pair_views(params@)) is None,
        },
{
    match reqwest::Url::parse_with_params(endpoint, params.iter()) {
        Ok(u) => Some(u.as_str().to_string()),
        Err(_) => None,
    }
}

pub open spec fn search_endpoint() -> Seq<char> {
    "https://eutils.ncbi.nlm.nih.gov/entrez/eutils/esearch.fcgi"@
}

pub open spec fn summary_endpoint() -> Seq<char> {
    "https://eutils.ncbi.nlm.nih.gov/entrez/eutils/esummary.fcgi"@
}

/// The search for `term` in the PubMed database, answered in JSON.
pub open spec fn search_request(term: Seq<char>) -> RequestView {
    RequestView {
        endpoint: search_endpoint(),
        params: seq![("db"@, "pubmed"@), ("term"@, term), ("retmode"@, "json"@)],
    }
}

/// The summary of the article `id`, answered in JSON.
pub open spec fn summary_request(id: Seq<char>) -> RequestView {
    RequestView {
        endpoint: summary_endpoint(),
        params: seq![("db"@, "pubmed"@), ("id"@, id), ("retmode"@, "json"@)],
    }
}

fn query_request(endpoint: &str, key: &str, value: &str) -> (r: Request)
    ensures
        r@ == (RequestView {
            endpoint: endpoint@,
            params: seq![("db"@, "pubmed"@), (key@, value@), ("retmode"@, "json"@)],
        }),
{
    let mut params: Vec<(String, String)> = Vec::new();
    params.push((String::from_str("db"), String::from_str("pubmed")));
    params.push((String::from_str(key), String::from_str(value)));
    params.push((String::from_str("retmode"), String::from_str("json")));
    let r = Request { endpoint: String::from_str(endpoint), params };
    assert(pair_views(r.params@) =~= seq![
        ("db"@, "pubmed"@),
        (key@, value@),
        ("retmode"@, "json"@),
    ]);
    r
}

impl Request {
    /// The search request for an already normalized term.
    pub fn search(term: &str) -> (r: Request)
        ensures
            r@ == search_request(term@),
    {
        query_request("https://eutils.ncbi.nlm.nih.gov/entrez/eutils/esearch.fcgi", "term", term)
    }

    /// The summary request for one article.
    pub fn summary(id: &str) -> (r: Request)
        ensures
            r@ == summary_request(id@),
    {
        query_request("https://eutils.ncbi.nlm.nih.gov/entrez/eutils/esummary.fcgi", "id", id)
    }

    /// The full URL of this request.
    pub fn url(&self) -> (r: Option<String>)
        ensures
            match r {
                Some(u) => url_with_params(self@.endpoint, self@.params) == Some(u@),
                None => url_with_params(self@.endpoint, self@.params) is None,
            },
    {
        url_of(self.endpoint.as_str(), &self.params)
    }
}

} // verus!

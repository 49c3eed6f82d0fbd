use vstd::prelude::*;

use crate::json::{get_member, get_text, member, text_of, Json};
use crate::text::{contains, lemma_replace_absent, replace_all, replace_str};

verus! {

/// Why a run stops.
#[derive(Clone, Copy, Debug, PartialEq, Eq, Structural)]
pub enum PubmedError {
    /// A response is not JSON, or not of the expected shape.
    Decode,
    /// The search response holds no list of ids.
    NoArticles,
    /// The summary response holds no entry for the article.
    NoInformation,
    /// The article's entry holds no list of authors.
    NoAuthors,
    /// An author of the article has no name.
    NoAuthorName,
}

impl PubmedError {
    /// The message shown to the user.
    pub fn message(&self) -> (r: String)
        ensures
            r@ == error_message(*self),
    {
        match self {
            PubmedError::Decode => String::from_str("The response could not be read."),
            PubmedError::NoArticles => String::from_str(
                "No articles found! Please try another search term.",
            ),
            PubmedError::NoInformation => String::from_str("No information found. Skipping.."),
            PubmedError::NoAuthors => String::from_str("No authors found. Skipping.."),
            PubmedError::NoAuthorName => String::from_str("No name found for author. Skipping.."),
        }
    }
}

pub open spec fn error_message(e: PubmedError) -> Seq<char> {
    match e {
        PubmedError::Decode => "The response could not be read."@,
        PubmedError::NoArticles => "No articles found! Please try another search term."@,
        PubmedError::NoInformation => "No information found. Skipping.."@,
        PubmedError::NoAuthors => "No authors found. Skipping.."@,
        PubmedError::NoAuthorName => "No name found for author. Skipping.."@,
    }
}

/// What one summary entry says of an article.
pub struct ArticleView {
    pub authors: Seq<Seq<char>>,
    pub title: Seq<char>,
    pub journal: Seq<char>,
    pub pub_date: Seq<char>,
    pub volume: Seq<char>,
    pub issue: Seq<char>,
    pub pages: Seq<char>,
    pub doi: Seq<char>,
}

/// The bibliographic fields of one article, as they are printed.
pub struct ArticleRecord {
    pub authors: Vec<String>,
    pub title: String,
    pub journal: String,
    pub pub_date: String,
    pub volume: String,
    pub issue: String,
    pub pages: String,
    pub doi: String,
}

pub open spec fn views(v: Seq<String>) -> Seq<Seq<char>> {
    v.map_values(|s: String| s@)
}

impl View for ArticleRecord {
    type V = ArticleView;

    open spec fn view(&self) -> ArticleView {
        ArticleView {
            authors: views(self.authors@),
            title: self.title@,
            journal: self.journal@,
            pub_date: self.pub_date@,
            volume: self.volume@,
            issue: self.issue@,
            pages: self.pages@,
            doi: self.doi@,
        }
    }
}

/// A title with the escaped italic tags `&lt;i&gt;` and `&lt;/i&gt;` turned
/// back into `<i>` and `</i>`; nothing else is decoded.
pub open spec fn unescaped_title(t: Seq<char>) -> Seq<char> {
    replace_all(replace_all(t, "&lt;i&gt;"@, "<i>"@), "&lt;/i&gt;"@, "</i>"@)
}

/// The names joined, with `sep` between each two.
pub open spec fn joined(names: Seq<Seq<char>>, sep: Seq<char>) -> Seq<char>
    decreases names.len(),
{
    if names.len() == 0 {
        Seq::empty()
    } else if names.len() == 1 {
        names[0]
    } else {
        joined(names.drop_last(), sep) + sep + names.last()
    }
}

/// The author names as they are printed: joined by a comma and a space.
pub open spec fn author_line(names: Seq<Seq<char>>) -> Seq<char> {
    joined(names, ", "@)
}

/// The citation line of an article; an absent field leaves its place empty.
pub open spec fn citation_of(a: ArticleView) -> Seq<char> {
    author_line(a.authors) + ". "@ + a.title + ". "@ + a.journal + " "@ + a.pub_date + "; "@
        + a.volume + "("@ + a.issue + "): "@ + a.pages + ". "@ + a.doi
}

/// The text of the member `key` of `info`, or the empty text where it is
/// absent or not a string.
pub open spec fn field_text(info: Json, key: Seq<char>) -> Seq<char> {
    match member(info, key) {
        Some(v) => match text_of(v) {
            Some(t) => t,
            None => Seq::empty(),
        },
        None => Seq::empty(),
    }
}

/// The name of an author entry.
pub open spec fn name_of(author: Json) -> Option<Seq<char>> {
    match member(author, "name"@) {
        Some(n) => text_of(n),
        None => None,
    }
}

pub open spec fn all_named(authors: Seq<Json>) -> bool {
    forall|i: int| 0 <= i < authors.len() ==> (#[trigger] name_of(authors[i])) is Some
}

pub open spec fn names_of(authors: Seq<Json>) -> Seq<Seq<char>> {
    authors.map_values(|a: Json| name_of(a)->0)
}

/// The article that the entry `info` describes, once its authors are known.
pub open spec fn article_from(info: Json, authors: Seq<Seq<char>>) -> ArticleView {
    ArticleView {
        authors,
        title: unescaped_title(field_text(info, "title"@)),
        journal: field_text(info, "source"@),
        pub_date: field_text(info, "pubdate"@),
        volume: field_text(info, "volume"@),
        issue: field_text(info, "issue"@),
        pages: field_text(info, "pages"@),
        doi: field_text(info, "elocationid"@),
    }
}

/// What a summary response says of the article `id`, or why it says nothing.
pub open spec fn article_of(resp: Json, id: Seq<char>) -> Result<ArticleView, PubmedError> {
    if !(resp is Object) {
        Err(PubmedError::Decode)
    } else {
        match member(resp, "result"@) {
            None => Err(PubmedError::NoInformation),
            Some(res) => match member(res, id) {
                None => Err(PubmedError::NoInformation),
                Some(info) => match member(info, "authors"@) {
                    Some(Json::Array(a)) => if all_named(a@) {
                        Ok(article_from(info, names_of(a@)))
                    } else {
                        Err(PubmedError::NoAuthorName)
                    },
                    _ => Err(PubmedError::NoAuthors),
                },
            },
        }
    }
}

/// The text of the member `key` of `info`, or an empty string.
pub fn field_or_empty(info: &Json, key: &str) -> (r: String)
    ensures
        r@ == field_text(*info, key@),
{
    match get_member(info, key) {
        Some(v) => match get_text(v) {
            Some(t) => t.clone(),
            None => String::new(),
        },
        None => String::new(),
    }
}

/// The title with its escaped italic tags restored.
pub fn unescape_title(title: &str) -> (r: String)
    ensures
        r@ == unescaped_title(title@),
{
    proof {
        reveal_strlit("&lt;i&gt;");
        reveal_strlit("&lt;/i&gt;");
    }
    let once = replace_str(title, "&lt;i&gt;", "<i>");
    replace_str(once.as_str(), "&lt;/i&gt;", "</i>")
}

/// A title in which neither escaped italic tag occurs is printed as it is.
pub proof fn lemma_unescape_untagged(t: Seq<char>)
    requires
        !contains(t, "&lt;i&gt;"@),
        !contains(t, "&lt;/i&gt;"@),
    ensures
        unescaped_title(t) == t,
{
    lemma_replace_absent(t, "&lt;i&gt;"@, "<i>"@);
    lemma_replace_absent(t, "&lt;/i&gt;"@, "</i>"@);
}

/// The author names joined by a comma and a space.
pub fn join_authors(names: &Vec<String>) -> (r: String)
    ensures
        r@ == author_line(views(names@)),
{
    let mut out = String::new();
    let mut i: usize = 0;
    while i < names.len()
        invariant
            i <= names@.len(),
            out@ == author_line(views(names@.subrange(0, i as int))),
        decreases names@.len() - i,
    {
        let ghost before = views(names@.subrange(0, i as int));
        let ghost after = views(names@.subrange(0, i + 1));
        assert(after.drop_last() =~= before);
        if i > 0 {
            out.append(", ");
        } else {
            assert(out@ =~= Seq::<char>::empty());
        }
        out.append(names[i].as_str());
        i = i + 1;
        assert(out@ =~= author_line(after));
    }
    assert(names@.subrange(0, names@.len() as int) =~= names@);
    out
}

/// A single author is printed without a separator.
pub proof fn lemma_single_author(name: Seq<char>)
    ensures
        author_line(seq![name]) == name,
{
}

impl ArticleRecord {
    /// The citation line of this article.
    pub fn citation(&self) -> (r: String)
        ensures
            r@ == citation_of(self@),
    {
        let mut out = join_authors(&self.authors);
        out.append(". ");
        out.append(self.title.as_str());
        out.append(". ");
        out.append(self.journal.as_str());
        out.append(" ");
        out.append(self.pub_date.as_str());
        out.append("; ");
        out.append(self.volume.as_str());
        out.append("(");
        out.append(self.issue.as_str());
        out.append("): ");
        out.append(self.pages.as_str());
        out.append(". ");
        out.append(self.doi.as_str());
        out
    }
}

/// The names of the authors, where each has one.
fn author_names(authors: &Vec<Json>) -> (r: Option<Vec<String>>)
    ensures
        match r {
            Some(v) => all_named(authors@) && views(v@) == names_of(authors@),
            None => !all_named(authors@),
        },
{
    let mut names: Vec<String> = Vec::new();
    let mut i: usize = 0;
    while i < authors.len()
        invariant
            i <= authors@.len(),
            all_named(authors@.subrange(0, i as int)),
            names@.len() == i,
            views(names@) == names_of(authors@.subrange(0, i as int)),
        decreases authors@.len() - i,
    {
        let ghost done = authors@.subrange(0, i as int);
        let ghost next = authors@.subrange(0, i + 1);
        let name = match get_member(&authors[i], "name") {
            Some(n) => get_text(n),
            None => None,
        };
        match name {
            Some(n) => {
                let ghost prev = names@;
                let c = n.clone();
                assert(c@ == n@);
                names.push(c);
                assert(next.drop_last() =~= done);
                assert(name_of(next[i as int]) == Some(n@));
                assert forall|k: int| 0 <= k < i implies views(names@)[k] == names_of(next)[k] by {
                    assert(names@[k] == prev[k]);
                    assert(views(prev)[k] == names_of(done)[k]);
                    assert(done[k] == next[k]);
                }
                assert(views(names@) =~= names_of(next));
            },
            None => {
                assert(name_of(authors@[i as int]) is None);
                return None;
            },
        }
        i = i + 1;
    }
    assert(authors@.subrange(0, authors@.len() as int) =~= authors@);
    Some(names)
}

/// The article `id` as a summary response describes it.
pub fn article_record(resp: &Json, id: &str) -> (r: Result<ArticleRecord, PubmedError>)
    ensures
        match r {
            Ok(rec) => article_of(*resp, id@) == Ok::<ArticleView, PubmedError>(rec@),
            Err(e) => article_of(*resp, id@) == Err::<ArticleView, PubmedError>(e),
        },
{
    if !matches!(resp, Json::Object(_)) {
        return Err(PubmedError::Decode);
    }
    let info = match get_member(resp, "result") {
        Some(res) => match get_member(res, id) {
            Some(info) => info,
            None => {
                return Err(PubmedError::NoInformation);
            },
        },
        None => {
            return Err(PubmedError::NoInformation);
        },
    };
    let authors = match get_member(info, "authors") {
        Some(Json::Array(a)) => match author_names(a) {
            Some(names) => names,
            None => {
                return Err(PubmedError::NoAuthorName);
            },
        },
        _ => {
            return Err(PubmedError::NoAuthors);
        },
    };
    let title = field_or_empty(info, "title");
    let rec = ArticleRecord {
        authors,
        title: unescape_title(title.as_str()),
        journal: field_or_empty(info, "source"),
        pub_date: field_or_empty(info, "pubdate"),
        volume: field_or_empty(info, "volume"),
        issue: field_or_empty(info, "issue"),
        pages: field_or_empty(info, "pages"),
        doi: field_or_empty(info, "elocationid"),
    };
    Ok(rec)
}

} // verus!

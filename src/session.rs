use vstd::prelude::*;

use crate::citation::{article_of, article_record, citation_of, views, PubmedError};
use crate::json::{get_member, get_text, json_of_bytes, member, parse_json, text_of, Json};
use crate::request::{search_request, summary_request, Request, RequestView};
use crate::text::{normalize_query, normalized};

verus! {

/// At most this many articles are looked up per search.
pub const MAX_ARTICLES: usize = 5;

/// How many of `n` found articles are looked up.
pub open spec fn fetch_count(n: nat) -> nat {
    if n <= MAX_ARTICLES {
        n
    } else {
        MAX_ARTICLES as nat
    }
}

/// The id list of a search response, where it has one.
pub open spec fn id_array(resp: Json) -> Option<Seq<Json>> {
    match member(resp, "esearchresult"@) {
        Some(res) => match member(res, "idlist"@) {
            Some(Json::Array(a)) => Some(a@),
            _ => None,
        },
        None => None,
    }
}

/// The ids of the articles to look up: the first few of the list, in its
/// order, or why there are none.
pub open spec fn ids_of(resp: Json) -> Result<Seq<Seq<char>>, PubmedError> {
    if !(resp is Object) {
        Err(PubmedError::Decode)
    } else {
        match id_array(resp) {
            None => Err(PubmedError::NoArticles),
            Some(a) => {
                let k = fetch_count(a.len());
                if forall|i: int| 0 <= i < k ==> (#[trigger] text_of(a[i])) is Some {
                    Ok(Seq::new(k, |i: int| text_of(a[i])->0))
                } else {
                    Err(PubmedError::Decode)
                }
            },
        }
    }
}

/// The ids of the articles to look up, from a search response.
pub fn search_ids(resp: &Json) -> (r: Result<Vec<String>, PubmedError>)
    ensures
        match r {
            Ok(v) => ids_of(*resp) == Ok::<Seq<Seq<char>>, PubmedError>(views(v@)),
            Err(e) => ids_of(*resp) == Err::<Seq<Seq<char>>, PubmedError>(e),
        },
{
    if !matches!(resp, Json::Object(_)) {
        return Err(PubmedError::Decode);
    }
    let list = match get_member(resp, "esearchresult") {
        Some(res) => match get_member(res, "idlist") {
            Some(Json::Array(a)) => a,
            _ => {
                return Err(PubmedError::NoArticles);
            },
        },
        None => {
            return Err(PubmedError::NoArticles);
        },
    };
    let k = if list.len() <= MAX_ARTICLES {
        list.len()
    } else {
        MAX_ARTICLES
    };
    let mut ids: Vec<String> = Vec::new();
    let mut i: usize = 0;
    while i < k
        invariant
            resp is Object,
            id_array(*resp) == Some(list@),
            k == fetch_count(list@.len()),
            k <= list@.len(),
            i <= k,
            ids@.len() == i,
            forall|j: int| 0 <= j < i ==> text_of(list@[j]) == Some(#[trigger] ids@[j]@),
        decreases k - i,
    {
        match get_text(&list[i]) {
            Some(t) => {
                ids.push(t.clone());
            },
            None => {
                assert(text_of(list@[i as int]) is None);
                return Err(PubmedError::Decode);
            },
        }
        i = i + 1;
    }
    assert forall|j: int| 0 <= j < k implies (#[trigger] text_of(list@[j])) is Some by {
        assert(text_of(list@[j]) == Some(ids@[j]@));
    }
    assert(views(ids@) =~= Seq::new(k as nat, |j: int| text_of(list@[j])->0));
    Ok(ids)
}

pub open spec fn divider() -> Seq<char> {
    "------------------------"@
}

pub open spec fn no_articles_line() -> Seq<char> {
    "No articles found! Please try another search term."@
}

/// The lines printed before the first article.
pub open spec fn banner() -> Seq<Seq<char>> {
    seq![divider(), "Beginning article search"@, divider()]
}

pub open spec fn digit(d: nat) -> char {
    "0123456789"@[d as int]
}

/// `n` written in decimal.
pub open spec fn decimal(n: nat) -> Seq<char>
    decreases n,
{
    if n < 10 {
        seq![digit(n)]
    } else {
        decimal(n / 10) + seq![digit(n % 10)]
    }
}

/// `n` written in decimal.
pub fn decimal_string(n: usize) -> (r: String)
    ensures
        r@ == decimal(n as nat),
    decreases n,
{
    let digits = "0123456789";
    proof {
        reveal_strlit("0123456789");
    }
    let d = n % 10;
    let last = digits.substring_char(d, d + 1);
    assert(last@ =~= seq![digit(d as nat)]);
    if n < 10 {
        String::from_str(last)
    } else {
        let mut r = decimal_string(n / 10);
        r.append(last);
        r
    }
}

/// The line announcing the lookup of article `i` of `total`, counted from 1.
pub open spec fn progress_line(i: nat, total: nat) -> Seq<char> {
    "Retrieving articles "@ + decimal(i) + " of "@ + decimal(total)
}

pub fn progress(i: usize, total: usize) -> (r: String)
    ensures
        r@ == progress_line(i as nat, total as nat),
{
    let mut r = String::from_str("Retrieving articles ");
    let a = decimal_string(i);
    r.append(a.as_str());
    r.append(" of ");
    let b = decimal_string(total);
    r.append(b.as_str());
    r
}

/// The lines printed for one article.
pub open spec fn article_lines(id: Seq<char>, citation: Seq<char>) -> Seq<Seq<char>> {
    seq!["PubMed ID: "@ + id, citation, divider()]
}

/// Where a run stands.
#[derive(Clone, Copy, Debug, PartialEq, Eq, Structural)]
pub enum Stage {
    /// The search request is out.
    Searching,
    /// The summary request for the article at `next` is out.
    Fetching,
    /// Nothing more is to be done.
    Done,
}

/// A run: one search, then the lookup of each article found, one at a time.
pub struct Session {
    ids: Vec<String>,
    next: usize,
    stage: Stage,
}

#[verifier::ext_equal]
pub struct SessionView {
    pub ids: Seq<Seq<char>>,
    pub next: nat,
    pub stage: Stage,
}

impl View for Session {
    type V = SessionView;

    closed spec fn view(&self) -> SessionView {
        SessionView { ids: views(self.ids@), next: self.next as nat, stage: self.stage }
    }
}

/// What the caller does next.
pub enum Action {
    /// Print the lines, send the request, and hand its reply to `step`.
    Fetch { request: Request, lines: Vec<String> },
    /// Print the lines; the run has succeeded.
    Finish { lines: Vec<String> },
    /// The run fails with this error.
    Abort { error: PubmedError },
}

#[verifier::ext_equal]
pub enum ActionView {
    Fetch { request: RequestView, lines: Seq<Seq<char>> },
    Finish { lines: Seq<Seq<char>> },
    Abort { error: PubmedError },
}

impl View for Action {
    type V = ActionView;

    open spec fn view(&self) -> ActionView {
        match self {
            Action::Fetch { request, lines } => ActionView::Fetch {
                request: request@,
                lines: views(lines@),
            },
            Action::Finish { lines } => ActionView::Finish { lines: views(lines@) },
            Action::Abort { error } => ActionView::Abort { error: *error },
        }
    }
}

pub open spec fn searching() -> SessionView {
    SessionView { ids: Seq::empty(), next: 0, stage: Stage::Searching }
}

pub open spec fn finished(s: SessionView) -> SessionView {
    SessionView { stage: Stage::Done, ..s }
}

/// What the reply to the search request leads to.
pub open spec fn after_search(s: SessionView, reply: Option<Json>) -> (SessionView, ActionView) {
    match reply {
        None => (finished(s), ActionView::Abort { error: PubmedError::Decode }),
        Some(resp) => match ids_of(resp) {
            Err(e) => (finished(s), ActionView::Abort { error: e }),
            Ok(ids) => if ids.len() == 0 {
                (finished(s), ActionView::Finish { lines: seq![no_articles_line()] })
            } else {
                (
                    SessionView { ids, next: 0, stage: Stage::Fetching },
                    ActionView::Fetch {
                        request: summary_request(ids[0]),
                        lines: banner() + seq![progress_line(1, ids.len())],
                    },
                )
            },
        },
    }
}

/// What the reply to the summary request of the article at `s.next` leads
/// to.
pub open spec fn after_summary(s: SessionView, reply: Option<Json>) -> (SessionView, ActionView) {
    match reply {
        None => (finished(s), ActionView::Abort { error: PubmedError::Decode }),
        Some(resp) => match article_of(resp, s.ids[s.next as int]) {
            Err(e) => (finished(s), ActionView::Abort { error: e }),
            Ok(a) => {
                let lines = article_lines(s.ids[s.next as int], citation_of(a));
                if s.next + 1 < s.ids.len() {
                    (
                        SessionView { next: s.next + 1, ..s },
                        ActionView::Fetch {
                            request: summary_request(s.ids[s.next + 1int]),
                            lines: lines + seq![progress_line(s.next + 2, s.ids.len())],
                        },
                    )
                } else {
                    (finished(s), ActionView::Finish { lines })
                }
            },
        },
    }
}

/// What a reply, read as JSON (`None` where it is not), leads to.
pub open spec fn next_view(s: SessionView, reply: Option<Json>) -> (SessionView, ActionView) {
    match s.stage {
        Stage::Searching => after_search(s, reply),
        Stage::Fetching => after_summary(s, reply),
        Stage::Done => (s, ActionView::Finish { lines: Seq::empty() }),
    }
}

/// The session's own consistency: while a summary is awaited, its article
/// is one of the list.
pub open spec fn valid(s: SessionView) -> bool {
    s.stage == Stage::Fetching ==> s.next < s.ids.len()
}

fn banner_lines() -> (r: Vec<String>)
    ensures
        views(r@) == banner(),
{
    let r = vec![
        String::from_str("------------------------"),
        String::from_str("Beginning article search"),
        String::from_str("------------------------"),
    ];
    assert(views(r@) =~= banner());
    r
}

impl Session {
    #[verifier::type_invariant]
    spec fn consistent(&self) -> bool {
        self.stage == Stage::Fetching ==> self.next < self.ids@.len()
    }

    /// A run for the search `input`, and its first request: the search for
    /// `input` normalized.
    pub fn start(input: &str) -> (r: (Session, Request))
        ensures
            r.0@ == searching(),
            r.1@ == search_request(normalized(input@)),
    {
        let term = normalize_query(input);
        let s = Session { ids: Vec::new(), next: 0, stage: Stage::Searching };
        assert(views(s.ids@) =~= Seq::<Seq<char>>::empty());
        (s, Request::search(term.as_str()))
    }

    /// Where the run stands.
    pub fn stage(&self) -> (r: Stage)
        ensures
            r == self@.stage,
    {
        self.stage
    }

    /// Takes the reply to the request out, read as JSON (`None` where it is
    /// not), and says what to do next.
    pub fn on_reply(&mut self, reply: &Option<Json>) -> (r: Action)
        ensures
            valid(final(self)@),
            final(self)@ == next_view(old(self)@, *reply).0,
            r@ =~= next_view(old(self)@, *reply).1,
    {
        proof {
            use_type_invariant(&*self);
        }
        match self.stage {
            Stage::Searching => {
                let resp = match reply {
                    Some(resp) => resp,
                    None => {
                        self.stage = Stage::Done;
                        return Action::Abort { error: PubmedError::Decode };
                    },
                };
                match search_ids(resp) {
                    Err(e) => {
                        self.stage = Stage::Done;
                        Action::Abort { error: e }
                    },
                    Ok(ids) => {
                        if ids.len() == 0 {
                            self.stage = Stage::Done;
                            let lines = vec![
                                String::from_str("No articles found! Please try another search term."),
                            ];
                            assert(views(lines@) =~= seq![no_articles_line()]);
                            Action::Finish { lines }
                        } else {
                            let request = Request::summary(ids[0].as_str());
                            let mut lines = banner_lines();
                            lines.push(progress(1, ids.len()));
                            assert(views(lines@) =~= banner() + seq![
                                progress_line(1, views(ids@).len()),
                            ]);
                            self.ids = ids;
                            self.next = 0;
                            self.stage = Stage::Fetching;
                            Action::Fetch { request, lines }
                        }
                    },
                }
            },
            Stage::Fetching => {
                let resp = match reply {
                    Some(resp) => resp,
                    None => {
                        self.stage = Stage::Done;
                        return Action::Abort { error: PubmedError::Decode };
                    },
                };
                let i = self.next;
                let id = self.ids[i].as_str();
                match article_record(resp, id) {
                    Err(e) => {
                        self.stage = Stage::Done;
                        Action::Abort { error: e }
                    },
                    Ok(rec) => {
                        let mut head = String::from_str("PubMed ID: ");
                        head.append(id);
                        let mut lines = vec![
                            head,
                            rec.citation(),
                            String::from_str("------------------------"),
                        ];
                        assert(views(lines@) =~= article_lines(
                            views(self.ids@)[i as int],
                            citation_of(rec@),
                        ));
                        if self.ids.len() - i > 1 {
                            let request = Request::summary(self.ids[i + 1].as_str());
                            let ghost before = views(lines@);
                            lines.push(progress(i + 2, self.ids.len()));
                            assert(views(lines@) =~= before + seq![
                                progress_line((i + 2) as nat, views(self.ids@).len()),
                            ]);
                            self.next = i + 1;
                            Action::Fetch { request, lines }
                        } else {
                            self.stage = Stage::Done;
                            Action::Finish { lines }
                        }
                    },
                }
            },
            Stage::Done => Action::Finish { lines: Vec::new() },
        }
    }

    /// Takes the body of the reply to the request out and says what to do
    /// next.
    pub fn step(&mut self, body: &[u8]) -> (r: Action)
        ensures
            valid(final(self)@),
            final(self)@ == next_view(old(self)@, json_of_bytes(body@)).0,
            r@ == next_view(old(self)@, json_of_bytes(body@)).1,
    {
        let reply = parse_json(body);
        self.on_reply(&reply)
    }
}

/// The actions that `replies` lead to from `s`, one per reply, until the run
/// is done.
pub open spec fn run(s: SessionView, replies: Seq<Option<Json>>) -> Seq<ActionView>
    decreases replies.len(),
{
    if replies.len() == 0 || s.stage == Stage::Done {
        Seq::empty()
    } else {
        seq![next_view(s, replies[0]).1] + run(next_view(s, replies[0]).0, replies.drop_first())
    }
}

/// Whether `a` asks for the summary of the article `id`.
pub open spec fn fetches(a: ActionView, id: Seq<char>) -> bool {
    match a {
        ActionView::Fetch { request, lines } => request == summary_request(id),
        _ => false,
    }
}

proof fn lemma_run_summaries(s: SessionView, replies: Seq<Option<Json>>)
    requires
        s.stage == Stage::Fetching,
        s.next < s.ids.len(),
        replies.len() >= s.ids.len() - s.next,
        forall|k: int|
            0 <= k < s.ids.len() - s.next ==> (#[trigger] replies[k]) is Some && article_of(
                replies[k]->0,
                s.ids[s.next + k],
            ) is Ok,
    ensures
        run(s, replies).len() == s.ids.len() - s.next,
        forall|k: int|
            0 <= k < run(s, replies).len() - 1 ==> fetches(
                #[trigger] run(s, replies)[k],
                s.ids[s.next + k + 1],
            ),
        run(s, replies).last() is Finish,
    decreases s.ids.len() - s.next,
{
    assert(replies[0] is Some);
    let t = next_view(s, replies[0]).0;
    let rest = replies.drop_first();
    if s.next + 1 < s.ids.len() {
        assert forall|k: int| 0 <= k < t.ids.len() - t.next implies (#[trigger] rest[k]) is Some
            && article_of(rest[k]->0, t.ids[t.next + k]) is Ok by {
            assert(rest[k] == replies[k + 1]);
        }
        lemma_run_summaries(t, rest);
        let acts = run(s, replies);
        assert forall|k: int| 0 <= k < acts.len() - 1 implies fetches(
            #[trigger] acts[k],
            s.ids[s.next + k + 1],
        ) by {
            if k > 0 {
                assert(acts[k] == run(t, rest)[k - 1]);
            }
        }
    } else {
        assert(run(t, rest) == Seq::<ActionView>::empty());
    }
}

/// A search whose response lists ids looks up, when every summary answers,
/// exactly the first `fetch_count(N)` of the `N` ids, one request each in
/// the order of the list, and then finishes.
pub proof fn lemma_lookups_follow_ids(resp: Json, summaries: Seq<Json>)
    requires
        ids_of(resp) is Ok,
        ids_of(resp)->Ok_0.len() > 0,
        summaries.len() >= ids_of(resp)->Ok_0.len(),
        forall|k: int|
            0 <= k < ids_of(resp)->Ok_0.len() ==> article_of(
                #[trigger] summaries[k],
                ids_of(resp)->Ok_0[k],
            ) is Ok,
    ensures
        ({
            let ids = ids_of(resp)->Ok_0;
            let acts = run(searching(), seq![Some(resp)] + summaries.map_values(|j: Json| Some(j)));
            &&& ids.len() == fetch_count(id_array(resp)->0.len())
            &&& forall|k: int| 0 <= k < ids.len() ==> text_of(id_array(resp)->0[k]) == Some(#[trigger] ids[k])
            &&& acts.len() == ids.len() + 1
            &&& forall|k: int| 0 <= k < ids.len() ==> fetches(#[trigger] acts[k], ids[k])
            &&& acts[ids.len() as int] is Finish
        }),
{
    let ids = ids_of(resp)->Ok_0;
    let replies = seq![Some(resp)] + summaries.map_values(|j: Json| Some(j));
    let rest = replies.drop_first();
    assert(rest =~= summaries.map_values(|j: Json| Some(j)));
    let s1 = next_view(searching(), Some(resp)).0;
    assert(s1 == SessionView { ids, next: 0, stage: Stage::Fetching });
    assert forall|k: int| 0 <= k < s1.ids.len() - s1.next implies (#[trigger] rest[k]) is Some
        && article_of(rest[k]->0, s1.ids[s1.next + k]) is Ok by {
        assert(rest[k] == Some(summaries[k]));
    }
    lemma_run_summaries(s1, rest);
    let acts = run(searching(), replies);
    assert(replies[0] == Some(resp));
    assert(acts == seq![next_view(searching(), Some(resp)).1] + run(s1, rest));
    assert forall|k: int| 0 <= k < ids.len() implies fetches(#[trigger] acts[k], ids[k]) by {
        if k > 0 {
            assert(acts[k] == run(s1, rest)[k - 1]);
        }
    }
    let a = id_array(resp)->0;
    assert forall|k: int| 0 <= k < ids.len() implies text_of(a[k]) == Some(#[trigger] ids[k]) by {
        assert(text_of(a[k]) is Some);
    }
}

/// A search whose response lists no id ends the run with the message that
/// nothing was found, and no summary is asked for.
pub proof fn lemma_no_ids_no_lookups(resp: Json, replies: Seq<Option<Json>>)
    requires
        resp is Object,
        id_array(resp) == Some(Seq::<Json>::empty()),
    ensures
        run(searching(), seq![Some(resp)] + replies) == seq![
            ActionView::Finish { lines: seq![no_articles_line()] },
        ],
{
    let all = seq![Some(resp)] + replies;
    assert(all[0] == Some(resp));
    assert(ids_of(resp) is Ok && ids_of(resp)->Ok_0.len() == 0);
    assert(run(searching(), all) == seq![next_view(searching(), Some(resp)).1] + run(
        finished(searching()),
        all.drop_first(),
    ));
    assert(run(finished(searching()), all.drop_first()) == Seq::<ActionView>::empty());
    assert(run(searching(), all) =~= seq![ActionView::Finish { lines: seq![no_articles_line()] }]);
}

/// A reply that aborts the run is the last one taken: no request follows.
pub proof fn lemma_abort_ends_run(s: SessionView, replies: Seq<Option<Json>>)
    requires
        s.stage != Stage::Done,
        replies.len() > 0,
        next_view(s, replies[0]).1 is Abort,
    ensures
        run(s, replies) == seq![next_view(s, replies[0]).1],
{
    assert(next_view(s, replies[0]).0.stage == Stage::Done);
    assert(run(next_view(s, replies[0]).0, replies.drop_first()) == Seq::<ActionView>::empty());
    assert(run(s, replies) =~= seq![next_view(s, replies[0]).1]);
}

} // verus!

use vstd::prelude::*;

use crate::http::{is_success, status_is_success, FetchError, FetchErrorView, HttpReply, HttpReplyView};
use crate::json::{array_to_text, field_of, field_position, first_key_at, get_field, json_array_text, json_parse, lemma_first_key_unique, parse_json, Json};

verus! {

pub open spec fn digit_char(d: nat) -> char {
    seq!['0', '1', '2', '3', '4', '5', '6', '7', '8', '9'][d as int]
}

/// The decimal digits of `n`, most significant first, without leading zeros.
pub open spec fn decimal(n: nat) -> Seq<char>
    decreases n,
{
    if n < 10 {
        seq![digit_char(n)]
    } else {
        decimal(n / 10).push(digit_char(n % 10))
    }
}

fn digit_text(d: u64) -> (r: &'static str)
    requires
        d < 10,
    ensures
        r@ == seq![digit_char(d as nat)],
{
    proof {
        reveal_strlit("0");
        reveal_strlit("1");
        reveal_strlit("2");
        reveal_strlit("3");
        reveal_strlit("4");
        reveal_strlit("5");
        reveal_strlit("6");
        reveal_strlit("7");
        reveal_strlit("8");
        reveal_strlit("9");
    }
    if d == 0 {
        "0"
    } else if d == 1 {
        "1"
    } else if d == 2 {
        "2"
    } else if d == 3 {
        "3"
    } else if d == 4 {
        "4"
    } else if d == 5 {
        "5"
    } else if d == 6 {
        "6"
    } else if d == 7 {
        "7"
    } else if d == 8 {
        "8"
    } else {
        "9"
    }
}

/// `n` written in decimal.
pub fn decimal_text(n: u64) -> (r: String)
    ensures
        r@ == decimal(n as nat),
    decreases n,
{
    if n < 10 {
        String::from_str(digit_text(n))
    } else {
        let mut s = decimal_text(n / 10);
        s.append(digit_text(n % 10));
        assert(s@ =~= decimal(n as nat));
        s
    }
}

/// One page of a paginated collection.
pub struct PaginatedResults {
    pub next: u32,
    pub count: u32,
    pub results: Vec<Json>,
}

/// A member's value as a 32-bit unsigned integer.
pub open spec fn u32_of(j: Option<Json>) -> Option<u32> {
    match j {
        Some(Json::Number(n)) => match n.unsigned {
            Some(v) => if v <= u32::MAX {
                Some(v as u32)
            } else {
                None
            },
            None => None,
        },
        _ => None,
    }
}

pub open spec fn all_objects(items: Seq<Json>) -> bool {
    forall|i: int| 0 <= i < items.len() ==> items[i] is Object
}

/// The page that a document describes: an object whose `next` and `count`
/// are 32-bit unsigned integers and whose `results` is an array of objects.
/// Yields `(next, count, results)`.
pub open spec fn envelope_of(doc: Json) -> Option<(u32, u32, Seq<Json>)> {
    match doc {
        Json::Object(fields) => {
            let next = u32_of(field_of(fields@, "next"@));
            let count = u32_of(field_of(fields@, "count"@));
            let results = field_of(fields@, "results"@);
            if next is Some && count is Some && results is Some && results->0 is Array
                && all_objects(results->0->Array_0@) {
                Some((next->0, count->0, results->0->Array_0@))
            } else {
                None
            }
        },
        _ => None,
    }
}

/// The page that a response body describes, if it is one.
pub open spec fn body_envelope(body: Seq<char>) -> Option<(u32, u32, Seq<Json>)> {
    match json_parse(body) {
        Some(doc) => envelope_of(doc),
        None => None,
    }
}

fn u32_value(j: Option<&Json>) -> (r: Option<u32>)
    ensures
        match j {
            Some(x) => r == u32_of(Some(*x)),
            None => r is None,
        },
{
    match j {
        Some(Json::Number(n)) => match n.unsigned {
            Some(v) => if v <= 0xffff_ffffu64 {
                Some(v as u32)
            } else {
                None
            },
            None => None,
        },
        _ => None,
    }
}

fn are_all_objects(items: &Vec<Json>) -> (r: bool)
    ensures
        r == all_objects(items@),
{
    let mut i: usize = 0;
    while i < items.len()
        invariant
            i <= items@.len(),
            forall|j: int| 0 <= j < i ==> items@[j] is Object,
        decreases items@.len() - i,
    {
        match &items[i] {
            Json::Object(_) => {},
            _ => {
                return false;
            },
        }
        i = i + 1;
    }
    true
}

impl PaginatedResults {
    /// Reads a page out of a document.
    pub fn from_json(doc: Json) -> (r: Option<PaginatedResults>)
        ensures
            match r {
                Some(p) => envelope_of(doc) == Some((p.next, p.count, p.results@)),
                None => envelope_of(doc) is None,
            },
    {
        match doc {
            Json::Object(fields) => {
                let ghost fs = fields@;
                let next = u32_value(get_field(&fields, "next"));
                let count = u32_value(get_field(&fields, "count"));
                let mut fields = fields;
                match (next, count, field_position(&fields, "results")) {
                    (Some(next), Some(count), Some(i)) => {
                        proof {
                            assert forall|j: int| first_key_at(fs, "results"@, j) implies j == i by {
                                lemma_first_key_unique(fs, "results"@, i as int, j);
                            }
                        }
                        let (_, v) = fields.remove(i);
                        match v {
                            Json::Array(results) => {
                                if are_all_objects(&results) {
                                    Some(PaginatedResults { next, count, results })
                                } else {
                                    None
                                }
                            },
                            _ => None,
                        }
                    },
                    _ => None,
                }
            },
            _ => None,
        }
    }
}

/// Reads a page out of a response body.
pub fn parse_page(body: &str) -> (r: Option<PaginatedResults>)
    ensures
        match r {
            Some(p) => body_envelope(body@) == Some((p.next, p.count, p.results@)),
            None => body_envelope(body@) is None,
        },
{
    match parse_json(body) {
        Some(doc) => PaginatedResults::from_json(doc),
        None => None,
    }
}


/// The address of one page of a collection.
pub open spec fn page_url(url: Seq<char>, page: nat) -> Seq<char> {
    url + "?page="@ + decimal(page)
}

/// Drains a paginated collection one page at a time: the caller fetches
/// `current_url` and hands the reply to `on_reply`, which accumulates the
/// page's results and says whether to fetch another page or what the whole
/// call returns.
pub struct Pager {
    url: String,
    page: u64,
    acc: Vec<Json>,
}

pub struct PagerView {
    pub url: Seq<char>,
    pub page: nat,
    pub acc: Seq<Json>,
}

impl View for Pager {
    type V = PagerView;

    closed spec fn view(&self) -> PagerView {
        PagerView { url: self.url@, page: self.page as nat, acc: self.acc@ }
    }
}

/// What to do after a reply: fetch the next page, or finish with the result.
pub enum PageStep {
    More(Pager),
    Finished(Result<String, FetchError>),
}

pub enum PageStepView {
    More(PagerView),
    Finished(Result<Seq<char>, FetchErrorView>),
}

impl View for PageStep {
    type V = PageStepView;

    open spec fn view(&self) -> PageStepView {
        match self {
            PageStep::More(p) => PageStepView::More(p@),
            PageStep::Finished(Ok(s)) => PageStepView::Finished(Ok(s@)),
            PageStep::Finished(Err(e)) => PageStepView::Finished(Err(e@)),
        }
    }
}

/// The state before the first page of `url` is fetched.
pub open spec fn start(url: Seq<char>) -> PagerView {
    PagerView { url, page: 1, acc: Seq::empty() }
}

/// One step of the protocol. A failed exchange or a non-2xx status ends the
/// call with an error and drops what was gathered. A body that is not a page
/// is the answer itself, returned as it is. A page adds its results; a page
/// whose `next` is 0 ends the call with every result gathered, as one array.
pub open spec fn step(s: PagerView, reply: HttpReplyView) -> PageStepView {
    let url = page_url(s.url, s.page);
    match reply {
        HttpReplyView::Failed(message) => PageStepView::Finished(
            Err(FetchErrorView::Transport { url, message }),
        ),
        HttpReplyView::Received { status, body } => {
            if !is_success(status) {
                PageStepView::Finished(Err(FetchErrorView::Status { url, status }))
            } else {
                match body_envelope(body) {
                    None => PageStepView::Finished(Ok(body)),
                    Some((next, _count, items)) => {
                        if next == 0 {
                            PageStepView::Finished(Ok(json_array_text(s.acc + items)))
                        } else {
                            PageStepView::More(
                                PagerView { url: s.url, page: s.page + 1, acc: s.acc + items },
                            )
                        }
                    },
                }
            }
        },
    }
}

/// The outcome of feeding `replies` in order, from state `s`; `None` where
/// they run out before the call ends.
pub open spec fn drain(s: PagerView, replies: Seq<HttpReplyView>) -> Option<
    Result<Seq<char>, FetchErrorView>,
>
    decreases replies.len(),
{
    if replies.len() == 0 {
        None
    } else {
        match step(s, replies[0]) {
            PageStepView::More(t) => drain(t, replies.drop_first()),
            PageStepView::Finished(r) => Some(r),
        }
    }
}

impl Pager {
    pub fn new(url: &str) -> (r: Pager)
        ensures
            r@ == start(url@),
    {
        Pager { url: String::from_str(url), page: 1, acc: Vec::new() }
    }

    /// The number of the page to fetch next.
    pub fn page(&self) -> (r: u64)
        ensures
            r as nat == self@.page,
    {
        self.page
    }

    /// The address of the page to fetch next.
    pub fn current_url(&self) -> (r: String)
        ensures
            r@ == page_url(self@.url, self@.page),
    {
        let mut u = self.url.clone();
        proof {
            reveal_strlit("?page=");
        }
        u.append("?page=");
        let d = decimal_text(self.page);
        u.append(d.as_str());
        assert(u@ =~= page_url(self@.url, self@.page));
        u
    }

    /// Takes the reply to the request for `current_url`.
    pub fn on_reply(self, reply: HttpReply) -> (r: PageStep)
        requires
            self@.page < u64::MAX,
        ensures
            r@ == step(self@, reply@),
    {
        let url = self.current_url();
        match reply {
            HttpReply::Failed(message) => PageStep::Finished(
                Err(FetchError::Transport { url, message }),
            ),
            HttpReply::Received { status, body } => {
                if !status_is_success(status) {
                    PageStep::Finished(Err(FetchError::Status { url, status }))
                } else {
                    match parse_page(body.as_str()) {
                        None => PageStep::Finished(Ok(body)),
                        Some(p) => {
                            let PaginatedResults { next, count: _, results } = p;
                            let mut acc = self.acc;
                            let mut results = results;
                            acc.append(&mut results);
                            if next == 0 {
                                PageStep::Finished(Ok(array_to_text(acc)))
                            } else {
                                PageStep::More(Pager { url: self.url, page: self.page + 1, acc })
                            }
                        },
                    }
                }
            },
        }
    }
}


/// A 2xx reply whose body is the page `p`.
pub open spec fn is_page_reply(r: HttpReplyView, p: (u32, u32, Seq<Json>)) -> bool {
    match r {
        HttpReplyView::Received { status, body } => is_success(status) && body_envelope(body)
            == Some(p),
        _ => false,
    }
}

/// The results of `pages`, in page order.
pub open spec fn concat_results(pages: Seq<(u32, u32, Seq<Json>)>) -> Seq<Json>
    decreases pages.len(),
{
    if pages.len() == 0 {
        Seq::empty()
    } else {
        pages[0].2 + concat_results(pages.drop_first())
    }
}

/// Pages fetched with a 2xx status, each but the last with a nonzero `next`
/// and the last with `next` 0, end the call with the results gathered so
/// far followed by every page's results in page order, as one array.
pub proof fn lemma_pages_concatenate(
    s: PagerView,
    replies: Seq<HttpReplyView>,
    pages: Seq<(u32, u32, Seq<Json>)>,
)
    requires
        pages.len() >= 1,
        replies.len() == pages.len(),
        forall|k: int| 0 <= k < pages.len() ==> is_page_reply(#[trigger] replies[k], pages[k]),
        forall|k: int| 0 <= k < pages.len() - 1 ==> (#[trigger] pages[k]).0 != 0,
        pages.last().0 == 0,
    ensures
        drain(s, replies) == Some(Ok::<Seq<char>, FetchErrorView>(json_array_text(s.acc + concat_results(pages)))),
    decreases pages.len(),
{
    assert(is_page_reply(replies[0], pages[0]));
    if pages.len() == 1 {
        assert(concat_results(pages.drop_first()) =~= Seq::empty());
        assert(s.acc + concat_results(pages) =~= s.acc + pages[0].2);
    } else {
        assert(pages[0].0 != 0);
        let t = PagerView { url: s.url, page: s.page + 1, acc: s.acc + pages[0].2 };
        assert(step(s, replies[0]) == PageStepView::More(t));
        let rest = replies.drop_first();
        let rest_pages = pages.drop_first();
        assert forall|k: int| 0 <= k < rest_pages.len() implies is_page_reply(
            #[trigger] rest[k],
            rest_pages[k],
        ) by {
            assert(is_page_reply(replies[k + 1], pages[k + 1]));
        }
        assert forall|k: int| 0 <= k < rest_pages.len() - 1 implies (
        #[trigger] rest_pages[k]).0 != 0 by {
            assert(pages[k + 1].0 != 0);
        }
        lemma_pages_concatenate(t, rest, rest_pages);
        assert(t.acc + concat_results(rest_pages) =~= s.acc + concat_results(pages));
    }
}

/// From the first page on, pages with nonzero `next` followed by one with
/// `next` 0 make the whole call return all their results in page order.
pub proof fn lemma_drain_returns_all_results(
    url: Seq<char>,
    replies: Seq<HttpReplyView>,
    pages: Seq<(u32, u32, Seq<Json>)>,
)
    requires
        pages.len() >= 1,
        replies.len() == pages.len(),
        forall|k: int| 0 <= k < pages.len() ==> is_page_reply(#[trigger] replies[k], pages[k]),
        forall|k: int| 0 <= k < pages.len() - 1 ==> (#[trigger] pages[k]).0 != 0,
        pages.last().0 == 0,
    ensures
        drain(start(url), replies) == Some(Ok::<Seq<char>, FetchErrorView>(json_array_text(concat_results(pages)))),
{
    lemma_pages_concatenate(start(url), replies, pages);
    assert(start(url).acc + concat_results(pages) =~= concat_results(pages));
}

/// A 2xx body that is not a page is the answer of the whole call, returned
/// unchanged, whatever was gathered before it.
pub proof fn lemma_unpaged_body_verbatim(
    s: PagerView,
    replies: Seq<HttpReplyView>,
    status: u16,
    body: Seq<char>,
)
    requires
        replies.len() >= 1,
        replies[0] == (HttpReplyView::Received { status, body }),
        is_success(status),
        body_envelope(body) is None,
    ensures
        drain(s, replies) == Some(Ok::<Seq<char>, FetchErrorView>(body)),
{
}

/// A non-2xx status on the second page ends the call with a status error for
/// that page's address, and nothing gathered is returned.
pub proof fn lemma_status_error_on_second_page(
    url: Seq<char>,
    replies: Seq<HttpReplyView>,
    first: (u32, u32, Seq<Json>),
    status: u16,
    body: Seq<char>,
)
    requires
        replies.len() >= 2,
        is_page_reply(replies[0], first),
        first.0 != 0,
        replies[1] == (HttpReplyView::Received { status, body }),
        !is_success(status),
    ensures
        drain(start(url), replies) == Some(
            Err::<Seq<char>, FetchErrorView>(
                FetchErrorView::Status { url: page_url(url, 2), status },
            ),
        ),
{
    let t = PagerView { url, page: 2, acc: first.2 };
    assert(step(start(url), replies[0]) == PageStepView::More(t));
    let rest = replies.drop_first();
    assert(rest[0] == replies[1]);
    assert(step(t, rest[0]) == PageStepView::Finished(
        Err::<Seq<char>, FetchErrorView>(FetchErrorView::Status { url: page_url(url, 2), status }),
    ));
    assert(drain(t, rest) == Some(
        Err::<Seq<char>, FetchErrorView>(FetchErrorView::Status { url: page_url(url, 2), status }),
    ));
}

} // verus!

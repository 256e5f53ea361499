//! Running a crawl: what each step decides. The steps that wait (on the
//! rate limiter, on the network, on a data callback) are carried out by
//! the caller, which reports back what happened.
use vstd::prelude::*;

pub mod text;

use crate::dom::{
    child_attribute_values, child_attributes, fragment_text, host_of, opt_view, select_markup,
    selected_markup, selector_accepted, text_pieces, url_host, views_of,
};
use crate::execute::text::{clean_markup, cleaned_markup, trim, trimmed};
use crate::scrape::{ElementDataExtractor, ElementUrlExtractor, Ops, ResponseLogic, Scrape, StartUrl};
use crate::{QuickScraperError, ScraperErrorView};

verus! {

// ---------------------------------------------------------------------
// Reading elements, links and text out of a page
// ---------------------------------------------------------------------

/// The markup of the elements that `selector` selects in `html`, each on
/// one line and trimmed; nothing when the selector is not one that
/// `scraper` accepts.
pub open spec fn node_markup(html: Seq<char>, selector: Seq<char>) -> Seq<Seq<char>> {
    if selector_accepted(selector) {
        selected_markup(html, selector).map_values(|m: Seq<char>| cleaned_markup(m))
    } else {
        Seq::empty()
    }
}

/// The values that are present, in order.
pub open spec fn present(vals: Seq<Option<Seq<char>>>) -> Seq<Seq<char>>
    decreases vals.len(),
{
    if vals.len() == 0 {
        Seq::empty()
    } else {
        match vals.last() {
            Some(v) => present(vals.drop_last()).push(v),
            None => present(vals.drop_last()),
        }
    }
}

/// The links read out of the elements `nodes`: for each element in order,
/// parsed again as a fragment, the attribute `attr` of the elements at the
/// top of that fragment (the element itself) that have it.
pub open spec fn urls_in(nodes: Seq<Seq<char>>, attr: Seq<char>) -> Seq<Seq<char>>
    decreases nodes.len(),
{
    if nodes.len() == 0 {
        Seq::empty()
    } else {
        urls_in(nodes.drop_last(), attr) + present(child_attribute_values(nodes.last(), attr))
    }
}

/// The data read out of the elements `nodes`: for each element in order,
/// its text nodes, each trimmed.
pub open spec fn texts_in(nodes: Seq<Seq<char>>) -> Seq<Seq<char>>
    decreases nodes.len(),
{
    if nodes.len() == 0 {
        Seq::empty()
    } else {
        texts_in(nodes.drop_last()) + fragment_text(nodes.last()).map_values(
            |t: Seq<char>| trimmed(t),
        )
    }
}

proof fn lemma_views_push(v: Seq<String>, s: String)
    ensures
        views_of(v.push(s)) == views_of(v).push(s@),
{
    assert(views_of(v.push(s)) =~= views_of(v).push(s@));
}

proof fn lemma_views_take(v: Seq<String>, i: int)
    requires
        0 <= i < v.len(),
    ensures
        views_of(v).take(i + 1).drop_last() == views_of(v).take(i),
        views_of(v).take(i + 1).last() == v[i]@,
{
    assert(views_of(v).take(i + 1).drop_last() =~= views_of(v).take(i));
}

/// Copies a list of strings.
fn copy_strings(v: &Vec<String>) -> (r: Vec<String>)
    ensures
        views_of(r@) == views_of(v@),
{
    let mut r: Vec<String> = Vec::new();
    for i in 0..v.len()
        invariant
            views_of(r@) == views_of(v@).take(i as int),
    {
        let s = v[i].clone();
        proof {
            lemma_views_push(r@, s);
            lemma_views_take(v@, i as int);
        }
        r.push(s);
    }
    assert(views_of(v@).take(v.len() as int) =~= views_of(v@));
    r
}

/// The markup of the elements that `pred` selects in `html_str`, each on
/// one line and trimmed.
pub fn find_node_strs(pred: &str, html_str: &str) -> (r: Vec<String>)
    ensures
        views_of(r@) == node_markup(html_str@, pred@),
{
    let mut node_strs: Vec<String> = Vec::new();
    match select_markup(html_str, pred) {
        None => {
            assert(views_of(node_strs@) =~= Seq::<Seq<char>>::empty());
        },
        Some(nodes) => {
            let ghost picked = selected_markup(html_str@, pred@);
            for i in 0..nodes.len()
                invariant
                    views_of(nodes@) == picked,
                    node_strs.len() == i,
                    forall|j: int|
                        0 <= j < i ==> #[trigger] node_strs@[j]@ == cleaned_markup(picked[j]),
            {
                assert(nodes@[i as int]@ == picked[i as int]);
                let cleaned = clean_markup(nodes[i].as_str());
                node_strs.push(cleaned);
            }
            assert(views_of(node_strs@) =~= picked.map_values(|m: Seq<char>| cleaned_markup(m)));
        },
    }
    node_strs
}

/// Appends to `out` the values of `vals` that are present.
fn push_present(out: &mut Vec<String>, vals: Vec<Option<String>>)
    ensures
        views_of(final(out)@) == views_of(old(out)@) + present(
            vals@.map_values(|o: Option<String>| opt_view(o)),
        ),
{
    let ghost start = views_of(out@);
    let ghost all = vals@.map_values(|o: Option<String>| opt_view(o));
    let mut j: usize = 0;
    while j < vals.len()
        invariant
            j <= vals.len(),
            all == vals@.map_values(|o: Option<String>| opt_view(o)),
            views_of(out@) == start + present(all.take(j as int)),
        decreases vals.len() - j,
    {
        assert(all.take(j + 1).drop_last() =~= all.take(j as int));
        assert(all.take(j + 1).last() == opt_view(vals@[j as int]));
        match &vals[j] {
            Some(v) => {
                let s = v.clone();
                proof {
                    lemma_views_push(out@, s);
                }
                out.push(s);
                assert(views_of(out@) =~= start + present(all.take(j + 1)));
            },
            None => {},
        }
        j = j + 1;
    }
    assert(all.take(vals.len() as int) =~= all);
}

/// The links read out of the elements `node_strs` by `ex`.
pub fn find_urls(ex: &ElementUrlExtractor, node_strs: &Vec<String>) -> (r: Vec<String>)
    ensures
        match ex {
            ElementUrlExtractor::Attr(attr) => views_of(r@) == urls_in(views_of(node_strs@), attr@),
        },
{
    let mut urls: Vec<String> = Vec::new();
    match ex {
        ElementUrlExtractor::Attr(target_attr) => {
            let ghost nodes = views_of(node_strs@);
            for i in 0..node_strs.len()
                invariant
                    nodes == views_of(node_strs@),
                    views_of(urls@) == urls_in(nodes.take(i as int), target_attr@),
            {
                proof {
                    lemma_views_take(node_strs@, i as int);
                }
                let vals = child_attributes(node_strs[i].as_str(), target_attr.as_str());
                push_present(&mut urls, vals);
            }
            assert(nodes.take(node_strs.len() as int) =~= nodes);
        },
    }
    urls
}

/// The data read out of the elements `node_strs` by `ex`.
pub fn find_data(ex: &ElementDataExtractor, node_strs: &Vec<String>) -> (r: Vec<String>)
    ensures
        views_of(r@) == texts_in(views_of(node_strs@)),
{
    let mut items: Vec<String> = Vec::new();
    match ex {
        ElementDataExtractor::Text => {
            let ghost nodes = views_of(node_strs@);
            for i in 0..node_strs.len()
                invariant
                    nodes == views_of(node_strs@),
                    views_of(items@) == texts_in(nodes.take(i as int)),
            {
                proof {
                    lemma_views_take(node_strs@, i as int);
                }
                let pieces = text_pieces(node_strs[i].as_str());
                let ghost before = views_of(items@);
                let ghost texts = fragment_text(node_strs@[i as int]@);
                for j in 0..pieces.len()
                    invariant
                        views_of(pieces@) == texts,
                        views_of(items@) == before + texts.take(j as int).map_values(
                            |t: Seq<char>| trimmed(t),
                        ),
                {
                    assert(pieces@[j as int]@ == texts[j as int]);
                    let t = trim(pieces[j].as_str());
                    proof {
                        lemma_views_push(items@, t);
                    }
                    items.push(t);
                    assert(texts.take(j + 1).map_values(|t: Seq<char>| trimmed(t)) =~= texts.take(
                        j as int,
                    ).map_values(|t: Seq<char>| trimmed(t)).push(trimmed(texts[j as int])));
                }
                assert(texts.take(pieces.len() as int) =~= texts);
            }
            assert(nodes.take(node_strs.len() as int) =~= nodes);
        },
    }
    items
}

// ---------------------------------------------------------------------
// Interpreting a scrape over one page
// ---------------------------------------------------------------------

/// What a scrape has gathered so far from one page.
pub struct HtmlContainer {
    html_str: String,
    url_node_strs: Vec<String>,
    data_node_strs: Vec<String>,
    node_urls: Vec<String>,
    data_items: Vec<String>,
}

/// An [`HtmlContainer`] as sequences of characters.
pub ghost struct ContainerView {
    /// The page.
    pub html: Seq<char>,
    /// The markup of the elements selected for links.
    pub url_nodes: Seq<Seq<char>>,
    /// The markup of the elements selected for data.
    pub data_nodes: Seq<Seq<char>>,
    /// The links read out of `url_nodes`.
    pub urls: Seq<Seq<char>>,
    /// The data read out of `data_nodes`.
    pub data: Seq<Seq<char>>,
}

impl View for HtmlContainer {
    type V = ContainerView;

    closed spec fn view(&self) -> ContainerView {
        ContainerView {
            html: self.html_str@,
            url_nodes: views_of(self.url_node_strs@),
            data_nodes: views_of(self.data_node_strs@),
            urls: views_of(self.node_urls@),
            data: views_of(self.data_items@),
        }
    }
}

/// A page on which nothing has been gathered yet.
pub open spec fn fresh_container(html: Seq<char>) -> ContainerView {
    ContainerView {
        html,
        url_nodes: Seq::empty(),
        data_nodes: Seq::empty(),
        urls: Seq::empty(),
        data: Seq::empty(),
    }
}

/// What the caller is to do after one operation of a scrape.
pub enum ScrapeStep<'a, S> {
    /// Nothing; go on with the next operation.
    Continue,
    /// Fetch each of `urls` and handle its page with `response_logic`.
    Follow { urls: Vec<String>, response_logic: &'a ResponseLogic<S> },
    /// Hand `data` to the callback `store`.
    Store { store: &'a S, data: Vec<String> },
}

/// A [`ScrapeStep`] with its text as sequences of characters.
pub ghost enum StepView<S> {
    Continue,
    Follow(Seq<Seq<char>>, ResponseLogic<S>),
    Store(S, Seq<Seq<char>>),
}

impl<'a, S> View for ScrapeStep<'a, S> {
    type V = StepView<S>;

    open spec fn view(&self) -> StepView<S> {
        match self {
            ScrapeStep::Continue => StepView::Continue,
            ScrapeStep::Follow { urls, response_logic } => StepView::Follow(
                views_of(urls@),
                **response_logic,
            ),
            ScrapeStep::Store { store, data } => StepView::Store(**store, views_of(data@)),
        }
    }
}

/// The effect of one operation on what has been gathered from a page, and
/// what the caller is to do next.
pub open spec fn apply_op<S>(c: ContainerView, op: Ops<S>) -> (ContainerView, StepView<S>) {
    match op {
        Ops::UrlSelector(sel) => (
            ContainerView { url_nodes: node_markup(c.html, sel@), ..c },
            StepView::Continue,
        ),
        Ops::DataSelector(sel) => (
            ContainerView { data_nodes: node_markup(c.html, sel@), ..c },
            StepView::Continue,
        ),
        Ops::UrlExtractor(ElementUrlExtractor::Attr(attr)) => (
            ContainerView { urls: urls_in(c.url_nodes, attr@), ..c },
            StepView::Continue,
        ),
        Ops::DataExtractor(ElementDataExtractor::Text) => (
            ContainerView { data: texts_in(c.data_nodes), ..c },
            StepView::Continue,
        ),
        Ops::ResponseLogic(logic) => (c, StepView::Follow(c.urls, logic)),
        Ops::Store(store) => (c, StepView::Store(store, c.data)),
    }
}

/// Running the operations `ops` in order from `c`: what is gathered at the
/// end, and what the caller was asked to do after each operation.
pub open spec fn run_ops<S>(c: ContainerView, ops: Seq<Ops<S>>) -> (ContainerView, Seq<StepView<S>>)
    decreases ops.len(),
{
    if ops.len() == 0 {
        (c, Seq::empty())
    } else {
        let (before, steps) = run_ops(c, ops.drop_last());
        let (after, step) = apply_op(before, ops.last());
        (after, steps.push(step))
    }
}

impl HtmlContainer {
    /// Nothing gathered yet from the page `html_str`.
    pub fn new(html_str: String) -> (r: HtmlContainer)
        ensures
            r@ == fresh_container(html_str@),
    {
        let r = HtmlContainer {
            html_str,
            url_node_strs: Vec::new(),
            data_node_strs: Vec::new(),
            node_urls: Vec::new(),
            data_items: Vec::new(),
        };
        assert(r@.url_nodes =~= Seq::<Seq<char>>::empty());
        assert(r@.data_nodes =~= Seq::<Seq<char>>::empty());
        assert(r@.urls =~= Seq::<Seq<char>>::empty());
        assert(r@.data =~= Seq::<Seq<char>>::empty());
        r
    }

    /// Runs one operation of a scrape on the page and says what the caller
    /// is to do next.
    pub fn apply<'a, S>(&mut self, op: &'a Ops<S>) -> (step: ScrapeStep<'a, S>)
        ensures
            (final(self)@, step@) == apply_op(old(self)@, *op),
            step matches ScrapeStep::Follow { response_logic, .. } ==> *op == Ops::ResponseLogic(
                *response_logic,
            ),
            step matches ScrapeStep::Store { store, .. } ==> *op == Ops::<S>::Store(*store),
    {
        match op {
            Ops::UrlSelector(selector_str) => {
                self.url_node_strs = find_node_strs(selector_str.as_str(), self.html_str.as_str());
                ScrapeStep::Continue
            },
            Ops::DataSelector(selector_str) => {
                self.data_node_strs = find_node_strs(selector_str.as_str(), self.html_str.as_str());
                ScrapeStep::Continue
            },
            Ops::UrlExtractor(ex) => {
                self.node_urls = find_urls(ex, &self.url_node_strs);
                ScrapeStep::Continue
            },
            Ops::DataExtractor(ex) => {
                self.data_items = find_data(ex, &self.data_node_strs);
                ScrapeStep::Continue
            },
            Ops::ResponseLogic(response_logic) => {
                ScrapeStep::Follow { urls: copy_strings(&self.node_urls), response_logic }
            },
            Ops::Store(f) => ScrapeStep::Store { store: f, data: copy_strings(&self.data_items) },
        }
    }
}

/// Running any operations leaves the page itself as it was, and asks
/// the caller for exactly one thing per operation.
pub proof fn lemma_run_keeps_page<S>(c: ContainerView, ops: Seq<Ops<S>>)
    ensures
        run_ops(c, ops).0.html == c.html,
        run_ops(c, ops).1.len() == ops.len(),
    decreases ops.len(),
{
    if ops.len() > 0 {
        lemma_run_keeps_page(c, ops.drop_last());
    }
}

/// A data scrape (select elements, read their text, store) hands its
/// callback exactly the trimmed text of the selected elements of the page.
pub proof fn lemma_data_scrape_stores_text<S>(html: Seq<char>, selector: String, store: S)
    ensures
        ({
            let ops = seq![
                Ops::<S>::DataSelector(selector),
                Ops::<S>::DataExtractor(ElementDataExtractor::Text),
                Ops::<S>::Store(store),
            ];
            run_ops(fresh_container(html), ops).1 == seq![
                StepView::<S>::Continue,
                StepView::<S>::Continue,
                StepView::Store(store, texts_in(node_markup(html, selector@))),
            ]
        }),
{
    let ops = seq![
        Ops::<S>::DataSelector(selector),
        Ops::<S>::DataExtractor(ElementDataExtractor::Text),
        Ops::<S>::Store(store),
    ];
    assert(ops.drop_last().drop_last().drop_last() =~= Seq::<Ops<S>>::empty());
    assert(ops.drop_last().drop_last() =~= seq![Ops::<S>::DataSelector(selector)]);
    assert(ops.drop_last() =~= seq![
        Ops::<S>::DataSelector(selector),
        Ops::<S>::DataExtractor(ElementDataExtractor::Text),
    ]);
    let c0 = fresh_container(html);
    let c1 = ContainerView { data_nodes: node_markup(html, selector@), ..c0 };
    let c2 = ContainerView { data: texts_in(c1.data_nodes), ..c1 };
    assert(run_ops(c0, ops.drop_last().drop_last().drop_last()) == (c0, Seq::<StepView<S>>::empty()));
    assert(run_ops(c0, ops.drop_last().drop_last()).1 =~= seq![StepView::<S>::Continue]);
    assert(run_ops(c0, ops.drop_last().drop_last()).0 == c1);
    assert(run_ops(c0, ops.drop_last()).0 == c2);
    assert(run_ops(c0, ops.drop_last()).1 =~= seq![StepView::<S>::Continue, StepView::<S>::Continue]);
    assert(run_ops(fresh_container(html), ops).1 =~= seq![
        StepView::<S>::Continue,
        StepView::<S>::Continue,
        StepView::Store(store, texts_in(node_markup(html, selector@))),
    ]);
}

/// A link scrape (select elements, read an attribute, follow) asks the
/// caller to follow exactly the links read out of the selected elements
/// of the page, with the given logic.
pub proof fn lemma_url_scrape_follows_links<S>(
    html: Seq<char>,
    selector: String,
    attr: String,
    logic: ResponseLogic<S>,
)
    ensures
        ({
            let ops = seq![
                Ops::<S>::UrlSelector(selector),
                Ops::<S>::UrlExtractor(ElementUrlExtractor::Attr(attr)),
                Ops::<S>::ResponseLogic(logic),
            ];
            run_ops(fresh_container(html), ops).1 == seq![
                StepView::<S>::Continue,
                StepView::<S>::Continue,
                StepView::Follow(urls_in(node_markup(html, selector@), attr@), logic),
            ]
        }),
{
    let ops = seq![
        Ops::<S>::UrlSelector(selector),
        Ops::<S>::UrlExtractor(ElementUrlExtractor::Attr(attr)),
        Ops::<S>::ResponseLogic(logic),
    ];
    assert(ops.drop_last().drop_last().drop_last() =~= Seq::<Ops<S>>::empty());
    assert(ops.drop_last().drop_last() =~= seq![Ops::<S>::UrlSelector(selector)]);
    assert(ops.drop_last() =~= seq![
        Ops::<S>::UrlSelector(selector),
        Ops::<S>::UrlExtractor(ElementUrlExtractor::Attr(attr)),
    ]);
    let c0 = fresh_container(html);
    let c1 = ContainerView { url_nodes: node_markup(html, selector@), ..c0 };
    let c2 = ContainerView { urls: urls_in(c1.url_nodes, attr@), ..c1 };
    assert(run_ops(c0, ops.drop_last().drop_last().drop_last()) == (c0, Seq::<StepView<S>>::empty()));
    assert(run_ops(c0, ops.drop_last().drop_last()).1 =~= seq![StepView::<S>::Continue]);
    assert(run_ops(c0, ops.drop_last().drop_last()).0 == c1);
    assert(run_ops(c0, ops.drop_last()).0 == c2);
    assert(run_ops(c0, ops.drop_last()).1 =~= seq![StepView::<S>::Continue, StepView::<S>::Continue]);
    assert(run_ops(fresh_container(html), ops).1 =~= seq![
        StepView::<S>::Continue,
        StepView::<S>::Continue,
        StepView::Follow(urls_in(node_markup(html, selector@), attr@), logic),
    ]);
}

// ---------------------------------------------------------------------
// Crawling a start page
// ---------------------------------------------------------------------

/// An HTTP method the crawler can start with.
#[derive(Debug, Clone, Copy, PartialEq, Eq, Structural)]
pub enum HttpMethod {
    Get,
    Post,
}

/// A request for a start page.
pub struct HttpRequest {
    pub method: HttpMethod,
    pub url: String,
}

/// An [`HttpRequest`] with its address as a sequence of characters.
pub ghost struct RequestView {
    pub method: HttpMethod,
    pub url: Seq<char>,
}

impl View for HttpRequest {
    type V = RequestView;

    open spec fn view(&self) -> RequestView {
        RequestView { method: self.method, url: self.url@ }
    }
}

/// The request a start page asks for, or why it asks for none: it needs an
/// address, and a method that is `GET` or `POST`, checked in that order.
pub open spec fn request_spec<S>(start_url: StartUrl<S>) -> Result<RequestView, ScraperErrorView> {
    match start_url.url {
        None => Err(ScraperErrorView::NoUrlInStartUrlErr),
        Some(url) => match start_url.method {
            None => Err(ScraperErrorView::NoStartUrlMethodErr),
            Some(m) => if m@ == "GET"@ {
                Ok(RequestView { method: HttpMethod::Get, url: url@ })
            } else if m@ == "POST"@ {
                Ok(RequestView { method: HttpMethod::Post, url: url@ })
            } else {
                Err(ScraperErrorView::InvalidStartUrlMethodErr(m@))
            },
        },
    }
}

/// The request a start page asks for, or why it asks for none.
pub fn request_for<S>(start_url: &StartUrl<S>) -> (r: Result<HttpRequest, QuickScraperError>)
    ensures
        match r {
            Ok(req) => request_spec(*start_url) == Ok::<RequestView, ScraperErrorView>(req@),
            Err(e) => request_spec(*start_url) == Err::<RequestView, ScraperErrorView>(e@),
        },
{
    let url = match &start_url.url {
        Some(url) => url,
        None => return Err(QuickScraperError::NoUrlInStartUrlErr),
    };
    let method = match &start_url.method {
        Some(m) => m,
        None => return Err(QuickScraperError::NoStartUrlMethodErr),
    };
    let get = "GET".to_owned();
    let post = "POST".to_owned();
    if *method == get {
        Ok(HttpRequest { method: HttpMethod::Get, url: url.clone() })
    } else if *method == post {
        Ok(HttpRequest { method: HttpMethod::Post, url: url.clone() })
    } else {
        Err(QuickScraperError::InvalidStartUrlMethodErr(method.clone()))
    }
}

/// The domain whose rate limit a request for `url` waits on: none without
/// a limiter; with one, the host of `url`, or an error when it has none.
pub open spec fn limit_domain_spec(limited: bool, url: Seq<char>) -> Result<
    Option<Seq<char>>,
    ScraperErrorView,
> {
    if !limited {
        Ok(None)
    } else {
        match url_host(url) {
            Some(host) => Ok(Some(host)),
            None => Err(ScraperErrorView::ParseDomainErr),
        }
    }
}

/// The domain whose rate limit a request for `url` waits on, if any.
pub fn domain_to_limit(limited: bool, url: &str) -> (r: Result<Option<String>, QuickScraperError>)
    ensures
        match r {
            Ok(d) => limit_domain_spec(limited, url@) == Ok::<
                Option<Seq<char>>,
                ScraperErrorView,
            >(opt_view(d)),
            Err(e) => limit_domain_spec(limited, url@) == Err::<
                Option<Seq<char>>,
                ScraperErrorView,
            >(e@),
        },
{
    if !limited {
        return Ok(None);
    }
    match host_of(url) {
        Some(host) => Ok(Some(host)),
        None => Err(QuickScraperError::ParseDomainErr),
    }
}

/// What the caller reports to the crawl of a start page.
pub enum DeepScrapeEvent {
    /// The crawl begins.
    Start,
    /// The rate limiter let the request through.
    LimitPassed,
    /// The request was made: the body of the page, or `None` if it failed.
    Fetched(Option<String>),
}

/// A [`DeepScrapeEvent`] with its text as a sequence of characters.
pub ghost enum EventView {
    Start,
    LimitPassed,
    Fetched(Option<Seq<char>>),
}

impl View for DeepScrapeEvent {
    type V = EventView;

    open spec fn view(&self) -> EventView {
        match self {
            DeepScrapeEvent::Start => EventView::Start,
            DeepScrapeEvent::LimitPassed => EventView::LimitPassed,
            DeepScrapeEvent::Fetched(body) => EventView::Fetched(opt_view(*body)),
        }
    }
}

/// What the crawl of a start page asks the caller to do next.
pub enum DeepScrapeAction<'a, S> {
    /// Wait on the rate limit of this domain, then report `LimitPassed`.
    WaitForLimit(String),
    /// Make this request, then report `Fetched`.
    Send(HttpRequest),
    /// Handle the page `html` with `response_logic`; the crawl is then done.
    Respond { response_logic: &'a ResponseLogic<S>, html: String },
    /// The crawl is over, with this outcome.
    Finish(Result<(), QuickScraperError>),
}

/// A [`DeepScrapeAction`] with its text as sequences of characters.
pub ghost enum ActionView<S> {
    WaitForLimit(Seq<char>),
    Send(RequestView),
    Respond(ResponseLogic<S>, Seq<char>),
    Finish(Result<(), ScraperErrorView>),
}

impl<'a, S> View for DeepScrapeAction<'a, S> {
    type V = ActionView<S>;

    open spec fn view(&self) -> ActionView<S> {
        match self {
            DeepScrapeAction::WaitForLimit(d) => ActionView::WaitForLimit(d@),
            DeepScrapeAction::Send(req) => ActionView::Send(req@),
            DeepScrapeAction::Respond { response_logic, html } => ActionView::Respond(
                **response_logic,
                html@,
            ),
            DeepScrapeAction::Finish(Ok(())) => ActionView::Finish(Ok(())),
            DeepScrapeAction::Finish(Err(e)) => ActionView::Finish(Err(e@)),
        }
    }
}

/// The crawl of a start page, step by step: validate the start page, wait
/// on the rate limit of its domain when there is a limiter, fetch it, then
/// hand its body to its response logic.
pub open spec fn deep_scrape_spec<S>(start_url: StartUrl<S>, limited: bool, event: EventView) -> ActionView<S> {
    match event {
        EventView::Start => match request_spec(start_url) {
            Err(e) => ActionView::Finish(Err(e)),
            Ok(req) => match limit_domain_spec(limited, req.url) {
                Err(e) => ActionView::Finish(Err(e)),
                Ok(Some(domain)) => ActionView::WaitForLimit(domain),
                Ok(None) => ActionView::Send(req),
            },
        },
        EventView::LimitPassed => match request_spec(start_url) {
            Err(e) => ActionView::Finish(Err(e)),
            Ok(req) => ActionView::Send(req),
        },
        EventView::Fetched(None) => ActionView::Finish(Err(ScraperErrorView::SurfRequestErr)),
        EventView::Fetched(Some(html)) => match start_url.response_logic {
            None => ActionView::Finish(Err(ScraperErrorView::NoResponseLogicErr)),
            Some(logic) => ActionView::Respond(logic, html),
        },
    }
}

/// One step of the crawl of `start_url`; `limited` says whether the crawl
/// has a rate limiter.
pub fn execute_deep_scrape_step<'a, S>(
    start_url: &'a StartUrl<S>,
    limited: bool,
    event: DeepScrapeEvent,
) -> (a: DeepScrapeAction<'a, S>)
    ensures
        a@ == deep_scrape_spec(*start_url, limited, event@),
        a matches DeepScrapeAction::Respond { response_logic, .. } ==> start_url.response_logic
            == Some(*response_logic),
{
    match event {
        DeepScrapeEvent::Start => match request_for(start_url) {
            Err(e) => DeepScrapeAction::Finish(Err(e)),
            Ok(req) => match domain_to_limit(limited, req.url.as_str()) {
                Err(e) => DeepScrapeAction::Finish(Err(e)),
                Ok(Some(domain)) => DeepScrapeAction::WaitForLimit(domain),
                Ok(None) => DeepScrapeAction::Send(req),
            },
        },
        DeepScrapeEvent::LimitPassed => match request_for(start_url) {
            Err(e) => DeepScrapeAction::Finish(Err(e)),
            Ok(req) => DeepScrapeAction::Send(req),
        },
        DeepScrapeEvent::Fetched(None) => DeepScrapeAction::Finish(
            Err(QuickScraperError::SurfRequestErr),
        ),
        DeepScrapeEvent::Fetched(Some(html)) => match &start_url.response_logic {
            None => DeepScrapeAction::Finish(Err(QuickScraperError::NoResponseLogicErr)),
            Some(response_logic) => DeepScrapeAction::Respond { response_logic, html },
        },
    }
}

/// The scrapes to run on a page handled by `response_logic`: those of a
/// parallel logic; a serial one is not supported.
pub fn plan_response_logic<'a, S>(response_logic: &'a ResponseLogic<S>) -> (r: Result<
    &'a Vec<Scrape<S>>,
    QuickScraperError,
>)
    ensures
        match *response_logic {
            ResponseLogic::Parallel(items) => r matches Ok(v) && *v == items,
            ResponseLogic::Serial(_) => r matches Err(e) && e@
                == ScraperErrorView::UnknownResponseLogicErr,
        },
{
    match response_logic {
        ResponseLogic::Parallel(par_items) => Ok(par_items),
        _ => Err(QuickScraperError::UnknownResponseLogicErr),
    }
}

/// A rate limiter only delays the crawl of a start page: with one, the
/// crawl first waits on the domain of the very request it would make
/// without one, and then makes that request; where no request is made,
/// the crawl fails the same way with or without one, except that a
/// limiter also needs the address to have a host.
pub proof fn lemma_limiter_only_delays<S>(start_url: StartUrl<S>)
    ensures
        match deep_scrape_spec(start_url, false, EventView::Start) {
            ActionView::Send(req) => match url_host(req.url) {
                Some(domain) => deep_scrape_spec(start_url, true, EventView::Start)
                    == ActionView::<S>::WaitForLimit(domain) && deep_scrape_spec(
                    start_url,
                    true,
                    EventView::LimitPassed,
                ) == ActionView::<S>::Send(req),
                None => deep_scrape_spec(start_url, true, EventView::Start) == ActionView::<
                    S,
                >::Finish(Err(ScraperErrorView::ParseDomainErr)),
            },
            other => deep_scrape_spec(start_url, true, EventView::Start) == other,
        },
        forall|body: Option<Seq<char>>|
            deep_scrape_spec(start_url, true, EventView::Fetched(body)) == deep_scrape_spec(
                start_url,
                false,
                EventView::Fetched(body),
            ),
{
}

/// A start page with an address, a `GET` or `POST` method and a response
/// logic is crawled in full: the crawl waits on the limiter of its host
/// when there is one, requests it, and hands the page it receives to its
/// response logic.
pub proof fn lemma_valid_start_url_is_handled<S>(
    start_url: StartUrl<S>,
    limited: bool,
    html: Seq<char>,
)
    requires
        request_spec(start_url) is Ok,
        start_url.response_logic is Some,
        limited ==> url_host(request_spec(start_url)->Ok_0.url) is Some,
    ensures
        ({
            let req = request_spec(start_url)->Ok_0;
            &&& limited ==> deep_scrape_spec(start_url, limited, EventView::Start)
                == ActionView::<S>::WaitForLimit(url_host(req.url)->Some_0)
                && deep_scrape_spec(start_url, limited, EventView::LimitPassed)
                == ActionView::<S>::Send(req)
            &&& !limited ==> deep_scrape_spec(start_url, limited, EventView::Start)
                == ActionView::<S>::Send(req)
            &&& deep_scrape_spec(start_url, limited, EventView::Fetched(Some(html)))
                == ActionView::Respond(start_url.response_logic->Some_0, html)
        }),
{
}

/// The markup selected for data by the last data selection among `ops`;
/// nothing when there is none.
pub open spec fn data_nodes_of<S>(html: Seq<char>, ops: Seq<Ops<S>>) -> Seq<Seq<char>>
    decreases ops.len(),
{
    if ops.len() == 0 {
        Seq::empty()
    } else {
        match ops.last() {
            Ops::DataSelector(sel) => node_markup(html, sel@),
            _ => data_nodes_of(html, ops.drop_last()),
        }
    }
}

/// The data read by the last data extraction among `ops`, out of the
/// markup of the last data selection before it; nothing when there is no
/// extraction.
pub open spec fn data_of<S>(html: Seq<char>, ops: Seq<Ops<S>>) -> Seq<Seq<char>>
    decreases ops.len(),
{
    if ops.len() == 0 {
        Seq::empty()
    } else {
        match ops.last() {
            Ops::DataExtractor(ElementDataExtractor::Text) => texts_in(
                data_nodes_of(html, ops.drop_last()),
            ),
            _ => data_of(html, ops.drop_last()),
        }
    }
}

/// The markup selected for links by the last link selection among `ops`;
/// nothing when there is none.
pub open spec fn url_nodes_of<S>(html: Seq<char>, ops: Seq<Ops<S>>) -> Seq<Seq<char>>
    decreases ops.len(),
{
    if ops.len() == 0 {
        Seq::empty()
    } else {
        match ops.last() {
            Ops::UrlSelector(sel) => node_markup(html, sel@),
            _ => url_nodes_of(html, ops.drop_last()),
        }
    }
}

/// The links read by the last link extraction among `ops`, out of the
/// markup of the last link selection before it; nothing when there is no
/// extraction.
pub open spec fn urls_of<S>(html: Seq<char>, ops: Seq<Ops<S>>) -> Seq<Seq<char>>
    decreases ops.len(),
{
    if ops.len() == 0 {
        Seq::empty()
    } else {
        match ops.last() {
            Ops::UrlExtractor(ElementUrlExtractor::Attr(attr)) => urls_in(
                url_nodes_of(html, ops.drop_last()),
                attr@,
            ),
            _ => urls_of(html, ops.drop_last()),
        }
    }
}

/// What a scrape has gathered from the page `html` after the operations
/// `ops`.
pub open spec fn gathered<S>(html: Seq<char>, ops: Seq<Ops<S>>) -> ContainerView {
    ContainerView {
        html,
        url_nodes: url_nodes_of(html, ops),
        data_nodes: data_nodes_of(html, ops),
        urls: urls_of(html, ops),
        data: data_of(html, ops),
    }
}

proof fn lemma_run_gathers<S>(html: Seq<char>, ops: Seq<Ops<S>>)
    ensures
        run_ops(fresh_container(html), ops).0 == gathered(html, ops),
    decreases ops.len(),
{
    if ops.len() > 0 {
        lemma_run_gathers(html, ops.drop_last());
    }
}

proof fn lemma_run_prefix<S>(c: ContainerView, ops: Seq<Ops<S>>, k: int)
    requires
        0 <= k <= ops.len(),
    ensures
        run_ops(c, ops).1.take(k) == run_ops(c, ops.take(k)).1,
    decreases ops.len(),
{
    lemma_run_keeps_page(c, ops);
    if k == ops.len() {
        assert(ops.take(k) =~= ops);
        assert(run_ops(c, ops).1.take(k) =~= run_ops(c, ops).1);
    } else {
        let steps = run_ops(c, ops.drop_last()).1;
        lemma_run_keeps_page(c, ops.drop_last());
        lemma_run_prefix(c, ops.drop_last(), k);
        assert(ops.drop_last().take(k) =~= ops.take(k));
        assert(run_ops(c, ops).1.take(k) =~= steps.take(k));
    }
}

/// Running a scrape over a page asks the caller for one step per
/// operation, in order; step `i` depends only on the operations before it:
/// a store is handed the data of the last extraction before it (taken over
/// the last selection before that extraction), a follow the links of the
/// last link extraction before it (taken over the last link selection
/// before that), and every other operation asks for nothing.
pub proof fn lemma_scrape_step_at<S>(html: Seq<char>, ops: Seq<Ops<S>>, i: int)
    requires
        0 <= i < ops.len(),
    ensures
        run_ops(fresh_container(html), ops).1.len() == ops.len(),
        match ops[i] {
            Ops::Store(store) => run_ops(fresh_container(html), ops).1[i] == StepView::Store(
                store,
                data_of(html, ops.take(i)),
            ),
            Ops::ResponseLogic(logic) => run_ops(fresh_container(html), ops).1[i]
                == StepView::Follow(urls_of(html, ops.take(i)), logic),
            _ => run_ops(fresh_container(html), ops).1[i] == StepView::<S>::Continue,
        },
{
    let c = fresh_container(html);
    lemma_run_keeps_page(c, ops);
    lemma_run_prefix(c, ops, i + 1);
    let pre = ops.take(i + 1);
    assert(pre.drop_last() =~= ops.take(i));
    assert(pre.last() == ops[i]);
    lemma_run_keeps_page(c, ops.take(i));
    lemma_run_gathers(html, ops.take(i));
    assert(run_ops(c, ops).1[i] == run_ops(c, ops).1.take(i + 1)[i]);
}

/// Every store operation of a scrape is handed exactly the data read by
/// the last data extraction before it, out of the elements of the last
/// data selection before that extraction; nothing if there is no such
/// extraction or selection.
pub proof fn lemma_store_receives_last_extraction<S>(html: Seq<char>, ops: Seq<Ops<S>>, i: int)
    requires
        0 <= i < ops.len(),
        ops[i] is Store,
    ensures
        run_ops(fresh_container(html), ops).1[i] == StepView::Store(
            ops[i]->Store_0,
            data_of(html, ops.take(i)),
        ),
{
    lemma_scrape_step_at(html, ops, i);
}

/// Every follow operation of a scrape asks for exactly the links read by
/// the last link extraction before it, out of the elements of the last
/// link selection before that extraction, each with its response logic;
/// no link if there is no such extraction or selection.
pub proof fn lemma_follow_gets_last_links<S>(html: Seq<char>, ops: Seq<Ops<S>>, i: int)
    requires
        0 <= i < ops.len(),
        ops[i] is ResponseLogic,
    ensures
        run_ops(fresh_container(html), ops).1[i] == StepView::Follow(
            urls_of(html, ops.take(i)),
            ops[i]->ResponseLogic_0,
        ),
{
    lemma_scrape_step_at(html, ops, i);
}

/// Reading links out of elements goes element by element: the links of
/// two lists of elements put together are the links of the first list
/// followed by those of the second; no element gives no link.
pub proof fn lemma_urls_in_concat(a: Seq<Seq<char>>, b: Seq<Seq<char>>, attr: Seq<char>)
    ensures
        urls_in(a + b, attr) == urls_in(a, attr) + urls_in(b, attr),
        urls_in(Seq::empty(), attr) == Seq::<Seq<char>>::empty(),
    decreases b.len(),
{
    if b.len() == 0 {
        assert(a + b =~= a);
        assert(urls_in(a, attr) + urls_in(b, attr) =~= urls_in(a, attr));
    } else {
        lemma_urls_in_concat(a, b.drop_last(), attr);
        assert((a + b).drop_last() =~= a + b.drop_last());
        assert((a + b).last() == b.last());
        let tail = present(child_attribute_values(b.last(), attr));
        assert(urls_in(a, attr) + urls_in(b.drop_last(), attr) + tail =~= urls_in(a, attr) + (
        urls_in(b.drop_last(), attr) + tail));
    }
}

/// Reading data out of elements goes element by element: the data of two
/// lists of elements put together is the data of the first list followed
/// by that of the second; no element gives no data.
pub proof fn lemma_texts_in_concat(a: Seq<Seq<char>>, b: Seq<Seq<char>>)
    ensures
        texts_in(a + b) == texts_in(a) + texts_in(b),
        texts_in(Seq::empty()) == Seq::<Seq<char>>::empty(),
    decreases b.len(),
{
    if b.len() == 0 {
        assert(a + b =~= a);
        assert(texts_in(a) + texts_in(b) =~= texts_in(a));
    } else {
        lemma_texts_in_concat(a, b.drop_last());
        assert((a + b).drop_last() =~= a + b.drop_last());
        assert((a + b).last() == b.last());
        let tail = fragment_text(b.last()).map_values(|t: Seq<char>| trimmed(t));
        assert(texts_in(a) + texts_in(b.drop_last()) + tail =~= texts_in(a) + (texts_in(
            b.drop_last(),
        ) + tail));
    }
}

/// Every piece of data read out of elements is already trimmed.
pub proof fn lemma_texts_in_trimmed(nodes: Seq<Seq<char>>)
    ensures
        forall|i: int|
            0 <= i < texts_in(nodes).len() ==> #[trigger] trimmed(texts_in(nodes)[i])
                == texts_in(nodes)[i],
    decreases nodes.len(),
{
    if nodes.len() > 0 {
        lemma_texts_in_trimmed(nodes.drop_last());
        let front = texts_in(nodes.drop_last());
        let tail = fragment_text(nodes.last()).map_values(|t: Seq<char>| trimmed(t));
        assert forall|i: int|
            0 <= i < texts_in(nodes).len() implies #[trigger] trimmed(texts_in(nodes)[i])
            == texts_in(nodes)[i] by {
            if i < front.len() {
                assert(texts_in(nodes)[i] == front[i]);
            } else {
                let t = fragment_text(nodes.last())[i - front.len()];
                assert(texts_in(nodes)[i] == trimmed(t));
                crate::execute::text::lemma_trimmed_idempotent(t);
            }
        }
    }
}

/// Reading data out of one element keeps every text node under it, in
/// document order, each trimmed: one piece of data per text node.
pub proof fn lemma_texts_of_one_element(n: Seq<char>)
    ensures
        texts_in(seq![n]).len() == fragment_text(n).len(),
        forall|k: int|
            0 <= k < fragment_text(n).len() ==> #[trigger] texts_in(seq![n])[k] == trimmed(
                fragment_text(n)[k],
            ),
{
    let e = Seq::<Seq<char>>::empty();
    assert(texts_in(e) == e);
    assert(seq![n].drop_last() =~= e);
    assert(seq![n].last() == n);
    let m = fragment_text(n).map_values(|t: Seq<char>| trimmed(t));
    assert(texts_in(seq![n]) == texts_in(e) + m);
    assert(texts_in(seq![n]) =~= m);
}

/// Selecting with a selector that `scraper` accepts gives one entry per
/// selected element, in document order, each the element's markup on one
/// line and trimmed; a selector it rejects selects nothing.
pub proof fn lemma_one_entry_per_selected_element(html: Seq<char>, selector: Seq<char>)
    ensures
        selector_accepted(selector) ==> node_markup(html, selector).len() == selected_markup(
            html,
            selector,
        ).len(),
        selector_accepted(selector) ==> forall|i: int|
            0 <= i < selected_markup(html, selector).len() ==> #[trigger] node_markup(
                html,
                selector,
            )[i] == cleaned_markup(selected_markup(html, selector)[i]),
        !selector_accepted(selector) ==> node_markup(html, selector).len() == 0,
{
}

/// A start page asks for a request to its own address, with `GET` exactly
/// when its method is `GET` and `POST` exactly when it is `POST`; and
/// whenever the crawl of a start page makes a request, that request is for
/// the start page's own address.
pub proof fn lemma_request_is_for_the_start_address<S>(start_url: StartUrl<S>)
    ensures
        request_spec(start_url) matches Ok(req) ==> {
            &&& start_url.url is Some
            &&& req.url == start_url.url->Some_0@
            &&& start_url.method is Some
            &&& (req.method == HttpMethod::Get <==> start_url.method->Some_0@ == "GET"@)
            &&& (req.method == HttpMethod::Post <==> start_url.method->Some_0@ == "POST"@)
        },
        forall|limited: bool, event: EventView|
            #[trigger] deep_scrape_spec(start_url, limited, event) matches ActionView::Send(req)
                ==> start_url.url is Some && req.url == start_url.url->Some_0@,
{
    reveal_strlit("GET");
    reveal_strlit("POST");
    assert("GET"@[0] != "POST"@[0]);
}

/// The number of values that are present among the first `k` of `vals`.
pub open spec fn count_present(vals: Seq<Option<Seq<char>>>, k: int) -> nat
    decreases k,
{
    if k <= 0 {
        0
    } else {
        count_present(vals, k - 1) + if vals[k - 1] is Some {
            1nat
        } else {
            0nat
        }
    }
}

proof fn lemma_count_present_prefix(vals: Seq<Option<Seq<char>>>, k: int)
    requires
        0 <= k < vals.len(),
    ensures
        count_present(vals.drop_last(), k) == count_present(vals, k),
    decreases k,
{
    if k > 0 {
        lemma_count_present_prefix(vals, k - 1);
        assert(vals.drop_last()[k - 1] == vals[k - 1]);
    }
}

/// Every value that is present is kept, as it is and in order, and nothing
/// else is: the value at position `k` of `vals`, when present, is entry
/// number `count_present(vals, k)` of the result, whatever characters it
/// holds.
pub proof fn lemma_present_keeps_every_value(vals: Seq<Option<Seq<char>>>)
    ensures
        present(vals).len() == count_present(vals, vals.len() as int),
        forall|k: int|
            0 <= k < vals.len() && (#[trigger] vals[k]) is Some ==> present(vals)[count_present(
                vals,
                k,
            ) as int] == vals[k]->Some_0,
    decreases vals.len(),
{
    if vals.len() > 0 {
        let front = vals.drop_last();
        let n = vals.len() - 1;
        lemma_present_keeps_every_value(front);
        lemma_count_present_prefix(vals, n);
        assert forall|k: int|
            0 <= k < vals.len() && (#[trigger] vals[k]) is Some implies present(vals)[count_present(
            vals,
            k,
        ) as int] == vals[k]->Some_0 by {
            if k < n {
                lemma_count_present_prefix(vals, k);
                assert(front[k] == vals[k]);
                lemma_count_present_monotone(vals, k + 1, n);
            }
        }
    }
}

proof fn lemma_count_present_monotone(vals: Seq<Option<Seq<char>>>, j: int, k: int)
    requires
        0 <= j <= k <= vals.len(),
    ensures
        count_present(vals, j) <= count_present(vals, k),
    decreases k - j,
{
    if j < k {
        lemma_count_present_monotone(vals, j, k - 1);
    }
}

/// An element whose markup has a single element carrying the attribute
/// gives exactly that attribute's value as its one link, whatever
/// characters it holds.
pub proof fn lemma_one_link_per_attribute(n: Seq<char>, attr: Seq<char>, v: Seq<char>)
    requires
        child_attribute_values(n, attr) == seq![Some(v)],
    ensures
        urls_in(seq![n], attr) == seq![v],
{
    let e = Seq::<Seq<char>>::empty();
    assert(urls_in(e, attr) == e);
    assert(seq![n].drop_last() =~= e);
    assert(seq![n].last() == n);
    let vals = seq![Some(v)];
    let none = Seq::<Option<Seq<char>>>::empty();
    assert(present(none) == e);
    assert(vals.drop_last() =~= none);
    assert(vals.last() == Some(v));
    assert(present(vals) == present(none).push(v));
    assert(present(vals) =~= seq![v]);
    assert(urls_in(seq![n], attr) == urls_in(e, attr) + present(vals));
    assert(urls_in(seq![n], attr) =~= seq![v]);
}

} // verus!

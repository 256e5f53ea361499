//! A declarative web crawler: start pages, what to select on each page,
//! which links to follow and where to hand the data, with a per-domain
//! request rate limit.
//!
//! This crate holds the crawler's decisions, verified: the validation of a
//! start page, the step-by-step interpretation of a scrape over a page,
//! the reading of links and text out of selected elements, the builder,
//! and the end-of-stream rule of the data channel. Fetching pages,
//! waiting on the rate limiter and running work concurrently are done by
//! the program around it.
use vstd::prelude::*;

pub mod dom;
pub mod execute;
pub mod limiter;
pub mod scrape;

use crate::limiter::Limiter;
use crate::scrape::StartUrl;
use std::sync::Arc;

verus! {

/// Why a crawl could not proceed.
#[derive(Debug, PartialEq)]
pub enum QuickScraperError {
    NoStartUrls,
    NoUrlInStartUrlErr,
    ParseDomainErr,
    SurfRequestErr,
    NoStartUrlMethodErr,
    InvalidStartUrlMethodErr(String),
    NoResponseLogicErr,
    UnknownResponseLogicErr,
}

/// A [`QuickScraperError`] with its text as a sequence of characters.
pub ghost enum ScraperErrorView {
    NoStartUrls,
    NoUrlInStartUrlErr,
    ParseDomainErr,
    SurfRequestErr,
    NoStartUrlMethodErr,
    InvalidStartUrlMethodErr(Seq<char>),
    NoResponseLogicErr,
    UnknownResponseLogicErr,
}

impl View for QuickScraperError {
    type V = ScraperErrorView;

    open spec fn view(&self) -> ScraperErrorView {
        match self {
            QuickScraperError::NoStartUrls => ScraperErrorView::NoStartUrls,
            QuickScraperError::NoUrlInStartUrlErr => ScraperErrorView::NoUrlInStartUrlErr,
            QuickScraperError::ParseDomainErr => ScraperErrorView::ParseDomainErr,
            QuickScraperError::SurfRequestErr => ScraperErrorView::SurfRequestErr,
            QuickScraperError::NoStartUrlMethodErr => ScraperErrorView::NoStartUrlMethodErr,
            QuickScraperError::InvalidStartUrlMethodErr(m) => ScraperErrorView::InvalidStartUrlMethodErr(
                m@,
            ),
            QuickScraperError::NoResponseLogicErr => ScraperErrorView::NoResponseLogicErr,
            QuickScraperError::UnknownResponseLogicErr => ScraperErrorView::UnknownResponseLogicErr,
        }
    }
}

/// What the crawl sends to the collector of its results.
#[derive(Debug)]
pub enum DataFromScraperValue {
    /// Every start page has been crawled; nothing follows.
    Complete,
    DataFromScraper { text: String },
}

/// A [`DataFromScraperValue`] with its text as a sequence of characters.
pub ghost enum ScraperValueView {
    Complete,
    DataFromScraper(Seq<char>),
}

impl View for DataFromScraperValue {
    type V = ScraperValueView;

    open spec fn view(&self) -> ScraperValueView {
        match self {
            DataFromScraperValue::Complete => ScraperValueView::Complete,
            DataFromScraperValue::DataFromScraper { text } => ScraperValueView::DataFromScraper(
                text@,
            ),
        }
    }
}

impl DataFromScraperValue {
    /// Whether this is the end-of-crawl marker.
    pub fn is_complete_sentinal(&self) -> (r: bool)
        ensures
            r == (self is Complete),
    {
        match self {
            DataFromScraperValue::Complete => true,
            _ => false,
        }
    }
}

// ---------------------------------------------------------------------
// Collecting the results
// ---------------------------------------------------------------------

#[verifier::external_type_specification]
#[verifier::external_body]
#[verifier::reject_recursive_types(T)]
pub struct ExReceiver<T>(async_std::channel::Receiver<T>);

/// A value waiting in the channel, if there is one.
/// Calls `Receiver::try_recv`; its errors (empty, or closed and empty)
/// become `None`. Nothing is said of the result: what waits in the
/// channel depends on the tasks that send to it.
#[verifier::external_body]
fn try_receive(receiver: &async_std::channel::Receiver<DataFromScraperValue>) -> (r: Option<
    DataFromScraperValue,
>) {
    match receiver.try_recv() {
        Ok(value) => Some(value),
        Err(_) => None,
    }
}

/// The answer of the collector when polled, as `Poll<Option<_>>` has it.
#[derive(Debug)]
pub enum DistributorPoll {
    /// Nothing has arrived yet.
    Pending,
    /// The next result; `None` once the crawl is complete.
    Ready(Option<DataFromScraperValue>),
}

/// A [`DistributorPoll`] with its text as a sequence of characters.
pub ghost enum PollView {
    Pending,
    Ready(Option<ScraperValueView>),
}

impl View for DistributorPoll {
    type V = PollView;

    open spec fn view(&self) -> PollView {
        match self {
            DistributorPoll::Pending => PollView::Pending,
            DistributorPoll::Ready(None) => PollView::Ready(None),
            DistributorPoll::Ready(Some(v)) => PollView::Ready(Some(v@)),
        }
    }
}

/// What the collector answers for what it took from the channel: the
/// value, or the end of the results for the end-of-crawl marker.
pub open spec fn distribute_spec(received: Option<ScraperValueView>) -> PollView {
    match received {
        None => PollView::Pending,
        Some(ScraperValueView::Complete) => PollView::Ready(None),
        Some(v) => PollView::Ready(Some(v)),
    }
}

/// What the collector answers for what it took from the channel.
pub fn distribute(received: Option<DataFromScraperValue>) -> (r: DistributorPoll)
    ensures
        r@ == distribute_spec(
            match received {
                Some(v) => Some(v@),
                None => None,
            },
        ),
{
    match received {
        None => DistributorPoll::Pending,
        Some(value) => if value.is_complete_sentinal() {
            DistributorPoll::Ready(None)
        } else {
            DistributorPoll::Ready(Some(value))
        },
    }
}

/// What a collector yields from the values `received` in the channel, in
/// order: each value up to the end-of-crawl marker.
pub open spec fn delivered(received: Seq<ScraperValueView>) -> Seq<ScraperValueView>
    decreases received.len(),
{
    if received.len() == 0 {
        Seq::empty()
    } else {
        match distribute_spec(Some(received[0])) {
            PollView::Ready(Some(v)) => seq![v] + delivered(received.drop_first()),
            _ => Seq::empty(),
        }
    }
}

/// The collector yields exactly the values sent before the first
/// end-of-crawl marker, in the order sent, and never the marker itself.
pub proof fn lemma_delivered_is_prefix(received: Seq<ScraperValueView>, k: int)
    requires
        0 <= k <= received.len(),
        forall|i: int| 0 <= i < k ==> !(#[trigger] received[i] is Complete),
        k == received.len() || received[k] is Complete,
    ensures
        delivered(received) == received.take(k),
        forall|i: int| 0 <= i < delivered(received).len() ==> !(#[trigger] delivered(
            received,
        )[i] is Complete),
    decreases k,
{
    if k == 0 {
        assert(received.take(0) =~= Seq::<ScraperValueView>::empty());
    } else {
        let rest = received.drop_first();
        assert forall|i: int| 0 <= i < k - 1 implies !(#[trigger] rest[i] is Complete) by {
            assert(rest[i] == received[i + 1]);
        }
        if k < received.len() {
            assert(rest[k - 1] == received[k]);
        }
        lemma_delivered_is_prefix(rest, k - 1);
        assert(seq![received[0]] + rest.take(k - 1) =~= received.take(k));
    }
}

/// The collector of the crawl's results: the receiving end of the channel
/// that the crawl of each start page sends to.
pub struct DataDistributor {
    receiver: async_std::channel::Receiver<DataFromScraperValue>,
}

impl DataDistributor {
    /// The channel the collector reads from.
    pub closed spec fn spec_receiver(&self) -> async_std::channel::Receiver<DataFromScraperValue> {
        self.receiver
    }

    /// A collector reading from `receiver`.
    pub fn new(receiver: async_std::channel::Receiver<DataFromScraperValue>) -> (r: DataDistributor)
        ensures
            r.spec_receiver() == receiver,
    {
        DataDistributor { receiver }
    }

    /// The next answer of the collector: `Pending` while nothing waits in
    /// the channel, the end of the results at the end-of-crawl marker, and
    /// the value otherwise. It never yields the marker itself.
    pub fn poll_ready(&mut self) -> (r: DistributorPoll)
        ensures
            !(r matches DistributorPoll::Ready(Some(DataFromScraperValue::Complete))),
    {
        distribute(try_receive(&self.receiver))
    }
}

// ---------------------------------------------------------------------
// Building a crawler
// ---------------------------------------------------------------------

/// A clone of a shared limiter: the same limiter. Calls `Arc::clone`,
/// which makes another pointer to the same allocation.
#[verifier::external_body]
fn share(limiter: &Arc<Limiter>) -> (r: Arc<Limiter>)
    ensures
        r == *limiter,
{
    Arc::clone(limiter)
}

fn share_opt(limiter: &Option<Arc<Limiter>>) -> (r: Option<Arc<Limiter>>)
    ensures
        r == *limiter,
{
    match limiter {
        Some(l) => Some(share(l)),
        None => None,
    }
}

/// A crawler ready to run: its start pages and its rate limiter, if any.
pub struct QuickScraper<'a, S> {
    start_urls: &'a [StartUrl<S>],
    limiter: Option<Arc<Limiter>>,
}

impl<'a, S> QuickScraper<'a, S> {
    /// The start pages.
    pub closed spec fn spec_start_urls(&self) -> Seq<StartUrl<S>> {
        self.start_urls@
    }

    /// The rate limiter.
    pub closed spec fn spec_limiter(&self) -> Option<Arc<Limiter>> {
        self.limiter
    }

    /// The start pages.
    pub fn start_urls(&self) -> (r: &'a [StartUrl<S>])
        ensures
            r@ == self.spec_start_urls(),
    {
        self.start_urls
    }

    /// The rate limiter, shared.
    pub fn limiter(&self) -> (r: Option<Arc<Limiter>>)
        ensures
            r == self.spec_limiter(),
    {
        share_opt(&self.limiter)
    }
}

/// Gathers the start pages and the rate limiter of a crawler.
pub struct QuickScraperBuilder<S> {
    start_urls: Option<Vec<StartUrl<S>>>,
    limiter: Option<Arc<Limiter>>,
}

impl<S> QuickScraperBuilder<S> {
    /// The start pages given so far.
    pub closed spec fn spec_start_urls(&self) -> Option<Seq<StartUrl<S>>> {
        match self.start_urls {
            Some(v) => Some(v@),
            None => None,
        }
    }

    /// The rate limiter given so far.
    pub closed spec fn spec_limiter(&self) -> Option<Arc<Limiter>> {
        self.limiter
    }

    /// A builder with nothing given yet.
    pub fn new() -> (r: QuickScraperBuilder<S>)
        ensures
            r.spec_start_urls() is None,
            r.spec_limiter() is None,
    {
        QuickScraperBuilder { start_urls: None, limiter: None }
    }

    /// Gives the start pages, in place of any given before.
    pub fn with_start_urls(&mut self, start_urls: Vec<StartUrl<S>>) -> (r: &mut QuickScraperBuilder<S>)
        ensures
            r.spec_start_urls() == Some(start_urls@),
            r.spec_limiter() == old(self).spec_limiter(),
            *final(self) == *final(r),
    {
        self.start_urls = Some(start_urls);
        self
    }

    /// Gives the rate limiter, in place of any given before.
    pub fn with_limiter(&mut self, limiter: Limiter) -> (r: &mut QuickScraperBuilder<S>)
        ensures
            r.spec_start_urls() == old(self).spec_start_urls(),
            r.spec_limiter() == Some(Arc::new(limiter)),
            *final(self) == *final(r),
    {
        self.limiter = Some(Arc::new(limiter));
        self
    }

    /// The crawler, once start pages have been given.
    pub fn finish(&self) -> (r: Result<QuickScraper<'_, S>, QuickScraperError>)
        ensures
            match self.spec_start_urls() {
                Some(urls) => r matches Ok(q) && q.spec_start_urls() == urls
                    && q.spec_limiter() == self.spec_limiter(),
                None => r matches Err(e) && e@ == ScraperErrorView::NoStartUrls,
            },
    {
        match &self.start_urls {
            Some(data) => Ok(QuickScraper { start_urls: data.as_slice(), limiter: share_opt(&self.limiter) }),
            None => Err(QuickScraperError::NoStartUrls),
        }
    }
}

} // verus!

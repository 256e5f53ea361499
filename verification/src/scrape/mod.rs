//! The declarative description of a crawl: where to start, and what to do
//! with each page that comes back.
//!
//! `S` is the type of the callbacks that receive scraped data; the crawler
//! only carries them to the place where they are called.
use vstd::prelude::*;
use crate::dom::{selector_accepted, selector_parses};

verus! {

/// What to do with the body of a page: run each scrape on it.
pub enum ResponseLogic<S> {
    Parallel(Vec<Scrape<S>>),
    Serial(Vec<Scrape<S>>),
}

/// A page to start crawling from.
pub struct StartUrl<S> {
    pub url: Option<String>,
    pub method: Option<String>,
    pub response_logic: Option<ResponseLogic<S>>,
}

/// A list of operations run, in order, on one page.
pub struct Scrape<S> {
    pub executables: Vec<Box<Ops<S>>>,
}

/// One operation of a scrape.
pub enum Ops<S> {
    /// Select the elements that hold links, by CSS selector.
    UrlSelector(String),
    /// Read the links out of the selected elements.
    UrlExtractor(ElementUrlExtractor),
    /// Select the elements that hold data, by CSS selector.
    DataSelector(String),
    /// Read the data out of the selected elements.
    DataExtractor(ElementDataExtractor),
    /// Fetch every link read so far and handle each page with this logic.
    ResponseLogic(ResponseLogic<S>),
    /// Hand the data read so far to this callback.
    Store(S),
}

/// How links are read out of an element.
pub enum ElementUrlExtractor {
    /// From this attribute of the element.
    Attr(String),
}

/// How data is read out of an element.
pub enum ElementDataExtractor {
    /// Its text nodes, each trimmed.
    Text,
}

impl<S> StartUrl<S> {
    /// A start page with nothing set.
    pub fn new() -> (r: StartUrl<S>)
        ensures
            r.url is None,
            r.method is None,
            r.response_logic is None,
    {
        StartUrl { url: None, method: None, response_logic: None }
    }

    /// Sets the address to fetch.
    pub fn url(self, url: String) -> (r: Self)
        ensures
            r.url == Some(url),
            r.method == self.method,
            r.response_logic == self.response_logic,
    {
        StartUrl { url: Some(url), ..self }
    }

    /// Sets the HTTP method (`"GET"` or `"POST"`).
    pub fn method(self, method: String) -> (r: Self)
        ensures
            r.url == self.url,
            r.method == Some(method),
            r.response_logic == self.response_logic,
    {
        StartUrl { method: Some(method), ..self }
    }

    /// Sets what to do with the page.
    pub fn response_logic(self, response_logic: ResponseLogic<S>) -> (r: Self)
        ensures
            r.url == self.url,
            r.method == self.method,
            r.response_logic == Some(response_logic),
    {
        StartUrl { response_logic: Some(response_logic), ..self }
    }
}

impl<S> Scrape<S> {
    /// A scrape with no operation.
    pub fn new() -> (r: Scrape<S>)
        ensures
            r.executables@ == Seq::<Box<Ops<S>>>::empty(),
    {
        Scrape { executables: Vec::new() }
    }

    fn with_op(self, op: Ops<S>) -> (r: Self)
        ensures
            r.executables@ == self.executables@.push(Box::new(op)),
    {
        let mut executables = self.executables;
        executables.push(Box::new(op));
        Scrape { executables }
    }

    /// Adds a selection of the elements that hold data.
    /// `predicate` must be a CSS selector that `scraper` accepts.
    pub fn find_elements_with_data(self, predicate: String) -> (r: Self)
        requires
            selector_accepted(predicate@),
        ensures
            r.executables@ == self.executables@.push(Box::new(Ops::DataSelector(predicate))),
    {
        self.with_op(Ops::DataSelector(predicate))
    }

    /// Adds a selection of the elements that hold data if `predicate` is a
    /// CSS selector that `scraper` accepts; gives the scrape back
    /// unchanged, as an error, if it is not.
    pub fn try_find_elements_with_data(self, predicate: String) -> (r: Result<Self, Self>)
        ensures
            r is Ok <==> selector_accepted(predicate@),
            r matches Ok(s) ==> s.executables@ == self.executables@.push(
                Box::new(Ops::DataSelector(predicate)),
            ),
            r matches Err(s) ==> s == self,
    {
        if selector_parses(predicate.as_str()) {
            Ok(self.find_elements_with_data(predicate))
        } else {
            Err(self)
        }
    }

    /// Adds the reading of data out of the selected elements.
    pub fn extract_data_from_elements(self, extractor: ElementDataExtractor) -> (r: Self)
        ensures
            r.executables@ == self.executables@.push(Box::new(Ops::DataExtractor(extractor))),
    {
        self.with_op(Ops::DataExtractor(extractor))
    }

    /// Adds a selection of the elements that hold links.
    /// `predicate` must be a CSS selector that `scraper` accepts.
    pub fn find_elements_with_urls(self, predicate: String) -> (r: Self)
        requires
            selector_accepted(predicate@),
        ensures
            r.executables@ == self.executables@.push(Box::new(Ops::UrlSelector(predicate))),
    {
        self.with_op(Ops::UrlSelector(predicate))
    }

    /// Adds a selection of the elements that hold links if `predicate` is
    /// a CSS selector that `scraper` accepts; gives the scrape back
    /// unchanged, as an error, if it is not.
    pub fn try_find_elements_with_urls(self, predicate: String) -> (r: Result<Self, Self>)
        ensures
            r is Ok <==> selector_accepted(predicate@),
            r matches Ok(s) ==> s.executables@ == self.executables@.push(
                Box::new(Ops::UrlSelector(predicate)),
            ),
            r matches Err(s) ==> s == self,
    {
        if selector_parses(predicate.as_str()) {
            Ok(self.find_elements_with_urls(predicate))
        } else {
            Err(self)
        }
    }

    /// Adds the reading of links out of the selected elements.
    pub fn extract_urls_from_elements(self, extractor: ElementUrlExtractor) -> (r: Self)
        ensures
            r.executables@ == self.executables@.push(Box::new(Ops::UrlExtractor(extractor))),
    {
        self.with_op(Ops::UrlExtractor(extractor))
    }

    /// Adds the fetching of every link read so far, each page handled by
    /// `resp_logic`.
    pub fn response_logic(self, resp_logic: ResponseLogic<S>) -> (r: Self)
        ensures
            r.executables@ == self.executables@.push(Box::new(Ops::ResponseLogic(resp_logic))),
    {
        self.with_op(Ops::ResponseLogic(resp_logic))
    }

    /// Adds the handing of the data read so far to `c`.
    pub fn store(self, c: S) -> (r: Self)
        ensures
            r.executables@ == self.executables@.push(Box::new(Ops::Store(c))),
    {
        self.with_op(Ops::Store(c))
    }
}

} // verus!

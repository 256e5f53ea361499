use async_std::channel::bounded;
use quick_crawler::execute::{
    domain_to_limit, execute_deep_scrape_step, find_data, find_node_strs, find_urls,
    plan_response_logic, request_for, DeepScrapeAction, DeepScrapeEvent, HtmlContainer,
    HttpMethod, ScrapeStep,
};
use quick_crawler::limiter::Limiter;
use quick_crawler::scrape::{
    ElementDataExtractor, ElementUrlExtractor, Ops, ResponseLogic, Scrape, StartUrl,
};
use quick_crawler::{
    distribute, DataDistributor, DataFromScraperValue, DistributorPoll, QuickScraperBuilder,
    QuickScraperError,
};

const SEARCH_PAGE: &str = r#"
    <html>
        <body>
            <div>
                <a class="bike-item" href="https://bike-site.com/red-bike-1">
                    cool red bike 1
                </a><a class="bike-item" href="https://bike-site.com/red-bike-2">
                    cool red bike 2
                </a>
                <a class="bike-item" href="https://bike-site.com/red-bike-3">
                    cool red bike 3
                </a>
                <div>
                    <a class="bike-other-item" href="https://bike-site.com/other-red-bike-4">
                        other cool red bike 4
                    </a>
                </div>
            </div>
        </body>
    </html>
"#;

const BIKE_PAGE: &str = r#"
  <html>
      <body>
          <div class='awesome-bike'>
              <div class='bike-info'>
                  The best bike ever.
              </div>
              <ul class='bike-specs'>
                  <li>
                      Super fast.
                  </li>
                  <li>
                      Jumps high.
                  </li>
              </ul>
          </div>
      </body>
  </html>
"#;

const MEAL_PAGE: &str = r#"
    <div class='ingredients-prep'>
        <div class='ingredient'>
            set 1: test ingredient 1
        </div>
        <div class='ingredient'>
            set 1: test ingredient 2
        </div>
        <div class='prep-steps'>
            <li>
                set 1: step 1
            </li>
        </div>
    </div>
"#;

fn s(x: &str) -> String {
    x.to_string()
}

fn strings(xs: &[&str]) -> Vec<String> {
    xs.iter().map(|x| x.to_string()).collect()
}

#[test]
fn selected_nodes_are_one_line_and_trimmed() {
    let nodes = find_node_strs(".bike-item", SEARCH_PAGE);
    assert_eq!(nodes.len(), 3);
    for n in nodes.iter() {
        assert!(!n.contains('\n'));
        assert_eq!(n.trim(), n.as_str());
        assert!(n.starts_with("<a class=\"bike-item\""));
        assert!(n.ends_with("</a>"));
    }
    assert_eq!(
        nodes[0],
        "<a class=\"bike-item\" href=\"https://bike-site.com/red-bike-1\">                    cool red bike 1                </a>"
    );
}

#[test]
fn selection_with_invalid_selector_is_empty() {
    assert_eq!(find_node_strs("!!!", SEARCH_PAGE), Vec::<String>::new());
    assert_eq!(find_node_strs(".nothing-here", SEARCH_PAGE), Vec::<String>::new());
}

#[test]
fn links_are_read_from_href() {
    let nodes = find_node_strs(".bike-item", SEARCH_PAGE);
    let urls = find_urls(&ElementUrlExtractor::Attr(s("href")), &nodes);
    assert_eq!(
        urls,
        strings(&[
            "https://bike-site.com/red-bike-1",
            "https://bike-site.com/red-bike-2",
            "https://bike-site.com/red-bike-3",
        ])
    );
    let other = find_node_strs(".bike-other-item", SEARCH_PAGE);
    let other_urls = find_urls(&ElementUrlExtractor::Attr(s("href")), &other);
    assert_eq!(other_urls, strings(&["https://bike-site.com/other-red-bike-4"]));
    let none = find_urls(&ElementUrlExtractor::Attr(s("title")), &nodes);
    assert_eq!(none, Vec::<String>::new());
}

#[test]
fn data_is_trimmed_text() {
    let info = find_node_strs(".awesome-bike .bike-info", BIKE_PAGE);
    assert_eq!(find_data(&ElementDataExtractor::Text, &info), strings(&["The best bike ever."]));
    let specs = find_node_strs(".bike-specs li", BIKE_PAGE);
    assert_eq!(
        find_data(&ElementDataExtractor::Text, &specs),
        strings(&["Super fast.", "Jumps high."])
    );
    let ingredients = find_node_strs(".ingredients-prep .ingredient", MEAL_PAGE);
    assert_eq!(
        find_data(&ElementDataExtractor::Text, &ingredients),
        strings(&["set 1: test ingredient 1", "set 1: test ingredient 2"])
    );
    let steps = find_node_strs(".ingredients-prep .prep-steps li", MEAL_PAGE);
    assert_eq!(find_data(&ElementDataExtractor::Text, &steps), strings(&["set 1: step 1"]));
}

fn run<'a>(container: &mut HtmlContainer, scrape: &'a Scrape<&'static str>) -> Vec<ScrapeStep<'a, &'static str>> {
    scrape.executables.iter().map(|op| container.apply(&**op)).collect()
}

#[test]
fn data_scrape_stores_the_text() {
    let scrape = Scrape::new()
        .find_elements_with_data(s(".bike-specs li"))
        .extract_data_from_elements(ElementDataExtractor::Text)
        .store("specs");
    let mut container = HtmlContainer::new(s(BIKE_PAGE));
    let steps = run(&mut container, &scrape);
    assert_eq!(steps.len(), 3);
    assert!(matches!(steps[0], ScrapeStep::Continue));
    assert!(matches!(steps[1], ScrapeStep::Continue));
    match &steps[2] {
        ScrapeStep::Store { store, data } => {
            assert_eq!(**store, "specs");
            assert_eq!(*data, strings(&["Super fast.", "Jumps high."]));
        }
        _ => panic!("expected a store step"),
    }
}

#[test]
fn store_before_extraction_gets_nothing() {
    let scrape = Scrape::new().store("early");
    let mut container = HtmlContainer::new(s(BIKE_PAGE));
    let steps = run(&mut container, &scrape);
    match &steps[0] {
        ScrapeStep::Store { data, .. } => assert!(data.is_empty()),
        _ => panic!("expected a store step"),
    }
}

#[test]
fn url_scrape_follows_the_links() {
    let scrape: Scrape<&'static str> = Scrape::new()
        .find_elements_with_urls(s(".bike-item"))
        .extract_urls_from_elements(ElementUrlExtractor::Attr(s("href")))
        .response_logic(ResponseLogic::Parallel(vec![Scrape::new()
            .find_elements_with_data(s(".awesome-bike .bike-info"))
            .extract_data_from_elements(ElementDataExtractor::Text)
            .store("info")]));
    let mut container = HtmlContainer::new(s(SEARCH_PAGE));
    let steps = run(&mut container, &scrape);
    match &steps[2] {
        ScrapeStep::Follow { urls, response_logic } => {
            assert_eq!(
                *urls,
                strings(&[
                    "https://bike-site.com/red-bike-1",
                    "https://bike-site.com/red-bike-2",
                    "https://bike-site.com/red-bike-3",
                ])
            );
            let scrapes = plan_response_logic(response_logic).ok().expect("parallel");
            assert_eq!(scrapes.len(), 1);
            assert_eq!(scrapes[0].executables.len(), 3);
        }
        _ => panic!("expected a follow step"),
    }
}

#[test]
fn serial_logic_is_unsupported() {
    let logic: ResponseLogic<()> = ResponseLogic::Serial(vec![]);
    assert_eq!(plan_response_logic(&logic).err(), Some(QuickScraperError::UnknownResponseLogicErr));
    let empty: ResponseLogic<()> = ResponseLogic::Parallel(vec![]);
    assert_eq!(plan_response_logic(&empty).ok().map(|v| v.len()), Some(0));
}

#[test]
fn builder_records_operations_in_order() {
    let scrape: Scrape<u8> = Scrape::new()
        .find_elements_with_urls(s("a"))
        .extract_urls_from_elements(ElementUrlExtractor::Attr(s("href")))
        .find_elements_with_data(s("p"))
        .extract_data_from_elements(ElementDataExtractor::Text)
        .store(7);
    let kinds: Vec<&str> = scrape
        .executables
        .iter()
        .map(|op| match &**op {
            Ops::UrlSelector(_) => "url-select",
            Ops::UrlExtractor(_) => "url-extract",
            Ops::DataSelector(_) => "data-select",
            Ops::DataExtractor(_) => "data-extract",
            Ops::ResponseLogic(_) => "follow",
            Ops::Store(_) => "store",
        })
        .collect();
    assert_eq!(kinds, vec!["url-select", "url-extract", "data-select", "data-extract", "store"]);
}

#[test]
fn checked_selectors() {
    let bad = Scrape::<u8>::new().try_find_elements_with_data(s("!!!"));
    assert!(matches!(bad, Err(ref sc) if sc.executables.is_empty()));
    let bad_url = Scrape::<u8>::new().try_find_elements_with_urls(s("a[")) ;
    assert!(bad_url.is_err());
    let good = Scrape::<u8>::new().try_find_elements_with_urls(s(".feed-item"));
    assert!(matches!(good, Ok(ref sc) if sc.executables.len() == 1));
    let good_data = Scrape::<u8>::new().try_find_elements_with_data(s(".ingredients-prep .ingredient"));
    assert!(good_data.is_ok());
}

#[test]
fn start_url_builder_sets_fields() {
    let su: StartUrl<()> = StartUrl::new().url(s("https://bike-site.com/search?q=red-bikes")).method(s("GET"));
    assert_eq!(su.url.as_deref(), Some("https://bike-site.com/search?q=red-bikes"));
    assert_eq!(su.method.as_deref(), Some("GET"));
    assert!(su.response_logic.is_none());
}

#[test]
fn request_errors_in_order() {
    let none: StartUrl<()> = StartUrl::new().method(s("GET"));
    assert_eq!(request_for(&none).err(), Some(QuickScraperError::NoUrlInStartUrlErr));
    let no_method: StartUrl<()> = StartUrl::new().url(s("https://a.com/"));
    assert_eq!(request_for(&no_method).err(), Some(QuickScraperError::NoStartUrlMethodErr));
    let put: StartUrl<()> = StartUrl::new().url(s("https://a.com/")).method(s("PUT"));
    assert_eq!(request_for(&put).err(), Some(QuickScraperError::InvalidStartUrlMethodErr(s("PUT"))));
    let lower: StartUrl<()> = StartUrl::new().url(s("https://a.com/")).method(s("get"));
    assert_eq!(request_for(&lower).err(), Some(QuickScraperError::InvalidStartUrlMethodErr(s("get"))));
    let get: StartUrl<()> = StartUrl::new().url(s("https://a.com/x")).method(s("GET"));
    let req = request_for(&get).ok().unwrap();
    assert_eq!(req.method, HttpMethod::Get);
    assert_eq!(req.url, "https://a.com/x");
    let post: StartUrl<()> = StartUrl::new().url(s("https://a.com/y")).method(s("POST"));
    assert_eq!(request_for(&post).ok().unwrap().method, HttpMethod::Post);
}

#[test]
fn limit_domain_is_the_host() {
    assert_eq!(domain_to_limit(false, "not a url"), Ok(None));
    assert_eq!(
        domain_to_limit(true, "https://bike-site.com/search?q=red-bikes"),
        Ok(Some(s("bike-site.com")))
    );
    assert_eq!(domain_to_limit(true, "http://127.0.0.1:1234/x"), Ok(Some(s("127.0.0.1"))));
    assert_eq!(domain_to_limit(true, "not a url"), Err(QuickScraperError::ParseDomainErr));
    assert_eq!(domain_to_limit(true, "mailto:someone@example.com"), Err(QuickScraperError::ParseDomainErr));
}

#[test]
fn deep_scrape_steps() {
    let su: StartUrl<()> = StartUrl::new()
        .url(s("https://bike-site.com/search?q=red-bikes"))
        .method(s("GET"))
        .response_logic(ResponseLogic::Parallel(vec![]));
    match execute_deep_scrape_step(&su, true, DeepScrapeEvent::Start) {
        DeepScrapeAction::WaitForLimit(d) => assert_eq!(d, "bike-site.com"),
        _ => panic!("expected to wait on the limiter"),
    }
    match execute_deep_scrape_step(&su, true, DeepScrapeEvent::LimitPassed) {
        DeepScrapeAction::Send(req) => {
            assert_eq!(req.method, HttpMethod::Get);
            assert_eq!(req.url, "https://bike-site.com/search?q=red-bikes");
        }
        _ => panic!("expected a request"),
    }
    match execute_deep_scrape_step(&su, false, DeepScrapeEvent::Start) {
        DeepScrapeAction::Send(req) => assert_eq!(req.url, "https://bike-site.com/search?q=red-bikes"),
        _ => panic!("expected a request"),
    }
    match execute_deep_scrape_step(&su, true, DeepScrapeEvent::Fetched(None)) {
        DeepScrapeAction::Finish(r) => assert_eq!(r, Err(QuickScraperError::SurfRequestErr)),
        _ => panic!("expected the end"),
    }
    match execute_deep_scrape_step(&su, false, DeepScrapeEvent::Fetched(Some(s("<p>x</p>")))) {
        DeepScrapeAction::Respond { html, response_logic } => {
            assert_eq!(html, "<p>x</p>");
            assert!(matches!(response_logic, ResponseLogic::Parallel(v) if v.is_empty()));
        }
        _ => panic!("expected the page to be handled"),
    }
    let no_logic: StartUrl<()> = StartUrl::new().url(s("https://a.com/")).method(s("POST"));
    match execute_deep_scrape_step(&no_logic, false, DeepScrapeEvent::Fetched(Some(s("")))) {
        DeepScrapeAction::Finish(r) => assert_eq!(r, Err(QuickScraperError::NoResponseLogicErr)),
        _ => panic!("expected the end"),
    }
    let bad_host: StartUrl<()> = StartUrl::new().url(s("no host here")).method(s("GET"));
    match execute_deep_scrape_step(&bad_host, true, DeepScrapeEvent::Start) {
        DeepScrapeAction::Finish(r) => assert_eq!(r, Err(QuickScraperError::ParseDomainErr)),
        _ => panic!("expected the end"),
    }
    match execute_deep_scrape_step(&bad_host, false, DeepScrapeEvent::Start) {
        DeepScrapeAction::Send(req) => assert_eq!(req.url, "no host here"),
        _ => panic!("expected a request"),
    }
    let bad_method: StartUrl<()> = StartUrl::new().url(s("https://a.com/")).method(s("DELETE"));
    match execute_deep_scrape_step(&bad_method, true, DeepScrapeEvent::Start) {
        DeepScrapeAction::Finish(r) => {
            assert_eq!(r, Err(QuickScraperError::InvalidStartUrlMethodErr(s("DELETE"))))
        }
        _ => panic!("expected the end"),
    }
}

#[test]
fn no_start_urls_finish_fails() {
    let builder: QuickScraperBuilder<()> = QuickScraperBuilder::new();
    assert_eq!(builder.finish().err(), Some(QuickScraperError::NoStartUrls));
}

#[test]
fn with_start_urls_finish_succeeds() {
    let mut builder: QuickScraperBuilder<()> = QuickScraperBuilder::new();
    let start_urls = vec![
        StartUrl::new().url(s("https://bike-site.com/search?q=red-bikes")).method(s("GET")),
        StartUrl::new().url(s("https://bike-site.com/other")).method(s("POST")),
    ];
    builder.with_start_urls(start_urls).with_limiter(Limiter::new());
    let scraper = builder.finish().ok().expect("builder finishes");
    assert_eq!(scraper.start_urls().len(), 2);
    assert_eq!(scraper.start_urls()[1].method.as_deref(), Some("POST"));
    assert!(scraper.limiter().is_some());
    let mut unlimited: QuickScraperBuilder<()> = QuickScraperBuilder::new();
    unlimited.with_start_urls(vec![]);
    let scraper = unlimited.finish().ok().expect("builder finishes");
    assert_eq!(scraper.start_urls().len(), 0);
    assert!(scraper.limiter().is_none());
}

#[test]
fn distribute_ends_at_the_marker() {
    assert!(matches!(distribute(None), DistributorPoll::Pending));
    assert!(matches!(distribute(Some(DataFromScraperValue::Complete)), DistributorPoll::Ready(None)));
    match distribute(Some(DataFromScraperValue::DataFromScraper { text: s("a") })) {
        DistributorPoll::Ready(Some(DataFromScraperValue::DataFromScraper { text })) => assert_eq!(text, "a"),
        _ => panic!("expected the value"),
    }
    assert!(DataFromScraperValue::Complete.is_complete_sentinal());
    assert!(!DataFromScraperValue::DataFromScraper { text: s("") }.is_complete_sentinal());
}

#[test]
fn distributor_reads_the_channel() {
    let (sender, receiver) = bounded::<DataFromScraperValue>(10);
    let mut distributor = DataDistributor::new(receiver);
    assert!(matches!(distributor.poll_ready(), DistributorPoll::Pending));
    sender.try_send(DataFromScraperValue::DataFromScraper { text: s("one") }).unwrap();
    sender.try_send(DataFromScraperValue::Complete).unwrap();
    sender.try_send(DataFromScraperValue::DataFromScraper { text: s("late") }).unwrap();
    match distributor.poll_ready() {
        DistributorPoll::Ready(Some(DataFromScraperValue::DataFromScraper { text })) => assert_eq!(text, "one"),
        _ => panic!("expected the first value"),
    }
    assert!(matches!(distributor.poll_ready(), DistributorPoll::Ready(None)));
}

#[test]
fn one_limiter_per_domain() {
    let limiter = Limiter::new();
    let handle = limiter.rate_limiter_for(&s("domain.com"));
    assert_eq!(handle.requests_per_second(), 3);
    let mut first = handle.into_bucket();
    let mut second = limiter.rate_limiter_for(&s("domain.com")).into_bucket();
    let mut other = limiter.rate_limiter_for(&s("other.com")).into_bucket();
    assert!(first.0.check().is_ok());
    assert!(second.0.check().is_ok());
    assert!(first.0.check().is_ok());
    // Three requests a second: the fourth on the same domain must wait,
    // whichever handle it goes through; another domain is not affected.
    assert!(second.0.check().is_err());
    assert!(other.0.check().is_ok());
}

#[test]
fn store_gets_last_extraction_over_last_selection() {
    let scrape: Scrape<&'static str> = Scrape::new()
        .find_elements_with_data(s(".bike-info"))
        .find_elements_with_data(s(".bike-specs li"))
        .extract_data_from_elements(ElementDataExtractor::Text)
        .store("first")
        .find_elements_with_data(s(".bike-info"))
        .store("second")
        .extract_data_from_elements(ElementDataExtractor::Text)
        .store("third");
    let mut container = HtmlContainer::new(s(BIKE_PAGE));
    let steps = run(&mut container, &scrape);
    let handed: Vec<(&str, Vec<String>)> = steps
        .iter()
        .filter_map(|st| match st {
            ScrapeStep::Store { store, data } => Some((**store, data.clone())),
            _ => None,
        })
        .collect();
    assert_eq!(
        handed,
        vec![
            ("first", strings(&["Super fast.", "Jumps high."])),
            ("second", strings(&["Super fast.", "Jumps high."])),
            ("third", strings(&["The best bike ever."])),
        ]
    );
}

#[test]
fn follow_without_extraction_gets_no_links() {
    let scrape: Scrape<()> = Scrape::new()
        .find_elements_with_urls(s(".bike-item"))
        .response_logic(ResponseLogic::Parallel(vec![]));
    let mut container = HtmlContainer::new(s(SEARCH_PAGE));
    let steps = run_unit(&mut container, &scrape);
    match &steps[1] {
        ScrapeStep::Follow { urls, .. } => assert!(urls.is_empty()),
        _ => panic!("expected a follow step"),
    }
}

fn run_unit<'a>(container: &mut HtmlContainer, scrape: &'a Scrape<()>) -> Vec<ScrapeStep<'a, ()>> {
    scrape.executables.iter().map(|op| container.apply(&**op)).collect()
}

#[test]
fn reading_goes_element_by_element() {
    let a = find_node_strs(".bike-item", SEARCH_PAGE);
    let b = find_node_strs(".bike-other-item", SEARCH_PAGE);
    let ex = ElementUrlExtractor::Attr(s("href"));
    let mut ab = a.clone();
    ab.extend(b.clone());
    let mut expected = find_urls(&ex, &a);
    expected.extend(find_urls(&ex, &b));
    assert_eq!(find_urls(&ex, &ab), expected);
    assert_eq!(find_urls(&ex, &vec![]), Vec::<String>::new());

    let c = find_node_strs(".bike-info", BIKE_PAGE);
    let d = find_node_strs(".bike-specs li", BIKE_PAGE);
    let mut cd = c.clone();
    cd.extend(d.clone());
    let mut expected_data = find_data(&ElementDataExtractor::Text, &c);
    expected_data.extend(find_data(&ElementDataExtractor::Text, &d));
    let data = find_data(&ElementDataExtractor::Text, &cd);
    assert_eq!(data, expected_data);
    assert!(data.iter().all(|x| x.trim() == x.as_str()));
    assert_eq!(find_data(&ElementDataExtractor::Text, &vec![]), Vec::<String>::new());
}

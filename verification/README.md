# quick_crawler

A declarative web crawler with a per-domain request rate limit, written
in Verus.

- `src/` is the verified library: the description of a crawl (`scrape`),
  the decisions taken while crawling (`execute`: validating a start page,
  the step function of the crawl of a start page, the interpretation of a
  scrape over a page, reading links and text out of selected elements,
  `execute::text`: trimming and line-feed removal), the per-domain limiter
  (`limiter`: every domain's bucket is made at the crawl's rate; which
  bucket the shared table hands out is not proved), the builder and the end-of-stream rule of the result
  channel (`lib.rs`). HTML parsing, CSS selection and URL parsing are
  calls into `scraper` and `url`, declared in `dom.rs`.
- `app/` is the asynchronous driver: HTTP requests (`surf`), waiting on the
  rate limiter (`ratelimit_futures`), concurrency (`futures`, `async-std`)
  and the data callbacks (`Store`).

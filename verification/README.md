# job_scraper

Finds internship postings on job boards (Greenhouse, Lever, Ashby, ...) by
searching each board's site through a search engine, and keeps the text of
each posting.

- `src/` is the verified library: the rule table and the test of a link
  against a rule (`rules`), text processing (`text`, `content`), the request
  URLs and the page-by-page scan with its batching of links (`search`), the
  links files (`links`, `files`) and the database answers (`db`). Calls into
  `regex`, `scraper`, `url`, `serde_json` and `chrono` stand behind small
  trusted wrappers whose contracts are stated in their doc comments.
- `app/` runs the two programs around it: a one-shot scraper writing to
  `output/`, and a web service (`serve`) storing page texts in a database.
- `tests/` checks the library on concrete inputs, with the real outside crates.

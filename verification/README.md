# tvgrep

A terminal browser for the articles that a TV Tropes article is related to:
it lists them page by page, filters them by group or by verdict, shows
where each mentions the article searched for, and stores a verdict on each.

`src/` is the library, verified with Verus:

- `name` – article, group and page names: parsing, display, order, URLs.
- `text` – character-level string helpers with their specifications
  (trimming, search, UTF-8 lengths, decimal numbers).
- `crawl` – what is read from a page: the page is parsed by scraper and
  walked node by node; which elements make up titles, summaries, where a
  trope is mentioned and listings of links is decided and proved here.
- `data`, `print`, `term`, `progress` – what is shown, as styled text.
- `related` – the browser: its list, key handling, background loading and
  the joining of pages with stored verdicts.
- `database`, `files`, `list`, `prompt`, `errors`, `list_state` – verdicts,
  the history, sorted lists and maps of articles (found through an
  insertion-ordered set of indexmap), prompts and error queues.

`app/` holds the program around it: the command line, the terminal, the
network and the database.

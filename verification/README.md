# gdq_tracker

A verified library for scraping and analysing the donations of Games Done
Quick events from the donation tracker, with the programs built on it.

`src/` is the library, verified with Verus:

- `scrape`: reads the tracker's pages — the number of pages of the donation
  list, the donations each page lists, and a donation's own page — into plain
  values, with every failure reported as a `ScrapeError`;
- `progress`: the decisions of a scraping run — the pages to queue, where the
  donations of a scanned page go, the running totals of the final list, and
  the next step of a resumable run;
- `stats`, `analysis`, `historic`, `webapp`: the running figures of a live
  event, the quartiles and threshold crossings of a finished one, lining up a
  past event with a live one, and the charts page;
- `decimal`, `text`, `money`, `urls`: numerals as `Display` writes them and
  `str::parse` reads them, trimming, amounts in cents, and the tracker's
  addresses;
- `html`, `pattern`, `time`: the calls into `kuchiki`, `regex` and `chrono`.

`app/` holds the programs: the individual-donation scraper (SQLite), the
analysis of its results, the live scrapers and the historic transfer
(PostgreSQL), and the charts web application (Rocket). Its first argument
names the program.

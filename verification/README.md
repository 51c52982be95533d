# proxyster

Finds proxy addresses on web pages. A daemon scrapes the configured
providers once and serves the proxy list over a small WebSocket text
protocol; a client asks for it and saves it.

- `src/` is the verified library (Verus): the protocol (`protocol`, with
  the daemon's and the client's decisions in `daemon` and `client`), the
  filtering of scraped text into proxy lines (`filters`, `text`), the walk
  through a provider's chain of pages and what is read from each page
  (`fetch`, `scraper`, `scrapper`), and the provider configuration
  (`provider`, `config`, `value`). Regular expressions and HTML parsing are
  delegated to the `regex`, `scraper` and `select` crates through the items
  in `pattern` and `html`.
- `app/` holds the programs: command-line parsing, files, HTTP, WebSocket
  and terminal output.
- `tests/` exercises the library on concrete inputs.

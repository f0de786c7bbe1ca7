# stock_crawler

Tools around Taiwanese listed companies and industry news, with their logic
verified by Verus:

- the IEK industry news crawler (listing pages of the last 96 hours, news
  pages with a cache, Markdown and HTML reports);
- the stock list of the exchange's ISIN pages (Big5 pages, ordinary shares
  only, reports grouped by industry);
- looking companies up (official sites through a search page, the sites'
  text, a language model's summary, Yahoo profile pages, `yfinance`);
- batches of companies for a person to look up, and recording their findings;
- the enriched stock list (listed and OTC companies by code, HTML and CSV).

## Layout

- `src/` is the verified library. Every function has a contract; the laws of
  the library are public proof functions whose names start with `law_`.
  Calls into outside crates (`scraper`, `regex`, `chrono`, `encoding_rs`,
  `urlencoding`, `minify-html`, `serde_json`, `rand`) stand behind small
  trusted wrappers whose contracts name or state what the crates return.
- `app/` holds the command-line programs: files, the network, the Python
  interpreter for `yfinance`, prompts to a person, and the JSON shapes of the
  files. Run `stock_crawler <command>`; without a command it lists them.
- `tests/` runs the library on concrete values.

The Anthropic model that the programs ask is named by the `ANTHROPIC_MODEL`
environment variable; the API keys come from `OPENAI_API_KEY` and
`ANTHROPIC_API_KEY`, OpenAI first.

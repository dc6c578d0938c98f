# news_tui

A terminal reader for news (CNA, The Straits Times, The Business Times) and arXiv papers.

- `src/` is the verified library: the news categories and their feed addresses, reading RSS and
  Atom feeds and article pages into articles and papers, the fuzzy title search and its ranking,
  list navigation and scrolling, the wrapping of article text, the news store with the
  constraints and queries of its two tables (opened over the rows of the database file), and the decisions of the event loop (what a key or a
  background message does to the state, and which work to start).
- `app/` is the program around it: the terminal, drawing, network requests, background tasks,
  and reading and writing the database file `db.sqlite`.
- `tests/` runs the library on concrete inputs.

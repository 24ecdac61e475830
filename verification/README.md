# seoder

Crawlers that sort lists of sites by what their pages hold, and the web
panels that drive them.

- `src/` is the verified library: config and engine files, request
  scheduling, how every crawl result is filed, the panels' socket commands,
  their refresh schedule and the file server's naming rules. Each public
  function states its result in its contract; the laws between functions
  (a config value reads back as written, a slot taken and given back leaves
  the count unchanged, the refresh schedule) are proof functions.
- `app/` is the program around it: `seoder spider|jsoncrawler|crawl|web|json-web`,
  the file and network work, and the servers.
- `tests/` runs the library on concrete values.

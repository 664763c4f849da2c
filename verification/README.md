# site_monitor

A website monitor: it reads product pages (nike.com, Shopify stores, bol.com,
the Nvidia store, or any page that may show a block error), keeps the set of
links each page offers, reports which links appeared and which disappeared,
and posts a message to a Discord webhook when links appear.

- `src/` is the library, verified with Verus: text handling (`text`), the JSON
  model the site readers work on (`json`), link sets (`link_set`), the site
  readers (`bol`, `nike`, `not_text`, `nvidia`, `shopify_variant`,
  `processing`), the monitor state and its update (`monitor`), proxies
  (`proxy`), the loop's decisions (`notify`) and the webhook request
  (`discord`). URL parsing is done by the `url` crate and random choice by
  `rand`, behind the trusted items in `weburl` and `proxy`.
- `app/` is the program: it reads `sites.json` and `proxies.txt`, makes the
  HTTP requests with `reqwest`, converts JSON from `serde_json`, and runs the
  monitoring loop.
- `tests/` exercises the library on concrete values.

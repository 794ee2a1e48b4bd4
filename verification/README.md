# adaptive_fetch

The decision logic of a resilient public-page reader, written in Verus with
its contracts proved:

- `validators` — feed validation: status semantics, challenge markers in the
  first 4096 characters, and the document's root element.
- `presets` — case-insensitive `*` glob matching (proved to be wildcard
  matching), first-match preset lookup, the `check-url` decision (hostname
  match and route-aware `engine_ready`), and the suggested command with
  lossless shell quoting.
- `safety` and `ipaddr` — the SSRF guard: IP literal parsing, canonical
  address text, refused address ranges (IPv4-mapped IPv6 included), host
  names, and the addresses a host resolves to.
- `phase0` — the official-endpoint router (Reddit to its `.rss` feed).
- `transport` — the redirect walk (every hop re-checked, hop cap) and the body
  cap.
- `weburl` — the `url` crate's parser and setters, seen through plain values.
- `result`, `options` — the verdict, result and option types.
- `report` — the command line's stderr report (summary, trace lines, the
  failure-gate block) and exit status.
- the crate root — `fetch_plan` and `fetch`: a Phase 0 host is fetched
  through its route (the GET is the caller's), validated as a feed, and
  reported honestly, within the caller's attempt budget; other hosts get an
  honest "unimplemented".

`app/` holds the command line, file reading, JSON output and the network
client.

# vod2pod-rss

Turns YouTube and Rumble channels into podcast feeds, and serves the feeds, their
chapters, transcripts and pictures, and transcoded streams of their episodes.

`src/` is the library. It decides and computes; Verus proves that it does what its
contracts say.

| Modules | What they hold |
|---|---|
| `text`, `numerals`, `duration`, `dates`, `json`, `address`, `pattern` | Texts, numbers, lengths of time, dates, JSON, addresses, regular expressions |
| `configs` | The settings and the audio codecs |
| `whitelist` | The addresses that a provider may be asked for |
| `youtube`, `rumble`, `ytdlp` | The providers, and what yt-dlp is asked and answers |
| `playlist`, `paging`, `order`, `batches`, `videos`, `episodes` | YouTube's playlists: fetching, sorting, filtering, episodes |
| `markup`, `atom`, `feed` | Atom feeds that are read, podcast feeds that are written |
| `captions`, `range`, `server` | What the server answers |

Functions marked `#[verifier::external_body]` call other crates. Their contracts are
not proved; the comment above each names the function that it calls and what is
claimed of it. Names declared with `uninterp` stand for results of such functions
that are not spelled out.

`app/` is the service around the library: the HTTP server, the Redis store, yt-dlp
processes, YouTube's interface, and the few places that need floating point numbers.
It leaves FFmpeg and the finish of a feed to a `Workshop` that its user supplies.

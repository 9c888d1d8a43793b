# batch_upload

Sending recordings to speech-to-text providers in one go: which file is sent, at what bit
rate, in how many requests, how long each may take, what is reported on the way, and how the
answers to the pieces of a recording are put together again.

`src/` is the library, verified with [Verus](https://verus-lang.github.io/verus/). Two of its
functions are wrappers round calls of other libraries, whose contracts are taken on trust.

| module | what it decides |
| --- | --- |
| `compression` | whether a recording is worth re-encoding |
| `prepare` | which file is sent: the recording, or a leaner copy of it |
| `encode` | how audio is cut into the blocks an encoder is fed, and what is reported meanwhile |
| `timeout` | how long a provider may take |
| `run` | how each provider is served, in how many requests, and what their outcomes mean |
| `progress`, `progress_laws` | what is reported on a batch, and how often |
| `upload_progress` | which request bodies are watched, and what is reported of them |
| `merge`, `merge_laws`, `moved` | how the answers to the segments of a recording become one |
| `response`, `json`, `text`, `duration`, `fraction`, `failure` | the values all of this is about |

Spans of time are whole nanoseconds and shares are exact fractions. The times that a provider
gives are kept as they were read, each with what is to be added to it. The functions named
`law_...` state what holds of the library as a whole.

All that is taken on trust is written down where it is used: the contracts of
`http::HeaderMap::get`, `http::HeaderValue::to_str` and `bytes::Bytes::len` in
`upload_progress`, and those of `char::is_whitespace` and `str::parse` in `text`.

`app/` holds what needs files, clocks, sockets or floating point. It asks the surrounding
application for decoders, encoders and providers through the traits in `app/host.rs`.

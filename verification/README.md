# esift

esift moves documents out of OpenSearch and Elasticsearch clusters, Datadog log
archives and the Datadog Logs Search API, and into OpenObserve, S3, files or the
standard output. Every batch that was written is checkpointed, so an interrupted
run resumes where it stopped.

The crate is split in two.

- `src/` is the library, written in Verus. It decides and computes: what to ask a
  source for next, where a run stands and how it resumes, how events are flattened
  and documents transformed, how a batch is cut into bulk requests and how the
  responses are accounted. Every function carries a contract and is verified; the
  properties that span functions are public proof functions under the heading
  "Laws" of each module.
- `app/` is the program around it: the command line, the configuration and
  checkpoint files, HTTP and object storage, metrics. It performs what the library
  asks for and hands back what came of it.

| Module | Holds |
|---|---|
| `source::opensearch` | point-in-time paging, slices and their resume cursor |
| `source::datadog::api` | time windows, paging, rate limits, resume |
| `source::datadog::archive` | selection and order of archive objects, lines to documents, resume |
| `source::datadog::{flatten_api, flatten_archive, decompress, site}` | event shapes, codecs, regional sites |
| `mapping`, `transform` | document transforms |
| `dest` | bulk payloads, accounting, dead letters, NDJSON, S3 objects |
| `extraction`, `checkpoint`, `metrics` | the extraction loop and its state |
| `plan`, `config`, `secret` | from configuration to sources and destinations |
| `http`, `http::sigv4` | responses, URLs, AWS request signing |
| `json`, `text`, `number`, `order`, `calendar` | the values underneath |

What other crates compute (JSON text, compression, URL parsing, signatures) is
called through small wrappers. Their contracts are not proved; each says above it
which function it calls and what it claims of it.

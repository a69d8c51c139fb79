# API Pagination Proxy

An HTTPS proxy that joins the pages of a paginated JSON API into one streamed document, and an
endpoint that gathers the devices of a CrowdStrike Falcon account. What the proxy decides is a
Verus library; the listener, the HTTP clients and the files around it are ordinary Rust.

## The library (`src/`)

| Module | What it holds |
| --- | --- |
| `config` | the configuration, and what is done about TLS material at start |
| `auth` | HTTP Basic credentials, and which requests are accepted |
| `headers` | which headers are forwarded, and how headers are logged |
| `query` | query parameters, upstream URLs, and which links are followed |
| `json`, `document` | the model of JSON documents, and splitting one around an array |
| `stream`, `stream_laws` | the stream of pages as a state machine, and what holds of it |
| `error`, `diagnostics`, `text` | failures and replies, log texts, text primitives |
| `falcon` | the Falcon endpoint: requests and replies, the collection as a state machine, records, risk, and the report |

A stream says which URL comes next (`PageStream::next_request`) and takes the response
(`PageStream::on_response`); a collection says which call comes next (`Collector::next_call`) and
takes the reply (`Collector::on_reply`). Sending is left to the program.

Functions state their results over mathematical models: JSON documents as `json::Json`, texts as
character sequences, tables as maps. Public proof functions named `law_...` state what holds of
several functions together, for instance that a completed stream has sent exactly one document
(`stream_laws::law_complete_document`) and that the pieces of a report make one
(`falcon::report_laws::law_pieces_make_one_document`).

Calls into `serde_json`, `url`, `http`, `base64` and `time` stand behind small functions whose
contracts are taken as given; each says in its comment what it claims.

## The program (`app/`)

`main.rs` starts the listener and provides its certificates, `settings.rs` reads the configuration
file, `proxy.rs` and `crowdstrike.rs` run the two state machines against the network, and
`failure.rs` turns failures and replies into responses.

## Configuration

```yaml
listen:
  address: 0.0.0.0:3030
  tls:
    certificate_directory: /var/lib/api-proxy/tls
    server_names: [localhost]
target:
  base_url: https://upstream.example
pagination:
  mode: offset            # or page, or next_link
  offset_parameter: sysparm_offset
  page_size_parameter: sysparm_limit
  start_offset: 0
  page_size: 1000
response:
  array_path: /result     # a JSON Pointer
  error_policy: terminate # or complete
```

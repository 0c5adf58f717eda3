# usiem_elasticsearch

Elasticsearch input and output components for uSIEM.

- `src/` is the verified library:
  - `lines`: splitting a request body into lines, as `str::lines` does.
  - `text`: decimal rendering of integers and blank-line detection.
  - `json`: what the bulk protocol learns from `serde_json` about a line.
  - `bulk`: the bulk protocol of the input component (action and document
    lines, the items of the reply, the documents passed on as logs).
  - `output`: the output component's configuration and its batching loop as a
    state machine (what is cached, when and what is sent, what is dropped).
  - `exchange`: a batch the output sends is read back by the input's bulk
    protocol as the same logs.
  - `component`, `replies`: the components' descriptions, the input's control
    loop, and the plain-text replies.
- `app/` holds the components themselves: channels, the HTTP server and
  client, and the JSON documents of the replies.

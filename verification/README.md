# GreptimeDB wide metrics

Writes metrics to GreptimeDB, each as one row of a wide table: a time index, the tags, and the
fields of the value. Tags whose key is listed, or matched by a pattern, stay tags. Any other tag
that is a number becomes a field of its own; what is left stays a tag or is dropped, as
configured.

- `src/` is the library, verified with Verus.
  - `wide` says what a metric becomes; `request_builder` builds it.
  - `number` recognizes texts that are 64-bit floats; `pattern` selects tag keys with regular
    expressions; `timestamp` deals with points in time.
  - `template` holds the templates for names, and what is reported when one fails to render.
  - `sink` normalizes metrics, sorts batches by database and builds the requests; `config` is the
    configuration.
  - `metric` and `row` are the data; `laws` holds what is proved of the whole.
- `app/` is the sink around the library: configuration files, floats, protobuf messages and the
  stream.
- `tests/` holds the tests.

The library does no float arithmetic. It carries floats by their bits, counts as integers, and
numbers in tags as text; `app/` turns them into floats.

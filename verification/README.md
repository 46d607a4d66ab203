# cryptomeria_ingest

Market data of crypto exchanges (OKX, Kraken, Bitstamp, Bitvavo): order books and
trades from their WebSocket feeds, normalized into one stream of items. The logic
is a library verified with Verus; sockets, requests, timers and logs are an
ordinary crate around it.

## Layout

- `src/` is the verified library.
  - `num`, `text`, `json`, `line`: numbers as bit patterns, text, JSON values and
    lines of text with numbers to be printed.
  - `ladder`, `book`, `emit`, `checksum`, `display`, `laws`: one side of an order
    book, the whole book, what is emitted of it, and what holds of all that.
  - `okx`, `kraken`, `bitstamp`, `bitvavo`: for each exchange its messages
    (`types`), its order book (`lob`), its side of a connection (`ws`) and its
    instruments (`validation`).
  - `config`, `items`, `instrument`, `urls`, `traits`: configuration, items and
    errors, instruments and their fallback names, endpoints, and what all order
    books have in common.
  - `session`, `stream`, `wsloop`: the life of a connection as a state machine,
    and how a stream is opened.
- `app/` runs it: `stream` opens a stream, `wsloop` runs a connection, `document`
  turns JSON text into the library's values, and `config` and `items` are the types
  that can be read from and written to files.
- `tests/` holds the tests.

## Doubles

Prices and sizes are doubles. The library carries one as its bit pattern and its
printed text (`num::Num`), and decides every comparison in integers. Where
a double has to be computed (a sum, a difference, a price some per cent away), it
asks an arithmetic unit, a function that its caller hands in. Contracts speak of the
answers of that unit, whatever they are.

## Contracts

Each type has a view, and each operation a spec function on views: a book after
a message, a connection after an event. The contracts of the executable functions
say that they compute exactly these. What holds of several operations together
(that a book is never left crossed, that a snapshot comes first, that an update counts
once, that attempts end at the limit) stands as public proof functions beside them.

What depends on the clock takes the moment as an argument, in functions whose names
end in `_at`; those that ask the clock themselves say that there is a moment for
which they do the same.

# Test bench server

Devices report over TCP that a unit with a barcode is under test, has passed or
has failed. The server keeps a table of these packets in SQLite, tells connected
pages about every change over WebSocket, and hands out the table, a report and a
CSV file over HTTP.

- `src/` is the verified library: it finds packets in what was read, decides step
  by step what is done for a packet, builds the statements, the messages, the
  timestamps and the CSV file, and composes the answers. Files that end in `_laws`
  prove what holds of several functions together.
- `app/` is the program around it: sockets, threads, the database and the web
  server. It performs the actions that the library names and hands back what came
  of them.
- `tests/` runs the library on given values, some of it against a database in
  memory.

The page itself is read from `static/index.html` in the working directory.

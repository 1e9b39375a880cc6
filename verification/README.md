# gpjc_api

The service that starts the client and server sides of a private
join-and-compute run, logs each transaction in a SQL Server table and
answers requests for those logs.

- `src/` is the verified library: the request and log types (`types.rs`),
  the SQL statements and the reading of a log row (`db.rs`), the reading of
  the binaries' output and the replies to HTTP requests (`outcome.rs`), the
  directories the service works in (`paths.rs`), the text routines they rest
  on (`text.rs`), and the laws that tie these together (`laws.rs`).
- `app/` is the HTTP server: it runs the binaries, talks to the database over
  ODBC, and hands every decision to the library.

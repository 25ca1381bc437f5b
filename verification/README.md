# school_library

A client for the campus library's discussion-room booking service, with its
decisions verified by Verus.

- `src/` is the verified library: the records of the service (`structs`),
  the seat tables and the grouping of free hours into bookable periods
  (`seats`), request headers (`headers`), the requests and what is read from
  the replies (`book_store_info`, `session`, `appointments`, `signing`), text
  helpers (`text`), and the calls into `regex` and `chrono` (`outside`).
- `app/` is the program around it: it reads and writes the settings file,
  sends the requests with `reqwest`, parses the JSON replies with `serde`, runs
  the scheduled refreshes and bookings, and answers commands.
- `tests/` runs the library on concrete values.

Two parts of the program are not carried over: the Python module entry point
(`#[pymodule]`, which registered the client as a Python class the client never
was), together with the `pyo3` dependency; and the shutdown on Ctrl-C that the
scheduler set up under an optional `signal` feature, since the package
declares no features.

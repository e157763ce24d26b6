# timey_api

A time-tracking service: users record time entries against tasks and
projects, run a timer, track their working day as a session of start, pause,
resume and stop events, and export their entries as CSV.

## Layout

- `src/` is the verified library. Every rule of the service lives here with a
  contract checked by Verus: validation of names, passwords and settings, the
  overlap and same-day rules for entries, the timer, the state machine of a
  work session, the computation of worked intervals and elapsed time, the CSV
  export, session expiry and the token and password hashing. Calls into
  chrono, chrono-tz, sha2, hex, argon2 and rand sit behind small trusted
  wrappers whose contracts say what the library relies on.
- `tests/` runs the library on concrete values.
- `app/` is the HTTP server around the library: routing, the SQLite store,
  cookies and JSON. It hands plain values to the library and performs what the
  library decides.

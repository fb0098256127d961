# robotssh

Keeps an SSH session alive: starts `ssh`, sends probes through a pair of port
forwards to see whether the connection still works, and starts `ssh` again when
it does not.

- `src/` is the verified library: every decision, as functions of plain values.
  - `duration`: spans of time
  - `text`: numbers as text
  - `parse`: spans of time as text
  - `cli`: the options
  - `command`: the SSH command line and its port forwards
  - `exchange`: one test of the connection
  - `conntester`: the probe, and when the connection is given up
  - `session`: one run of SSH
  - `backoff`: the wait before a run
  - `verdict`: what is made of the end of a run
  - `supervisor`: the session as a whole
- `app/` is the program: it parses the arguments, runs `ssh`, and moves the bytes.
- `tests/` runs the library on concrete values.

Two outside functions are trusted: `humantime::parse_duration`, whose result is
named but not described, and `rand::random`, of which nothing is claimed.

# pcurl

A parallel HTTP downloader. It splits a remote file into byte ranges, fetches them
over several connections, and writes the bytes to stdout strictly in order, so the
output can be piped straight into a decompressor:

    pcurl https://example.com/huge.tar.zst | zstd -d | tar x

## Layout

- `src/` is the library: planning, dispatch, retry policy, speed floor, ordered
  reassembly, and the texts that the program prints. Verus proves the contract of every
  function but the few wrappers around outside calls (see the end).
- `app/` is the program: command line, HTTP client, tasks, signals, stdout and stderr.
- `tests/` runs the library on concrete values.

## What is proved

- The chunk ranges tile the file, and joining the chunks in order gives it back
  (`plan`).
- Whatever the options, the order in which the bytes come and the attempts that fail
  within the retry budget, a whole download from a server that tells the truth puts
  exactly the bytes of the resource on the output (`download`).
- Whatever the order in which chunks arrive, the output is at every moment the front
  of the file, and in the end the file (`dispatch`).
- There are never more chunks or frames with a permit than permits, and reassembly does
  not deadlock (`dispatch`, `stream`).
- A chunk is accepted only when all of its bytes came, it is retried exactly until its
  budget is spent, and a server that refuses or ignores ranges is
  found out after a few answers (`fetch`).
- The backoff doubles up to its maximum, jitter moves it by about an eighth at most, and
  no backoff passes the maximum (`retry`).
- A stalled connection is dropped, and one that is fast enough is not (`speed`).
- A single stream passes through unchanged, and a truncated one is noticed (`stream`,
  `writer`, `single`).

What is taken on trust are the contracts of the outside functions that the library
calls: parts of `bytes`, of the header types of `reqwest`, of the system clock, and how
`reqwest` displays status codes and header errors. Each is marked `external_body` or
`assume_specification`, with what is claimed of it.

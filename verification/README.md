# Async Runtime

A single-threaded asynchronous runtime for Linux, built on epoll, whose decisions
are verified with Verus.

- `src/` is the library. It performs no I/O. `epoll` reads the return values of
  the epoll system calls, `blockers` turns interest in a file descriptor into
  epoll requests, `services` polls a TCP stream, `runtime` holds tasks, the
  reactor and the executor, and `client` prepares the sample client. `platform`
  holds the numbers that the operating system gives to events, errors and
  sockets, `error` what is read of an I/O error, `hooks` the outside work of the
  loops, and `laws` what is proved of the parts taken together.
- `tests/` runs the library on concrete values.
- `app/` is the sample client: the system calls, the sockets, the reactor's
  thread, and the wakers around the library.

The loops of the executor and the reactor do their outside work through `hooks`:
functions that their caller passes in, and a ghost record of every call of them.
Their contracts say exactly which calls are made, and in what order. Elsewhere
the library takes the result of a system call and says which one is to follow.

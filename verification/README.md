# rust_tcp_bench

A TCP echo benchmark: several echo servers (blocking std sockets, tokio,
tokio with a bytes codec, mio) and a client that sends 100 000 messages of
1 KiB and reports round-trip latencies.

- `src/` is the verified library (Verus):
  - `decimal`: decimal and zero-padded rendering of integers;
  - `time_profiler`: latency samples, their sum, mean and median, and the
    `fmt_ns` duration text (e.g. `008mks987ns`);
  - `text_laws`: the proof that `fmt_ns` gives different texts for different
    durations;
  - `bench`: random messages, progress steps and the recorder of each round
    trip (profiles and an `hdrhist` histogram of the second half of the run);
  - `echo`: what each server and the client do after a read or a write;
  - `peers`: the mio server's table of peers by poll token.
- `app/` is the program: command line, sockets, async runtimes, and the
  floating-point throughput.
- `tests/` exercises the library.

# Media intelligence worker

The worker hosts AI services for media out of the main server's address space.
This crate holds its rules, each with a contract that Verus proves:

- `config`: the service configuration and the settings in the environment
- `launch`: from the command line to a plan for the process
- `idle`: when the worker exits
- `routes`, `reply`, `direct`: how the worker answers an HTTP request
- `proxy`, `exchange`, `activity`: how a supervising proxy passes requests on to
  a worker child, and when it reaps the child
- `frame`, `rpc`: length-prefixed frames and protocol errors
- `text`: text primitives

`app/` is the process around them: listeners, sockets, timers and the encoding of
errors. It is generic over the inference backend, which supplies the models, the
dispatch of requests, the supervision of child processes, and the names and
limits of the protocol. A binary links a backend and calls `run`.

Trusted are three functions of the standard library on `str`: `trim`,
`to_ascii_lowercase` and `==`. They are specified in `text`.

# load_balancer

A reverse proxy that hands incoming HTTP requests to a list of worker hosts
in turn (round robin), and a small target server that stands in for a worker.

- `src/` is the verified library:
  - `domain/load_balancer.rs`: the balancer, its worker selection and what a
    forwarded request and its answer are;
  - `domain/round_robin.rs`: the order in which a run of requests is
    spread over the workers;
  - `target.rs`: which answer the target server gives to a request;
  - `application.rs`: the address the balancer listens on;
  - `utils/decimal.rs`: reading and writing unsigned decimal numbers;
  - `utils/constants.rs`: default bind settings and setting names.
- `app/` is the program around it: configuration from the environment, the
  network servers and clients, and the shared state behind a lock. Installed
  as `target-http` it runs the target server instead of the balancer.
- `tests/` runs the library on concrete values.

# shorty

The decisions of a service for short links: a sliding-window rate limiter, the recognition of
clients, the validation of requests, the course of every route, and the one place where errors
become answers. Everything under `src/` is verified with Verus.

- `src/rate_limit.rs`: the limiter. `LimiterState::admits` says what one request does to it;
  `src/limiter_laws.rs` proves what follows over many requests, above all that a client gets no
  more than `limit` requests through in any window as long as the limiter keeps track of it. It
  loses track of a client only where more than `max_clients` clients turn up.
- `src/client.rs`: the client behind `X-Forwarded-For` and `X-Api-Key`.
- `src/dto.rs`, `src/domain.rs`: what requests, answers and the repository carry, and the rules
  for target URLs, chosen codes and lifetimes.
- `src/handlers.rs`: one function per decision of a route, from the repository's answer to the
  next question or to the answer for the client.
- `src/error.rs`: status, body and `Retry-After` of every error.
- `src/api_laws.rs`: what holds over several of these decisions.
- `src/text.rs`, `src/time.rs`: numerals, header texts, spans of time.
- `app/`: the service around it, with the HTTP routes, JSON, the clocks, the lock of the limiter
  and its background cleanup.

Outside code is trusted in three places: looking up a header (`http`), parsing a URL (`url`) and
drawing a random code (`nanoid`). Each stands behind one function with a stated contract.

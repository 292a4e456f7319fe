# rust_server

The rules of an anime catalogue web service (accounts, groups and permissions,
a local anime and producer store, and a proxy to the Jikan anime database),
written as a Verus library whose behaviour is stated in contracts and proved.

- `src/` — the verified library:
  - `errors` — the error kinds, their HTTP status codes and messages;
  - `text` — decimal formatting, Unicode trimming, `u32` parsing, splitting;
  - `ids` — twelve-byte document identifiers and their hexadecimal form;
  - `pagination` — page windows and paging blocks of list responses;
  - `listing` — filters and sort keys of listings;
  - `users`, `groups`, `producers`, `catalog` — the decisions of each resource;
  - `password` — bcrypt hashing and checking;
  - `auth` — access tokens, their claims, and permission checks;
  - `jikan` — requests to the anime database and the meaning of its replies.
- `tests/` — tests of the library on concrete values.
- `app/` — the HTTP server around the library: routes, middleware, MongoDB and
  HTTP I/O, JSON and token encoding.

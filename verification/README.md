# codexmanager_hub

The logic of the account hub, verified with Verus.

- `src/text.rs`: characters and strings (trimming, ASCII lower case,
  decimal notation, joining lines), each with its specification.
- `src/addr.rs`: normalizing a service address, the RPC URL and the
  registration service's endpoints, with laws on normalized addresses.
- `src/status.rs`: counting accounts by status, with laws (blanks and order do
  not matter, counts add up to the total).
- `src/register.rs`: building the registration payload, including the
  made-up DuckMail accounts, with laws on the result.
- `src/settings.rs`: settings taken from the environment and their defaults,
  the RPC token's source and the front proxy switch.
- `src/rpc.rs`: what to do at each step of a JSON-RPC call.
- `app/`: the web server (axum, reqwest, serde_json) that does the I/O and
  calls the library for every decision.

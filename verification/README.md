# komodo

The decision logic of the Komodo core server and its auth layer, verified
with Verus.

- `src/permission`: permission levels and specific permissions, how a
  user's permission on a resource is resolved from its layers, the checks
  made against it, list permits, and the target query for updates and
  alerts.
- `src/auth`: local accounts and password hashing, API keys, request
  credentials, session token claims, TOTP, OpenID Connect usernames and
  claims, GitHub and Google logins, and session entries.
- `src/schedule.rs`, `src/containers.rs`, `src/resource_lists.rs`,
  `src/sorting.rs`, `src/listing.rs`: the listings, their stable sorts and
  their paging.
- `src/summary.rs`, `src/stats.rs`, `src/mem.rs`, `src/builder.rs`,
  `src/reporting.rs`, `src/listener.rs`: dashboard summaries, server
  statistics, memory figures, builders, usage reports and webhooks.
- `app/`: what stays outside the verified library: host I/O, token signing
  with `jsonwebtoken`, JSON forms of library types and the floating point
  server sorts.

# admin-api

The decision logic of a multi-tenant admin service, written in Verus:
every function in `src/` carries a `requires`/`ensures` contract over
mathematical models (`Seq`, `Map`, `int`, the views of the library's
types), and Verus proves each body against it.

## Layout

- `src/` — the verified library, one module per concern:
  - tenancy and access: `scope`, `tenant_access`, `tenant_plan`, `accounts`;
  - sessions and tokens: `token`, `session`, `sessions`, `login_guard`, `risk`;
  - permissions and menus: `permission`, `permission_sync`, `edits`,
    `authz_trail`, `resolve_cache`, and the wire/stored code tables
    (`*_codes`);
  - the org tree: `org_tree` (materialized paths, reparent checks, subtree
    relocation) and `org_units`;
  - files and media: `files` (type whitelist, sniffing, upload admission,
    object naming, signed media URLs);
  - messaging and scheduling: `messaging`, `scheduler`, `instants`;
  - configuration: `config`, `monitor_info`;
  - the differential replay testbed: `corpus`, `probe`, `compare`,
    `semantic`, `json`, `json_serde`, `report`;
  - shared text and sequence lemmas: `text`, `errors`.
- `tests/` — executable tests of the library, run with the real outside
  crates linked.
- `app/` — the program around the library: argument handling, HTTP
  probing, Redis access and file output. It makes no decision of its own.

## Trusted boundary

Calls into `serde_json`, `chrono`, `uuid`, `hmac`/`sha2`/`hex` and a few
std functions go through small `#[verifier::external_body]` wrappers whose
contracts state what those crates document; where a result takes pages to
state it is named by an uninterpreted spec function, and the verified code
that follows the call is proved for every value of it. Results that depend
on the clock or on chance (the current time, fresh UUIDs) are stated only
as far as every outcome allows, and the functions that take a clock
reading as an argument (`unix_seconds`, `jwt_id_at`, `signed_media_url_at`,
`refresh_cookies_at`, the `*_claims_at` builders) have exact contracts.

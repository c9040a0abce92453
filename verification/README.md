# lockbox

Boxes of documents kept by an owner and guarded by guardians, who can be
invited by short codes and who approve or reject requests to unlock a box.

The library (`src/`) is written in Verus: every function states what it
does in `requires`/`ensures`, and Verus proves it.

- `shared/` — the records (boxes, guardians, documents, unlock requests,
  invitations), the store interfaces and their in-memory implementations,
  authentication (bearer tokens, JWT payloads), times and expiry, random
  ids, and the decisions of the DynamoDB-backed stores.
- `box_service/` — what owners and guardians do with boxes.
- `invitation_service/` — issuing, claiming, refreshing and listing
  invitations.
- `event_service/` — giving an invitation's guardian entry to the user who
  claimed it, with a bounded number of attempts.
- `invitation_handler/` — the same on acceptance events.
- `user_service/` — the user service's errors.
- `legacy/` — the first single-service API, with its in-memory store.
- `text.rs`, `keyed.rs` — string and keyed-sequence utilities with their
  lemmas.

`app/` holds what runs around the library: the Lambda entry points, the
HTTP routes, JSON forms of the records, the DynamoDB and SNS calls, and the
waits between attempts. `tests/` exercises the library on concrete values.

# gd_back

Backend of a referral sign-up service: users register with a username and an
optional referral code, receive a personal invite code, log in by name, and
listeners get the list of users with the referral map over server-sent events.

- `src/` — the verified library (Verus):
  - `models.rs`: user records and the JSON answer envelope;
  - `invite.rs`: invite codes (`ABC-1234-12345`), their decimal parts and shape;
  - `referrals.rs`: the referral map pushed to listeners and its laws;
  - `errors.rs`: how database failures are answered over HTTP;
  - `handlers.rs`: the answers of the sign-up and login endpoints.
- `app/` — the axum server around it: routes, PostgreSQL access through sqlx,
  the broadcast of updates, JSON (de)serialisation.
- `tests/` — tests of the library on concrete values.

# object_storage

An object storage gateway: files are fetched, uploaded and deleted through
an S3-compatible store, uploads must name the SHA-512 of their content, and
requests outside the public blob paths need an AES-encrypted access token.

- `src/` is the library, verified with Verus: request routing
  (`handler`), the upload form check and the answers of the storage
  actions (`storage`), answer framing (`context`), the access-token check
  (`server`), settings (`config`, `env_config`), the client-facing API
  types (`sdk`), and, in `codec`, the calls into base64, rust-crypto,
  chrono, http, multer, form_urlencoded, aws-smithy-types (HTTP dates)
  and std's clock, each behind a small trusted item.
- `app/` is the server around it: settings file, logging, the HTTP
  service, the S3 client and every call that does I/O. The access token
  (AES-256 decryption through rust-crypto, base64, expiry) is checked in
  `server`.
- `tests/` exercises the library on concrete values.

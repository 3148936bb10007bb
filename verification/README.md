# token_verifier

Verification of PASETO v4.public tokens whose subject is an encrypted user id, written in
Verus: each function of the library carries a contract that Verus proves.

- `src/lib.rs` — the `v4.public.` header: `for_client`, `with_v4_public_prefix`, and the laws
  that relate them.
- `src/text.rs` — character-level string operations (`split`, `split_once`, prefix tests).
- `src/model.rs` — `TokenType`, `ModelClaims`.
- `src/error.rs` — `TokenError` and its view.
- `src/keyed.rs` — `KeyTable`, text-keyed tables with unique keys.
- `src/id_cipher.rs` — `TokenIdCipher`: deterministic XChaCha20-Poly1305 encryption of subjects
  under an HMAC-derived nonce, and the proof that decryption inverts encryption.
- `src/id_cipher_ring.rs` — `TokenIdCipherRing` and its `cid:hexkey,...` configuration format.
- `src/key_ring.rs` — `PasetoKeyRing`, signing key pairs by key id.
- `src/claims.rs` — reading claims from JSON and the subject from UUID text.
- `src/paseto_verifier.rs` — `TokenVerifier`, `ImplTokenVerifierPaseto` (verifies with a key ring).
- `src/public_verifier.rs` — `ImplTokenVerifierPasetoPublic` (verifies with public keys alone).
- `app/lib.rs` — reading the cipher ring from the environment, error display, and conversions
  to and from the outside crates' key and UUID types.

Calls into `base64`, `chacha20poly1305`, `hex`, `hmac`/`sha2`, `pasetors`, `rusty_paseto`,
`serde_json` and `uuid` go through small trusted wrappers; everything around them is verified.
Each wrapper's contract ties its result to a name for what the outside function computes, or
states it outright. The two signature checks also read the clock (`exp`, `nbf`, `iat`): their
contracts say that success gives the claims a valid signature vouches for, and leave unstated
whether a validly signed token passes the clock checks.

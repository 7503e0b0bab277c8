# tinny

`tinny` keeps secrets in a can: a JSON file with a tree of secrets, each sealed
with AES-256-GCM-SIV under a key that Argon2id derives from a passphrase. The
secrets are named by JSON pointers. `can` is the command-line tool around it.

The library under `src/` is written in Verus. Its contracts say what each
operation returns and changes, and `src/laws.rs` states what holds across
operations: what was written is read back, what was deleted is gone, a locked
can gives and takes nothing, and writing and deleting leave other paths alone.

What the proofs take on trust is stated where it is used:

- `src/secret.rs`: secret bytes in memory (`secrecy`) and random bytes
  (`aws-lc-rs`);
- `src/kdf.rs`: PHC strings, and salts in B64 (`password-hash`), and Argon2id
  (`argon2`);
- `src/cipher.rs`: AES-256-GCM-SIV (`aws-lc-rs`);
- `src/text.rs`: pushing a character onto a `String`.

`app/` holds what surrounds the library: arguments, files, prompts and pipes.
`tests/` runs the library on examples.

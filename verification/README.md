# ironposh-client-core

Client core of WinRM / PowerShell Remoting (PSRP), verified with Verus.

`src/` is the verified library:

- `connector/` — HTTP requests and responses, Basic and SSPI authentication
  (user names, SSPI contexts, the handshake decisions), message sealing and its
  `multipart/encrypted` framing, the per-connection authentication pool, the
  connector that opens a session, and the active session that turns user
  operations and server responses into requests and events.
- `runspace_pool/` — the runspace-pool lifecycle (open, disconnect, reconnect),
  the handling of the PSRP messages of a Receive (pool and pipeline states, host
  calls, records, the session-key exchange), and what a response does to
  pipelines and to the next Receive.
- `host/` — host calls, their method ids and results.
- `session/` — the receive scheduler and the decision core of the serial
  session loop.
- `credentials.rs`, `pipeline.rs`, `powershell.rs`, `text.rs`, `error.rs`.

Calls into `sspi`, `base64`, `rsa`, `aes`/`cbc`, `sha2`, `uuid` and `whoami`
go through small trusted wrappers whose contracts state what those crates do.

The TLS channel binding (`tls-server-end-point:` and a digest of the server
certificate) is computed here with `sha2`: the client core calls a function for it
whose definition is not part of its sources. The digest is always SHA-256, whereas
RFC 5929 takes the hash of the certificate's signature algorithm (SHA-256 for
certificates signed with MD5 or SHA-1), so certificates signed with SHA-384 or
SHA-512 get a binding that such servers do not expect.

Sealing keeps a ghost record of the calls made to the SSPI package: the contracts
of `EncryptionProvider::encrypt` and `decrypt` say which bytes went into
`EncryptMessage` / `DecryptMessage` and how the framing and the returned text
relate to what those calls left, while the sealed bytes themselves rest on SSPI.

`app/` is the asynchronous shell around it: the network, the SSPI rounds
(which may suspend on KDC exchanges), the session loops and a minimal host.
The WS-Management / PSRP message layer (rendering envelopes, and reading them
into the library's `PsrpMessage` values) is supplied by the caller through the
`MessageLayer` trait.

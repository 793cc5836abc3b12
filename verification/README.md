# mail_client

The core of a local IMAP mail client, verified with Verus.

`src/` is the library:

- `classifier` — sorts incoming mail into the four system tags (spam,
  subscription, work, personal) by keyword patterns and sender domains.
- `sync` — the status of synchronisation, the background switch, the
  batches fetched per account, and what follows the storing of a new email.
- `mailbox` — which UIDs are fetched from the server, in ascending order.
- `mime` — how a fetched RFC 5322 message becomes an email record and the
  attachments to save (the message itself is read by `mail-parser`).
- `store` — the account limit, missing-row errors, row conversion and the
  SQL of the email listing.
- `notify` — tray tooltip, notification texts, tray menu and tray events.
- `text`, `time`, `error`, `models` — strings, timestamps, errors, records.

`app/` is the desktop shell: the SQLite database (rusqlite), the IMAP
connection (imap, native-tls), the tokio tasks of the background
synchronisation, and the Tauri commands and tray.

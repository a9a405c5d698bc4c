# grrr

A Discord bot that backs up message attachments to Google Drive through an
rclone remote-control server.

- `src/` is the verified library (Verus): storage keys and status values,
  the processing queue, the decisions taken on a new message and when the
  guild cache is ready, the drive path and rclone request of each upload,
  and the `configure` reply. Each function states its result in its
  contract; the properties that span functions are proof functions next to
  them (distinct keys and drive paths for distinct ids, last-in-first-out
  queue, column families created once, and so on).
- `app/` is the program around it: the gateway client, RocksDB, the HTTP
  calls to rclone and Discord, locks and the upload task.
- `tests/` runs the library on concrete values.

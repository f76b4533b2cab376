# better_im

A read-only iMessage reader and search index for macOS, with its logic
verified in Verus.

- `src/` is the verified library: the domain model, the query mini-language
  and the SQL it compiles to, URL extraction, the shaping of `chat.db` rows
  (sender resolution, Apple-epoch timestamps, chat labels, deduplicated
  scans, conversation and thread ordering), the index rows and what is read
  back of them, link paging, message context, insights, contact matching,
  the watcher's debounce and the start-up sequence. Calls into `chrono`,
  `regex`, `base64`, `imessage-database` and `std::path` sit behind small
  trusted wrappers whose contracts name or state what those crates return.
- `app/` is the shell: the `chat.db` and index connections, the file
  watcher, the floating-point half of the embeddings and hybrid ranking, the
  desktop commands, the macOS Contacts bridge and two command-line tools.
- `tests/` exercises the library on concrete values.

# gmacFTP

The core of an FTP and SFTP client: the rules, parsers, planners and state machines behind a
two-pane file manager, written in Verus. What each function returns or changes is stated in its
contract and proved; laws that span several functions stand beside them as public proof functions.

## Layout

- `src/text.rs`, `pieces.rs`, `lexical.rs`, `numerals.rs`, `ip_address.rs`, `wildcard.rs`,
  `path_pattern.rs`, `path_text.rs`, `sorting.rs`, `ordered_map.rs`, `digest.rs`: text, numbers,
  addresses, patterns, paths, orders, digests.
- `src/model/`: connections, remote entries, protocols, transfers.
- `src/net/`: errors, safe paths, staging names, resumable fragments, search, OpenSSH
  configuration, proxies, transfer rules. `src/net/ftp/` holds the FTP client as a set of machines
  that say which command comes next and take the server's answer: sessions and TLS policy,
  certificate pins, listings, walks, removal, search, statistics, checksums, downloads, staged
  uploads and their promotion.
- `src/folder_sync.rs`, `rule_text.rs`: exclusion rules, their text, and the dry run of a folder
  synchronization.
- `src/controllers/`: what the windows decide: panes and selections, the connection editor,
  credentials, settings and backups, the transfer queue, folder synchronization from form to
  mirror, drag and drop, updates, menus.
- `src/i18n.rs`: the Polish texts of messages that are made at run time.
- `tests/`: examples that run the library.
- `app/`: a command-line program around the library. It opens sockets and files, performs the
  steps that the machines ask for, and hands the answers back.

## Trust

Calls into other crates stand in small wrappers whose contracts are believed: SHA-256 (`sha2`),
random numbers (`rand`), listing lines and PEM files (`suppaftp`), and a few functions of the
standard library on text. Each has a comment that says what is claimed of it.

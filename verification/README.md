# muscl

A tool that lets unix users manage their own MySQL databases and users, within the name
prefixes they own (their user name, or the names of their groups, followed by `_`).

The library in `src/` holds the logic, verified with Verus:

- `muscl_core::protocol::request_validation`: which names are valid and who may manage them.
- `muscl_core::database_privileges`: privilege rows, the diffs between them, the command line
  syntax for editing them (`db:user:+siud`), and the text format of the privilege editor,
  with laws such as "applying the diff of two lists of rows to the first gives the second"
  and "reading back what the editor writes gives the rows".
- `muscl_core::protocol::{commands, output}`: the errors the server answers with, and what
  the client prints for each answer.
- `muscl_core::authenticated_unix_socket`: the steps of the handshake that tells the server
  which unix user is on the other end of its socket, as a state machine.
- `muscl_core::{bootstrap, config, common, completion, types}`, `mysql_admutils_compatibility`:
  the remaining decisions and texts, including those of the `mysql-dbadm` and `mysql-useradm`
  commands.

`app/` is the client around it: the command line (clap), the sockets and messages (tokio,
bincode, serde), the prompts and the editor (dialoguer), and the JSON output (serde_json).

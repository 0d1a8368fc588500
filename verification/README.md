# tasker_lib

A task scheduler kept in an encrypted SQLite table. `src/` is the verified
library: the scheduling rules (`tasker_logic`), the table rules (`tables`),
the byte form and sealing of every stored field (`bytes`, `secure`), the
command lines the service runs (`shell`), the database location (`config`)
and what the command line and window show (`taskerctl`). `app/` is the
`taskerctl` program and the background service loop: SQLite, the keyring,
the Themis cipher, processes, notifications and sleeping.

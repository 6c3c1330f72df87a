# lanscanner

A LAN scanner and SSH connection helper whose decisions are proved with Verus.

- `src/` is the verified library: IPv4 parsing and the port-22 sweep (`scanner`), the
  configuration file and its JSON reader and writer (`store`, `json`, `config_file`,
  `round_trip`), saved credentials, SSH client files and `known_hosts` entries
  (`ssh_config`), key handling (`ssh_keys`), the preparation of launch authentication and
  the check of the local OpenSSH client as state machines (`ssh_auth`, `external_check`),
  the arguments of the client programs (`launcher`, `tool_finder`), Docker commands and
  addresses (`docker`), notices, the command line (`launch_mode`) and window details.
- `app/` is a console front end: it reads the command line, does the file, network and
  process work that the library asks for, and prints what the library decided.
- `tests/` runs the library on concrete values.

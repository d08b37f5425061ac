# llogin

A command-line manager for Lovely Professional University WiFi accounts:
it stores credentials for several accounts, logs in to and out of the
campus portal, lists, updates and removes accounts, and keeps a default
account for quick login.

- `src/` is the library, verified with Verus: the account store and its
  operations, the login and logout plans and the portal's forms and
  answers, the account menus, the command dispatch, the reading of the
  network tools' output and the order in which they are tried.
- `app/` is the program around it: argument parsing, the credentials file,
  prompts and menus, the portal requests and the network tools.
- `tests/` runs the library on concrete values.

# envsynx

A command line client that authorizes against an envsynx server (by token
or through the browser), lists and creates projects, and uploads the
`.env` files of the current directory.

- `src/` is the verified library: argument handling (`args`), help texts
  (`help`), percent-encoding and query lookup (`url`), the browser login
  (`callback`), API base URL and token choice (`config`), answer checking
  (`response`), env file selection and ordering (`env_files`), the printed
  reports (`report`), and the character-level string functions they rest
  on (`text`).
- `app/main.rs` is the program around it: process arguments, environment,
  configuration file, directory reading, HTTP, the local callback listener
  and the browser.
- `tests/` exercises the library.

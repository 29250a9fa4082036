# cnet

Command-line client for the campus network's authentication portal.

- `src/` is the verified library: `crypto` (key derivation, PKCS#7 padding,
  DES-ECB and hex output of the password), `client` (the portal requests),
  `models` (request and reply types), `config` (stored credentials and the
  outcome of loading them), `text` (trimming and line handling) and `setup`
  (the front end's decisions: prompt answers, package menu, reports, `PATH`
  updates).
- `app/` is the program: argument parsing, prompts, HTTP, files and the
  environment, and serde copies of the library's types.
- `tests/` exercises the library on concrete values.

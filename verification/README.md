# pagebin

pagebin shares static sites from a server of one's own: an administrator
publishes pasted HTML, files or a ZIP archive under a slug, optionally behind a
password and with an expiry, and visitors open them under `/s/<slug>/` on a host
of their own.

What the server decides is a Verus library: validation of slugs, paths, titles
and archives, configuration, sessions, login limits, signed challenges and
grants, host and origin checks, form parsing, and the order in which storage and
database are changed. Its contracts and laws stand beside the code in `src/`.

- `src/auth` passwords, sessions, the login limiter, tokens, the signing key and
  bounded password jobs
- `src/sites` validation, archives, slug generation, and publishing, replacing,
  changing, deleting and sweeping sites as step machines
- `src/routes` what each request is answered, from plain request values
- `src/config.rs`, `src/host.rs`, `src/ip.rs`, `src/ip6.rs`, `src/web.rs`,
  `src/text.rs` configuration, hosts, addresses and text
- `tests` runs the library on concrete values
- `app` the server: environment, SQLite, files, HTTP and HTML around the library

Calls into outside crates stand in `src/` behind small functions whose doc
comments name the called function and say what is relied on.

The server reads styles, scripts and fonts from a `static` directory beside its
working directory.

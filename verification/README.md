# lssbi

A library that reads what a RISC-V SBI environment reports about itself
through the `lssbi_probe` kernel module, and the `lssbi` command around it.

The library (`src/`) is verified with Verus:

- `number` parses integers with the rules of `str::parse` and renders them in
  decimal and hexadecimal; parsing a rendered value gives the value back.
- `text` models `trim`, `lines`, `split_ascii_whitespace` and joining over
  sequences of characters.
- `backend` turns the texts of the module's parameters into the report, or
  into the message of the first parameter at fault; every value, record and
  FWFT sample the module writes is read back exactly.
- `sbi_ext`, `fwft`, `marchid`, `mvendorid`, `sbi_impl`, `sbi_error` and `vuln`
  hold the tables and rules that name what the environment reports.
- `driver` builds the lines of the text report from the messages of the
  user's language; `json` builds the locale-independent JSON report.

`app/` holds the command: argument parsing, reading the parameters, gettext,
printing, and the serde form of the JSON report.

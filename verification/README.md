# xf-typegen

Generates PHP helper stubs (`_ide_helper.php`, `.phpstorm.meta.php`,
`_ide_helper_xfcp.php`, `_ide_helper_options.php`) from the JSON contract that
the extractor script dumps from a running XenForo install, so that XenForo's
string-keyed factories (`finder('XF:User')`, `repository(...)`, `service(...)`,
`em()->find(...)`) and entity properties autocomplete in any PHP language server.

## Layout

- `src/` — the library, verified with Verus:
  - `text.rs`: whitespace, splitting, trimming, line-wise indentation, decimal digits;
  - `php.rs`: fully qualified names, `::class` constants, stub identifiers,
    single-quoted literals, nullable types, namespace/short-name splitting;
  - `order.rs`: the order of `str` and of string triples, and a sort;
  - `contract.rs`: the contract types and the ordered maps they hold;
  - `generate/`: one renderer per helper file, each with an exact
    specification of the text it writes;
  - `cli.rs`, `extract.rs`: the decisions of the command line (targets,
    entity mode, file status, watch events, the PHP command line);
  - `laws.rs`: properties that hold for all inputs.
- `app/` — the command-line program: argument parsing, reading and parsing the
  contract JSON, running PHP, writing files, watching the contract.
- `tests/` — tests of the library.

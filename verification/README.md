# panopticon

The verified core of Panopticon, a live dashboard of window thumbnails for
Windows. `src/` is a Verus library: its functions are proved against their
contracts, and the few std calls that Verus does not specify sit behind small
trusted wrappers whose contracts are stated in their doc comments; `app/` is
the thin executable around it; `tests/` runs the library.

Modules of the library:

- `reconcile`, `managed`, `layout`, `animation`, `dwm` – the managed windows:
  reconciliation with a fresh window discovery, thumbnail bookkeeping, layout
  application and thumbnail clipping.
- `cache`, `icon` – the capacity-bounded, least-recently-used icon cache.
- `palette` – the command palette: catalogue, recent commands, scoring and
  ordering of matches.
- `shortcuts`, `hotkey`, `native_events`, `cli` – keyboard shortcuts, the
  global hotkey, routing of window messages, command-line parsing.
- `settings_model`, `color`, `tags`, `app_rules`, `workspace`,
  `presentation`, `startup`, `distribution`, `tick`, `perf` – settings
  values and the texts and decisions derived from them.
- `menu` – check-mark and availability flags of popup-menu entries.
- `text`, `format`, `wide` – string helpers with exact specifications.

# ade

Utilities of a small desktop environment, written in Verus: the application
catalog and registry (pinning, recent launches, filtering and sorting), the
clipboard service and its history, crash tracking and diagnostics, the
developer platform (logs, metrics, process and window inspection), the
extension and plugin managers, the package database with its installer,
remover, repositories and updates, log and trace rings, the profiler, the SDK
surface with localization, directory listings parsed from a directory stream,
and window move/resize animation.

Layout:

- `src/` — the verified library. Each public function states its result over
  a model of plain values (`Seq`, `Map`, integers); cross-function properties
  stand as public proof functions named `law_*`.
- `tests/` — executable tests of the library.
- `app/` — the host side: reading a directory through the system's file
  interface (each chunk is handed to `vfs::parse_dir_entries`), and the
  accessibility settings, whose text scale is a floating-point number.

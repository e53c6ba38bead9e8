# agentbar

The verified core of AgentBar, a menu-bar companion that shows the quota and
token usage of the Codex and Anthropic coding agents on the local machine.

- `src/` is the library, written in Verus: settings, log parsing and token
  accounting, pricing, calendar statistics and activity streaks, the quota
  responses of both services, the account-activity cache and request order,
  the dashboard, the tray summary, the decisions of the statistics panel and
  when a cached parse of a log may be kept, continued or redone.
  Each public function states its result in `ensures`; the `law_*` proof
  functions state what holds across calls.
- `app/` is the desktop side: reading files, the local time zone, floating-point
  figures and serialized forms, handing plain values to the library. It keeps
  parsed logs in memory between collections; the cache is not written to disk,
  so each start of the program reads every log once.
- `tests/` runs the library on concrete cases.

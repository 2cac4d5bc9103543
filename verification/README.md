# PT Manager

A desktop tool that keeps sessions on private trackers alive. It opens the configured
sites in a dedicated Chrome by hand or on a schedule, logs in where a session is gone,
signs in for the day, takes cookies over from a CookieCloud service, reads captchas with
an OCR service and reports each round through Gotify.

- `src/` is the library: what the tool decides and computes, with contracts that Verus
  proves. What waits for the browser, the network or the clock is written there as a
  machine that turns an event into the next action.
- `app/` performs those actions: sockets, files, processes, the scripts that run in
  pages, and the Tauri window, tray and commands.
- `tests/` runs the library on concrete values.

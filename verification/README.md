# mihoro

A command-line manager for the [mihomo](https://github.com/MetaCubeX/mihomo) proxy
on Linux (systemd user services) and macOS (launchd agents): it downloads mihomo,
its remote configuration and geodata, writes the service definition, starts and
stops the service, prints proxy exports and keeps an auto-update cron job.

## Layout

- `src/` is the library, verified with Verus. Every decision the tool takes is a
  function with a contract there:
  - `cron` — the crontab path, the managed block that holds the update entry, and
    how it is merged into, found in and stripped from a crontab, with the laws
    that tie these together (merging twice is merging once, stripping twice is
    stripping once, a merged entry is found again);
  - `service` — which service manager runs, which command each action becomes,
    the `systemctl` argument builder, the unit file and the launchd property list,
    and the steps of `launchctl` bootstrap and bootout;
  - `mihoro` — the configuration, the paths derived from it, and the plans of the
    binary, geodata, dashboard, proxy, cron and start commands;
  - `proxy`, `cmd` — the proxy shell commands and the command-line types;
  - `text` — the model of the string operations the rest relies on.
- `app/` is the program around it: argument parsing, configuration files,
  downloads, and running `systemctl`, `launchctl` and `crontab`.
- `tests/` runs the library on concrete values.

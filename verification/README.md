# dsh_shell

Two experimental shells around `dsh --profile web`, with their decisions in a
library that Verus verifies.

- The desktop shell opens one native window, spawns `dsh web` in the
  background, waits up to 30 s for it to announce its authenticated URL on
  stdout and shows that URL, or a page that says what went wrong. The child is
  stopped when the window closes or the app exits.
- The tray shell (`--tray`) creates no window: an icon with **Open DSH Web**,
  which opens the default browser, and **Quit**, which stops the child.

## Layout

- `src/`: the verified library. It decides; it performs nothing.
- `app/`: the shells themselves: processes, threads, clocks, and the window
  and tray of Tauri. Each loop there asks the library what to do, does it, and
  reports what came of it.
- `tests/`: tests of the library on concrete values.

## What is proved

Besides the contract of each function, the library states laws that span
them, as public proof functions named `law_*`. Among them:

- a diagnostic message is displayed verbatim, is never markup, and never
  leaves the body of its `data:` URL;
- an announcement is recognised exactly where it names this shell's own host
  and the port asked for, and the tail of an oversized line is never taken for
  one;
- of a whole stream the first announcement is handed over, and no other;
- the stderr record holds the end of the stream, however it was cut into
  chunks; its end is announced once, and what is kept by then is final;
- however threads interleave, no child is lost, none is terminated twice, and
  a shutdown returns only once there is none left;
- nothing is signalled once a first poll finds the child exited, and a process
  group is forced down only after it was asked and given its grace period;
- stdout is read on to its end, whether or not an announcement was found, while
  a bounded part of one line is kept.

## Settings

| Variable            | Shell   | Meaning                                     |
| ------------------- | ------- | ------------------------------------------- |
| `DSH_CLI_PATH`      | both    | the `dsh` launcher, instead of `PATH`       |
| `DSH_WEB_PORT`      | both    | the port, `5175` by default                 |
| `DSH_WEB_HOST`      | tray    | the host, `127.0.0.1` by default            |
| `DSH_WEB_WORKSPACE` | desktop | the workspace, the home directory by default |

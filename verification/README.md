# dsh_multiver

A manager for side-by-side installed versions of the `dsh` command line tool: it keeps
each version in its own directory under a data root, installs them with pnpm, runs
them in embedded windows or a browser, writes the terminal forward script `dsh.cmd`
for the default version, and can give a version its own isolated `DSH_HOME`.

- `src/` is the library, verified with Verus: configuration and derived directories
  (`config`), the forward script and the registry listing (`actions`), environment
  checks (`envcheck`), version order, install progress and reports (`versions`),
  launching and shortcuts (`launcher`), window labels, the injected top bar and the
  per-window process table (`window`), the step order of opening or restarting a
  window (`launch`) and of an install (`install`) as state machines, command replies
  (`commands`), and the text and path primitives they rest on (`text`, `paths`).
- `app/` is the Tauri desktop program around it: file system, processes, dialogs,
  windows and JSON persistence. It runs the state machines of `launch` and `install`,
  doing the work of each action they give and handing back what it came to.
- `tests/` exercises the library on concrete values.

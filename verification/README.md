# napcat_winboot

The decisions of a launcher that starts QQ with a hook library in it, and of that library, verified
with Verus.

- `src/` is the library. What only the system can do (memory, processes, the registry, files) is not
  in it: each piece of work is a state that names the call that is due, and a `step` that takes the
  call's outcome. The contracts give the next state for every outcome. Most hold of every state;
  `Recall::step` and `ExplicitSearch::step` ask for a well-formed one, whose index lies inside its
  list, and `Recall::step` also that the place that was found leaves room for the patch, which
  `law_found_place_has_room` proves of every place that the search finds. The other `law_*`
  functions prove what holds of whole runs.
- `app/` makes the calls and hands their outcomes back: `main.rs` is the launcher, `lib.rs` the hook
  library.
- `tests/` runs the library on concrete values.

| module          | what it holds                                                          |
|-----------------|------------------------------------------------------------------------|
| `pattern`       | byte patterns with wildcards                                           |
| `memory`        | which regions of memory can be read                                    |
| `module_search` | the search for the one place in a module where a pattern fits          |
| `patch`, `hook` | the patches, how they are written and counted, the hook's thread       |
| `reapply`       | why patches that have been applied are not found again                 |
| `registry`      | paths and strings out of the registry                                  |
| `locate`        | where the program is looked for, and in which order                    |
| `inject`        | bringing a library into another process                                |
| `launch`        | the launcher's run from beginning to end                               |
| `wide`, `text`, `message`, `win32` | UTF-16, white space and letters, messages, system constants |

# lock_screen_carousel

A lock screen carousel for Windows: a settings window picks pictures, how the
next one is chosen (in order or at random) and when the lock screen changes
(never, every few minutes, or at every unlock); a scheduled task then moves the
lock screen on to the next picture.

- `src/` is the library: the settings codes and their round trips (`lib.rs`),
  the names of the stored settings (`registry.rs`), the choice of the next
  picture (`task.rs`), what the task scheduler is asked for and the ISO 8601
  repetition interval (`task_scheduler.rs`), the state machine of the settings
  window and the saving of its list of pictures (`app_state.rs`), the file name
  of a Windows path (`path.rs`), and a holder of a closure (`utils.rs`).
- `app/` is the Windows program around it: registry access, COM calls to the task
  scheduler, the lock screen API, the user interface, and the guard that runs a
  closure when it goes out of scope.
- `tests/` exercises the library.

# xkbcompose

Keyboard composition and X11 support logic, verified with Verus.

- `src/` is the verified library:
  - `compose`: the compose state machine (dead keys and the Compose key,
    composing algorithmically), with laws on what it composes;
  - `compose_map`: the compose and locale tables as finite maps;
  - `compose_parse`, `locale`, `visited`: the compose file format, the
    locale index files, the choice of a locale's compose file, and the set
    of files already read;
  - `xid`: the X resource id allocator, with laws that ids are distinct and
    stay in the client's range;
  - `xkb_compose`, `xkb_state`, `xkb_ffi`: the status values and
    libxkbcommon types of the keyboard layer;
  - `build_support`: the decisions of the vendored X11 build (configure
    and meson options, meson cross file, quilt series, source directory
    and glob matching);
  - `keysym`, `text`: keysym facts from `xkeysym` and character-level text
    helpers.
- `app/` holds what touches the outside world: environment variables,
  files, libxkbcommon through `xkbcommon-dl`, the process-wide id allocator
  and the child processes of the build.
- `tests/` runs the library on concrete values.

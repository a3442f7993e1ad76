# diri-app

The text fields of the diri desktop client, and the decisions it makes when it
starts, written in Verus.

- `src/query_editor.rs`: the single-line field behind the command palette and
  Quick Open; `src/keymap.rs`: the key map that all query fields share.
- `src/composer.rs` and `src/wrap.rs`: the multi-line prompt field and the visual
  lines it is broken into.
- `src/utf8.rs`, `src/controls.rs`, `src/segments.rs`: byte offsets, control
  characters, and grapheme clusters and words. `segments.rs` holds all that is
  trusted of the `unicode_segmentation` crate and of `char`.
- `src/startup.rs`, `src/window.rs`, `src/menus.rs`, `src/usage_refresh.rs`: the
  preview switch, the main window, the application menus, and when the usage
  transcripts are read again.
- `src/*_laws.rs`: what holds of the fields whatever is done to them.
- `app/`: the client around the library, drawn with gpui. Its views, session store,
  updater and usage reader are modules that are not part of this tree.

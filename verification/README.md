# bevy_minibuffer

A developer console for the Bevy game engine, in the manner of the minibuffer
of classic Unix text editors: acts (commands) are run by name or by key chord
sequences, prompts offer tab completion, a universal argument prefixes acts
with a number, and a tape recorder records acts to play them back.

The console's logic lives in `src/` with its contracts, proved by Verus:

- `lookup`, `trie`, `autocomplete`: completion over word lists and tries, and
  what keys do in a completing prompt.
- `acts`, `flags`, `hotkey`, `keys`, `defaults`: acts, their builders,
  flags and hotkeys, key chords, and the act sets offered.
- `basic`, `cache`, `listing`: running acts by name, describing keys, and the
  tables of acts and key bindings.
- `event`, `universal`, `tape`: run requests, the universal argument and the
  tape recorder.
- `prompt`, `stack`, `style`: prompt visibility, a stack of prompts, and the
  look of prompt sections.

`app/` holds the engine glue: resources, systems and the plugin that feed the
library what the engine reads and carry out what it decides.

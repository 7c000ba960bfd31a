# parrot

The verified core of Parrot, an offline push-to-talk dictation app: hold a
hotkey, speak, release, and the text is pasted into the focused window.

`src/` is the library, checked by Verus:

| Module | What it holds |
| --- | --- |
| `text` | cleaning whisper's output: noise markers removed, whitespace collapsed |
| `catalog` | the downloadable models and the lookup by file name |
| `download` | model URLs, `.partial` paths, `content-length`, progress, completeness |
| `settings` | the user's settings, their defaults and the changes the UI makes |
| `transcribe` | thread count, minimum length, language, transcript, model path |
| `shortcut` | accelerator validity and how to move the hotkey binding |
| `session` | hotkey debouncing, the download guard, and the status lines |
| `recorder` | the microphone thread's start/stop bookkeeping |
| `paste` | the clipboard-and-keystroke sequence of a paste |
| `paths` | path operations, as calls into `std::path` |

`app/` is the Tauri application around it: audio capture, resampling (float
arithmetic), whisper, the clipboard, HTTP and the file system.

`Cargo.toml` leaves out `tauri` and `tauri-plugin-global-shortcut`, which
`app/` uses: with them the dependency tree is over the size this build
accepts. The hotkey parser the library calls comes from `global-hotkey`,
the crate whose `HotKey` the plugin's `Shortcut` is.

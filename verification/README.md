# soji

Soji is a sticker picker for Windows: a global shortcut (Alt+Space) opens a small window
next to the text caret, the user searches a folder of images, and the chosen
sticker is pasted into the application that had the focus.

This crate holds the picker's decision logic as a verified library
(`src/`, checked with Verus), and the Tauri application around it (`app/`).

## Library modules

- `webp` – animated WebP / APNG detection from a file's bytes.
- `media` – which extensions are stickers, the 25 MiB limit, thumbnail sizes
  (never upscaled, short side 160) and thumbnail names.
- `render` – decoding, scaling and WebP encoding of still thumbnails.
- `hashing` – the SHA-256/hex name of a sticker's thumbnail.
- `library` – one indexing run: what is new, what needs a thumbnail, what left.
- `database` – the SQL statement (and parameters) of every index operation.
- `search` – fuzzy matching of the query against sticker and pack names,
  ranked by match quality; favourites whose file is gone are dropped.
- `ingest` – drag and drop: web addresses, local paths, size/type checks.
- `names` – sanitizing typed sticker names.
- `edits` – checks of moves, renames and new stickers inside the library.
- `clipboard` – what is pasted, and which clipboard formats are saved.
- `placement` – where the window appears, kept on the caret's monitor.
- `probe` – the duration fields of ffmpeg's report on a video.
- `watcher` – the folder watcher's debounce state machine.
- `settings`, `models`, `text` – settings choices, records, string helpers.

`app/` performs the I/O: files, SQLite, HTTP, ffmpeg, the clipboard, the
window and the keyboard.

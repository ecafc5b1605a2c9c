# giant_file_exchange

A desktop client that uploads files and snippets of text to a company's file
exchange. `src/` is a library verified with Verus; `app/` is the program around
it: the window, the files, the network and the system.

| Module | What it holds |
| --- | --- |
| `text`, `number`, `json` | texts as sequences of characters, numbers in text, JSON values |
| `config`, `config_laws`, `hotkey_laws` | the settings, tokens and hotkeys |
| `model`, `queue`, `queue_laws` | upload tasks, and the queue that works on them one at a time |
| `api`, `api_laws` | what is sent to the server, and what its responses say |
| `usage` | how the dates of a usage report are shown |
| `app` | the application's state, what each event makes of it, and what the pages say |
| `windows` | the clipboard, stored secrets, the pipe between instances, notifications, the context menu |
| `branding`, `packaging`, `logging` | the icon and its file, the default address, log lines |

Whatever touches the outside world is done in `app/`, which hands the library
plain values and does what it asks for. Amounts, speeds and progress bars are
floating-point numbers only there: the library keeps the texts of amounts, bytes
over nanoseconds, and shares of a whole.
`app/packaging.rs` is what a release runs before it compiles the program.

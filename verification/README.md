# bletchmame

The logic of BletchMAME, a front end for the MAME emulator, as a verified library.
Every function in `src/` carries a contract, except the two that set and read a
cancellation flag shared between threads: what they see depends on other threads.
Publishing on a channel states that every subscriber in a slot has been called with the
published value. Verus proves the contracts, except those of the few small wrappers that
call outside crates (checksums, hex, unit formatting, host name checks), whose
contracts restate what those crates document.

- `src/`: the library.
  - `assethash`, `chd`, `audit`: checksums of assets, CHD headers, the assets a
    machine configuration needs, where the audit looks for them, and its findings.
  - `collections`, `history`, `prefs`: folder and built-in collections, and the
    browsing history.
  - `devimageconfig`, `mconfig`: the devices and images of a machine and their slot
    configuration.
  - `dialogs`: the logic behind the dialogs (input sequences and clusters, the two
    axes of analog controls, cheats, configuration choices and the machines that may
    run a piece of software, switches, paths, file filters, built-in collections,
    sequence polling, new collection names, socket addresses, message boxes).
  - `history_xml`: reading `history.xml` and turning its texts into Markdown.
  - `diagnostics`: scripts of MAME commands.
  - `channel`, `canceller`: a publish/subscribe channel and a cancellation flag.
  - `appstate`: the application's state machine (InfoDB builds, the MAME session,
    audits, failures), the work each event asks for, and the report shown.
  - `appwindow`, `backend`, `console`, `error`, `icon`, `guiutils`: settings parsed
    from the command line, what the menus show, console styles, error messages and
    menu accelerators.
  - `text`, `xml`: text helpers and XML events shared by the readers.
- `tests/`: tests of the library.
- `app/`: a small command-line program that prints the checksums of asset files.

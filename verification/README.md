# Release notifier

Watches a directory for release notifications (HTML files), adds the magnet links in them to
qBittorrent, and downloads the videos in them with yt-dlp and N_m3u8DL-RE.

- `src/` is the library: everything that is decided or computed, with contracts that Verus proves.
  - `text`, `unicode`, `duration`: character sequences, letter case and UTF-8, spans of time
  - `filter`: terms that a text has to contain, or must not contain
  - `names`, `name_laws`: file names built from titles, and what holds of all of them
  - `url`, `page`, `page_laws`: links, the magnet links and video entries of a page, and what holds
    of all pages
  - `downloaders`, `videos`, `commands`, `command_laws`: which program downloads a link, the
    downloads for a page, the outcome of a program with its repetitions, and what holds of the end
    of all output
  - `files`: the steps for a notification file, and the files of a directory
  - `report`, `email`: problems and how they are reported
  - `qbittorrent`: requests and sessions
  - `maintenance`, `dry_run`, `config`: updates and cleanup, the description of a file, the
    configuration
- `app/` is the program: it reads `config.yml`, performs the steps that the library plans, and hands
  their outcome back.
- `tests/` runs the library.

What is not proved is what other code does. It stands in functions and declarations of its own, each
with a comment that says what is relied on: letter case and UTF-8 of the standard library
(`unicode`), `String::push` (`text`), HTML selection with scraper (`page`), links with reqwest
(`url`) and mailboxes with lettre (`email`).

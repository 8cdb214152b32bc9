# soulseek_rs

Finding music on the Soulseek network, fetching it, and cleaning a collection of
it. The rules of all this are a Verus library: executable Rust whose behaviour is
stated in contracts and proved.

- `src/` is the library.
  - `soulseek/` is the network: messages and their wire form, the actors that own
    the connections, the clients and workers that keep searches and downloads,
    the listener, and the fetch of a file.
  - `song/` looks for songs and ranks what is offered; `downloader.rs` fetches a
    list of tracks.
  - `musicbrainz/` and `cover_art.rs` identify tracks and find their covers;
    `cleaner/` checks, tags and files a collection.
  - `text.rs`, `text_match.rs`, `punctuation.rs`, `edit_distance.rs`, `md5.rs`,
    `time.rs` and `lists.rs` are what the rest is built on.
- `tests/` are its tests.
- `app/` is the program around it: sockets, files, tags, services and the
  terminal. It performs the steps that the library decides on and reports back what
  came of them.

State machines are written as a step from a state and an event to the next state and
the actions that follow. The model of a state and its step are spec functions; the
laws, such as that no more downloads run than are allowed, are public proof functions
next to them.

What is not proved is stated where it is called: the functions marked
`external_body`, each with what is claimed of the function it calls.

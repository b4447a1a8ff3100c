# Cosmic Sim

A terminal space-exploration game: you fly the Perihelion I from Mars toward
the stars, with two companion consciousnesses and the ship's AI, ARIA.

- `src/` is the verified library: the conversation state of the ship's
  AI and the companions, the `<effect>` tag grammar of their replies, the
  companion letters and their triggers, journey milestones, the calendar
  arithmetic behind save timestamps, save-file naming and ordering, technology
  unlocks, the main-menu key table and the chat-channel commands, the reading
  of the messages API's stream events and error bodies, the
  labels of spectral classes, planet types and risk levels, and the names of
  stars and planets.
- `app/` is the program around it: the terminal loop, HTTP calls to the
  messages API, files on disk, and all floating-point physics (orbits,
  relativity, atmospheres, cargo masses, fuel).
- `tests/` exercises the library on concrete values.

# voice_assistant

A voice assistant that listens on the microphone, recognises Russian speech with Vosk,
answers with recorded phrases and carries out spoken commands ("открой ютуб",
"найди погоду в москве", "посчитай два плюс два", "заверши", "режим сна").

- `src/` is the verified library (Verus): parsing a command into the action to take
  (`commands`, `console::commands`), the listener of the desktop assistant as a state
  machine from what it hears to what it asks for (`voiceinput`), the decision to stop
  recording in the console assistant (`console::voiceinput`), the phrase recordings and
  playback pauses (`voiceoutput`), the two controls of the desktop assistant (`session`),
  and the text operations they rest on, each proved against its specification (`text`).
- `app/` is the program around it: microphone (cpal), recogniser (vosk), sound output
  (rodio), threads and the async runtime (tokio), and starting programs.
  `app console` runs the console assistant; without an argument the desktop assistant
  reads its two controls from standard input, one per line: `1` switches general listening
  on or off, `2` takes one command at once.
- `tests/` runs the library on concrete commands and conversations.

# scribecli

Local meeting recording and transcription on macOS: native screen and microphone capture, a local
`whisper.cpp`, and no backend.

The crate has two parts.

- `src/` is the library, written in Verus. It holds every decision of the program: what is configured
  and what is in effect, where tools and models are found, what a timestamped transcript means, what
  is recorded, mixed, transcribed, installed and removed, in which order, and what is reported. Each
  function states what it returns for every input; the few that read the clock, or ask the operating
  system for a directory, state what holds whatever the answer is. The properties that span several
  functions are proved as `law_...` functions at the end of each module.
- `app/` is the program around it: arguments, files, processes, the network and the terminal. It
  looks at the paths that the library names, hands over what is there as plain values, and does what
  the library says.

Paths are text here. One that is not valid UTF-8 is text too: `encoding` says how its bytes are
written, so that none is lost, and `app/` hands the operating system the very same bytes back.

| Module | What it decides |
|---|---|
| `text`, `encoding`, `path`, `json`, `error`, `tool`, `disk` | the plain values that everything else is about |
| `config`, `commands` | stored and effective configuration, and the commands on it |
| `detect` | where `whisper-cli` and models are found |
| `whisper` | what `whisper-cli` prints, and who speaks |
| `audio`, `native` | what `ffmpeg` and the capture helper are asked, and what they answer |
| `session`, `recording`, `background`, `transcribe` | sessions, from naming to report |
| `setup`, `models`, `cleanup`, `doctor` | managed tools, models and state |

# voice_assistant

The verified core of an ESP32 voice assistant: the board records speech,
has it transcribed by a speech-recognition service, asks a language model,
has the reply synthesised and plays it back; a small web server lets the
user pick a Wi-Fi network and the voice settings.

- `src/` is the library, written in Verus and verified: the decisions of
  every stage (microphone state machine and voice-activity hangover,
  utterance buffering, chunking, sentence splitting, transcript clean-up),
  the text frames of the speech services' websocket protocol and the chat
  request body, the Wi-Fi join state machine and scan listing, the
  content types of the static files, the serial number, and the web
  server's response envelope.
- `app/` is the firmware around it: peripherals, Wi-Fi, NVS flash, the HTTP
  server and clients, the websocket clients and the async tasks. It uses
  the ESP-IDF crates, which build only for the ESP32 target.
- `tests/` runs the library on concrete inputs.

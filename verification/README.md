# Lexia

Lexia reads PDF, TXT and MD documents and asks Google's Gemini model for a summary
or for the key points, from the command line or through a small web server.

- `src/` is the verified library (Verus): path and extension rules, text extraction
  rules, trimming and line splitting, prompt construction with its byte limit, the
  request and the interpretation of the model's reply, the web endpoint's form
  handling and answers, and the layout of results.
- `app/` is the program around it: argument parsing, file and network I/O, the
  Axum server, the HTTP client and the terminal output.
- `tests/` exercises the library on concrete values.

Scope and limits:

- Paths are read by the rules of the platform the program runs on: on Unix only `/`
  separates components; on Windows `/` and `\` do, after a drive, share, device or
  verbatim prefix (`PathStyle` in `src/path.rs`).
- PDF text comes from `pdf-extract`, called by the program in `app/`. That crate
  panics on some malformed documents, and nothing about the bytes tells those
  documents apart beforehand, so the library makes no call that can panic: it decides
  that a file or an upload is a PDF, and it takes the outcome of the extraction (the
  text or the error's message) as an argument. A malformed PDF can still end the
  program or the request in `app/`, as it did before.

# HexAi

A local AI assistant with a REST service, a terminal interface and a builder for
its Python counterpart. The decisions of the program are a library whose contracts
are proved with Verus; everything that touches the network, the disk, the clock of
the terminal or a floating-point number is a thin layer around it.

- `src/`: the library.
  - `text`, `store`: texts and keyed values.
  - `config`, `error`, `launcher`: settings, failures and how the program starts.
  - `engine`: which model answers, what it is sent and how its reply is read.
  - `tools`: the tools a model may call and the loop around them.
  - `memory`, `profiler`, `rag`: sessions, facts about users, the knowledge base.
  - `auth`, `router`, `static_gui`, `state`: the service.
  - `tui`: the terminal interface.
  - `builder`: the packer of the Python service.
  - `outside`: the calls into other crates, with what is believed of them.
- `tests/`: the library at work.
- `app/`: the program.

# drover

The backend logic of Drover, an agentic terminal, as a library verified with
Verus: every parser, prompt builder, command builder and reply reader states
what it returns in its contract, and Verus proves it.

- `src/` is the verified library, one module per concern:
  - `text`, `num`: the string and number primitives the parsers share
    (`str::lines`, `split_whitespace`, `trim`, `find`, `parse`, decimal
    printing), each specified over `Seq<char>`.
  - `files`: home-relative paths, the directory listing order (proved sorted
    and a permutation of its input), remote file commands and their replies,
    size limits, and base64.
  - `shell`: `sh` quoting (proved to read back as the quoted text), terminal
    launch settings, and the detection of `ssh` sessions.
  - `cert`, `curl`, `dns`, `whois`, `ports`, `ping`: the network tools'
    command lines and the readers of their output.
  - `json`: JSON values as plain data, read by serde_json.
  - `mcp`: MCP servers and tokens, the configuration file (the JSON written
    for a list of servers is proved to load back as those servers; serde_json
    then keys the file's object by name, so on disk the servers come back
    sorted by name and one per name), JSON-RPC framing and the reading of
    replies.
  - `diff`: the numbered line diff of a code edit (its old and new sides are
    proved to join back into the two texts) and its summary.
  - `ai`: the assistant's prompts, messages, endpoints and reply readers.
- `tests/` runs the library on concrete inputs.
- `app/` is the I/O around it: processes, files, pseudo-terminals and HTTP,
  with serde mirrors of the library's types for the front end.

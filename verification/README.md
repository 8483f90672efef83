# sendmail_mcp

An MCP server that offers one tool per contact and channel
(`send_to_<name>_via_<channel>`) for sending messages to a fixed contact
book. The agent sees contact and channel in the tool name, never the
address; there is no tool with a free address or channel.

Layout:

- `src/` — the verified library (Verus): the contact-book rules
  (`config`, `slug`), the channel definitions and address checks
  (`channels`), SMTP and Telegram settings and texts (`smtp`, `telegram`),
  the bearer-token check (`auth`), the log line (`logging`), the tool list
  and tool-call checks (`mcp_server`), the start-up decisions (`startup`)
  and the text and number helpers they rest on (`text`, `numbers`, `order`).
- `app/` — the program around it: reading config.toml and the
  environment, the HTTP router and MCP transport, and the network calls of
  the channels.
- `tests/` — tests of the library.

# koid

The core of Koid, a desktop chat client for language-model providers, as a
library verified with Verus.

- `src/` holds the logic, each function with its contract: provider and
  model records, request bodies for the OpenAI, Responses and Anthropic
  APIs, the streaming parsers for their event lines, tool-call repair and
  the DSML tool-call syntax, failover between providers, the skill runner's
  decisions, workspace path rules and the agent's file tools, prompt
  templates, plugin rules, the MCP JSON-RPC messages, the encrypted backup
  format, and the registries of running requests.
- `app/` is the unverified shell around it: the SQLite database, files,
  HTTP, child processes and the event loop, calling into the library for
  every decision.
- `tests/` runs the library on concrete values.

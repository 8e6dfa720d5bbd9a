# agent_core

The core of a coding agent, written and proved in Verus.

- `src/session.rs`: sessions, how they begin, and the subagents that they can delegate to
- `src/round.rs`: rounds of tool calls, from the calls of an answer to the messages that answer them
- `src/delegate.rs`: tasks that are handed to a subagent, and the result that comes back
- `src/roles.rs`: the `delegate` tool, as a model is told of it
- `src/event.rs`: what a running session reports, and how a terminal shows it
- `src/prompt.rs`: the system prompt
- `src/gitignore.rs`: gitignore rules
- `src/util.rs`: truncation and frontmatter
- `src/message.rs`, `src/text.rs`: messages and tool definitions; strings
- `src/outside.rs`: the calls into other crates, whose contracts are believed and not proved

The library decides and computes; it starts no task, opens no file and prints nothing. `app/` does:
it carries out what the library decides and hands back what came of it. The loop in which a session
talks to its model, the store and the clients come from the program that embeds it.

Costs are double-precision numbers. The library carries their bits and compares them; `app/` adds
them up.

# zeroclaw_agents

How an agent runtime puts together an agent's personality and hands subtasks
from one agent to another.

- `src/` is the library: the decisions, each with a contract that Verus proves.
  Calls into other crates stand in small functions whose contracts are taken on
  trust; their doc comments say what is claimed.
  - `persona_bundles`, `personality`: where persona bundles live, and which
    personality file wins among an agent's workspace and its bundles.
  - `guard`, `evidence`, `narrowing`: whether an agent may delegate to another.
    Delegation only narrows: a target runs under its own policy, which must not
    exceed the caller's. `evidence` gathers what the guard has to know about the
    two and asks it; `narrowing` states what the guard guarantees.
  - `arguments`, `roster`: what a tool call asks for, and which agents are
    offered.
  - `dispatch`, `parallel`, `tasks`, `prompt`: the steps of a run in the
    foreground, of several runs at once and in the background.
  - `delegate`, `policy`, `schema`: the tool, policies and configuration.
  - `text`, `paths`, `table`: what the rest is built on.
- `app/` is the runtime round it: files, tasks, model providers. It also turns
  the platform's paths into the path texts of the library and back.
- `tests/` runs the library.

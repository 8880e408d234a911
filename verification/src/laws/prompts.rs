//! Laws of prompts.

use std::sync::Arc;

use vstd::prelude::*;

use crate::delegate::DelegateTool;
use crate::laws::policies::{lemma_lists, lists};
use crate::laws::texts;
use crate::paths;
use crate::personality;
use crate::personality::FileSnapshot;
use crate::prompt;
use crate::prompt::{ChatMessage, ChatRole, SkillSources, ToolPrompt};
use crate::schema::{AliasedAgentConfig, Config};
use crate::text;

verus! {

/// The names of the files that say who an agent is, in the order of its prompt.
pub open spec fn identity_names() -> Seq<Seq<char>> {
    seq![
        "AGENTS.md"@,
        "SOUL.md"@,
        "IDENTITY.md"@,
        "USER.md"@,
        "TOOLS.md"@,
        "BOOTSTRAP.md"@,
        "MEMORY.md"@,
    ]
}

pub(crate) proof fn lemma_identity_names()
    ensures
        personality::names_of(prompt::IDENTITY_FILES@) == identity_names(),
{
    assert(personality::names_of(prompt::IDENTITY_FILES@) =~= identity_names());
}

/// Whether a text has something besides whitespace.
pub open spec fn says_something(s: Seq<char>) -> bool {
    exists|i: int| 0 <= i < s.len() && !text::is_blank(#[trigger] s[i])
}

/// Whether a directory holds a file that says something.
pub open spec fn provides(files: FileSnapshot, dir: Seq<char>, name: Seq<char>) -> bool {
    &&& files.text_at(paths::joined(dir, name)) is Some
    &&& says_something(files.text_at(paths::joined(dir, name))->0)
}

/// What such a file says, without the whitespace round it.
pub open spec fn said(files: FileSnapshot, dir: Seq<char>, name: Seq<char>) -> Seq<char> {
    text::trimmed(files.text_at(paths::joined(dir, name))->0)
}

pub(crate) proof fn lemma_provides(files: FileSnapshot, dir: Seq<char>, name: Seq<char>)
    ensures
        personality::layer_file(files, dir, name) is Some <==> provides(files, dir, name),
        provides(files, dir, name) ==> personality::layer_file(files, dir, name) == Some(
            (paths::joined(dir, name), said(files, dir, name)),
        ),
{
    if let Some(raw) = files.text_at(paths::joined(dir, name)) {
        texts::blank_exactly(raw);
    }
}

/// Texts under each other: each one is followed by an empty line.
pub open spec fn laid_out(parts: Seq<Seq<char>>) -> Seq<char>
    decreases parts.len(),
{
    if parts.len() == 0 {
        seq![]
    } else {
        laid_out(parts.drop_last()) + parts.last() + "\n\n"@
    }
}

/// What the files of a directory say, in order, of those that say something.
pub open spec fn all_said(files: FileSnapshot, dir: Seq<char>, names: Seq<Seq<char>>) -> Seq<
    Seq<char>,
>
    decreases names.len(),
{
    if names.len() == 0 {
        seq![]
    } else if provides(files, dir, names.last()) {
        all_said(files, dir, names.drop_last()).push(said(files, dir, names.last()))
    } else {
        all_said(files, dir, names.drop_last())
    }
}

proof fn lemma_identity_part(files: FileSnapshot, dir: Seq<char>, names: Seq<Seq<char>>)
    ensures
        prompt::identity_part(files, dir, names) == laid_out(all_said(files, dir, names)),
    decreases names.len(),
{
    if names.len() > 0 {
        let front = names.drop_last();
        lemma_identity_part(files, dir, front);
        lemma_provides(files, dir, names.last());
        if provides(files, dir, names.last()) {
            let before = all_said(files, dir, front);
            assert(before.push(said(files, dir, names.last())).drop_last() =~= before);
        }
    }
}

spec fn workspace_in(config: Arc<Config>, alias: Seq<char>) -> Seq<char> {
    config.workspace_of(alias)
}

proof fn lemma_said_is_laid_out(
    files: FileSnapshot,
    dir: Seq<char>,
    names: Seq<Seq<char>>,
    i: int,
) -> (at: int)
    requires
        0 <= i < names.len(),
        provides(files, dir, names[i]),
    ensures
        ({
            let part = prompt::identity_part(files, dir, names);
            let content = said(files, dir, names[i]);
            0 <= at && at + content.len() <= part.len() && part.subrange(at, at + content.len())
                == content
        }),
    decreases names.len(),
{
    let part = prompt::identity_part(files, dir, names);
    let content = said(files, dir, names[i]);
    let front = names.drop_last();
    let before = prompt::identity_part(files, dir, front);
    lemma_provides(files, dir, names.last());
    if i == names.len() - 1 {
        let at = before.len() as int;
        assert(part.subrange(at, at + content.len()) =~= content);
        at
    } else {
        assert(front[i] == names[i]);
        let at = lemma_said_is_laid_out(files, dir, front, i);
        assert(part.subrange(at, at + content.len()) =~= before.subrange(at, at + content.len()));
        at
    }
}

/// Whatever tools an agent has, every identity file of its workspace that says
/// something is in its prompt.
pub proof fn prompt_holds_every_identity_file(
    tool: DelegateTool,
    alias: &str,
    agent: AliasedAgentConfig,
    tool_names: Vec<String>,
    sends_native: bool,
    operational: &str,
    files: FileSnapshot,
    r: Option<String>,
    config: Arc<Config>,
    i: int,
)
    requires
        call_ensures(
            DelegateTool::build_enriched_system_prompt,
            (&tool, alias, &agent, &tool_names, sends_native, operational, &files),
            r,
        ),
        tool.root_config == Some(config),
        0 <= i < identity_names().len(),
        provides(files, config.workspace_of(alias@), identity_names()[i]),
    ensures
        r is Some,
        text::occurs_in(
            said(files, config.workspace_of(alias@), identity_names()[i]),
            r->0@,
        ),
{
    lemma_identity_names();
    let dir = workspace_in(config, alias@);
    let identity = tool.identity_of(files, alias@);
    let shell = prompt::describes_tools(agent, sends_native) && tool_names.deep_view().contains(
        "shell"@,
    );
    identity_survives(files, dir, i, operational@, shell, identity);
    assert(text::optional(r) == prompt::whole_prompt(operational@, shell, identity));
}

/// The same of a prompt put together of its parts.
pub proof fn identity_survives(
    files: FileSnapshot,
    dir: Seq<char>,
    i: int,
    operational: Seq<char>,
    shell: bool,
    identity: Seq<char>,
)
    requires
        0 <= i < identity_names().len(),
        provides(files, dir, identity_names()[i]),
        identity == prompt::identity_part(files, dir, identity_names()),
    ensures
        prompt::whole_prompt(operational, shell, identity) is Some,
        text::occurs_in(
            said(files, dir, identity_names()[i]),
            prompt::whole_prompt(operational, shell, identity)->0,
        ),
{
    let content = said(files, dir, identity_names()[i]);
    let raw = files.text_at(paths::joined(dir, identity_names()[i]))->0;
    texts::blank_exactly(raw);
    text::trimming_is_final(raw);
    let front = operational + prompt::shell_part(shell);
    let all = front + identity;
    let at = lemma_said_is_laid_out(files, dir, identity_names(), i);
    let k = front.len() + at;
    assert(all.subrange(k, k + content.len()) =~= content);
    assert(all[k] == content[0]);
    assert(all[k + content.len() - 1] == content.last());
    texts::trimming_keeps_inner(all, k, content.len() as int);
}

/// What an agent that has a shell is told of it.
pub open spec fn shell_rules() -> Seq<char> {
    "## Shell Policy\n\n- Prefer non-destructive commands. Use `trash` over `rm` where possible.\n- Do not run commands that exfiltrate data or modify system-critical paths.\n- Avoid interactive commands that block on stdin.\n- Quote paths that may contain spaces."@
}

/// A prompt is the operational sections, the rules for a shell where the agent is
/// told of a tool of that name, and what the identity files of its workspace say,
/// in this order; nothing stands in front or behind but for whitespace that is
/// cut off. Where nothing is said there is no prompt.
pub proof fn prompt_is_laid_out(
    tool: DelegateTool,
    alias: &str,
    agent: AliasedAgentConfig,
    tool_names: Vec<String>,
    sends_native: bool,
    operational: &str,
    files: FileSnapshot,
    r: Option<String>,
)
    requires
        call_ensures(
            DelegateTool::build_enriched_system_prompt,
            (&tool, alias, &agent, &tool_names, sends_native, operational, &files),
            r,
        ),
    ensures
        ({
            let told = lists(tool_names, "shell"@) && (sends_native
                || !agent.resolved.strict_tool_parsing);
            let rules = if told {
                seq![shell_rules()]
            } else {
                seq![]
            };
            let identity = if tool.root_config is Some {
                all_said(files, tool.root_config->0.workspace_of(alias@), identity_names())
            } else {
                seq![]
            };
            let all = operational@ + laid_out(rules) + laid_out(identity);
            &&& says_something(all) <==> r is Some
            &&& r is Some ==> r->0@ == text::trimmed(all)
        }),
{
    lemma_identity_names();
    lemma_lists(tool_names, "shell"@);
    let told = lists(tool_names, "shell"@) && (sends_native || !agent.resolved.strict_tool_parsing);
    let rules = if told {
        seq![shell_rules()]
    } else {
        seq![]
    };
    assert(laid_out(rules) =~= prompt::shell_part(told)) by {
        if told {
            assert(rules.drop_last() =~= seq![]);
            assert(laid_out(rules.drop_last()) =~= seq![]);
        }
    }
    if let Some(config) = tool.root_config {
        lemma_identity_part(files, workspace_in(config, alias@), identity_names());
    }
    let all = operational@ + prompt::shell_part(told) + tool.identity_of(files, alias@);
    texts::blank_exactly(all);
    if tool.root_config is None {
        assert(laid_out(seq![]) == Seq::<char>::empty());
    }
}

/// A prompt describes tools where they are sent natively or may be written as
/// text, and holds the rules for a shell only where it describes one.
pub proof fn tools_are_described_where_they_can_be_called(
    agent: AliasedAgentConfig,
    tool_names: Vec<String>,
    sends_native: bool,
    r: ToolPrompt,
)
    requires
        call_ensures(prompt::plan_tools, (&agent, &tool_names, sends_native), r),
    ensures
        r.describes_tools <==> sends_native || !agent.resolved.strict_tool_parsing,
        r.native <==> sends_native && tool_names@.len() > 0,
        r.shell_policy <==> r.describes_tools && lists(tool_names, "shell"@),
{
    lemma_lists(tool_names, "shell"@);
}

/// A run opens with the system prompt, where there is one, and then the task.
pub proof fn run_opens_with_system_and_task(
    system: Option<String>,
    task: &str,
    r: Vec<ChatMessage>,
)
    requires
        call_ensures(prompt::opening_messages, (system, task), r),
    ensures
        r@.len() == if system is Some {
            2
        } else {
            1int
        },
        r@.last().role == ChatRole::User,
        r@.last().content@ == task@,
        system matches Some(s) ==> r@[0].role == ChatRole::System && r@[0].content@ == s@,
{
    let shown = prompt::messages_view(r@);
    assert(shown.len() == r@.len());
    assert(shown[0] == (r@[0].role, r@[0].content@));
    assert(shown.last() == (r@.last().role, r@.last().content@));
}

/// The identity files are looked for in the agent's workspace, by name, in order.
pub proof fn identity_is_looked_for_in_the_workspace(
    tool: DelegateTool,
    alias: &str,
    r: Vec<String>,
)
    requires
        call_ensures(DelegateTool::identity_paths, (&tool, alias), r),
    ensures
        tool.root_config is None ==> r@.len() == 0,
        tool.root_config matches Some(config) ==> {
            &&& r@.len() == 7
            &&& forall|i: int|
                0 <= i < 7 ==> (#[trigger] r@[i])@ == paths::joined(
                    config.workspace_of(alias@),
                    identity_names()[i],
                )
        },
{
    lemma_identity_names();
    assert(r.deep_view().len() == r@.len());
    if let Some(config) = tool.root_config {
        assert forall|i: int| 0 <= i < 7 implies (#[trigger] r@[i])@ == paths::joined(
            config.workspace_of(alias@),
            identity_names()[i],
        ) by {
            assert(r.deep_view()[i] == r@[i]@);
        }
    }
}

/// Skills are read from the directories of the agent's skill bundles, taken from
/// the workspace, and from the default place exactly when there is none.
pub proof fn skills_come_from_the_bundles(
    tool: DelegateTool,
    agent: AliasedAgentConfig,
    workspace_dir: &str,
    r: SkillSources,
    dirs: Vec<String>,
)
    requires
        call_ensures(DelegateTool::skill_sources, (&tool, &agent, workspace_dir), r),
        call_ensures(
            DelegateTool::resolve_skill_bundle_dirs,
            (&tool, &agent.skill_bundles),
            dirs,
        ),
    ensures
        r is WorkspaceDefault <==> dirs@.len() == 0,
        r matches SkillSources::Directories(found) ==> {
            &&& found@.len() == dirs@.len()
            &&& forall|i: int|
                0 <= i < dirs@.len() ==> (#[trigger] found@[i])@ == paths::joined(
                    workspace_dir@,
                    dirs@[i]@,
                )
        },
{
    assert(dirs.deep_view().len() == dirs@.len());
    if let SkillSources::Directories(found) = r {
        assert(found.deep_view().len() == found@.len());
        assert forall|i: int| 0 <= i < dirs@.len() implies (#[trigger] found@[i])@ == paths::joined(
            workspace_dir@,
            dirs@[i]@,
        ) by {
            assert(found.deep_view()[i] == found@[i]@);
            assert(dirs.deep_view()[i] == dirs@[i]@);
        }
    }
}

} // verus!

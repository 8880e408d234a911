//! Laws of the tool: how it is put together, and what it makes of profiles,
//! providers and directories.

use std::sync::Arc;

use vstd::prelude::*;

use crate::delegate::{Brain, DelegateTool, ModelProviderRuntimeOptions, ProviderOptions};
use crate::laws::personas::same_texts;
use crate::laws::texts;
use crate::paths;
use crate::policy::SecurityPolicy;
use crate::schema::{
    AgentWorkspaceConfig, AliasedAgentConfig, Config, DelegateToolConfig, ModelProviderConfig,
    PersonaBundleConfig, ResolvedAgentSettings, RiskProfileConfig, RuntimeProfileConfig,
    SkillBundleConfig,
};
use crate::table::AliasTable;
use crate::text;

verus! {

/// A name is found in a table exactly when some entry has it, and then its value
/// is that of the entry.
pub proof fn table_finds_its_entries<V>(table: AliasTable<V>, key: &str, r: Option<&V>)
    requires
        call_ensures(AliasTable::<V>::get, (&table, key), r),
        table.wf(),
    ensures
        r is None <==> forall|i: int|
            0 <= i < table.contents().len() ==> (#[trigger] table.contents()[i]).0@ != key@,
        forall|i: int|
            0 <= i < table.contents().len() && (#[trigger] table.contents()[i]).0@ == key@ ==> r
                == Some(&table.contents()[i].1),
{
    let keys = table.keys();
    let all = table.contents();
    assert(keys.len() == all.len());
    assert forall|i: int| 0 <= i < all.len() implies keys[i] == (#[trigger] all[i]).0@ by {}
    assert forall|i: int| 0 <= i < all.len() && (#[trigger] all[i]).0@ == key@ implies r == Some(
        &all[i].1,
    ) by {
        assert(keys[i] == key@);
        assert(keys.contains(key@));
        assert(keys.index_of(key@) == i);
    }
    if keys.contains(key@) {
        let i = keys.index_of(key@);
        assert(all[i].0@ == key@);
    }
}

/// The names of a table are those of its entries, in order, and a name is in the
/// table exactly when it is one of them.
pub proof fn table_lists_its_names<V>(
    table: AliasTable<V>,
    names: Vec<String>,
    key: &str,
    holds: bool,
    count: usize,
    empty: bool,
)
    requires
        call_ensures(AliasTable::<V>::names, (&table,), names),
        call_ensures(AliasTable::<V>::contains_key, (&table, key), holds),
        call_ensures(AliasTable::<V>::len, (&table,), count),
        call_ensures(AliasTable::<V>::is_empty, (&table,), empty),
    ensures
        names@.len() == table.contents().len(),
        forall|i: int|
            0 <= i < names@.len() ==> (#[trigger] names@[i])@ == table.contents()[i].0@,
        holds <==> exists|i: int|
            0 <= i < table.contents().len() && (#[trigger] table.contents()[i]).0@ == key@,
        count == table.contents().len(),
        empty <==> count == 0,
{
    let keys = table.keys();
    let all = table.contents();
    assert(keys.len() == all.len());
    assert(names.deep_view().len() == names@.len());
    assert forall|i: int| 0 <= i < names@.len() implies (#[trigger] names@[i])@ == all[i].0@ by {
        assert(names.deep_view()[i] == keys[i]);
    }
    if keys.contains(key@) {
        let i = keys.index_of(key@);
        assert(all[i].0@ == key@);
    }
    if exists|i: int| 0 <= i < all.len() && (#[trigger] all[i]).0@ == key@ {
        let i = choose|i: int| 0 <= i < all.len() && (#[trigger] all[i]).0@ == key@;
        assert(keys[i] == key@);
    }
}

/// What stands at a position of a table is the name and the value of that entry.
pub proof fn table_gives_its_entries<V>(table: AliasTable<V>, i: usize, key: &String, value: &V)
    requires
        call_ensures(AliasTable::<V>::key_at, (&table, i), key),
        call_ensures(AliasTable::<V>::at, (&table, i), value),
    ensures
        key@ == table.contents()[i as int].0@,
        *value == table.contents()[i as int].1,
{
}

/// Whether a tool stands at the beginning: made of these parts, at a depth, with
/// nothing attached.
pub open spec fn is_bare(
    r: DelegateTool,
    agents: AliasTable<AliasedAgentConfig>,
    credential: Option<String>,
    security: Arc<SecurityPolicy>,
    depth: u32,
) -> bool {
    &&& *r.agents == agents
    &&& r.global_credential == credential
    &&& r.security == security
    &&& r.depth == depth
    &&& r.delegate_config.timeout_secs == 120
    &&& r.delegate_config.agentic_timeout_secs == 300
    &&& r.workspace_dir@.len() == 0
    &&& r.providers_models.contents().len() == 0
    &&& r.risk_profiles.contents().len() == 0
    &&& r.runtime_profiles.contents().len() == 0
    &&& r.skill_bundles.contents().len() == 0
    &&& r.root_config is None
    &&& r.caller_alias@.len() == 0
}

/// However it is made, a tool starts with the parts that it is given and nothing
/// else; a depth that is not given is zero, and provider options that are not
/// given override nothing.
pub proof fn tools_start_bare(
    agents: AliasTable<AliasedAgentConfig>,
    credential: Option<String>,
    security: Arc<SecurityPolicy>,
    depth: u32,
    options: ModelProviderRuntimeOptions,
    plain: DelegateTool,
    optioned: DelegateTool,
    deep: DelegateTool,
    both: DelegateTool,
)
    requires
        call_ensures(DelegateTool::new, (agents, credential, security), plain),
        call_ensures(
            DelegateTool::new_with_options,
            (agents, credential, security, options),
            optioned,
        ),
        call_ensures(DelegateTool::with_depth, (agents, credential, security, depth), deep),
        call_ensures(
            DelegateTool::with_depth_and_options,
            (agents, credential, security, depth, options),
            both,
        ),
    ensures
        is_bare(plain, agents, credential, security, 0),
        plain.provider_runtime_options.provider_api_url is None,
        is_bare(optioned, agents, credential, security, 0),
        *optioned.provider_runtime_options == options,
        is_bare(deep, agents, credential, security, depth),
        deep.provider_runtime_options.provider_api_url is None,
        is_bare(both, agents, credential, security, depth),
        *both.provider_runtime_options == options,
{
}

/// What does not change when a part of a tool is replaced.
pub open spec fn same_core(a: DelegateTool, b: DelegateTool) -> bool {
    &&& a.agents == b.agents
    &&& a.security == b.security
    &&& a.global_credential == b.global_credential
    &&& a.provider_runtime_options == b.provider_runtime_options
    &&& a.depth == b.depth
}

/// What is attached to a tool.
pub open spec fn same_attached(a: DelegateTool, b: DelegateTool) -> bool {
    &&& a.delegate_config == b.delegate_config
    &&& a.workspace_dir == b.workspace_dir
    &&& a.cancellation_token == b.cancellation_token
    &&& a.root_config == b.root_config
}

/// The tables that are attached to a tool.
pub open spec fn same_tables(a: DelegateTool, b: DelegateTool) -> bool {
    &&& a.providers_models == b.providers_models
    &&& a.risk_profiles == b.risk_profiles
    &&& a.runtime_profiles == b.runtime_profiles
    &&& a.skill_bundles == b.skill_bundles
}

/// Attaching a setting replaces that setting and nothing else.
pub proof fn attaching_replaces_one_setting(
    tool: DelegateTool,
    config: DelegateToolConfig,
    dir: String,
    token: tokio_util::sync::CancellationToken,
    root: Arc<Config>,
    alias: &str,
    timed: DelegateTool,
    placed: DelegateTool,
    watched: DelegateTool,
    rooted: DelegateTool,
    named: DelegateTool,
)
    requires
        call_ensures(DelegateTool::with_delegate_config, (tool, config), timed),
        call_ensures(DelegateTool::with_workspace_dir, (tool, dir), placed),
        call_ensures(DelegateTool::with_cancellation_token, (tool, token), watched),
        call_ensures(DelegateTool::with_root_config, (tool, root), rooted),
        call_ensures(DelegateTool::with_caller_alias, (tool, alias), named),
    ensures
        timed.delegate_config == config,
        same_core(timed, tool) && same_tables(timed, tool),
        timed.workspace_dir == tool.workspace_dir,
        timed.cancellation_token == tool.cancellation_token,
        timed.root_config == tool.root_config,
        timed.caller_alias == tool.caller_alias,
        placed.workspace_dir == dir,
        same_core(placed, tool) && same_tables(placed, tool),
        placed.delegate_config == tool.delegate_config,
        placed.cancellation_token == tool.cancellation_token,
        placed.root_config == tool.root_config,
        placed.caller_alias == tool.caller_alias,
        watched.cancellation_token == token,
        same_core(watched, tool) && same_tables(watched, tool),
        watched.delegate_config == tool.delegate_config,
        watched.workspace_dir == tool.workspace_dir,
        watched.root_config == tool.root_config,
        watched.caller_alias == tool.caller_alias,
        rooted.root_config == Some(root),
        same_core(rooted, tool) && same_tables(rooted, tool),
        rooted.delegate_config == tool.delegate_config,
        rooted.workspace_dir == tool.workspace_dir,
        rooted.cancellation_token == tool.cancellation_token,
        rooted.caller_alias == tool.caller_alias,
        named.caller_alias@ == alias@,
        same_core(named, tool) && same_tables(named, tool) && same_attached(named, tool),
{
}

/// Attaching a table replaces that table and nothing else.
pub proof fn attaching_replaces_one_table(
    tool: DelegateTool,
    models: AliasTable<AliasTable<ModelProviderConfig>>,
    risks: AliasTable<RiskProfileConfig>,
    runtimes: AliasTable<RuntimeProfileConfig>,
    skills: AliasTable<SkillBundleConfig>,
    with_models: DelegateTool,
    with_risks: DelegateTool,
    with_runtimes: DelegateTool,
    with_skills: DelegateTool,
)
    requires
        call_ensures(DelegateTool::with_providers_models, (tool, models), with_models),
        call_ensures(DelegateTool::with_risk_profiles, (tool, risks), with_risks),
        call_ensures(DelegateTool::with_runtime_profiles, (tool, runtimes), with_runtimes),
        call_ensures(DelegateTool::with_skill_bundles, (tool, skills), with_skills),
    ensures
        *with_models.providers_models == models,
        same_core(with_models, tool) && same_attached(with_models, tool),
        with_models.risk_profiles == tool.risk_profiles,
        with_models.runtime_profiles == tool.runtime_profiles,
        with_models.skill_bundles == tool.skill_bundles,
        with_models.caller_alias == tool.caller_alias,
        *with_risks.risk_profiles == risks,
        same_core(with_risks, tool) && same_attached(with_risks, tool),
        with_risks.providers_models == tool.providers_models,
        with_risks.runtime_profiles == tool.runtime_profiles,
        with_risks.skill_bundles == tool.skill_bundles,
        with_risks.caller_alias == tool.caller_alias,
        *with_runtimes.runtime_profiles == runtimes,
        same_core(with_runtimes, tool) && same_attached(with_runtimes, tool),
        with_runtimes.providers_models == tool.providers_models,
        with_runtimes.risk_profiles == tool.risk_profiles,
        with_runtimes.skill_bundles == tool.skill_bundles,
        with_runtimes.caller_alias == tool.caller_alias,
        *with_skills.skill_bundles == skills,
        same_core(with_skills, tool) && same_attached(with_skills, tool),
        with_skills.providers_models == tool.providers_models,
        with_skills.risk_profiles == tool.risk_profiles,
        with_skills.runtime_profiles == tool.runtime_profiles,
        with_skills.caller_alias == tool.caller_alias,
{
}

/// The tool is offered as `delegate`.
pub proof fn tool_is_called_delegate(tool: DelegateTool, r: &'static str)
    requires
        call_ensures(DelegateTool::name, (&tool,), r),
    ensures
        r@ == seq!['d', 'e', 'l', 'e', 'g', 'a', 't', 'e'],
{
    reveal_strlit("delegate");
    assert(r@ =~= seq!['d', 'e', 'l', 'e', 'g', 'a', 't', 'e']);
}

/// Cancelling the background runs of a tool cancels the tool's token.
pub proof fn cancelling_all_cancels_the_token(
    tool: DelegateTool,
    r: &tokio_util::sync::CancellationToken,
)
    requires
        call_ensures(DelegateTool::cancellation_token, (&tool,), r),
        call_ensures(DelegateTool::cancel_all_background_tasks, (&tool,), ()),
    ensures
        *r == tool.cancellation_token,
        call_ensures(
            tokio_util::sync::CancellationToken::cancel,
            (&tool.cancellation_token,),
            (),
        ),
{
}

/// A reference to a provider is read up to its first dot: what stands before it is
/// the type, what stands behind it the alias. The entry of that type and alias
/// gives the model and the credential; where it gives none, or where there is no
/// entry, there is no model, and the credential is the tool's own.
pub proof fn provider_is_that_of_the_reference(
    tool: DelegateTool,
    reference: &str,
    kind: Seq<char>,
    alias: Seq<char>,
    r: Brain,
)
    requires
        call_ensures(DelegateTool::resolve_brain, (&tool, reference), r),
        reference@ == kind.push('.') + alias,
        !kind.contains('.'),
    ensures
        r.provider_type@ == kind,
        match tool.providers_models.lookup(kind) {
            Some(aliases) => match aliases.lookup(alias) {
                Some(entry) => {
                    &&& r.configured
                    &&& text::optional(r.credential) == if entry.api_key is Some {
                        text::optional(entry.api_key)
                    } else {
                        text::optional(tool.global_credential)
                    }
                    &&& r.model@ == if entry.model is Some {
                        entry.model->0@
                    } else {
                        seq![]
                    }
                },
                None => is_unconfigured(r, tool),
            },
            None => is_unconfigured(r, tool),
        },
{
    lemma_reference(reference@, kind, alias);
}

/// Whether nothing is configured for a reference.
pub open spec fn is_unconfigured(r: Brain, tool: DelegateTool) -> bool {
    &&& !r.configured
    &&& text::optional(r.credential) == text::optional(tool.global_credential)
    &&& r.model@.len() == 0
}

proof fn lemma_reference(reference: Seq<char>, kind: Seq<char>, alias: Seq<char>)
    requires
        reference == kind.push('.') + alias,
        !kind.contains('.'),
    ensures
        text::split_once_at(reference, '.') == Some((kind, alias)),
{
    texts::split_puts_together(reference, '.');
    assert(reference[kind.len() as int] == '.');
    assert(reference.contains('.'));
    let (a, b) = text::split_once_at(reference, '.')->0;
    if a.len() < kind.len() {
        assert(reference[a.len() as int] == '.');
        assert(kind[a.len() as int] == reference[a.len() as int]);
        assert(kind.contains('.'));
    }
    if a.len() > kind.len() {
        assert(a[kind.len() as int] == reference[kind.len() as int]);
        assert(a.contains('.'));
    }
    assert(a =~= reference.take(kind.len() as int));
    assert(kind =~= reference.take(kind.len() as int));
    assert(b =~= reference.skip(kind.len() as int + 1));
    assert(alias =~= reference.skip(kind.len() as int + 1));
}

/// A reference without a dot is a type alone, for which nothing is configured.
pub proof fn provider_without_alias_is_a_type(tool: DelegateTool, reference: &str, r: Brain)
    requires
        call_ensures(DelegateTool::resolve_brain, (&tool, reference), r),
        !reference@.contains('.'),
    ensures
        r.provider_type@ == reference@,
        is_unconfigured(r, tool),
{
    texts::split_puts_together(reference@, '.');
    if let Some((a, b)) = text::split_once_at(reference@, '.') {
        assert(reference@[a.len() as int] == '.');
    }
}

/// A delegate uses the options of its own provider entry where the reference names
/// one and a configuration is known, else those that the tool inherited.
pub proof fn options_are_own_or_inherited<'a>(
    tool: &'a DelegateTool,
    reference: &'a str,
    r: ProviderOptions<'a>,
)
    requires
        call_ensures(DelegateTool::resolve_delegate_provider_options, (tool, reference), r),
    ensures
        r is ForAlias <==> tool.root_config is Some && reference@.contains('.'),
        r matches ProviderOptions::ForAlias { family, alias } ==> {
            &&& family@.push('.') + alias@ == reference@
            &&& !family@.contains('.')
        },
        r matches ProviderOptions::Inherited(options) ==> *options
            == *tool.provider_runtime_options,
{
    texts::split_puts_together(reference@, '.');
    if let Some((a, b)) = text::split_once_at(reference@, '.') {
        assert(reference@[a.len() as int] == '.');
    }
}

/// What a runtime profile sets holds; what it leaves out, and what no profile is
/// named for, is three steps in depth, ten iterations, no timeout of its own and no
/// tool-call loop.
pub proof fn runtime_profile_sets_the_limits(
    tool: DelegateTool,
    name: &str,
    depth: u32,
    iterations: usize,
    single: Option<u64>,
    looped: Option<u64>,
)
    requires
        call_ensures(DelegateTool::resolve_max_depth, (&tool, name), depth),
        call_ensures(DelegateTool::resolve_max_iterations, (&tool, name), iterations),
        call_ensures(DelegateTool::resolve_delegation_timeout, (&tool, name), single),
        call_ensures(DelegateTool::resolve_agentic_timeout_secs, (&tool, name), looped),
    ensures
        name@.len() == 0 || tool.runtime_profiles.lookup(name@) is None ==> depth == 3
            && iterations == 10 && single is None && looped is None,
        name@.len() > 0 ==> match tool.runtime_profiles.lookup(name@) {
            Some(p) => {
                &&& p.max_delegation_depth > 0 ==> depth == p.max_delegation_depth
                &&& p.max_delegation_depth == 0 ==> depth == 3
                &&& p.max_tool_iterations > 0 ==> iterations == p.max_tool_iterations
                &&& p.max_tool_iterations == 0 ==> iterations == 10
                &&& single == p.delegation_timeout_secs
                &&& looped == p.agentic_timeout_secs
            },
            None => true,
        },
{
}

/// A runtime profile runs a tool-call loop where it says so; whitespace round its
/// name does not count, and a blank name names none.
pub proof fn runtime_profile_says_whether_to_loop(tool: DelegateTool, name: &str, r: bool)
    requires
        call_ensures(DelegateTool::resolve_agentic, (&tool, name), r),
    ensures
        r <==> {
            &&& text::trimmed(name@).len() > 0
            &&& tool.runtime_profiles.lookup(text::trimmed(name@)) is Some
            &&& tool.runtime_profiles.lookup(text::trimmed(name@))->0.agentic
        },
{
}

/// The tools of a risk profile are those that it lists, in order; no profile has
/// none.
pub proof fn risk_profile_lists_the_tools(tool: DelegateTool, name: &str, r: Vec<String>)
    requires
        call_ensures(DelegateTool::resolve_allowed_tools, (&tool, name), r),
    ensures
        name@.len() == 0 || tool.risk_profiles.lookup(name@) is None ==> r@.len() == 0,
        name@.len() > 0 ==> match tool.risk_profiles.lookup(name@) {
            Some(p) => same_texts(r, p.allowed_tools),
            None => true,
        },
{
    assert(r.deep_view().len() == r@.len());
    if name@.len() > 0 {
        if let Some(p) = tool.risk_profiles.lookup(name@) {
            assert(p.allowed_tools.deep_view().len() == p.allowed_tools@.len());
            assert forall|i: int| 0 <= i < r@.len() implies (#[trigger] r@[i])@
                == p.allowed_tools@[i]@ by {
                assert(r.deep_view()[i] == r@[i]@);
            }
        }
    }
}

/// Whether an alias stands for a skill bundle with a directory.
pub open spec fn has_directory(tool: DelegateTool, alias: Seq<char>) -> bool {
    &&& alias.len() > 0
    &&& tool.skill_bundles.lookup(alias) is Some
    &&& tool.skill_bundles.lookup(alias)->0.directory is Some
}

/// How many of the first `n` aliases stand for such bundles.
pub open spec fn directories_before(tool: DelegateTool, aliases: Seq<String>, n: int) -> int
    decreases n,
{
    if n <= 0 {
        0
    } else if has_directory(tool, aliases[n - 1]@) {
        directories_before(tool, aliases, n - 1) + 1
    } else {
        directories_before(tool, aliases, n - 1)
    }
}

spec fn dirs_to(tool: DelegateTool, aliases: Vec<String>, n: int) -> Seq<Seq<char>> {
    crate::delegate::skill_dirs_for(*tool.skill_bundles, aliases.deep_view().take(n))
}

proof fn lemma_dirs_count(tool: DelegateTool, aliases: Vec<String>, n: int)
    requires
        0 <= n <= aliases@.len(),
    ensures
        dirs_to(tool, aliases, n).len() == directories_before(tool, aliases@, n),
        n > 0 ==> dirs_to(tool, aliases, n) == if has_directory(tool, aliases@[n - 1]@) {
            dirs_to(tool, aliases, n - 1).push(
                tool.skill_bundles.lookup(aliases@[n - 1]@)->0.directory->0@,
            )
        } else {
            dirs_to(tool, aliases, n - 1)
        },
    decreases n,
{
    let all = aliases.deep_view();
    if n > 0 {
        lemma_dirs_count(tool, aliases, n - 1);
        assert(all.take(n).drop_last() =~= all.take(n - 1));
        assert(all.take(n).last() == aliases@[n - 1]@);
    }
}

proof fn lemma_dir_at(tool: DelegateTool, aliases: Vec<String>, n: int, k: int)
    requires
        0 <= k < n <= aliases@.len(),
        has_directory(tool, aliases@[k]@),
    ensures
        0 <= directories_before(tool, aliases@, k) < dirs_to(tool, aliases, n).len(),
        dirs_to(tool, aliases, n)[directories_before(tool, aliases@, k)]
            == tool.skill_bundles.lookup(aliases@[k]@)->0.directory->0@,
    decreases n,
{
    lemma_dirs_count(tool, aliases, n);
    lemma_dirs_count(tool, aliases, k);
    lemma_dirs_count(tool, aliases, n - 1);
    if k < n - 1 {
        lemma_dir_at(tool, aliases, n - 1, k);
    }
}

/// The directories of skill bundles are those that the bundles of a list have, in
/// the order of the list.
pub proof fn skill_directories_follow_the_list(
    tool: DelegateTool,
    aliases: Vec<String>,
    r: Vec<String>,
    k: int,
)
    requires
        call_ensures(DelegateTool::resolve_skill_bundle_dirs, (&tool, &aliases), r),
    ensures
        r@.len() == directories_before(tool, aliases@, aliases@.len() as int),
        0 <= k < aliases@.len() && has_directory(tool, aliases@[k]@) ==> {
            let at = directories_before(tool, aliases@, k);
            &&& 0 <= at < r@.len()
            &&& r@[at]@ == tool.skill_bundles.lookup(aliases@[k]@)->0.directory->0@
        },
{
    let n = aliases@.len() as int;
    assert(aliases.deep_view().take(n) =~= aliases.deep_view());
    assert(r.deep_view() == dirs_to(tool, aliases, n));
    assert(r.deep_view().len() == r@.len());
    lemma_dirs_count(tool, aliases, n);
    if 0 <= k < n && has_directory(tool, aliases@[k]@) {
        lemma_dir_at(tool, aliases, n, k);
        let at = directories_before(tool, aliases@, k);
        assert(r.deep_view()[at] == r@[at]@);
    }
}

/// Background results lie in `delegate_results` in the workspace.
pub proof fn results_lie_in_the_workspace(tool: DelegateTool, r: String)
    requires
        call_ensures(DelegateTool::results_dir, (&tool,), r),
    ensures
        paths::components(r@) == paths::components(tool.workspace_dir@).push(
            "delegate_results"@,
        ),
{
    reveal_strlit("delegate_results");
    let name = "delegate_results"@;
    assert(name.len() == 16);
    assert forall|i: int| 0 <= i < 16 implies name[i] != '/' by {}
    assert(!name.contains('/'));
    paths::join_adds_component(tool.workspace_dir@, name);
}

/// The workspace of an agent is known exactly where the configuration is, and is
/// what the configuration says.
pub proof fn workspace_is_that_of_the_configuration(
    tool: DelegateTool,
    alias: &str,
    r: Option<String>,
    config: Arc<Config>,
    dir: String,
)
    requires
        call_ensures(DelegateTool::agent_workspace, (&tool, alias), r),
        tool.root_config is Some ==> tool.root_config == Some(config),
        call_ensures(Config::agent_workspace_dir, (&*config, alias), dir),
    ensures
        r is Some <==> tool.root_config is Some,
        r matches Some(found) ==> found@ == dir@,
{
}

/// The directory that an agent's configuration names, if it is configured and
/// names one.
pub open spec fn workspace_setting(config: Config, alias: Seq<char>) -> Option<String> {
    match config.agents.lookup(alias) {
        Some(agent) => agent.workspace.path,
        None => None,
    }
}

/// An agent works in the directory that its configuration names, taken from the
/// installation unless it is absolute; without one, in `agents/<alias>/workspace`
/// below the installation, for an alias that is a file name.
pub proof fn workspace_is_the_setting_or_the_default(config: Config, alias: &str, r: String)
    requires
        call_ensures(Config::agent_workspace_dir, (&config, alias), r),
    ensures
        match workspace_setting(config, alias@) {
            Some(path) => {
                &&& path@.len() > 0 && path@[0] == '/' ==> r@ == path@
                &&& path@.len() == 0 || path@[0] != '/' ==> r@ == paths::joined(
                    config.install_root@,
                    path@,
                ) && config.install_root@.is_prefix_of(r@)
            },
            None => alias@.len() > 0 && !alias@.contains('/') && alias@ != seq!['.']
                ==> paths::components(r@) == paths::components(config.install_root@).push(
                "agents"@,
            ).push(alias@).push("workspace"@),
        },
        r@ == config.workspace_of(alias@),
{
    match workspace_setting(config, alias@) {
        Some(path) => {
            let root = config.install_root@;
            assert(root.is_prefix_of(root + path@));
            assert(root.is_prefix_of(root.push('/') + path@));
        },
        None => {
            reveal_strlit("agents");
            reveal_strlit("workspace");
            let a = "agents"@;
            let b = "workspace"@;
            assert(a.len() == 6 && b.len() == 9);
            assert forall|i: int| 0 <= i < 6 implies a[i] != '/' by {}
            assert forall|i: int| 0 <= i < 9 implies b[i] != '/' by {}
            assert(!a.contains('/') && !b.contains('/'));
            let one = paths::joined(config.install_root@, a);
            let two = paths::joined(one, alias@);
            paths::join_adds_component(config.install_root@, a);
            if alias@.len() > 0 && !alias@.contains('/') && alias@ != seq!['.'] {
                paths::join_adds_component(one, alias@);
            }
            paths::join_adds_component(two, b);
        },
    }
}

/// By default a single prompt may take two minutes, a tool-call loop five; a policy
/// forbids delegation and confines to the workspace.
pub proof fn defaults_are_strict(
    timeouts: DelegateToolConfig,
    policy: SecurityPolicy,
    switch: crate::policy::DelegationPolicy,
    runtime: RuntimeProfileConfig,
)
    requires
        call_ensures(DelegateToolConfig::default, (), timeouts),
        call_ensures(SecurityPolicy::default, (), policy),
        call_ensures(crate::policy::DelegationPolicy::default, (), switch),
        call_ensures(RuntimeProfileConfig::default, (), runtime),
    ensures
        timeouts.timeout_secs == 120,
        timeouts.agentic_timeout_secs == 300,
        policy.delegation_policy.mode == crate::policy::DelegationMode::Forbidden,
        policy.workspace_only,
        policy.auto_approve@.len() == 0,
        policy.always_ask@.len() == 0,
        policy.allowed_tools is None && policy.excluded_tools is None,
        policy.sandbox_enabled is None && policy.sandbox_backend is None,
        policy.allowed_roots@.len() == 0,
        policy.allowed_roots_read_only@.len() == 0,
        policy.allowed_roots_write_only@.len() == 0,
        switch.mode == crate::policy::DelegationMode::Forbidden,
        !runtime.agentic,
        runtime.max_delegation_depth == 0 && runtime.max_tool_iterations == 0,
        runtime.delegation_timeout_secs is None && runtime.agentic_timeout_secs is None,
{
}

/// What is entered under a name is found there afterwards, in place of what was;
/// every other name is as before, and a new one comes last.
pub proof fn table_keeps_what_is_entered<V>(
    table: &mut AliasTable<V>,
    key: String,
    value: V,
    other: Seq<char>,
)
    requires
        call_ensures(AliasTable::<V>::insert, (table, key, value), ()),
    ensures
        final(table).lookup(key@) == Some(value),
        other != key@ ==> final(table).lookup(other) == old(table).lookup(other),
        !old(table).keys().contains(key@) ==> final(table).keys() == old(table).keys().push(key@),
        old(table).keys().contains(key@) ==> final(table).keys() == old(table).keys(),
{
}

/// A table starts without entries.
pub proof fn tables_start_empty<V>(made: AliasTable<V>, default: AliasTable<V>)
    requires
        call_ensures(AliasTable::<V>::new, (), made),
        call_ensures(AliasTable::<V>::default, (), default),
    ensures
        made.contents().len() == 0,
        default.contents().len() == 0,
{
}

/// By default nothing is configured.
pub proof fn nothing_is_configured_by_default(
    config: Config,
    agent: AliasedAgentConfig,
    workspace: AgentWorkspaceConfig,
    settings: ResolvedAgentSettings,
    persona: PersonaBundleConfig,
    risk: RiskProfileConfig,
    skill: SkillBundleConfig,
    provider: ModelProviderConfig,
    options: ModelProviderRuntimeOptions,
)
    requires
        call_ensures(Config::default, (), config),
        call_ensures(AliasedAgentConfig::default, (), agent),
        call_ensures(AgentWorkspaceConfig::default, (), workspace),
        call_ensures(ResolvedAgentSettings::default, (), settings),
        call_ensures(PersonaBundleConfig::default, (), persona),
        call_ensures(RiskProfileConfig::default, (), risk),
        call_ensures(SkillBundleConfig::default, (), skill),
        call_ensures(ModelProviderConfig::default, (), provider),
        call_ensures(ModelProviderRuntimeOptions::default, (), options),
    ensures
        config.install_root@.len() == 0,
        config.agents.contents().len() == 0,
        config.persona_bundles.contents().len() == 0,
        config.risk_profiles.contents().len() == 0,
        config.runtime_profiles.contents().len() == 0,
        agent.model_provider@.len() == 0,
        agent.risk_profile@.len() == 0,
        agent.runtime_profile@.len() == 0,
        agent.persona_bundles@.len() == 0,
        agent.skill_bundles@.len() == 0,
        agent.workspace.path is None,
        agent.workspace.access.contents().len() == 0,
        !agent.workspace.unrestricted_filesystem,
        !agent.resolved.strict_tool_parsing,
        !agent.resolved.parallel_tools,
        workspace.path is None,
        workspace.access.contents().len() == 0,
        !workspace.unrestricted_filesystem,
        !settings.strict_tool_parsing,
        !settings.parallel_tools,
        persona.directory is None,
        persona.format@.len() == 0,
        persona.includes@.len() == 0,
        persona.excludes@.len() == 0,
        risk.allowed_tools@.len() == 0,
        skill.directory is None,
        provider.api_key is None,
        provider.model is None,
        options.provider_api_url is None,
{
}

/// What the tool is described as tells of the background and of how to ask for a
/// result.
pub proof fn description_tells_of_results(tool: DelegateTool, r: &'static str)
    requires
        call_ensures(DelegateTool::description, (&tool,), r),
    ensures
        r@ == "Delegate a subtask to a specialized agent. Use when: a task benefits from a different model (e.g. fast summarization, deep reasoning, code generation). The sub-agent runs a single prompt by default; with agentic=true it can iterate with a filtered tool-call loop. Supports background execution (returns a task_id immediately) and parallel execution (runs multiple agents concurrently). Use action='check_result' with a task_id to retrieve background results."@,
{
}

} // verus!

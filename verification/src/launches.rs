//! `lazydap launches`: the named ways to start this project, from two
//! files. `.lazydap/state.toml` holds lazydap's own, `.vscode/launch.json`
//! the ones the repository already had; on a name in both, lazydap's own
//! wins, with a warning, since the file lazydap owns is the one somebody
//! chose to write. Reading the files is the caller's part.
use vstd::prelude::*;

use crate::commands::join_lines;
use crate::errors::{
    classification, text_detail, text_entry, texts_detail, texts_entry, CliError, Detail, ErrorCode,
    IpcError,
};
use crate::launch::{join_texts, runnable, source_text, views, LaunchConfig, NotRunnableView};
use crate::launch_json::{pair_views, LAUNCH_JSON_PATH};
use crate::session::AdapterKind;
use crate::text;

verus! {

/// Where lazydap keeps its own launch configurations.
pub const STATE_FILE: &'static str = ".lazydap/state.toml";

/// Every configuration lazydap can see for a project, and everything that
/// went wrong reading them.
#[derive(Debug, Clone, PartialEq, Eq)]
pub struct Catalogue {
    pub configs: Vec<LaunchConfig>,
    pub warnings: Vec<String>,
}

pub open spec fn config_names(configs: Seq<LaunchConfig>) -> Seq<Seq<char>> {
    configs.map_values(|c: LaunchConfig| c.name@)
}

/// The warning for a name in both files.
pub open spec fn clash_warning(name: Seq<char>) -> Seq<char> {
    seq!['`'] + name + "` is in both .lazydap/state.toml and .vscode/launch.json; lazydap's own is the one that runs"@
}

/// The catalogue after taking in `imported`, in order: a configuration
/// whose name is already listed is left out with a warning.
pub open spec fn merged(
    configs: Seq<LaunchConfig>,
    warnings: Seq<Seq<char>>,
    imported: Seq<LaunchConfig>,
) -> (Seq<LaunchConfig>, Seq<Seq<char>>)
    decreases imported.len(),
{
    if imported.len() == 0 {
        (configs, warnings)
    } else {
        let c = imported[0];
        if config_names(configs).contains(c.name@) {
            merged(configs, warnings.push(clash_warning(c.name@)), imported.drop_first())
        } else {
            merged(configs.push(c), warnings, imported.drop_first())
        }
    }
}

/// lazydap's own configurations win: merging keeps them first and
/// unchanged, and nothing taken in after them shares a name with one.
pub proof fn law_lazydap_s_own_wins(
    configs: Seq<LaunchConfig>,
    warnings: Seq<Seq<char>>,
    imported: Seq<LaunchConfig>,
)
    ensures
        ({
            let result = merged(configs, warnings, imported).0;
            &&& result.len() >= configs.len()
            &&& result.take(configs.len() as int) == configs
            &&& forall|k: int|
                configs.len() <= k < result.len() ==> !config_names(configs).contains(
                    #[trigger] result[k].name@,
                )
        }),
    decreases imported.len(),
{
    if imported.len() > 0 {
        let c = imported[0];
        if config_names(configs).contains(c.name@) {
            law_lazydap_s_own_wins(configs, warnings.push(clash_warning(c.name@)), imported.drop_first());
        } else {
            let grown = configs.push(c);
            law_lazydap_s_own_wins(grown, warnings, imported.drop_first());
            let result = merged(configs, warnings, imported).0;
            assert(result.take(grown.len() as int) == grown);
            assert(result.take(configs.len() as int) =~= configs) by {
                assert forall|k: int| 0 <= k < configs.len() implies result[k] == configs[k] by {
                    assert(result.take(grown.len() as int)[k] == grown[k]);
                }
            }
            assert forall|k: int| configs.len() <= k < result.len() implies !config_names(
                configs,
            ).contains(#[trigger] result[k].name@) by {
                if k == configs.len() {
                    assert(result.take(grown.len() as int)[k] == grown[k]);
                    assert(result[k] == c);
                } else {
                    assert(!config_names(grown).contains(result[k].name@));
                    if config_names(configs).contains(result[k].name@) {
                        let j = choose|j: int| 0 <= j < config_names(configs).len() && config_names(configs)[j] == result[k].name@;
                        assert(config_names(grown)[j] == config_names(configs)[j]);
                    }
                }
            }
        }
    }
}

fn listed(configs: &Vec<LaunchConfig>, name: &str) -> (r: bool)
    ensures
        r == config_names(configs@).contains(name@),
{
    let mut i: usize = 0;
    while i < configs.len()
        invariant
            i <= configs@.len(),
            forall|j: int| 0 <= j < i ==> configs@[j].name@ != name@,
        decreases configs.len() - i,
    {
        if text::str_eq(configs[i].name.as_str(), name) {
            assert(config_names(configs@)[i as int] == name@);
            return true;
        }
        i = i + 1;
    }
    assert forall|k: int| 0 <= k < config_names(configs@).len() implies config_names(configs@)[k]
        != name@ by {
        assert(configs@[k].name@ != name@);
    }
    false
}

/// Both sources in one list, lazydap's own first, then what the launch.json
/// import found: every warning from either source comes first, then one per
/// name that clashed.
pub fn merge(
    own: Vec<LaunchConfig>,
    own_warnings: Vec<String>,
    imported: Vec<LaunchConfig>,
    imported_warnings: Vec<String>,
) -> (r: Catalogue)
    ensures
        (r.configs@, views(r.warnings@)) == merged(
            own@,
            views(own_warnings@) + views(imported_warnings@),
            imported@,
        ),
{
    let mut configs = own;
    let mut warnings = own_warnings;
    let ghost target = merged(configs@, views(warnings@) + views(imported_warnings@), imported@);
    let mut k: usize = 0;
    while k < imported_warnings.len()
        invariant
            k <= imported_warnings@.len(),
            views(warnings@) == views(own_warnings@) + views(imported_warnings@).take(k as int),
        decreases imported_warnings.len() - k,
    {
        let ghost before = views(warnings@);
        warnings.push(text::owned(imported_warnings[k].as_str()));
        assert(views(warnings@) =~= before.push(imported_warnings@[k as int]@));
        assert(views(imported_warnings@).take(k + 1) =~= views(imported_warnings@).take(
            k as int,
        ).push(imported_warnings@[k as int]@));
        k = k + 1;
        assert(views(warnings@) =~= views(own_warnings@) + views(imported_warnings@).take(k as int));
    }
    assert(views(imported_warnings@).take(imported_warnings@.len() as int) =~= views(
        imported_warnings@,
    ));
    let mut rest = imported;
    while rest.len() > 0
        invariant
            merged(configs@, views(warnings@), rest@) == target,
        decreases rest.len(),
    {
        let ghost before = rest@;
        let c = rest.remove(0);
        assert(rest@ =~= before.drop_first());
        if listed(&configs, c.name.as_str()) {
            let mut w = String::new();
            text::push_char(&mut w, '`');
            text::push_str(&mut w, c.name.as_str());
            text::push_str(
                &mut w,
                "` is in both .lazydap/state.toml and .vscode/launch.json; lazydap's own is the one that runs",
            );
            let ghost ws = views(warnings@);
            warnings.push(w);
            assert(views(warnings@) =~= ws.push(clash_warning(c.name@)));
        } else {
            configs.push(c);
        }
    }
    Catalogue { configs, warnings }
}

/// The line under the table, for a person: what went wrong, or why there is
/// no table.
pub open spec fn catalogue_note_text(c: Catalogue) -> Option<Seq<char>> {
    if c.warnings@.len() > 0 {
        Some(join_lines(views(c.warnings@).map_values(|w: Seq<char>| "warning: "@ + w)))
    } else if c.configs@.len() == 0 {
        Some("no launch configurations in .lazydap/state.toml or .vscode/launch.json"@)
    } else {
        None
    }
}

pub fn catalogue_note(catalogue: &Catalogue) -> (r: Option<String>)
    ensures
        crate::launch_json::opt_string(r) == catalogue_note_text(*catalogue),
{
    if catalogue.warnings.len() > 0 {
        let ghost lines = views(catalogue.warnings@).map_values(|w: Seq<char>| "warning: "@ + w);
        let mut r = String::new();
        let mut i: usize = 0;
        while i < catalogue.warnings.len()
            invariant
                0 < catalogue.warnings@.len(),
                i <= catalogue.warnings@.len(),
                lines == views(catalogue.warnings@).map_values(|w: Seq<char>| "warning: "@ + w),
                r@ == join_lines(lines.take(i as int)),
            decreases catalogue.warnings.len() - i,
        {
            let ghost prefix = lines.take(i + 1);
            assert(prefix.drop_last() =~= lines.take(i as int));
            if i > 0 {
                text::push_char(&mut r, '\n');
            }
            let ghost at = r@;
            text::push_str(&mut r, "warning: ");
            text::push_str(&mut r, catalogue.warnings[i].as_str());
            assert(prefix.last() == "warning: "@ + catalogue.warnings@[i as int]@);
            assert(r@ =~= at + prefix.last());
            i = i + 1;
        }
        assert(lines.take(catalogue.warnings@.len() as int) =~= lines);
        return Some(r);
    }
    if catalogue.configs.len() == 0 {
        return Some(text::owned("no launch configurations in .lazydap/state.toml or .vscode/launch.json"));
    }
    None
}

/// What a person is told for a name no configuration has: the names there
/// are, or that there are none.
pub open spec fn unknown_name_text(name: Seq<char>, configs: Seq<LaunchConfig>) -> Seq<char> {
    if configs.len() == 0 {
        "no launch configuration is called `"@ + name + "`, and this project has none"@
    } else {
        "no launch configuration is called `"@ + name + "`. There is: "@ + join_texts(
            config_names(configs),
        )
    }
}

/// The error for a name that is not there, listing the ones that are: a
/// bare "not found" from a command whose whole job is names is a wasted
/// round trip.
pub fn unknown_name(name: &str, configs: &Vec<LaunchConfig>) -> (r: CliError)
    ensures
        (r.label@, r.exit_code) == classification(ErrorCode::InvalidLaunchConfig),
        r.message@ == classification(ErrorCode::InvalidLaunchConfig).0 + ": "@ + unknown_name_text(
            name@,
            configs@,
        ),
        r.details@.len() == 2,
        text_entry(r.details@[0], "name"@, name@),
        texts_entry(r.details@[1], "available"@, config_names(configs@)),
{
    let mut names: Vec<String> = Vec::new();
    let mut i: usize = 0;
    while i < configs.len()
        invariant
            i <= configs@.len(),
            views(names@) == config_names(configs@).take(i as int),
        decreases configs.len() - i,
    {
        let ghost before = views(names@);
        names.push(text::owned(configs[i].name.as_str()));
        assert(views(names@) =~= before.push(configs@[i as int].name@));
        assert(config_names(configs@).take(i + 1) =~= config_names(configs@).take(i as int).push(
            configs@[i as int].name@,
        ));
        i = i + 1;
        assert(views(names@) =~= config_names(configs@).take(i as int));
    }
    assert(config_names(configs@).take(configs@.len() as int) =~= config_names(configs@));
    let mut m = text::owned("no launch configuration is called `");
    text::push_str(&mut m, name);
    if configs.len() == 0 {
        text::push_str(&mut m, "`, and this project has none");
    } else {
        text::push_str(&mut m, "`. There is: ");
        crate::launch::push_joined(&mut m, &names);
    }
    let details = vec![text_detail("name", text::owned(name)), texts_detail("available", &names)];
    CliError::from_ipc(IpcError::new(ErrorCode::InvalidLaunchConfig, m).with_details(details))
}

/// The first configuration called `name`, from the `i`-th on.
pub open spec fn first_named(configs: Seq<LaunchConfig>, name: Seq<char>, i: int) -> Option<int>
    decreases configs.len() - i,
{
    if i < 0 || i >= configs.len() {
        None
    } else if configs[i].name@ == name {
        Some(i)
    } else {
        first_named(configs, name, i + 1)
    }
}

pub fn find_config(configs: &Vec<LaunchConfig>, name: &str) -> (r: Option<usize>)
    ensures
        match r {
            Some(k) => first_named(configs@, name@, 0) == Some(k as int) && k < configs@.len(),
            None => first_named(configs@, name@, 0) is None,
        },
{
    let mut i: usize = 0;
    while i < configs.len()
        invariant
            i <= configs@.len(),
            first_named(configs@, name@, 0) == first_named(configs@, name@, i as int),
        decreases configs.len() - i,
    {
        if text::str_eq(configs[i].name.as_str(), name) {
            return Some(i);
        }
        i = i + 1;
    }
    None
}

/// What a launch is asked to start.
#[derive(Debug, Clone, PartialEq, Eq)]
pub struct LaunchOptions {
    pub program: String,
    pub args: Vec<String>,
    pub cwd: Option<String>,
    pub env: Vec<(String, String)>,
    pub adapter: AdapterKind,
    /// The interpreter or adapter binary to use instead of discovering one.
    pub adapter_command: Option<String>,
    pub stop_on_entry: bool,
}

/// How `launches run` starts a configuration: the program its listing
/// promised; in the project root when it names no working directory, as VS
/// Code would; stopping at entry when either the file or the command line
/// asks to.
pub open spec fn launch_options_for(
    config: LaunchConfig,
    program: Seq<char>,
    stop_on_entry: bool,
    project_root: Seq<char>,
    o: LaunchOptions,
) -> bool {
    &&& o.program@ == program
    &&& views(o.args@) == views(config.args@)
    &&& crate::launch_json::opt_string(o.cwd) == Some(
        match config.cwd {
            Some(c) => c@,
            None => project_root,
        },
    )
    &&& pair_views(o.env@) == pair_views(config.env@)
    &&& config.adapter == Some(o.adapter)
    &&& crate::launch_json::opt_string(o.adapter_command) == crate::launch_json::opt_string(
        config.adapter_command,
    )
    &&& o.stop_on_entry == (config.stop_on_entry || stop_on_entry)
}

/// Why a configuration that was found cannot be started.
pub open spec fn cannot_run_text(name: Seq<char>, reason: NotRunnableView) -> Seq<char> {
    "cannot run `"@ + name + "`: "@ + crate::launch::not_runnable_view_text(reason)
}

/// The details of a refusal to run `config`: its name, where it came from,
/// what the file called its adapter, and what could not be expanded.
pub open spec fn cannot_run_details(d: Seq<(String, Detail)>, name: Seq<char>, config: LaunchConfig) -> bool {
    &&& d.len() == 4
    &&& text_entry(d[0], "name"@, name)
    &&& text_entry(d[1], "source"@, source_text(config.source))
    &&& text_entry(d[2], "adapter_type"@, config.adapter_type@)
    &&& texts_entry(d[3], "unresolved"@, views(config.unresolved@))
}

/// What starting the configuration called `name` means: an unknown name
/// lists the ones there are, and one that cannot run says why, in the words
/// `launches list` uses; otherwise the options to launch with.
pub fn run_options(
    configs: Vec<LaunchConfig>,
    name: &str,
    stop_on_entry: bool,
    project_root: String,
) -> (r: Result<LaunchOptions, CliError>)
    ensures
        match first_named(configs@, name@, 0) {
            None => r matches Err(e) && (e.label@, e.exit_code) == classification(
                ErrorCode::InvalidLaunchConfig,
            ) && e.message@ == classification(ErrorCode::InvalidLaunchConfig).0 + ": "@
                + unknown_name_text(name@, configs@),
            Some(i) => match runnable(configs@[i]) {
                Err(reason) => r matches Err(e) && (e.label@, e.exit_code) == classification(
                    ErrorCode::InvalidLaunchConfig,
                ) && e.message@ == classification(ErrorCode::InvalidLaunchConfig).0 + ": "@
                    + cannot_run_text(name@, reason) && cannot_run_details(
                    e.details@,
                    name@,
                    configs@[i],
                ),
                Ok(program) => r matches Ok(o) && launch_options_for(
                    configs@[i],
                    program,
                    stop_on_entry,
                    project_root@,
                    o,
                ),
            },
        },
{
    let index = match find_config(&configs, name) {
        Some(i) => i,
        None => return Err(unknown_name(name, &configs)),
    };
    let ghost chosen = configs@[index as int];
    let mut configs = configs;
    let config = configs.remove(index);
    assert(config == chosen);
    let program = match config.runnable_program() {
        Ok(p) => text::owned(p),
        Err(reason) => {
            let mut m = text::owned("cannot run `");
            text::push_str(&mut m, name);
            text::push_str(&mut m, "`: ");
            text::push_str(&mut m, reason.to_string().as_str());
            proof {
                crate::launch::lemma_not_runnable_text_view(reason);
            }
            let details = vec![
                text_detail("name", text::owned(name)),
                text_detail("source", text::owned(config.source.as_str())),
                text_detail("adapter_type", config.adapter_type.clone()),
                texts_detail("unresolved", &config.unresolved),
            ];
            return Err(
                CliError::from_ipc(
                    IpcError::new(ErrorCode::InvalidLaunchConfig, m).with_details(details),
                ),
            );
        },
    };
    let adapter = config.adapter.unwrap();
    let cwd = match config.cwd {
        Some(c) => c,
        None => project_root,
    };
    let o = LaunchOptions {
        program,
        args: config.args,
        cwd: Some(cwd),
        env: config.env,
        adapter,
        adapter_command: config.adapter_command,
        stop_on_entry: config.stop_on_entry || stop_on_entry,
    };
    Ok(o)
}

/// The `runnable` column of the listing: the same answer `run` acts on.
pub fn runnable_cell(config: &LaunchConfig) -> (r: String)
    ensures
        r@ == (match runnable(*config) {
            Ok(_) => "yes"@,
            Err(reason) => "no ("@ + crate::launch::not_runnable_view_text(reason) + seq![')'],
        }),
{
    match config.not_runnable() {
        None => text::owned("yes"),
        Some(reason) => {
            let mut r = text::owned("no (");
            text::push_str(&mut r, reason.to_string().as_str());
            text::push_char(&mut r, ')');
            proof {
                crate::launch::lemma_not_runnable_text_view(reason);
            }
            r
        },
    }
}

} // verus!

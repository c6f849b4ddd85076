//! The zellij terminal multiplexer as a workspace manager: one workspace per tab.

use vstd::prelude::*;

use crate::fs_path;
use crate::fs_path::FsPath;
use crate::places;
use crate::process::ProcessOutput;
use crate::text;
use crate::views;
use crate::workspace;
use crate::workspace::{CorrelationKey, Workspace};

verus! {

/// What is remembered of a tab.
#[derive(Debug, Clone)]
pub struct TabState {
    pub working_directory: String,
    pub created_at: String,
}

/// What is remembered of a session: its tabs by name, each name once.
pub struct ZellijState {
    tabs: Vec<(String, TabState)>,
}

/// What a list of tabs says under each name: the last tab of that name.
pub open spec fn tabs_of(entries: Seq<(String, TabState)>) -> Map<Seq<char>, TabState>
    decreases entries.len(),
{
    if entries.len() == 0 {
        Map::empty()
    } else {
        tabs_of(entries.drop_last()).insert(entries.last().0@, entries.last().1)
    }
}

/// Whether no name occurs twice in a list of tabs.
pub open spec fn names_differ(entries: Seq<(String, TabState)>) -> bool {
    forall|i: int, j: int|
        #![trigger entries[i], entries[j]]
        0 <= i < j < entries.len() ==> entries[i].0@ != entries[j].0@
}

/// Whether a name occurs in a list of tabs.
spec fn names_tab(entries: Seq<(String, TabState)>, name: Seq<char>) -> bool {
    exists|i: int| 0 <= i < entries.len() && (#[trigger] entries[i]).0@ == name
}

proof fn lemma_tabs_of_keys(entries: Seq<(String, TabState)>, name: Seq<char>)
    ensures
        tabs_of(entries).contains_key(name) <==> names_tab(entries, name),
    decreases entries.len(),
{
    if entries.len() > 0 {
        let rest = entries.drop_last();
        lemma_tabs_of_keys(rest, name);
        if names_tab(rest, name) {
            let i = choose|i: int| 0 <= i < rest.len() && (#[trigger] rest[i]).0@ == name;
            assert(entries[i].0@ == name);
        }
        if names_tab(entries, name) && entries.last().0@ != name {
            let i = choose|i: int| 0 <= i < entries.len() && (#[trigger] entries[i]).0@ == name;
            assert(rest[i].0@ == name);
        }
        if entries.last().0@ == name {
            assert(entries[entries.len() - 1].0@ == name);
        }
    }
}

proof fn lemma_tabs_of_value(entries: Seq<(String, TabState)>, i: int)
    requires
        0 <= i < entries.len(),
        names_differ(entries),
    ensures
        tabs_of(entries)[entries[i].0@] == entries[i].1,
    decreases entries.len(),
{
    let rest = entries.drop_last();
    if i < rest.len() {
        assert(names_differ(rest)) by {
            assert forall|j: int, k: int|
                #![trigger rest[j], rest[k]]
                0 <= j < k < rest.len() implies rest[j].0@ != rest[k].0@ by {
                assert(entries[j].0@ != entries[k].0@);
            }
        }
        lemma_tabs_of_value(rest, i);
        assert(entries[i].0@ != entries[entries.len() - 1].0@);
        assert(rest[i] == entries[i]);
    }
}

proof fn lemma_tabs_of_update(entries: Seq<(String, TabState)>, i: int, name: String, tab: TabState)
    requires
        0 <= i < entries.len(),
        names_differ(entries),
        entries[i].0@ == name@,
    ensures
        tabs_of(entries.update(i, (name, tab))) == tabs_of(entries).insert(name@, tab),
        names_differ(entries.update(i, (name, tab))),
{
    let after = entries.update(i, (name, tab));
    assert(names_differ(after)) by {
        assert forall|j: int, k: int|
            #![trigger after[j], after[k]]
            0 <= j < k < after.len() implies after[j].0@ != after[k].0@ by {
            assert(entries[j].0@ != entries[k].0@);
        }
    }
    assert forall|n: Seq<char>|
        tabs_of(after).contains_key(n) == tabs_of(entries).contains_key(n) by {
        lemma_tabs_of_keys(after, n);
        lemma_tabs_of_keys(entries, n);
        if names_tab(after, n) {
            let j = choose|j: int| 0 <= j < after.len() && (#[trigger] after[j]).0@ == n;
            assert(entries[j].0@ == n);
        }
        if names_tab(entries, n) {
            let j = choose|j: int| 0 <= j < entries.len() && (#[trigger] entries[j]).0@ == n;
            assert(after[j].0@ == n);
        }
    }
    lemma_tabs_of_keys(entries, name@);
    assert(names_tab(entries, name@));
    assert forall|n: Seq<char>| #[trigger]
        tabs_of(after).contains_key(n) implies tabs_of(after)[n] == tabs_of(entries).insert(
        name@,
        tab,
    )[n] by {
        lemma_tabs_of_keys(after, n);
        let j = choose|j: int| 0 <= j < after.len() && (#[trigger] after[j]).0@ == n;
        lemma_tabs_of_value(after, j);
        lemma_tabs_of_value(entries, j);
        if j != i {
            assert(after[j] == entries[j]);
            assert(after[i].0@ == name@);
        }
    }
    assert(tabs_of(after) =~= tabs_of(entries).insert(name@, tab));
}

impl View for ZellijState {
    type V = Map<Seq<char>, TabState>;

    closed spec fn view(&self) -> Map<Seq<char>, TabState> {
        tabs_of(self.tabs@)
    }
}

impl Default for ZellijState {
    /// A session of which nothing is remembered.
    fn default() -> (s: ZellijState)
        ensures
            s@ == Map::<Seq<char>, TabState>::empty(),
    {
        ZellijState { tabs: Vec::new() }
    }
}

/// The position of a name in a list of tabs, or the length of the list.
fn tab_position(entries: &Vec<(String, TabState)>, name: &str) -> (k: usize)
    ensures
        k <= entries@.len(),
        k < entries@.len() ==> entries@[k as int].0@ == name@,
        k == entries@.len() ==> !names_tab(entries@, name@),
{
    let wanted = name.to_owned();
    let mut k: usize = 0;
    while k < entries.len()
        invariant
            k <= entries@.len(),
            wanted@ == name@,
            forall|i: int| 0 <= i < k ==> (#[trigger] entries@[i]).0@ != name@,
        decreases entries@.len() - k,
    {
        if entries[k].0 == wanted {
            return k;
        }
        k = k + 1;
    }
    k
}

impl ZellijState {
    #[verifier::type_invariant]
    spec fn each_name_once(&self) -> bool {
        names_differ(self.tabs@)
    }

    /// Remembers a tab, in place of what was remembered under its name.
    pub fn insert(&mut self, name: String, tab: TabState)
        ensures
            final(self)@ == old(self)@.insert(name@, tab),
    {
        proof {
            use_type_invariant(&*self);
        }
        let ghost start = self.tabs@;
        let mut tabs: Vec<(String, TabState)> = Vec::new();
        std::mem::swap(&mut tabs, &mut self.tabs);
        let k: usize = tab_position(&tabs, name.as_str());
        if k < tabs.len() {
            proof {
                lemma_tabs_of_update(start, k as int, name, tab);
            }
            tabs.set(k, (name, tab));
        } else {
            let ghost entry = (name, tab);
            tabs.push((name, tab));
            assert(tabs@.drop_last() =~= start);
            assert forall|i: int, j: int|
                #![trigger tabs@[i], tabs@[j]]
                0 <= i < j < tabs@.len() implies tabs@[i].0@ != tabs@[j].0@ by {
                assert(tabs@[i] == start[i]);
                if j < start.len() {
                    assert(tabs@[j] == start[j]);
                } else {
                    assert(tabs@[j] == entry);
                }
            }
        }
        self.tabs = tabs;
    }

    /// What is remembered of the tab of that name.
    pub fn get(&self, name: &str) -> (tab: Option<&TabState>)
        ensures
            tab is Some <==> self@.contains_key(name@),
            tab matches Some(t) ==> *t == self@[name@],
    {
        proof {
            use_type_invariant(self);
            lemma_tabs_of_keys(self.tabs@, name@);
        }
        let k: usize = tab_position(&self.tabs, name);
        if k < self.tabs.len() {
            proof {
                lemma_tabs_of_value(self.tabs@, k as int);
            }
            Some(&self.tabs[k].1)
        } else {
            None
        }
    }

    /// The tabs that are remembered, each name once.
    pub fn tabs(&self) -> (entries: &[(String, TabState)])
        ensures
            tabs_of(entries@) == self@,
            names_differ(entries@),
    {
        proof {
            use_type_invariant(self);
        }
        self.tabs.as_slice()
    }
}

/// The first of the arguments, or the empty text.
pub open spec fn first_or_empty(args: Seq<Seq<char>>) -> Seq<char> {
    if args.len() > 0 {
        args[0]
    } else {
        Seq::empty()
    }
}

/// What comes of a finished `zellij action` with its output as text: what it printed, or an
/// error that names the action and quotes standard error, or standard output where that is empty.
pub open spec fn action_reply_of(
    args: Seq<Seq<char>>,
    success: bool,
    stdout: Seq<char>,
    stderr: Seq<char>,
) -> Result<Seq<char>, Seq<char>> {
    if success {
        Ok(text::trimmed(stdout))
    } else {
        let reason = if text::trimmed(stderr).len() == 0 {
            text::trimmed(stdout)
        } else {
            text::trimmed(stderr)
        };
        Err("zellij action "@ + first_or_empty(args) + " failed: "@ + reason)
    }
}

/// What comes of running `zellij action`: an error where it did not start.
pub open spec fn action_of(
    args: Seq<Seq<char>>,
    run: Result<ProcessOutput, String>,
) -> Result<Seq<char>, Seq<char>> {
    match run {
        Err(e) => Err("failed to run zellij action: "@ + e@),
        Ok(out) => action_reply_of(
            args,
            out.success,
            text::decoded(out.stdout@),
            text::decoded(out.stderr@),
        ),
    }
}

/// The verdict on a version as zellij prints it after its name.
pub open spec fn version_part_verdict(part: Seq<char>) -> Result<(), Seq<char>> {
    let parts = text::pieces(part, '.');
    if parts.len() < 2 {
        Err("cannot parse zellij version: "@ + part)
    } else {
        match (text::number_of(parts[0]), text::number_of(parts[1])) {
            (None, _) => Err("invalid major version: "@ + parts[0]),
            (_, None) => Err("invalid minor version: "@ + parts[1]),
            (Some(major), Some(minor)) => if major == 0 && minor < 40 {
                Err("zellij >= 0.40 required, found "@ + part)
            } else {
                Ok(())
            },
        }
    }
}

/// The verdict on what `zellij --version` printed: zellij 0.40 or later is accepted.
pub open spec fn version_verdict(printed: Seq<char>) -> Result<(), Seq<char>> {
    let version = text::trimmed(printed);
    match text::after_prefix(version, "zellij "@) {
        None => Err("unexpected zellij version output: "@ + version),
        Some(part) => version_part_verdict(part),
    }
}

/// The verdict on a run of `zellij --version`.
pub open spec fn version_run_verdict(run: Result<Vec<u8>, String>) -> Result<(), Seq<char>> {
    match run {
        Err(e) => Err("failed to run zellij --version: "@ + e@),
        Ok(stdout) => version_verdict(text::decoded(stdout@)),
    }
}

/// The file that a session is remembered in: `flotilla/zellij/{session}/state.toml` below the
/// configuration directory, by the components of the path. Slashes that the session begins with
/// are left out, so that it is looked up from there; a `..` in it is a component like any other
/// and is not resolved.
pub open spec fn state_file(config_dir: Seq<u8>, session: Seq<char>) -> Seq<u8> {
    let base = fs_path::adjoined(
        fs_path::adjoined(config_dir, vstd::utf8::encode_utf8("flotilla"@)),
        vstd::utf8::encode_utf8("zellij"@),
    );
    fs_path::adjoined(
        fs_path::adjoined(base, fs_path::relative_of(vstd::utf8::encode_utf8(session))),
        vstd::utf8::encode_utf8("state.toml"@),
    )
}

/// The file that a session is remembered in, or an error where there is no configuration
/// directory.
pub open spec fn state_path_of(
    config_dir: Option<Seq<u8>>,
    session: Seq<char>,
) -> Result<Seq<u8>, Seq<char>> {
    match config_dir {
        None => Err("could not determine config directory"@),
        Some(dir) => Ok(state_file(dir, session)),
    }
}

/// The workspace that a tab is: its directory and the key for it come from what is remembered
/// of the tab.
pub open spec fn tab_workspace(
    name: Seq<char>,
    tabs: Map<Seq<char>, TabState>,
) -> workspace::WorkspaceView {
    let dir = vstd::utf8::encode_utf8(tabs[name].working_directory@);
    workspace::WorkspaceView {
        ws_ref: name,
        name,
        directories: if tabs.contains_key(name) {
            seq![dir]
        } else {
            Seq::empty()
        },
        correlation_keys: if tabs.contains_key(name) {
            seq![workspace::CorrelationKeyView::CheckoutPath(dir)]
        } else {
            Seq::empty()
        },
    }
}

/// The tab names that zellij printed, one on each line that is not empty.
pub open spec fn tab_names(output: Seq<char>) -> Seq<Seq<char>> {
    text::lines_of(output).filter(|line: Seq<char>| line.len() > 0)
}

/// The workspaces that the tabs are, in the order of the tabs.
pub open spec fn tab_workspaces(
    output: Seq<char>,
    tabs: Map<Seq<char>, TabState>,
) -> Seq<workspace::WorkspaceView> {
    tab_names(output).map_values(|name: Seq<char>| tab_workspace(name, tabs))
}

/// What is remembered, where reading it went well.
pub open spec fn state_or_empty(r: Result<ZellijState, String>) -> Map<Seq<char>, TabState> {
    match r {
        Ok(s) => s@,
        Err(_) => Map::empty(),
    }
}

/// `a` followed by `b`.
fn cat(a: &str, b: &str) -> (r: String)
    ensures
        r@ == a@ + b@,
{
    let mut out = a.to_owned();
    out.append(b);
    out
}

/// Lists, selects and remembers zellij tabs.
#[derive(Debug, Clone, Copy)]
pub struct ZellijWorkspaceManager;

impl Default for ZellijWorkspaceManager {
    fn default() -> (m: Self)
        ensures
            m == ZellijWorkspaceManager,
    {
        Self::new()
    }
}

impl ZellijWorkspaceManager {
    pub fn new() -> (m: Self)
        ensures
            m == ZellijWorkspaceManager,
    {
        ZellijWorkspaceManager
    }

    /// The name shown to the user.
    pub fn display_name(&self) -> (s: &str)
        ensures
            s@ == "zellij Workspaces"@,
    {
        "zellij Workspaces"
    }

    /// The arguments that zellij is run with for an action.
    pub fn action_command(args: &[&str]) -> (r: Vec<String>)
        ensures
            text::texts(r@) == seq!["action"@] + views::slices(args@),
    {
        let mut out: Vec<String> = Vec::new();
        out.push("action".to_owned());
        let mut i: usize = 0;
        assert(text::texts(out@) =~= seq!["action"@] + views::slices(args@).take(0));
        while i < args.len()
            invariant
                i <= args@.len(),
                text::texts(out@) == seq!["action"@] + views::slices(args@).take(i as int),
            decreases args@.len() - i,
        {
            let ghost before = out@;
            out.push(args[i].to_owned());
            assert(text::texts(out@) =~= text::texts(before).push(args@[i as int]@));
            assert(views::slices(args@).take(i + 1) =~= views::slices(args@).take(i as int).push(
                args@[i as int]@,
            ));
            assert(text::texts(out@) =~= seq!["action"@] + views::slices(args@).take(i + 1));
            i = i + 1;
        }
        assert(views::slices(args@).take(i as int) =~= views::slices(args@));
        out
    }

    /// What comes of a finished action, with its output as text.
    pub fn action_reply(args: &[&str], success: bool, stdout: &str, stderr: &str) -> (r: Result<
        String,
        String,
    >)
        ensures
            views::text_result(r) == action_reply_of(views::slices(args@), success, stdout@, stderr@),
    {
        let out = text::trim(stdout);
        if success {
            return Ok(out);
        }
        let err = text::trim(stderr);
        let mut message = "zellij action ".to_owned();
        if args.len() > 0 {
            message.append(args[0]);
        } else {
            assert(message@ + Seq::<char>::empty() =~= message@);
        }
        message.append(" failed: ");
        if err.as_str().is_empty() {
            message.append(out.as_str());
        } else {
            message.append(err.as_str());
        }
        Err(message)
    }

    /// What comes of running an action: what it printed, or an error.
    pub fn zellij_action(args: &[&str], run: Result<ProcessOutput, String>) -> (r: Result<
        String,
        String,
    >)
        ensures
            views::text_result(r) == action_of(views::slices(args@), run),
    {
        match run {
            Err(e) => Err(cat("failed to run zellij action: ", e.as_str())),
            Ok(out) => {
                let stdout = text::decode(out.stdout.as_slice());
                let stderr = text::decode(out.stderr.as_slice());
                Self::action_reply(args, out.success, stdout.as_str(), stderr.as_str())
            },
        }
    }

    /// Checks what `zellij --version` printed, such as `zellij 0.42.2`: 0.40 or later is needed.
    pub fn check_version_text(printed: &str) -> (r: Result<(), String>)
        ensures
            views::unit_result(r) == version_verdict(printed@),
    {
        let version = text::trim(printed);
        let part = match text::strip_prefix(version.as_str(), "zellij ") {
            Some(part) => part,
            None => {
                return Err(cat("unexpected zellij version output: ", version.as_str()));
            },
        };
        let (major_text, minor_text) = match text::first_two_pieces(part.as_str(), '.') {
            Some(two) => two,
            None => {
                return Err(cat("cannot parse zellij version: ", part.as_str()));
            },
        };
        let major: u32 = match text::parse_u32(major_text.as_str()) {
            Some(n) => n,
            None => {
                return Err(cat("invalid major version: ", major_text.as_str()));
            },
        };
        let minor: u32 = match text::parse_u32(minor_text.as_str()) {
            Some(n) => n,
            None => {
                return Err(cat("invalid minor version: ", minor_text.as_str()));
            },
        };
        if major == 0 && minor < 40 {
            return Err(cat("zellij >= 0.40 required, found ", part.as_str()));
        }
        Ok(())
    }

    /// Checks a run of `zellij --version` for 0.40 or later.
    pub fn check_version(run: Result<Vec<u8>, String>) -> (r: Result<(), String>)
        ensures
            views::unit_result(r) == version_run_verdict(run),
    {
        match run {
            Err(e) => Err(cat("failed to run zellij --version: ", e.as_str())),
            Ok(stdout) => {
                let printed = text::decode(stdout.as_slice());
                Self::check_version_text(printed.as_str())
            },
        }
    }

    /// The name of the current session, from the value of `ZELLIJ_SESSION_NAME`.
    pub fn session_name(value: Option<String>) -> (r: Result<String, String>)
        ensures
            views::text_result(r) == (match value {
                Some(name) => Ok::<Seq<char>, Seq<char>>(name@),
                None => Err(
                    "not running inside a zellij session (ZELLIJ_SESSION_NAME not set)"@,
                ),
            }),
    {
        match value {
            Some(name) => Ok(name),
            None => Err(
                "not running inside a zellij session (ZELLIJ_SESSION_NAME not set)".to_owned(),
            ),
        }
    }

    /// The file that a session is remembered in, below the given configuration directory.
    pub fn state_path_in(config_dir: Option<FsPath>, session: &str) -> (r: Result<FsPath, String>)
        ensures
            views::path_result(r) == state_path_of(views::opt_path(config_dir), session@),
    {
        match config_dir {
            None => Err("could not determine config directory".to_owned()),
            Some(dir) => Ok(
                dir.join(&FsPath::from_text("flotilla")).join(&FsPath::from_text("zellij")).join(
                    &FsPath::from_text(session).relative(),
                ).join(&FsPath::from_text("state.toml")),
            ),
        }
    }

    /// The file that a session is remembered in: `flotilla/zellij/{session}/state.toml` where the
    /// user's configuration lies, such as `~/.config`. Which directory that is depends on the
    /// platform and the environment.
    pub fn state_path(session: &str) -> (r: Result<FsPath, String>)
        ensures
            exists|config: Option<Seq<u8>>, home: Option<Seq<u8>>|
                (config matches Some(c) ==> c.len() > 0) && views::path_result(r) == state_path_of(
                    #[trigger] places::place_of(config, home),
                    session@,
                ),
    {
        let dir = places::config_place();
        let ghost d = views::opt_path(dir);
        let r = Self::state_path_in(dir, session);
        proof {
            let (config, home) = choose|config: Option<Seq<u8>>, home: Option<Seq<u8>>|
                (config matches Some(c) ==> c.len() > 0) && d == #[trigger] places::place_of(
                    config,
                    home,
                );
            assert(views::path_result(r) == state_path_of(
                places::place_of(config, home),
                session@,
            ));
        }
        r
    }

    /// What is remembered of a session, from the attempt to read it; nothing where that failed.
    pub fn load_state(read: Result<ZellijState, String>) -> (s: ZellijState)
        ensures
            s@ == state_or_empty(read),
    {
        match read {
            Ok(s) => s,
            Err(_) => ZellijState::default(),
        }
    }

    /// The action that prints the names of the tabs.
    pub fn list_request() -> (args: Vec<String>)
        ensures
            text::texts(args@) == seq!["query-tab-names"@],
    {
        let mut args: Vec<String> = Vec::new();
        args.push("query-tab-names".to_owned());
        assert(text::texts(args@) =~= seq!["query-tab-names"@]);
        args
    }

    /// The workspace that a tab is.
    fn workspace_of_tab(name: &String, state: &ZellijState) -> (w: Workspace)
        ensures
            w@ == tab_workspace(name@, state@),
    {
        let mut directories: Vec<FsPath> = Vec::new();
        let mut correlation_keys: Vec<CorrelationKey> = Vec::new();
        if let Some(tab) = state.get(name.as_str()) {
            let path = FsPath::from_text(tab.working_directory.as_str());
            correlation_keys.push(CorrelationKey::CheckoutPath(path.clone()));
            directories.push(path);
        }
        let w = Workspace { ws_ref: name.clone(), name: name.clone(), directories, correlation_keys };
        assert(w@.directories =~= tab_workspace(name@, state@).directories);
        assert(w@.correlation_keys =~= tab_workspace(name@, state@).correlation_keys);
        w
    }

    /// The workspaces of the current session, from what the list action printed and from what is
    /// remembered of the session.
    pub fn workspaces_from(output: &str, state: &ZellijState) -> (r: Vec<Workspace>)
        ensures
            views::views(r@) == tab_workspaces(output@, state@),
    {
        let all = text::lines(output);
        let mut out: Vec<Workspace> = Vec::new();
        let mut i: usize = 0;
        let ghost lines = text::lines_of(output@);
        let ghost keep = |line: Seq<char>| line.len() > 0;
        let ghost make = |name: Seq<char>| tab_workspace(name, state@);
        assert(lines.take(0).filter(keep) =~= Seq::<Seq<char>>::empty()) by {
            reveal(Seq::filter);
        }
        assert(views::views(out@) =~= lines.take(0).filter(keep).map_values(make));
        while i < all.len()
            invariant
                i <= all@.len(),
                text::texts(all@) == lines,
                keep == (|line: Seq<char>| line.len() > 0),
                make == (|name: Seq<char>| tab_workspace(name, state@)),
                views::views(out@) == lines.take(i as int).filter(keep).map_values(make),
            decreases all@.len() - i,
        {
            let ghost before = out@;
            let line = &all[i];
            proof {
                assert(lines[i as int] == line@);
                assert(lines.take(i + 1).drop_last() =~= lines.take(i as int));
                assert(lines.take(i + 1).last() == line@);
                reveal(Seq::filter);
            }
            if !line.as_str().is_empty() {
                out.push(Self::workspace_of_tab(line, state));
                assert(views::views(out@) =~= views::views(before).push(make(line@)));
                assert(lines.take(i + 1).filter(keep) == lines.take(i as int).filter(keep).push(
                    line@,
                ));
                assert(views::views(out@) =~= lines.take(i + 1).filter(keep).map_values(make));
            }
            i = i + 1;
        }
        assert(lines.take(i as int) =~= lines);
        out
    }

    /// The workspaces of the current session, from the reply to the list action and from the
    /// attempt to find what is remembered of the session.
    pub fn list_workspaces(
        reply: Result<String, String>,
        state: Result<ZellijState, String>,
    ) -> (r: Result<Vec<Workspace>, String>)
        ensures
            match reply {
                Err(e) => r matches Err(f) && f@ == e@,
                Ok(output) => r matches Ok(list) && views::views(list@) == tab_workspaces(
                    output@,
                    state_or_empty(state),
                ),
            },
    {
        match reply {
            Err(e) => Err(e),
            Ok(output) => {
                let state = Self::load_state(state);
                Ok(Self::workspaces_from(output.as_str(), &state))
            },
        }
    }

    /// The action that switches to a workspace.
    pub fn select_request(ws_ref: &str) -> (args: Vec<String>)
        ensures
            text::texts(args@) == seq!["go-to-tab-name"@, ws_ref@],
    {
        let mut args: Vec<String> = Vec::new();
        args.push("go-to-tab-name".to_owned());
        args.push(ws_ref.to_owned());
        assert(text::texts(args@) =~= seq!["go-to-tab-name"@, ws_ref@]);
        args
    }

    /// What comes of switching to a workspace, from the reply to the select action.
    pub fn select_workspace(reply: Result<String, String>) -> (r: Result<(), String>)
        ensures
            views::unit_result(r) == (match views::text_result(reply) {
                Ok(_) => Ok::<(), Seq<char>>(()),
                Err(e) => Err(e),
            }),
    {
        match reply {
            Ok(_) => Ok(()),
            Err(e) => Err(e),
        }
    }
}

/// A zellij version is accepted exactly from 0.40 on, whatever follows its first two numbers.
pub proof fn versions_are_accepted_from_0_40(
    printed: Seq<char>,
    major: u32,
    minor: u32,
    rest: Seq<char>,
)
    requires
        text::trimmed(printed) == "zellij "@ + text::decimal(major as int) + seq!['.']
            + text::decimal(minor as int) + rest,
        rest.len() > 0 ==> rest[0] == '.',
    ensures
        version_verdict(printed) is Ok <==> major > 0 || minor >= 40,
{
    let a = text::decimal(major as int);
    let b = text::decimal(minor as int);
    let version = text::trimmed(printed);
    let part = a + seq!['.'] + b + rest;
    let prefix = "zellij "@;
    assert(version.take(prefix.len() as int) =~= prefix);
    assert(version.skip(prefix.len() as int) =~= part);
    assert(text::after_prefix(version, prefix) == Some(part));
    text::decimal_reads_back(major);
    text::decimal_reads_back(minor);
    text::decimal_has_only_digits(major);
    text::decimal_has_only_digits(minor);
    lemma_first_two_numbers(a, b, rest);
}

/// Two numbers with a dot between them, and nothing or a dot behind them, are the first two
/// pieces between dots.
proof fn lemma_first_two_numbers(a: Seq<char>, b: Seq<char>, rest: Seq<char>)
    requires
        text::all_digits(a),
        text::all_digits(b),
        rest.len() > 0 ==> rest[0] == '.',
    ensures
        ({
            let parts = text::pieces(a + seq!['.'] + b + rest, '.');
            parts.len() >= 2 && parts[0] == a && parts[1] == b
        }),
{
    let part = a + seq!['.'] + b + rest;
    let after = b + rest;
    assert(part =~= a + seq!['.'] + after);
    lemma_first_number(a, seq!['.'] + after);
    assert(part =~= a + (seq!['.'] + after));
    assert((seq!['.'] + after).skip(1) =~= after);
    lemma_first_number(b, rest);
}

/// A number is the first piece between dots where nothing or a dot follows it.
proof fn lemma_first_number(a: Seq<char>, rest: Seq<char>)
    requires
        text::all_digits(a),
        rest.len() > 0 ==> rest[0] == '.',
    ensures
        text::pieces(a + rest, '.') == seq![a] + if rest.len() > 0 {
            text::pieces(rest.skip(1), '.')
        } else {
            Seq::empty()
        },
        text::pieces(a + rest, '.').len() >= 1,
{
    let s = a + rest;
    assert forall|i: int| 0 <= i < a.len() implies s[i] != '.' by {
        assert(text::is_digit(a[i]));
    }
    text::lemma_find(s, '.', a.len() as int);
    if rest.len() > 0 {
        assert(s.take(a.len() as int) =~= a);
        assert(s.skip(a.len() as int + 1) =~= rest.skip(1));
    } else {
        assert(s =~= a);
        assert(seq![a] + Seq::<Seq<char>>::empty() =~= seq![a]);
    }
}

/// Every line that is not empty is one workspace, in the order printed. Its handle and its name
/// are that line; it has a directory, and the key for it, exactly where the tab is remembered.
pub proof fn workspaces_follow_the_tabs(
    output: Seq<char>,
    tabs: Map<Seq<char>, TabState>,
    i: int,
)
    requires
        0 <= i < tab_names(output).len(),
    ensures
        tab_workspaces(output, tabs).len() == tab_names(output).len(),
        tab_workspaces(output, tabs)[i].ws_ref == tab_names(output)[i],
        tab_workspaces(output, tabs)[i].name == tab_names(output)[i],
        tab_names(output)[i].len() > 0,
        text::lines_of(output).contains(tab_names(output)[i]),
        tabs.contains_key(tab_names(output)[i]) ==> tab_workspaces(output, tabs)[i].directories
            == seq![vstd::utf8::encode_utf8(tabs[tab_names(output)[i]].working_directory@)],
        !tabs.contains_key(tab_names(output)[i]) ==> tab_workspaces(output, tabs)[i].directories
            == Seq::<Seq<u8>>::empty(),
        tab_workspaces(output, tabs)[i].correlation_keys
            == tab_workspaces(output, tabs)[i].directories.map_values(
            |d: Seq<u8>| workspace::CorrelationKeyView::CheckoutPath(d),
        ),
{
    let keep = |line: Seq<char>| line.len() > 0;
    text::lines_of(output).lemma_filter_contains_rev(keep, tab_names(output)[i]);
    assert(keep(tab_names(output)[i]));
    let w = tab_workspaces(output, tabs)[i];
    assert(w.correlation_keys =~= w.directories.map_values(
        |d: Seq<u8>| workspace::CorrelationKeyView::CheckoutPath(d),
    ));
}

/// Whatever the session, the components of its file are those of `flotilla/zellij` in the
/// configuration directory, then those of the session, `..` among them, then `state.toml`.
pub proof fn state_file_lies_below_config_dir(config_dir: Seq<u8>, session: Seq<char>)
    ensures
        fs_path::names(state_file(config_dir, session)) == fs_path::names(config_dir) + seq![
            vstd::utf8::encode_utf8("flotilla"@),
            vstd::utf8::encode_utf8("zellij"@),
        ] + fs_path::names_below(vstd::utf8::encode_utf8(session)) + seq![
            vstd::utf8::encode_utf8("state.toml"@),
        ],
        fs_path::rooted(state_file(config_dir, session)) == fs_path::rooted(config_dir),
{
    let flotilla = vstd::utf8::encode_utf8("flotilla"@);
    let zellij = vstd::utf8::encode_utf8("zellij"@);
    let bytes = vstd::utf8::encode_utf8(session);
    let own = fs_path::relative_of(bytes);
    let file = vstd::utf8::encode_utf8("state.toml"@);
    lemma_literals_are_plain();
    let a = fs_path::adjoined(config_dir, flotilla);
    let b = fs_path::adjoined(a, zellij);
    let c = fs_path::adjoined(b, own);
    fs_path::adjoined_name_is_last(config_dir, flotilla);
    fs_path::adjoined_name_is_last(a, zellij);
    assert(b.len() > 0) by {
        assert(zellij.len() > 0);
    }
    fs_path::relative_paths_keep_their_names(bytes);
    fs_path::adjoined_names_follow(b, own);
    fs_path::adjoined_name_is_last(c, file);
    assert(fs_path::names(b) =~= fs_path::names(config_dir) + seq![flotilla, zellij]);
    assert(fs_path::names(c).push(file) =~= fs_path::names(c) + seq![file]);
}

proof fn lemma_literals_are_plain()
    ensures
        fs_path::plain_name(vstd::utf8::encode_utf8("flotilla"@)),
        fs_path::plain_name(vstd::utf8::encode_utf8("zellij"@)),
        fs_path::plain_name(vstd::utf8::encode_utf8("state.toml"@)),
{
    reveal_strlit("flotilla");
    reveal_strlit("zellij");
    reveal_strlit("state.toml");
    vstd::utf8::is_ascii_chars_encode_utf8("flotilla"@);
    vstd::utf8::is_ascii_chars_encode_utf8("zellij"@);
    vstd::utf8::is_ascii_chars_encode_utf8("state.toml"@);
}

/// Whether the system keeps configuration in `~/.config` or in `~/Library/Application Support`, a
/// session is remembered in `~/.config/flotilla/zellij/{session}/state.toml`.
pub proof fn sessions_are_remembered_in_dot_config(
    config: Seq<u8>,
    home: Seq<u8>,
    session: Seq<char>,
)
    requires
        config == places::dot_config(home) || config == places::application_support(home),
    ensures
        state_path_of(places::place_of(Some(config), Some(home)), session) == Ok::<
            Seq<u8>,
            Seq<char>,
        >(state_file(places::dot_config(home), session)),
{
    places::configuration_lies_in_dot_config(config, home);
}

/// Two sessions are remembered in one file exactly where they name one path below a directory;
/// so sessions with different plain names never are.
pub proof fn sessions_have_their_own_files(
    config_dir: Seq<u8>,
    session: Seq<char>,
    other: Seq<char>,
)
    ensures
        fs_path::same(state_file(config_dir, session), state_file(config_dir, other))
            <==> fs_path::names_below(vstd::utf8::encode_utf8(session)) == fs_path::names_below(
            vstd::utf8::encode_utf8(other),
        ),
        fs_path::plain_name(vstd::utf8::encode_utf8(session)) && fs_path::plain_name(
            vstd::utf8::encode_utf8(other),
        ) && session != other ==> !fs_path::same(
            state_file(config_dir, session),
            state_file(config_dir, other),
        ),
{
    let s = vstd::utf8::encode_utf8(session);
    let t = vstd::utf8::encode_utf8(other);
    let head = fs_path::names(config_dir) + seq![
        vstd::utf8::encode_utf8("flotilla"@),
        vstd::utf8::encode_utf8("zellij"@),
    ];
    let tail = seq![vstd::utf8::encode_utf8("state.toml"@)];
    state_file_lies_below_config_dir(config_dir, session);
    state_file_lies_below_config_dir(config_dir, other);
    lemma_middle_decides(head, fs_path::names_below(s), fs_path::names_below(t), tail);
    if fs_path::plain_name(s) && fs_path::plain_name(t) && session != other {
        lemma_plain_sessions_differ(session, other);
    }
}

/// Between the same beginning and the same end, two sequences are equal where their middles are.
proof fn lemma_middle_decides<T>(head: Seq<T>, a: Seq<T>, b: Seq<T>, tail: Seq<T>)
    ensures
        head + a + tail == head + b + tail <==> a == b,
{
    let x = head + a + tail;
    let y = head + b + tail;
    if x == y {
        assert(x.len() == y.len());
        assert(x.subrange(head.len() as int, x.len() - tail.len()) =~= a);
        assert(y.subrange(head.len() as int, y.len() - tail.len()) =~= b);
    }
}

proof fn lemma_plain_sessions_differ(session: Seq<char>, other: Seq<char>)
    requires
        fs_path::plain_name(vstd::utf8::encode_utf8(session)),
        fs_path::plain_name(vstd::utf8::encode_utf8(other)),
        session != other,
    ensures
        fs_path::names_below(vstd::utf8::encode_utf8(session)) != fs_path::names_below(
            vstd::utf8::encode_utf8(other),
        ),
{
    let s = vstd::utf8::encode_utf8(session);
    let t = vstd::utf8::encode_utf8(other);
    fs_path::plain_names_stay_whole(s);
    fs_path::plain_names_stay_whole(t);
    vstd::utf8::encode_utf8_decode_utf8(session);
    vstd::utf8::encode_utf8_decode_utf8(other);
    assert(seq![s][0] == s && seq![t][0] == t);
}

/// How many of the first `k` lines are not empty.
pub open spec fn filled_lines(lines: Seq<Seq<char>>, k: int) -> int
    decreases k,
{
    if k <= 0 {
        0
    } else if lines[k - 1].len() > 0 {
        filled_lines(lines, k - 1) + 1
    } else {
        filled_lines(lines, k - 1)
    }
}

proof fn lemma_filled_lines(lines: Seq<Seq<char>>, n: int, k: int)
    requires
        0 <= n <= lines.len(),
    ensures
        ({
            let kept = lines.take(n).filter(|line: Seq<char>| line.len() > 0);
            &&& kept.len() == filled_lines(lines, n)
            &&& 0 <= k < n && lines[k].len() > 0 ==> 0 <= filled_lines(lines, k) < kept.len()
                && kept[filled_lines(lines, k)] == lines[k]
        }),
        0 <= filled_lines(lines, n),
    decreases n,
{
    let keep = |line: Seq<char>| line.len() > 0;
    reveal(Seq::filter);
    if n > 0 {
        lemma_filled_lines(lines, n - 1, k);
        assert(lines.take(n).drop_last() =~= lines.take(n - 1));
        assert(lines.take(n).last() == lines[n - 1]);
    } else {
        assert(lines.take(0).filter(keep).len() == 0);
    }
}

/// Every line that is not empty is a workspace, and nothing else is: the list is as long as there
/// are lines that are not empty, and the workspace of a line stands where as many are before it
/// as there are such lines before that line. Its handle and its name are the line, its only
/// directory is the one remembered under that name, with the key for it, and where none is
/// remembered it has neither.
pub proof fn every_filled_line_is_a_workspace(
    output: Seq<char>,
    tabs: Map<Seq<char>, TabState>,
    list: Seq<Workspace>,
    k: int,
)
    requires
        views::views(list) == tab_workspaces(output, tabs),
    ensures
        ({
            let lines = text::lines_of(output);
            let at = filled_lines(lines, k);
            &&& list.len() == filled_lines(lines, lines.len() as int)
            &&& 0 <= k < lines.len() && lines[k].len() > 0 ==> {
                &&& 0 <= at < list.len()
                &&& list[at].ws_ref@ == lines[k]
                &&& list[at].name@ == lines[k]
                &&& !tabs.contains_key(lines[k]) ==> list[at].directories@.len() == 0
                    && list[at].correlation_keys@.len() == 0
                &&& tabs.contains_key(lines[k]) ==> {
                    let dir = vstd::utf8::encode_utf8(tabs[lines[k]].working_directory@);
                    &&& list[at].directories@.len() == 1
                    &&& list[at].directories@[0]@ == dir
                    &&& list[at].correlation_keys@.len() == 1
                    &&& (list[at].correlation_keys@[0] matches CorrelationKey::CheckoutPath(p)
                        && p@ == dir)
                }
            }
        }),
{
    let lines = text::lines_of(output);
    let n = lines.len() as int;
    lemma_filled_lines(lines, n, k);
    assert(lines.take(n) =~= lines);
    assert(tab_names(output) == lines.filter(|line: Seq<char>| line.len() > 0));
    assert(views::views(list).len() == list.len());
    if 0 <= k < n && lines[k].len() > 0 {
        let at = filled_lines(lines, k);
        let w = list[at];
        assert(views::views(list)[at] == w@);
        assert(w@ == tab_workspace(lines[k], tabs));
        assert(views::views(w.directories@).len() == w.directories@.len());
        assert(views::views(w.correlation_keys@).len() == w.correlation_keys@.len());
        if tabs.contains_key(lines[k]) {
            assert(views::views(w.directories@)[0] == w.directories@[0]@);
            assert(views::views(w.correlation_keys@)[0] == w.correlation_keys@[0]@);
        }
    }
}

/// The workspaces of a line and of what follows it are the workspace of that line, unless it is
/// empty, and the workspaces of what follows.
pub proof fn workspaces_are_listed_line_by_line(
    line: Seq<char>,
    rest: Seq<char>,
    tabs: Map<Seq<char>, TabState>,
)
    requires
        !line.contains('\n'),
        line.len() > 0 ==> line.last() != '\r',
    ensures
        ({
            let all = tab_workspaces(line + seq!['\n'] + rest, tabs);
            &&& line.len() == 0 ==> all == tab_workspaces(rest, tabs)
            &&& line.len() > 0 ==> all.len() == 1 + tab_workspaces(rest, tabs).len()
                && all[0].name == line && all[0].ws_ref == line && all.skip(1) == tab_workspaces(
                rest,
                tabs,
            )
        }),
        tab_workspaces(Seq::empty(), tabs).len() == 0,
{
    text::line_feeds_end_lines(line, rest);
    let keep = |l: Seq<char>| l.len() > 0;
    let lines = text::lines_of(rest);
    Seq::filter_distributes_over_add(seq![line], lines, keep);
    reveal(Seq::filter);
    assert(seq![line].drop_last() =~= Seq::<Seq<char>>::empty());
    assert(seq![line].drop_last().filter(keep) =~= Seq::<Seq<char>>::empty());
    let make = |name: Seq<char>| tab_workspace(name, tabs);
    let all = tab_workspaces(line + seq!['\n'] + rest, tabs);
    if line.len() == 0 {
        assert(seq![line].filter(keep) =~= Seq::<Seq<char>>::empty());
        assert(seq![line].filter(keep) + lines.filter(keep) =~= lines.filter(keep));
    } else {
        assert(seq![line].filter(keep) =~= seq![line]);
        assert(all =~= seq![make(line)] + tab_workspaces(rest, tabs));
        assert(all.skip(1) =~= tab_workspaces(rest, tabs));
    }
    assert(text::lines_of(Seq::<char>::empty()).filter(keep).len() == 0);
}

/// An action that succeeded is answered with what it printed, without the white space around it.
/// One that failed is answered with an error that names its first argument and quotes what it
/// printed on standard error, or on standard output where that is blank; one that did not start,
/// with the reason.
pub proof fn actions_are_answered(args: Seq<Seq<char>>, run: Result<ProcessOutput, String>)
    ensures
        run matches Err(why) ==> action_of(args, run) == Err::<Seq<char>, Seq<char>>(
            "failed to run zellij action: "@ + why@,
        ),
        run matches Ok(out) ==> {
            let stdout = text::trimmed(text::decoded(out.stdout@));
            let stderr = text::trimmed(text::decoded(out.stderr@));
            let named = if args.len() > 0 {
                args[0]
            } else {
                Seq::empty()
            };
            let prefix = "zellij action "@ + named + " failed: "@;
            &&& out.success ==> action_of(args, run) == Ok::<Seq<char>, Seq<char>>(stdout)
            &&& !out.success && stderr.len() > 0 ==> action_of(args, run) == Err::<
                Seq<char>,
                Seq<char>,
            >(prefix + stderr)
            &&& !out.success && stderr.len() == 0 ==> action_of(args, run) == Err::<
                Seq<char>,
                Seq<char>,
            >(prefix + stdout)
        },
{
}

/// A version is refused with the first reason there is: zellij did not run; it printed something
/// else than its name and a version; the version has no dot; what stands before the first dot is
/// no number; what stands behind it, up to the next, is none; it is before 0.40. Every other
/// version is accepted.
pub proof fn versions_are_judged_by_their_first_two_numbers(
    printed: Seq<char>,
    major: Seq<char>,
    minor: Seq<char>,
    rest: Seq<char>,
)
    requires
        text::trimmed(printed) == "zellij "@ + major + seq!['.'] + minor + rest,
        !major.contains('.') && !minor.contains('.'),
        rest.len() > 0 ==> rest[0] == '.',
    ensures
        ({
            let version = major + seq!['.'] + minor + rest;
            let m = text::number_of(major);
            let n = text::number_of(minor);
            let verdict = version_verdict(printed);
            &&& m is None ==> verdict == Err::<(), Seq<char>>("invalid major version: "@ + major)
            &&& m is Some && n is None ==> verdict == Err::<(), Seq<char>>(
                "invalid minor version: "@ + minor,
            )
            &&& m is Some && n is Some ==> (verdict is Ok <==> m->0 >= 1 || n->0 >= 40)
            &&& m == Some(0u32) && n is Some && n->0 < 40 ==> verdict == Err::<(), Seq<char>>(
                "zellij >= 0.40 required, found "@ + version,
            )
        }),
{
    let prefix = "zellij "@;
    let version = major + seq!['.'] + minor + rest;
    assert(text::trimmed(printed) =~= prefix + version);
    text::prefixes_are_taken_off(text::trimmed(printed), prefix, version);
    lemma_first_two_pieces(major, minor, rest);
}

proof fn lemma_first_two_pieces(a: Seq<char>, b: Seq<char>, rest: Seq<char>)
    requires
        !a.contains('.') && !b.contains('.'),
        rest.len() > 0 ==> rest[0] == '.',
    ensures
        ({
            let parts = text::pieces(a + seq!['.'] + b + rest, '.');
            parts.len() >= 2 && parts[0] == a && parts[1] == b
        }),
{
    let after = b + rest;
    assert(a + seq!['.'] + b + rest =~= a + seq!['.'] + after);
    text::separators_end_pieces(a, '.', after);
    if rest.len() > 0 {
        assert(after =~= b + seq!['.'] + rest.skip(1));
        text::separators_end_pieces(b, '.', rest.skip(1));
    } else {
        assert(after =~= b);
        text::separators_end_pieces(b, '.', rest);
    }
}

/// What is no name and version, and a version without a dot, is refused with what was printed;
/// and a run that failed, with the reason.
pub proof fn other_version_output_is_refused(
    printed: Seq<char>,
    version: Seq<char>,
    run: Result<Vec<u8>, String>,
)
    ensures
        text::after_prefix(text::trimmed(printed), "zellij "@) is None ==> version_verdict(printed)
            == Err::<(), Seq<char>>(
            "unexpected zellij version output: "@ + text::trimmed(printed),
        ),
        text::trimmed(printed) == "zellij "@ + version && !version.contains('.')
            ==> version_verdict(printed) == Err::<(), Seq<char>>(
            "cannot parse zellij version: "@ + version,
        ),
        run matches Err(why) ==> version_run_verdict(run) == Err::<(), Seq<char>>(
            "failed to run zellij --version: "@ + why@,
        ),
        run matches Ok(out) ==> version_run_verdict(run) == version_verdict(
            text::decoded(out@),
        ),
{
    text::prefixes_are_taken_off(text::trimmed(printed), "zellij "@, version);
    if !version.contains('.') {
        text::separators_end_pieces(version, '.', Seq::empty());
    }
}

/// Without a configuration directory there is no file, and the error says so; with one there is.
pub proof fn files_need_a_configuration_directory(dir: Option<Seq<u8>>, session: Seq<char>)
    ensures
        dir is None ==> state_path_of(dir, session) == Err::<Seq<u8>, Seq<char>>(
            "could not determine config directory"@,
        ),
        dir matches Some(d) ==> state_path_of(dir, session) == Ok::<Seq<u8>, Seq<char>>(
            state_file(d, session),
        ),
{
}

/// What is remembered is what was read, and nothing where reading failed.
pub proof fn unread_sessions_are_empty(r: Result<ZellijState, String>, name: Seq<char>)
    ensures
        r matches Ok(s) ==> state_or_empty(r) == s@,
        r is Err ==> !state_or_empty(r).contains_key(name),
{
}

/// In a list that names each tab once, every tab is remembered under its name, and no other name
/// is.
pub proof fn listed_tabs_are_remembered(
    entries: Seq<(String, TabState)>,
    i: int,
    name: Seq<char>,
)
    requires
        names_differ(entries),
    ensures
        0 <= i < entries.len() ==> tabs_of(entries).contains_key(entries[i].0@)
            && tabs_of(entries)[entries[i].0@] == entries[i].1,
        tabs_of(entries).contains_key(name) ==> exists|k: int|
            0 <= k < entries.len() && (#[trigger] entries[k]).0@ == name,
{
    if 0 <= i < entries.len() {
        lemma_tabs_of_value(entries, i);
        lemma_tabs_of_keys(entries, entries[i].0@);
        assert(names_tab(entries, entries[i].0@));
    }
    lemma_tabs_of_keys(entries, name);
}

} // verus!

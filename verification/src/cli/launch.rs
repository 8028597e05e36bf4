//! Which command runs, and which native host it runs on.

use vstd::prelude::*;

use crate::browser::BrowserMode;
use crate::cli::config::ConfigCommands;
use crate::native::{
    bundled_library, canonical_install_host_library, install_path, NativeConfiguration, NativeFacts,
};
use crate::paths::{join_path, joined, parent, parent_of, PathFacts};
use crate::text::{
    chars_of, concat2, concat3, contains, contains_text, opt_text, string_from_utf8, string_of,
    texts,
};

verus! {

/// The commands for the native host.
#[derive(Debug)]
pub enum NativeCommands {
    Status,
    Doctor,
    Configure,
    Build { configuration: NativeConfiguration, target: Option<String> },
    Install,
    Paths,
}

/// The commands of the tool.
#[derive(Debug)]
pub enum Commands {
    /// Open the installed app.
    Open,
    /// Tell the versions.
    Version,
    /// Run a server.
    Serve { addr: String, detach: bool, log_path: Option<String> },
    /// Tell how the tool is used.
    Usage,
    /// Tell examples.
    Examples,
    /// Replay the trace at a path.
    Replay { path: String },
    /// Work on settings and secrets.
    Config(ConfigCommands),
    /// Work on the native host.
    Native(NativeCommands),
}

/// Whether a command runs a server at an address in the foreground.
pub open spec fn serves_at(c: Commands, address: Seq<char>) -> bool {
    c matches Commands::Serve { addr, detach, log_path } && addr@ == address && !detach && log_path
        is None
}

/// The command that runs: the one that was given; where none was, the app is opened if the
/// tool was started bare, and else a server runs at the default address.
pub fn resolved_command_for_shortcut(command: Option<Commands>, default_open_shortcut: bool) -> (res:
    Commands)
    ensures
        match command {
            Some(c) => res == c,
            None => if default_open_shortcut {
                res is Open
            } else {
                serves_at(res, "127.0.0.1:7878"@)
            },
        },
{
    match command {
        Some(c) => c,
        None => {
            if default_open_shortcut {
                Commands::Open
            } else {
                Commands::Serve {
                    addr: "127.0.0.1:7878".to_owned(),
                    detach: false,
                    log_path: None,
                }
            }
        },
    }
}

/// The mode in which the browser runs: the app that is opened always shows a window.
pub fn effective_mode(command: &Commands, mode: BrowserMode) -> (res: BrowserMode)
    ensures
        res == if command is Open {
            BrowserMode::Headful
        } else {
            mode
        },
{
    match command {
        Commands::Open => BrowserMode::Headful,
        _ => mode,
    }
}

/// How a mode is written on the command line.
pub open spec fn mode_word(mode: BrowserMode) -> Seq<char> {
    match mode {
        BrowserMode::Headless => "headless"@,
        BrowserMode::Headful => "headful"@,
    }
}

/// How a mode is written on the command line.
pub fn as_cli_value(mode: BrowserMode) -> (res: &'static str)
    ensures
        res@ == mode_word(mode),
{
    match mode {
        BrowserMode::Headless => "headless",
        BrowserMode::Headful => "headful",
    }
}

/// The arguments of a server that runs in the background.
pub open spec fn child_arguments(
    mode: BrowserMode,
    profile: Seq<char>,
    host_lib: Seq<char>,
    start_url: Option<Seq<char>>,
    addr: Seq<char>,
) -> Seq<Seq<char>> {
    seq!["--mode"@, mode_word(mode), "--profile"@, profile, "--host-lib"@, host_lib]
        + match start_url {
        Some(url) => seq!["--start-url"@, url],
        None => Seq::empty(),
    } + seq!["serve"@, "--addr"@, addr]
}

/// The arguments of a server that runs in the background: it keeps what the tool was started
/// with, but runs in the foreground of its own process.
pub fn detached_serve_child_args(
    mode: BrowserMode,
    profile: &str,
    host_lib: &str,
    start_url: &Option<String>,
    addr: &str,
) -> (res: Vec<String>)
    ensures
        texts(res@) == child_arguments(mode, profile@, host_lib@, opt_text(*start_url), addr@),
{
    let mut args: Vec<String> = Vec::new();
    args.push("--mode".to_owned());
    args.push(as_cli_value(mode).to_owned());
    args.push("--profile".to_owned());
    args.push(profile.to_owned());
    args.push("--host-lib".to_owned());
    args.push(host_lib.to_owned());
    if let Some(url) = start_url {
        args.push("--start-url".to_owned());
        args.push(url.clone());
    }
    args.push("serve".to_owned());
    args.push("--addr".to_owned());
    args.push(addr.to_owned());
    assert(texts(args@) =~= child_arguments(
        mode,
        profile@,
        host_lib@,
        opt_text(*start_url),
        addr@,
    ));
    args
}

/// An address as part of a file name: colons and dots become underscores.
pub open spec fn slug_of(addr: Seq<char>) -> Seq<char> {
    Seq::new(
        addr.len(),
        |i: int|
            if addr[i] == ':' || addr[i] == '.' {
                '_'
            } else {
                addr[i]
            },
    )
}

/// An address as part of a file name.
pub fn addr_slug(addr: &str) -> (res: String)
    ensures
        res@ == slug_of(addr@),
{
    let chars = chars_of(addr);
    let mut out = String::new();
    let mut i: usize = 0;
    while i < chars.len()
        invariant
            i <= chars@.len(),
            chars@ == addr@,
            out@ == slug_of(addr@).take(i as int),
        decreases chars@.len() - i,
    {
        let c = if chars[i] == ':' || chars[i] == '.' {
            '_'
        } else {
            chars[i]
        };
        out.push(c);
        i += 1;
        assert(out@ =~= slug_of(addr@).take(i as int));
    }
    assert(slug_of(addr@).take(i as int) =~= slug_of(addr@));
    out
}

/// The log file of a server that runs in the background.
pub open spec fn log_file(
    profile: Seq<char>,
    addr: Seq<char>,
    asked: Option<Seq<char>>,
    home: Option<Seq<char>>,
    temp_dir: Seq<char>,
) -> Seq<char> {
    match asked {
        Some(path) => path,
        None => joined(
            match home {
                Some(h) => joined(joined(h, ".aegis"@), "logs"@),
                None => temp_dir,
            },
            "serve-"@ + profile + "-"@ + slug_of(addr) + ".log"@,
        ),
    }
}

/// The log file of a server that runs in the background: the one asked for, else one below
/// the home directory, or below the directory for temporary files where there is none.
pub fn detach_log_path(
    profile: &str,
    addr: &str,
    override_path: Option<String>,
    home: &Option<String>,
    temp_dir: &str,
) -> (res: String)
    ensures
        res@ == log_file(profile@, addr@, opt_text(override_path), opt_text(*home), temp_dir@),
{
    if let Some(path) = override_path {
        return path;
    }
    let base = match home {
        Some(h) => join_path(join_path(h.as_str(), ".aegis").as_str(), "logs"),
        None => temp_dir.to_owned(),
    };
    let head = concat3("serve-", profile, "-");
    let name = concat3(head.as_str(), addr_slug(addr).as_str(), ".log");
    join_path(base.as_str(), name.as_str())
}

/// Whether a directory has the shape of a workspace: a manifest and the native sources.
pub open spec fn workspace_shape(facts: PathFacts, path: Seq<char>) -> bool {
    facts.has(joined(path, "Cargo.toml"@)) && facts.has(
        joined(joined(path, "native"@), "CMakeLists.txt"@),
    )
}

/// Whether a directory has the shape of a workspace.
pub fn is_aegis_workspace_root(path: &str, facts: &PathFacts) -> (res: bool)
    ensures
        res == workspace_shape(*facts, path@),
{
    facts.knows(join_path(path, "Cargo.toml").as_str()) && facts.knows(
        join_path(join_path(path, "native").as_str(), "CMakeLists.txt").as_str(),
    )
}

/// The closest workspace at or above a path.
pub open spec fn workspace_above(facts: PathFacts, path: Seq<char>) -> Option<Seq<char>>
    decreases path.len(),
{
    if workspace_shape(facts, path) {
        Some(path)
    } else {
        match parent_of(path) {
            Some(up) => if up.len() < path.len() {
                workspace_above(facts, up)
            } else {
                None
            },
            None => None,
        }
    }
}

/// The closest workspace at or above a path.
pub fn find_aegis_workspace_root(path: &str, facts: &PathFacts) -> (res: Option<String>)
    ensures
        opt_text(res) == workspace_above(*facts, path@),
    decreases path@.len(),
{
    if is_aegis_workspace_root(path, facts) {
        return Some(path.to_owned());
    }
    match parent(path) {
        Some(up) => find_aegis_workspace_root(up.as_str(), facts),
        None => None,
    }
}

/// The workspace that commands work on: the one that is set, else the working directory if it
/// is one, else the one that the tool lies in, else the working directory.
pub fn resolve_workspace_root(
    asked: Option<String>,
    working_dir: String,
    current_exe: &str,
    facts: &PathFacts,
) -> (res: String)
    ensures
        res@ == match opt_text(asked) {
            Some(root) => root,
            None => if workspace_shape(*facts, working_dir@) {
                working_dir@
            } else {
                match workspace_above(*facts, current_exe@) {
                    Some(root) => root,
                    None => working_dir@,
                }
            },
        },
{
    if let Some(root) = asked {
        return root;
    }
    if is_aegis_workspace_root(working_dir.as_str(), facts) {
        return working_dir;
    }
    match find_aegis_workspace_root(current_exe, facts) {
        Some(root) => root,
        None => working_dir,
    }
}

/// Where the native host of a server comes from.
#[derive(Debug, PartialEq, Eq)]
pub enum ServeRuntimeSource {
    /// From a workspace.
    Workspace(String),
    /// From the installed app.
    Installed(String),
    /// There is none.
    MissingInstalled,
}

/// The contents of a `ServeRuntimeSource`.
pub enum SourceView {
    Workspace(Seq<char>),
    Installed(Seq<char>),
    MissingInstalled,
}

impl View for ServeRuntimeSource {
    type V = SourceView;

    open spec fn view(&self) -> SourceView {
        match self {
            ServeRuntimeSource::Workspace(root) => SourceView::Workspace(root@),
            ServeRuntimeSource::Installed(path) => SourceView::Installed(path@),
            ServeRuntimeSource::MissingInstalled => SourceView::MissingInstalled,
        }
    }
}

/// Where the native host of a server comes from: a workspace that is set or that the tool lies
/// in, else the installed app.
pub open spec fn runtime_source(
    asked: Option<Seq<char>>,
    current_exe: Seq<char>,
    facts: NativeFacts,
) -> SourceView {
    match asked {
        Some(root) => SourceView::Workspace(root),
        None => match workspace_above(facts.paths, current_exe) {
            Some(root) => SourceView::Workspace(root),
            None => match install_path(facts.platform, opt_text(facts.home)) {
                Some(dir) => SourceView::Installed(bundled_library(dir, facts.platform)),
                None => SourceView::MissingInstalled,
            },
        },
    }
}

/// Where the native host of a server comes from.
pub fn default_serve_runtime_source(
    asked: Option<String>,
    current_exe: &str,
    facts: &NativeFacts,
) -> (res: ServeRuntimeSource)
    ensures
        res@ == runtime_source(opt_text(asked), current_exe@, *facts),
{
    if let Some(root) = asked {
        return ServeRuntimeSource::Workspace(root);
    }
    if let Some(root) = find_aegis_workspace_root(current_exe, &facts.paths) {
        return ServeRuntimeSource::Workspace(root);
    }
    match canonical_install_host_library(facts) {
        Some(library) => ServeRuntimeSource::Installed(library),
        None => ServeRuntimeSource::MissingInstalled,
    }
}

/// The native host of a server: the one of a workspace, which may have to be built, or a
/// library that is there.
#[derive(Debug)]
pub enum ServeHost {
    Workspace(String),
    Library(String),
}

/// The native host of a server, or why there is none.
pub fn resolve_default_serve_host_lib(source: ServeRuntimeSource, facts: &NativeFacts) -> (res:
    Result<ServeHost, String>)
    ensures
        match (source@, res) {
            (SourceView::Workspace(root), Ok(ServeHost::Workspace(r))) => r@ == root,
            (SourceView::Installed(path), Ok(ServeHost::Library(p))) => facts.paths.has(path) && p@
                == path,
            (SourceView::Installed(path), Err(e)) => !facts.paths.has(path) && e@
                == "installed Aegis runtime not found at "@ + path
                + ". Reinstall Aegis with ./install.sh or pass --host-lib explicitly."@,
            (SourceView::MissingInstalled, Err(e)) => e@
                == "unable to resolve a default Aegis host runtime. Reinstall Aegis or pass --host-lib explicitly."@,
            _ => false,
        },
{
    match source {
        ServeRuntimeSource::Workspace(root) => Ok(ServeHost::Workspace(root)),
        ServeRuntimeSource::Installed(path) => {
            if facts.paths.knows(path.as_str()) {
                Ok(ServeHost::Library(path))
            } else {
                Err(
                    concat3(
                        "installed Aegis runtime not found at ",
                        path.as_str(),
                        ". Reinstall Aegis with ./install.sh or pass --host-lib explicitly.",
                    ),
                )
            }
        },
        ServeRuntimeSource::MissingInstalled => Err(
            "unable to resolve a default Aegis host runtime. Reinstall Aegis or pass --host-lib explicitly.".to_owned(),
        ),
    }
}

/// The error for a native host that is not there.
pub fn missing_host_library(path: &str) -> (res: String)
    ensures
        res@ == "host library not found at "@ + path@
            + ". Run `aegis native build --configuration release --target aegis_host` or pass --host-lib explicitly."@,
{
    concat3(
        "host library not found at ",
        path,
        ". Run `aegis native build --configuration release --target aegis_host` or pass --host-lib explicitly.",
    )
}

/// The number of lines of a log that are shown.
pub const LOG_TAIL_LINES: usize = 12;

/// The index of the first line feed, or the length where there is none.
pub open spec fn line_end(text: Seq<char>) -> int
    decreases text.len(),
{
    if text.len() == 0 || text[0] == '\n' {
        0
    } else {
        1 + line_end(text.drop_first())
    }
}

/// A line without the carriage return at its end.
pub open spec fn without_return(line: Seq<char>) -> Seq<char> {
    if line.len() > 0 && line.last() == '\r' {
        line.drop_last()
    } else {
        line
    }
}

/// The end of the first line lies within the text.
pub proof fn lemma_line_end(text: Seq<char>)
    ensures
        0 <= line_end(text) <= text.len(),
    decreases text.len(),
{
    if text.len() > 0 && text[0] != '\n' {
        lemma_line_end(text.drop_first());
    }
}

/// The lines of a text: each ends in a line feed, with or without a carriage return before it;
/// the last may end with the text.
pub open spec fn lines_of(text: Seq<char>) -> Seq<Seq<char>>
    decreases text.len(),
{
    if text.len() == 0 {
        Seq::empty()
    } else {
        let end = line_end(text);
        if 0 <= end < text.len() {
            seq![without_return(text.take(end))] + lines_of(text.skip(end + 1))
        } else {
            seq![text]
        }
    }
}

/// Some lines with line feeds between them.
pub open spec fn joined_lines(lines: Seq<Seq<char>>) -> Seq<char>
    decreases lines.len(),
{
    if lines.len() == 0 {
        Seq::empty()
    } else if lines.len() == 1 {
        lines[0]
    } else {
        joined_lines(lines.drop_last()) + "\n"@ + lines.last()
    }
}

/// The last lines of a log.
pub open spec fn tail_of(text: Seq<char>) -> Seq<char> {
    let lines = lines_of(text);
    joined_lines(
        if lines.len() > LOG_TAIL_LINES {
            lines.skip(lines.len() - LOG_TAIL_LINES)
        } else {
            lines
        },
    )
}

fn split_lines(text: &str) -> (res: Vec<String>)
    ensures
        texts(res@) == lines_of(text@),
{
    let chars = chars_of(text);
    let mut out: Vec<String> = Vec::new();
    let mut at: usize = 0;
    assert(chars@.skip(0) =~= chars@);
    assert(texts(out@) + lines_of(chars@.skip(0)) =~= lines_of(text@));
    while at < chars.len()
        invariant
            at <= chars@.len(),
            chars@ == text@,
            texts(out@) + lines_of(chars@.skip(at as int)) == lines_of(text@),
        decreases chars@.len() - at,
    {
        let ghost rest = chars@.skip(at as int);
        let ghost before = out@;
        let mut end: usize = at;
        assert(chars@.skip(end as int) =~= rest);
        while end < chars.len() && chars[end] != '\n'
            invariant
                at <= end <= chars@.len(),
                rest == chars@.skip(at as int),
                line_end(rest) == (end - at) + line_end(chars@.skip(end as int)),
            decreases chars@.len() - end,
        {
            assert(chars@.skip(end as int).drop_first() =~= chars@.skip(end + 1));
            end += 1;
        }
        assert(line_end(rest) == end - at);
        if end < chars.len() {
            let stop: usize = if end > at && chars[end - 1] == '\r' {
                end - 1
            } else {
                end
            };
            let line = string_of(&chars, at, stop);
            proof {
                let whole = rest.take(end - at);
                assert(whole =~= chars@.subrange(at as int, end as int));
                assert(line@ =~= without_return(whole));
                assert(rest.skip(end - at + 1) =~= chars@.skip(end + 1));
            }
            let ghost l = line@;
            out.push(line);
            at = end + 1;
            proof {
                assert(texts(out@) =~= texts(before).push(l));
                assert(lines_of(rest) =~= seq![l] + lines_of(chars@.skip(at as int)));
                assert(texts(out@) + lines_of(chars@.skip(at as int)) =~= texts(before) + lines_of(
                    rest,
                ));
            }
        } else {
            let line = string_of(&chars, at, end);
            assert(line@ =~= rest);
            let ghost l = line@;
            out.push(line);
            at = end;
            proof {
                assert(texts(out@) =~= texts(before).push(l));
                assert(chars@.skip(at as int) =~= Seq::<char>::empty());
                assert(lines_of(rest) =~= seq![l]);
                assert(texts(out@) + lines_of(chars@.skip(at as int)) =~= texts(before) + lines_of(
                    rest,
                ));
            }
        }
    }
    assert(chars@.skip(at as int) =~= Seq::<char>::empty());
    assert(texts(out@) + Seq::<Seq<char>>::empty() =~= texts(out@));
    out
}

/// The last lines of a log, from its contents.
pub fn read_log_tail(contents: &str) -> (res: String)
    ensures
        res@ == tail_of(contents@),
{
    let lines = split_lines(contents);
    let from: usize = if lines.len() > LOG_TAIL_LINES {
        lines.len() - LOG_TAIL_LINES
    } else {
        0
    };
    let ghost wanted = texts(lines@).skip(from as int);
    let mut out = String::new();
    let mut i: usize = from;
    assert(wanted.take(0) =~= Seq::empty());
    while i < lines.len()
        invariant
            from <= i <= lines@.len(),
            wanted == texts(lines@).skip(from as int),
            out@ == joined_lines(wanted.take(i - from)),
        decreases lines@.len() - i,
    {
        let ghost next = wanted.take(i - from + 1);
        proof {
            assert(next.drop_last() =~= wanted.take(i - from));
            assert(next.last() == lines@[i as int]@);
        }
        if i == from {
            out = lines[i].clone();
            assert(next =~= seq![lines@[i as int]@]);
        } else {
            out = concat3(out.as_str(), "\n", lines[i].as_str());
        }
        i += 1;
    }
    proof {
        assert(wanted.take(i - from) =~= wanted);
        assert(texts(lines@).skip(0) =~= texts(lines@));
    }
    out
}

/// What is known of a server in the background.
#[derive(Debug)]
pub enum DetachedState {
    /// It ended, with this status.
    Exited(String),
    /// It answers.
    Reachable,
    /// It does not answer yet.
    Silent,
}

/// What is done about a server in the background.
#[derive(Debug)]
pub enum DetachedVerdict {
    /// It runs.
    Running,
    /// Look again a little later.
    Wait,
    /// It is given up, for this reason.
    GiveUp(String),
}

/// How long a server in the background may take to answer.
pub const DETACH_TIMEOUT_MS: u64 = 15_000;

/// Where the log of a server is, and what stands at its end.
pub open spec fn log_hint(log_path: Seq<char>, tail: Seq<char>) -> Seq<char> {
    log_path + if tail.len() == 0 {
        ""@
    } else {
        "\n"@ + tail
    }
}

/// What is done about a server in the background: one that ended, or does not answer in time,
/// is given up.
pub fn judge_detached_serve(
    state: DetachedState,
    waited_ms: u64,
    addr: &str,
    log_path: &str,
    tail: &str,
) -> (res: DetachedVerdict)
    ensures
        match state {
            DetachedState::Exited(status) => res matches DetachedVerdict::GiveUp(m) && m@
                == "detached Aegis serve exited before it became reachable (status: "@ + status@
                + "). Log: "@ + log_hint(log_path@, tail@),
            DetachedState::Reachable => res is Running,
            DetachedState::Silent => if waited_ms >= DETACH_TIMEOUT_MS {
                res matches DetachedVerdict::GiveUp(m) && m@
                    == "detached Aegis serve did not become reachable at http://"@ + addr@
                    + " within 15s. Log: "@ + log_hint(log_path@, tail@)
            } else {
                res is Wait
            },
        },
{
    let hint = if tail.unicode_len() == 0 {
        concat2(log_path, "")
    } else {
        let end = concat2("\n", tail);
        concat2(log_path, end.as_str())
    };
    match state {
        DetachedState::Exited(status) => {
            let head = concat3(
                "detached Aegis serve exited before it became reachable (status: ",
                status.as_str(),
                "). Log: ",
            );
            DetachedVerdict::GiveUp(concat2(head.as_str(), hint.as_str()))
        },
        DetachedState::Reachable => DetachedVerdict::Running,
        DetachedState::Silent => {
            if waited_ms >= DETACH_TIMEOUT_MS {
                let head = concat3(
                    "detached Aegis serve did not become reachable at http://",
                    addr,
                    " within 15s. Log: ",
                );
                DetachedVerdict::GiveUp(concat2(head.as_str(), hint.as_str()))
            } else {
                DetachedVerdict::Wait
            }
        },
    }
}

/// What a server in the background is asked to see whether it answers.
pub fn probe_request(addr: &str) -> (res: String)
    ensures
        res@ == "GET /version HTTP/1.1\r\nHost: "@ + addr@ + "\r\nConnection: close\r\n\r\n"@,
{
    concat3("GET /version HTTP/1.1\r\nHost: ", addr, "\r\nConnection: close\r\n\r\n")
}

/// Whether the first bytes of a reply are those of a server.
pub fn probe_answered(reply: Vec<u8>) -> (res: bool)
    ensures
        res == (exists|text: Seq<char>|
            #[trigger] vstd::utf8::encode_utf8(text) == reply@ && contains_text(
                text,
                "HTTP/1.1"@,
            )),
{
    let ghost bytes = reply@;
    match string_from_utf8(reply) {
        Ok(text) => {
            proof {
                assert forall|other: Seq<char>|
                    #[trigger] vstd::utf8::encode_utf8(other) == bytes implies other == text@ by {
                    crate::text::lemma_encode_utf8_injective(other, text@);
                }
            }
            contains(text.as_str(), "HTTP/1.1")
        },
        Err(_) => {
            assert forall|other: Seq<char>| #[trigger] vstd::utf8::encode_utf8(other) != bytes by {
                vstd::utf8::encode_utf8_valid_utf8(other);
            }
            false
        },
    }
}

/// The log shows all lines of a short log.
pub proof fn law_short_log_is_shown_whole(text: Seq<char>)
    requires
        lines_of(text).len() <= LOG_TAIL_LINES,
    ensures
        tail_of(text) == joined_lines(lines_of(text)),
{
}

/// A tool that lies in a workspace runs a server on the native host of that workspace, whatever
/// is installed.
pub proof fn law_workspace_comes_first(exe: Seq<char>, facts: NativeFacts, root: Seq<char>)
    requires
        workspace_above(facts.paths, exe) == Some(root),
    ensures
        runtime_source(None, exe, facts) == SourceView::Workspace(root),
{
}

/// What is found above a path has the shape of a workspace.
pub proof fn law_found_workspace_has_the_shape(facts: PathFacts, path: Seq<char>)
    ensures
        workspace_above(facts, path) matches Some(root) ==> workspace_shape(facts, root),
    decreases path.len(),
{
    if !workspace_shape(facts, path) {
        if let Some(up) = parent_of(path) {
            if up.len() < path.len() {
                law_found_workspace_has_the_shape(facts, up);
            }
        }
    }
}

/// A detached server is started with the mode, the profile, the library, the page to start with
/// where one is given, and the address, each behind its own option.
pub proof fn law_arguments_of_a_detached_server(
    mode: BrowserMode,
    profile: Seq<char>,
    host_lib: Seq<char>,
    start_url: Option<Seq<char>>,
    addr: Seq<char>,
)
    ensures
        ({
            let a = child_arguments(mode, profile, host_lib, start_url, addr);
            let n = a.len();
            &&& n == if start_url is Some {
                11nat
            } else {
                9nat
            }
            &&& a[0] == "--mode"@ && a[1] == (if mode == BrowserMode::Headful {
                "headful"@
            } else {
                "headless"@
            })
            &&& a[2] == "--profile"@ && a[3] == profile
            &&& a[4] == "--host-lib"@ && a[5] == host_lib
            &&& start_url is Some ==> a[6] == "--start-url"@ && a[7] == start_url->Some_0
            &&& a[n - 3] == "serve"@ && a[n - 2] == "--addr"@ && a[n - 1] == addr
        }),
{
}

/// The log is the file that is asked for, or else one named by the profile and the address, in which
/// colons and dots are underscores, in the logs below the home directory or else among the
/// temporary files.
pub proof fn law_log_of_a_detached_server(
    profile: Seq<char>,
    addr: Seq<char>,
    asked: Option<Seq<char>>,
    home: Option<Seq<char>>,
    temp_dir: Seq<char>,
)
    ensures
        ({
            let file = log_file(profile, addr, asked, home, temp_dir);
            let name = "serve-"@ + profile + "-"@ + addr.map_values(
                |c: char|
                    if c == ':' || c == '.' {
                        '_'
                    } else {
                        c
                    },
            ) + ".log"@;
            &&& asked is Some ==> file == asked->Some_0
            &&& asked is None && home is Some ==> file == joined(
                joined(joined(home->Some_0, ".aegis"@), "logs"@),
                name,
            )
            &&& asked is None && home is None ==> file == joined(temp_dir, name)
        }),
{
    assert(slug_of(addr) =~= addr.map_values(
        |c: char|
            if c == ':' || c == '.' {
                '_'
            } else {
                c
            },
    ));
}

proof fn lemma_line_ends_there(line: Seq<char>, rest: Seq<char>)
    requires
        forall|i: int| 0 <= i < line.len() ==> #[trigger] line[i] != '\n',
        rest.len() == 0 || rest[0] == '\n',
    ensures
        line_end(line + rest) == line.len(),
    decreases line.len(),
{
    if line.len() == 0 {
        assert(line + rest =~= rest);
    } else {
        let l = line.drop_first();
        assert forall|i: int| 0 <= i < l.len() implies #[trigger] l[i] != '\n' by {
            assert(line[i + 1] != '\n');
        }
        lemma_line_ends_there(l, rest);
        assert((line + rest).drop_first() =~= l + rest);
        assert(line[0] != '\n');
    }
}

/// A text is taken apart at its line ends: what comes before the first is its first line, without a
/// carriage return at its end, and the rest is taken apart in turn; a last line without a line end
/// is a line as it is, unless it is empty.
pub proof fn law_lines_of_a_text(line: Seq<char>, rest: Seq<char>)
    requires
        forall|i: int| 0 <= i < line.len() ==> #[trigger] line[i] != '\n',
    ensures
        lines_of(line + seq!['\n'] + rest) == seq![
            if line.len() > 0 && line.last() == '\r' {
                line.drop_last()
            } else {
                line
            },
        ] + lines_of(rest),
        line.len() > 0 ==> lines_of(line) == seq![line],
        lines_of(Seq::empty()) == Seq::<Seq<char>>::empty(),
{
    let all = line + seq!['\n'] + rest;
    lemma_line_ends_there(line, seq!['\n'] + rest);
    assert(all =~= line + (seq!['\n'] + rest));
    assert(all.take(line.len() as int) =~= line);
    assert(all.skip(line.len() as int + 1) =~= rest);
    lemma_line_ends_there(line, Seq::empty());
    assert(line + Seq::<char>::empty() =~= line);
}

/// The end of a log is its last twelve lines, or all where it has fewer; lines are joined in order
/// with a line end between neighbours.
pub proof fn law_end_of_a_log(text: Seq<char>, lines: Seq<Seq<char>>, line: Seq<char>)
    ensures
        lines_of(text).len() <= 12 ==> tail_of(text) == joined_lines(lines_of(text)),
        lines_of(text).len() > 12 ==> tail_of(text) == joined_lines(
            lines_of(text).skip(lines_of(text).len() - 12),
        ),
        joined_lines(Seq::empty()) == Seq::<char>::empty(),
        joined_lines(seq![line]) == line,
        lines.len() > 0 ==> joined_lines(lines.push(line)) == joined_lines(lines).push('\n') + line,
{
    reveal_strlit("\n");
    assert(lines.push(line).drop_last() =~= lines);
    if lines.len() > 0 {
        assert(joined_lines(lines.push(line)) =~= joined_lines(lines).push('\n') + line);
    }
}

/// The hint at a log is its path, and below it its end where there is one.
pub proof fn law_hint_at_a_log(log_path: Seq<char>, tail: Seq<char>)
    ensures
        tail.len() == 0 ==> log_hint(log_path, tail) == log_path,
        tail.len() > 0 ==> log_hint(log_path, tail) == log_path.push('\n') + tail,
{
    reveal_strlit("");
    reveal_strlit("\n");
    assert(log_path + ""@ =~= log_path);
    assert(log_path + ("\n"@ + tail) =~= log_path.push('\n') + tail);
}

/// A workspace is a directory with a `Cargo.toml` and a `native/CMakeLists.txt`; it is the path
/// itself or else the one above its parent.
pub proof fn law_workspaces_are_found(facts: PathFacts, path: Seq<char>)
    ensures
        workspace_shape(facts, path) <==> facts.has(joined(path, "Cargo.toml"@)) && facts.has(
            joined(joined(path, "native"@), "CMakeLists.txt"@),
        ),
        workspace_shape(facts, path) ==> workspace_above(facts, path) == Some(path),
        !workspace_shape(facts, path) && parent_of(path) is None ==> workspace_above(
            facts,
            path,
        ) is None,
        !workspace_shape(facts, path) && parent_of(path) is Some && parent_of(path)->Some_0.len()
            < path.len() ==> workspace_above(facts, path) == workspace_above(
            facts,
            parent_of(path)->Some_0,
        ),
{
}

/// The host is taken from the workspace that is asked for, or else from the one above the program,
/// or else from where it is installed.
pub proof fn law_source_of_the_host(
    asked: Option<Seq<char>>,
    current_exe: Seq<char>,
    facts: NativeFacts,
)
    ensures
        ({
            let s = runtime_source(asked, current_exe, facts);
            let above = workspace_above(facts.paths, current_exe);
            let installed = install_path(facts.platform, opt_text(facts.home));
            &&& asked is Some ==> s == SourceView::Workspace(asked->Some_0)
            &&& asked is None && above is Some ==> s == SourceView::Workspace(above->Some_0)
            &&& asked is None && above is None && installed is Some ==> s == SourceView::Installed(
                bundled_library(installed->Some_0, facts.platform),
            )
            &&& asked is None && above is None && installed is None ==> s is MissingInstalled
        }),
{
}

} // verus!

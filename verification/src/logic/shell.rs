//! Deciding which supported shell the program was started from, by walking
//! up the chain of parent processes.

use vstd::prelude::*;
use sysinfo::{Pid, System};
use crate::text::{has_prefix, lowercase, str_eq, starts_with, to_lowercase};

verus! {

/// The shells the generated commands can be written for.
#[derive(Clone, Debug, PartialEq, Eq, Structural)]
pub enum Shell {
    WindowsCmd,
    PowerShell,
    Bash,
}

/// Finds out which shell the program runs under.
pub trait ShellDetector: Send + Sync {
    /// The answers this detector may give; unless a detector says more, any.
    open spec fn detect_ok(&self, r: Result<Shell, UnsupportedShellError>) -> bool {
        true
    }

    /// The detected shell, or the error naming the unsupported parent process.
    fn detect(&self) -> (r: Result<Shell, UnsupportedShellError>)
        ensures
            self.detect_ok(r),
    ;
}

/// The parent process is not one of the supported shells.
#[derive(Clone, Debug, PartialEq, Eq)]
pub struct UnsupportedShellError {
    pub parent_name: String,
}

/// Leading text of the message of an [`UnsupportedShellError`].
pub open spec fn unsupported_message_head() -> Seq<char> {
    "サポートしていないシェルです。親プロセス: "@
}

impl UnsupportedShellError {
    /// The human-readable message: a fixed sentence followed by the parent
    /// process name.
    pub fn message(&self) -> (r: String)
        ensures
            r@ == unsupported_message_head() + self.parent_name@,
    {
        let mut r = String::from_str("サポートしていないシェルです。親プロセス: ");
        r.append(self.parent_name.as_str());
        r
    }
}

/// Which shell a lowercased parent-process name stands for.
pub open spec fn shell_for_lowercase_name(lower: Seq<char>) -> Option<Shell> {
    if lower == "cmd.exe"@ {
        Some(Shell::WindowsCmd)
    } else if lower == "powershell.exe"@ {
        Some(Shell::PowerShell)
    } else if lower == "wsl.exe"@ || lower == "bash"@ || has_prefix(lower, "bash"@) {
        Some(Shell::Bash)
    } else {
        None
    }
}

/// Recognises a shell from a parent-process name that is already lowercased.
pub fn shell_from_lowercase_name(lower: &str) -> (r: Option<Shell>)
    ensures
        r == shell_for_lowercase_name(lower@),
{
    if str_eq(lower, "cmd.exe") {
        return Some(Shell::WindowsCmd);
    }
    if str_eq(lower, "powershell.exe") {
        return Some(Shell::PowerShell);
    }
    if str_eq(lower, "wsl.exe") || str_eq(lower, "bash") || starts_with(lower, "bash") {
        return Some(Shell::Bash);
    }
    None
}

/// Recognises a shell from a parent-process name, ignoring letter case:
/// `cmd.exe`, `powershell.exe`, and `wsl.exe` or anything beginning with `bash`.
pub fn shell_from_parent_name(name: &str) -> (r: Option<Shell>)
    ensures
        r == shell_for_lowercase_name(lowercase(name@)),
{
    let lower = to_lowercase(name);
    shell_from_lowercase_name(lower.as_str())
}

/// The shell's name as the prompt speaks of it.
pub open spec fn display_name_of(shell: Shell) -> Seq<char> {
    match shell {
        Shell::WindowsCmd => "windowsコマンドプロンプト"@,
        Shell::PowerShell => "powershell"@,
        Shell::Bash => "bash"@,
    }
}

/// The shell's name as the prompt speaks of it.
pub fn shell_display_name(shell: &Shell) -> (r: &'static str)
    ensures
        r@ == display_name_of(*shell),
{
    match shell {
        Shell::WindowsCmd => "windowsコマンドプロンプト",
        Shell::PowerShell => "powershell",
        Shell::Bash => "bash",
    }
}

/// A lowercased process name that is the cargo launcher, which sits between
/// the shell and the program when it is started through cargo.
pub open spec fn is_cargo_lowercase(lower: Seq<char>) -> bool {
    lower == "cargo.exe"@ || lower == "cargo"@
}

/// Whether an already lowercased process name is `cargo` or `cargo.exe`.
pub fn is_cargo_lowercase_name(lower: &str) -> (r: bool)
    ensures
        r == is_cargo_lowercase(lower@),
        r == (lower@ == "cargo.exe"@ || lower@ == "cargo"@),
{
    str_eq(lower, "cargo.exe") || str_eq(lower, "cargo")
}

/// Whether a process name is `cargo` or `cargo.exe`, ignoring letter case.
pub fn is_cargo_process_name(name: &str) -> (r: bool)
    ensures
        r == is_cargo_lowercase(lowercase(name@)),
        r == (lowercase(name@) == "cargo.exe"@ || lowercase(name@) == "cargo"@),
{
    let lower = to_lowercase(name);
    is_cargo_lowercase_name(lower.as_str())
}

} // verus!

verus! {

/// Declares `sysinfo::System`, the snapshot of the process table, to Verus.
#[verifier::external_type_specification]
#[verifier::external_body]
pub struct ExSystem(System);

/// Name for what a `sysinfo::System` holds about processes: for the process
/// whose id is `pid` (as `Pid::as_u32` gives it), its name and the id of its
/// parent, if it has one.
pub uninterp spec fn process_table(sys: System) -> Map<u32, (Seq<char>, Option<u32>)>;

/// Calls `System::new`, which creates a view of the system with nothing loaded:
/// the process table is empty.
#[verifier::external_body]
fn new_system() -> (r: System)
    ensures
        process_table(r).dom() == Set::<u32>::empty(),
{
    System::new()
}

/// Calls `System::refresh_processes`, which reloads the process table from the
/// operating system; what it then holds depends on the machine, so nothing is
/// stated about it.
#[verifier::external_body]
fn refresh_processes(sys: &mut System) {
    sys.refresh_processes();
}

/// Calls `System::process` and hands the process out as its name
/// (`Process::name`) and its parent's id (`Process::parent`): exactly the entry
/// of the process table under `pid`, or `None` when the table has none.
#[verifier::external_body]
fn process_entry(sys: &System, pid: u32) -> (r: Option<(String, Option<u32>)>)
    ensures
        match r {
            None => !process_table(*sys).dom().contains(pid),
            Some(e) => process_table(*sys).dom().contains(pid) && process_table(*sys)[pid] == (
                e.0@,
                e.1,
            ),
        },
{
    sys.process(Pid::from_u32(pid)).map(|p| (p.name().to_string(), p.parent().map(|q| q.as_u32())))
}

/// Calls `sysinfo::get_current_pid`: the id of the running process, or `None`
/// on a platform that sysinfo does not support. Which id it is depends on the
/// machine, so nothing is stated about it.
#[verifier::external_body]
fn current_pid() -> Option<u32> {
    sysinfo::get_current_pid().ok().map(|p| p.as_u32())
}

/// How far up the parent chain the search for a shell goes.
pub const MAX_ANCESTOR_DEPTH: u32 = 10;

/// What one ancestor process tells the search.
#[derive(Clone, Debug, PartialEq, Eq, Structural)]
pub enum AncestorStep {
    /// The process is cargo: look at its parent, whose id this is.
    Climb(u32),
    /// The process is this supported shell.
    Found(Shell),
    /// The process is neither cargo with a parent nor a supported shell.
    Unsupported,
}

/// The step taken for an ancestor whose (lowercased) name is `name` and whose
/// parent is `parent`.
pub open spec fn ancestor_step_spec(name: Seq<char>, parent: Option<u32>) -> AncestorStep {
    if is_cargo_lowercase(lowercase(name)) && parent is Some {
        AncestorStep::Climb(parent->0)
    } else {
        match shell_for_lowercase_name(lowercase(name)) {
            Some(s) => AncestorStep::Found(s),
            None => AncestorStep::Unsupported,
        }
    }
}

/// Decides what to do with one ancestor process: climb past cargo, or
/// recognise the shell.
pub fn ancestor_step(name: &str, parent: Option<u32>) -> (r: AncestorStep)
    ensures
        r == ancestor_step_spec(name@, parent),
{
    if is_cargo_process_name(name) {
        if let Some(a) = parent {
            return AncestorStep::Climb(a);
        }
    }
    match shell_from_parent_name(name) {
        Some(s) => AncestorStep::Found(s),
        None => AncestorStep::Unsupported,
    }
}

/// Parent name reported when the program's own parent cannot be found.
pub open spec fn parent_unknown_name() -> Seq<char> {
    "（取得できませんでした）"@
}

/// Parent name reported when no shell is found within the search depth.
pub open spec fn shell_unknown_name() -> Seq<char> {
    "（シェルを特定できませんでした）"@
}

/// The outcome of searching upward from process `pid` with `fuel` steps left:
/// the shell found, or the parent name to report.
pub open spec fn walk_ancestors(
    table: Map<u32, (Seq<char>, Option<u32>)>,
    pid: u32,
    fuel: nat,
) -> Result<Shell, Seq<char>>
    decreases fuel,
{
    if fuel == 0 || !table.dom().contains(pid) {
        Err(shell_unknown_name())
    } else {
        let name = table[pid].0;
        match ancestor_step_spec(lowercase(name), table[pid].1) {
            AncestorStep::Climb(a) => walk_ancestors(table, a, (fuel - 1) as nat),
            AncestorStep::Found(s) => Ok(s),
            AncestorStep::Unsupported => Err(name),
        }
    }
}

/// The outcome of the whole detection for a program whose own id is `self_pid`.
pub open spec fn detect_outcome(
    table: Map<u32, (Seq<char>, Option<u32>)>,
    self_pid: Option<u32>,
) -> Result<Shell, Seq<char>> {
    match self_pid {
        Some(p) => if table.dom().contains(p) && table[p].1 is Some {
            walk_ancestors(table, table[p].1->0, MAX_ANCESTOR_DEPTH as nat)
        } else {
            Err(parent_unknown_name())
        },
        None => Err(parent_unknown_name()),
    }
}

/// A detection result seen as the shell, or the parent name it reports.
pub open spec fn outcome_of(r: Result<Shell, UnsupportedShellError>) -> Result<Shell, Seq<char>> {
    match r {
        Ok(s) => Ok(s),
        Err(e) => Err(e.parent_name@),
    }
}

/// Searches the process table of `sys` for the shell that started the process
/// `self_pid`: starting at its parent, it climbs past cargo processes, at most
/// `MAX_ANCESTOR_DEPTH` steps.
pub fn detect_in_system(sys: &System, self_pid: Option<u32>) -> (r: Result<
    Shell,
    UnsupportedShellError,
>)
    ensures
        outcome_of(r) == detect_outcome(process_table(*sys), self_pid),
{
    let ghost table = process_table(*sys);
    let p = match self_pid {
        Some(p) => p,
        None => {
            return Err(UnsupportedShellError { parent_name: String::from_str("（取得できませんでした）") });
        },
    };
    let mut current: u32 = match process_entry(sys, p) {
        Some((_, Some(parent))) => parent,
        _ => {
            return Err(UnsupportedShellError { parent_name: String::from_str("（取得できませんでした）") });
        },
    };
    let mut depth: u32 = 0;
    while depth < MAX_ANCESTOR_DEPTH
        invariant
            table == process_table(*sys),
            depth <= MAX_ANCESTOR_DEPTH,
            walk_ancestors(table, current, (MAX_ANCESTOR_DEPTH - depth) as nat) == detect_outcome(
                table,
                self_pid,
            ),
        ensures
            detect_outcome(table, self_pid) == Err::<Shell, Seq<char>>(shell_unknown_name()),
        decreases MAX_ANCESTOR_DEPTH - depth,
    {
        match process_entry(sys, current) {
            None => {
                break;
            },
            Some((name, parent)) => {
                let lower = to_lowercase(name.as_str());
                match ancestor_step(lower.as_str(), parent) {
                    AncestorStep::Climb(a) => {
                        current = a;
                    },
                    AncestorStep::Found(s) => {
                        return Ok(s);
                    },
                    AncestorStep::Unsupported => {
                        return Err(UnsupportedShellError { parent_name: name });
                    },
                }
            },
        }
        depth = depth + 1;
    }
    Err(UnsupportedShellError { parent_name: String::from_str("（シェルを特定できませんでした）") })
}

/// Detects the shell from the processes running on this machine.
pub struct SysinfoShellDetector;

impl ShellDetector for SysinfoShellDetector {
    /// An answer is the outcome of the search over some process table, from
    /// some id of the program itself (both are read from the machine).
    open spec fn detect_ok(&self, r: Result<Shell, UnsupportedShellError>) -> bool {
        exists|t: Map<u32, (Seq<char>, Option<u32>)>, p: Option<u32>|
            #[trigger] detect_outcome(t, p) == outcome_of(r)
    }

    fn detect(&self) -> (r: Result<Shell, UnsupportedShellError>) {
        let pid = current_pid();
        let mut sys = new_system();
        refresh_processes(&mut sys);
        detect_in_system(&sys, pid)
    }
}

} // verus!

verus! {

/// Which names are recognised: after lowercasing, exactly `cmd.exe` for the
/// Windows command prompt, exactly `powershell.exe` for PowerShell, and
/// `wsl.exe` or anything beginning with `bash` for bash; nothing else.
pub proof fn lemma_recognised_names(name: Seq<char>)
    ensures
        ({
            let n = lowercase(name);
            let r = shell_for_lowercase_name(n);
            &&& (r == Some(Shell::WindowsCmd) <==> n == "cmd.exe"@)
            &&& (r == Some(Shell::PowerShell) <==> n == "powershell.exe"@)
            &&& (r == Some(Shell::Bash) <==> (n == "wsl.exe"@ || has_prefix(n, "bash"@)))
            &&& (r is None <==> !(n == "cmd.exe"@ || n == "powershell.exe"@ || n == "wsl.exe"@
                || has_prefix(n, "bash"@)))
        }),
{
    reveal_strlit("cmd.exe");
    reveal_strlit("powershell.exe");
    reveal_strlit("wsl.exe");
    reveal_strlit("bash");
    let n = lowercase(name);
    if n == "cmd.exe"@ {
        assert(!has_prefix(n, "bash"@)) by {
            assert(n.take(4)[0] != "bash"@[0]);
        }
    }
    if n == "powershell.exe"@ {
        assert(!has_prefix(n, "bash"@)) by {
            assert(n.take(4)[0] != "bash"@[0]);
        }
    }
    if n == "bash"@ {
        assert(n.take(4) =~= n);
    }
}

/// Each shell has its own display name in the prompt.
pub proof fn lemma_display_names_distinct(a: Shell, b: Shell)
    requires
        display_name_of(a) == display_name_of(b),
    ensures
        a == b,
{
    reveal_strlit("windowsコマンドプロンプト");
    reveal_strlit("powershell");
    reveal_strlit("bash");
    assert("windowsコマンドプロンプト"@[0] == 'w');
    assert("powershell"@[0] == 'p');
    assert("bash"@[0] == 'b');
    assert(display_name_of(a)[0] == display_name_of(b)[0]);
}

/// A shell found by the upward search is the shell of some process in the
/// table: detection never reports a shell that no ancestor stands for.
pub proof fn lemma_walk_finds_real_process(
    table: Map<u32, (Seq<char>, Option<u32>)>,
    pid: u32,
    fuel: nat,
)
    requires
        walk_ancestors(table, pid, fuel) is Ok,
    ensures
        exists|q: u32|
            #![trigger table[q]]
            table.dom().contains(q) && shell_for_lowercase_name(
                lowercase(lowercase(table[q].0)),
            ) == Some(walk_ancestors(table, pid, fuel)->Ok_0),
    decreases fuel,
{
    let name = table[pid].0;
    match ancestor_step_spec(lowercase(name), table[pid].1) {
        AncestorStep::Climb(a) => {
            lemma_walk_finds_real_process(table, a, (fuel - 1) as nat);
        },
        AncestorStep::Found(s) => {
            assert(table.dom().contains(pid) && shell_for_lowercase_name(
                lowercase(lowercase(table[pid].0)),
            ) == Some(s));
        },
        AncestorStep::Unsupported => {},
    }
}

/// A shell reported by detection is the shell of some process in the table.
pub proof fn lemma_detected_shell_is_real_process(
    table: Map<u32, (Seq<char>, Option<u32>)>,
    self_pid: Option<u32>,
)
    requires
        detect_outcome(table, self_pid) is Ok,
    ensures
        exists|q: u32|
            #![trigger table[q]]
            table.dom().contains(q) && shell_for_lowercase_name(
                lowercase(lowercase(table[q].0)),
            ) == Some(detect_outcome(table, self_pid)->Ok_0),
{
    let p: u32 = self_pid->0;
    lemma_walk_finds_real_process(table, table[p].1->0, MAX_ANCESTOR_DEPTH as nat);
}

/// Detection on an empty process table (nothing loaded) always fails, naming
/// the parent as unobtainable.
pub proof fn lemma_detect_on_empty_table(self_pid: Option<u32>)
    ensures
        detect_outcome(Map::empty(), self_pid) == Err::<Shell, Seq<char>>(parent_unknown_name()),
{
}

} // verus!

verus! {

/// Only `cargo` and `cargo.exe` (in any letter case) are climbed past: no
/// name of a supported shell counts as cargo.
pub proof fn lemma_only_cargo_is_climbed(lower: Seq<char>)
    ensures
        is_cargo_lowercase(lower) <==> (lower == "cargo"@ || lower == "cargo.exe"@),
        is_cargo_lowercase(lower) ==> shell_for_lowercase_name(lower) is None,
{
    reveal_strlit("cargo");
    reveal_strlit("cargo.exe");
    reveal_strlit("cmd.exe");
    reveal_strlit("powershell.exe");
    reveal_strlit("wsl.exe");
    reveal_strlit("bash");
    if is_cargo_lowercase(lower) {
        assert(lower[0] == 'c');
        assert(lower != "cmd.exe"@) by {
            assert(lower.len() != 7 || lower[1] != "cmd.exe"@[1]);
        }
        assert(lower != "powershell.exe"@);
        assert(lower != "wsl.exe"@);
        assert(lower != "bash"@);
        assert(!has_prefix(lower, "bash"@)) by {
            if has_prefix(lower, "bash"@) {
                assert(lower.take(4)[0] == 'b');
            }
        }
    }
}

/// An ancestor whose name is a supported shell is that shell, whether or not
/// it has a parent of its own.
pub proof fn lemma_shell_ancestor_is_found(name: Seq<char>, parent: Option<u32>, s: Shell)
    requires
        shell_for_lowercase_name(lowercase(name)) == Some(s),
    ensures
        ancestor_step_spec(name, parent) == AncestorStep::Found(s),
{
    lemma_only_cargo_is_climbed(lowercase(name));
}

/// A cargo ancestor with a parent is climbed past, to that parent.
pub proof fn lemma_cargo_ancestor_is_climbed(name: Seq<char>, a: u32)
    requires
        lowercase(name) == "cargo"@ || lowercase(name) == "cargo.exe"@,
    ensures
        ancestor_step_spec(name, Some(a)) == AncestorStep::Climb(a),
{
}

/// Climbing past cargo: a cargo process with parent `a` gives what searching
/// from `a` with one step less gives.
pub proof fn lemma_walk_climbs_cargo(
    table: Map<u32, (Seq<char>, Option<u32>)>,
    pid: u32,
    a: u32,
    fuel: nat,
)
    requires
        fuel > 0,
        table.dom().contains(pid),
        table[pid].1 == Some(a),
        lowercase(lowercase(table[pid].0)) == "cargo"@ || lowercase(lowercase(table[pid].0))
            == "cargo.exe"@,
    ensures
        walk_ancestors(table, pid, fuel) == walk_ancestors(table, a, (fuel - 1) as nat),
{
}

/// A process whose name is a supported shell ends the search with that shell.
pub proof fn lemma_walk_finds_shell(
    table: Map<u32, (Seq<char>, Option<u32>)>,
    pid: u32,
    fuel: nat,
    s: Shell,
)
    requires
        fuel > 0,
        table.dom().contains(pid),
        shell_for_lowercase_name(lowercase(lowercase(table[pid].0))) == Some(s),
    ensures
        walk_ancestors(table, pid, fuel) == Ok::<Shell, Seq<char>>(s),
{
    lemma_shell_ancestor_is_found(lowercase(table[pid].0), table[pid].1, s);
}

/// Started directly from a shell: when the program's parent is a supported
/// shell, detection gives that shell.
pub proof fn lemma_detect_direct_parent(
    table: Map<u32, (Seq<char>, Option<u32>)>,
    me: u32,
    parent: u32,
    s: Shell,
)
    requires
        table.dom().contains(me),
        table[me].1 == Some(parent),
        table.dom().contains(parent),
        shell_for_lowercase_name(lowercase(lowercase(table[parent].0))) == Some(s),
    ensures
        detect_outcome(table, Some(me)) == Ok::<Shell, Seq<char>>(s),
{
    lemma_walk_finds_shell(table, parent, MAX_ANCESTOR_DEPTH as nat, s);
}

/// Started through cargo (`cargo run`): when the program's parent is cargo and
/// cargo's parent is a supported shell, detection gives that shell.
pub proof fn lemma_detect_through_cargo(
    table: Map<u32, (Seq<char>, Option<u32>)>,
    me: u32,
    cargo: u32,
    shell_pid: u32,
    s: Shell,
)
    requires
        table.dom().contains(me),
        table[me].1 == Some(cargo),
        table.dom().contains(cargo),
        table[cargo].1 == Some(shell_pid),
        lowercase(lowercase(table[cargo].0)) == "cargo"@ || lowercase(lowercase(table[cargo].0))
            == "cargo.exe"@,
        table.dom().contains(shell_pid),
        shell_for_lowercase_name(lowercase(lowercase(table[shell_pid].0))) == Some(s),
    ensures
        detect_outcome(table, Some(me)) == Ok::<Shell, Seq<char>>(s),
{
    lemma_walk_climbs_cargo(table, cargo, shell_pid, MAX_ANCESTOR_DEPTH as nat);
    lemma_walk_finds_shell(table, shell_pid, (MAX_ANCESTOR_DEPTH - 1) as nat, s);
}

} // verus!

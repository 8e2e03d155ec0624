//! The terminal admission policy: which commands the developer agent may run.

use crate::developer::{
    developer_error, developer_error_lit, error_detail, error_kind, DeveloperError,
    DeveloperErrorKind, DeveloperMode,
};
use crate::text::{
    ascii_lowercase, concat2, contains, contains_char, is_blank, is_blank_seq, join, join_seq,
    lower_seq, seq_contains, str_eq, strip_suffixes, trim_end_matches, views_of,
};
use crate::paths::{components, path_components};
use vstd::prelude::*;

verus! {

/// Commands may run at most thirty minutes.
pub const MAX_TIMEOUT_MS: u64 = 1_800_000;

/// Captured output is limited to four MiB per stream.
pub const MAX_OUTPUT_BYTES: u64 = 4_194_304;

/// The parameters of one terminal command.
pub struct TerminalRequest<'a> {
    pub executable: &'a str,
    pub args: &'a [String],
    pub working_directory: &'a str,
    pub timeout_ms: u64,
    pub approved_high_risk: bool,
}

/// The executables the agent may start.
pub open spec fn allowlisted(e: Seq<char>) -> bool {
    e == "cargo"@ || e == "rustc"@ || e == "pnpm"@ || e == "npm"@ || e == "node"@ || e == "git"@
        || e == "dotnet"@ || e == "python"@ || e == "pytest"@ || e == "powershell"@ || e
        == "pwsh"@
}

/// Argument fragments that mark destructive commands.
pub open spec fn forbidden_fragment(j: Seq<char>) -> bool {
    seq_contains(j, "--force"@) || seq_contains(j, "-rf"@) || seq_contains(j, "remove-item"@)
        || seq_contains(j, "format"@) || seq_contains(j, "diskpart"@) || seq_contains(
        j,
        "shutdown"@,
    ) || seq_contains(j, "reg delete"@) || seq_contains(j, "reset --hard"@) || seq_contains(
        j,
        "clean -f"@,
    ) || seq_contains(j, "checkout --"@) || seq_contains(j, "push --force"@)
}

/// The read-only Git operations.
pub open spec fn git_read_operation(op: Seq<char>) -> bool {
    op == "status"@ || op == "diff"@ || op == "branch"@ || op == "log"@ || op == "show"@
}

/// The first argument, lowercased, or the empty string.
pub open spec fn first_arg_lower(args: Seq<Seq<char>>) -> Seq<char> {
    if args.len() > 0 {
        lower_seq(args[0])
    } else {
        Seq::empty()
    }
}

/// The executable's name without `.exe` suffixes, lowercased.
pub open spec fn executable_key(executable: Seq<char>) -> Seq<char> {
    lower_seq(strip_suffixes(executable, ".exe"@))
}

pub open spec fn is_powershell(e: Seq<char>) -> bool {
    e == "powershell"@ || e == "pwsh"@
}

/// The first rule that rejects a command, with its error kind and detail, or
/// `None` when the command is admitted. The rules are checked in this order:
/// mode, basename, allowlist, NUL bytes, destructive fragments, read-only
/// Git, inline code, human approval of high risk, and PowerShell `-File`.
pub open spec fn command_rejection(
    mode: DeveloperMode,
    executable: Seq<char>,
    args: Seq<Seq<char>>,
    approved_high_risk: bool,
) -> Option<(DeveloperErrorKind, Seq<char>)> {
    rejection_with_components(
        mode,
        executable,
        path_components(executable).len(),
        args,
        approved_high_risk,
    )
}

/// `command_rejection` for an executable that the platform's path rules split
/// into `component_count` components.
pub open spec fn rejection_with_components(
    mode: DeveloperMode,
    executable: Seq<char>,
    component_count: nat,
    args: Seq<Seq<char>>,
    approved_high_risk: bool,
) -> Option<(DeveloperErrorKind, Seq<char>)> {
    let e = executable_key(executable);
    let lower_args = Seq::new(args.len(), |i: int| lower_seq(args[i]));
    let joined = lower_seq(join_seq(args, " "@));
    let first = first_arg_lower(args);
    if !(mode == DeveloperMode::Execute || mode == DeveloperMode::Auto) {
        Some(
            (
                DeveloperErrorKind::Permission,
                "terminal execution requires EXECUTE or AUTO mode"@,
            ),
        )
    } else if is_blank_seq(executable) || component_count != 1 || executable.contains('/')
        || executable.contains('\\') {
        Some(
            (
                DeveloperErrorKind::Permission,
                "terminal executable must be an allowlisted basename"@,
            ),
        )
    } else if !allowlisted(e) {
        Some((DeveloperErrorKind::Permission, "command is not allowlisted: "@ + e))
    } else if exists|i: int| 0 <= i < args.len() && #[trigger] args[i].contains('\0') {
        Some((DeveloperErrorKind::Invalid, "command argument contains NUL"@))
    } else if forbidden_fragment(joined) {
        Some((DeveloperErrorKind::Permission, "destructive command arguments are forbidden"@))
    } else if e == "git"@ && !git_read_operation(first) {
        Some((DeveloperErrorKind::Permission, "Phase 1 Git access is read-only"@))
    } else if (e == "python"@ && args.len() > 0 && first == "-c"@) || (e == "node"@ && args.len()
        > 0 && first == "-e"@) || (args.len() > 0 && (first == "exec"@ || first == "dlx"@)) {
        Some(
            (
                DeveloperErrorKind::Permission,
                "inline or package-execution commands are forbidden"@,
            ),
        )
    } else if is_powershell(e) && !approved_high_risk {
        Some(
            (
                DeveloperErrorKind::Permission,
                "high-risk command requires explicit human approval"@,
            ),
        )
    } else if is_powershell(e) && (!lower_args.contains("-file"@) || lower_args.contains(
        "-command"@,
    )) {
        Some(
            (
                DeveloperErrorKind::Permission,
                "PowerShell is limited to approved -File execution"@,
            ),
        )
    } else {
        None
    }
}

/// Git is admitted for its read-only operations: in EXECUTE or AUTO mode,
/// `git` with arguments free of NUL bytes and destructive fragments is
/// accepted exactly when its first argument is `status`, `diff`, `branch`,
/// `log` or `show` (in any ASCII case); any other first argument, or none, is
/// refused as write access.
pub proof fn git_is_limited_to_reading(
    mode: DeveloperMode,
    args: Seq<Seq<char>>,
    approved_high_risk: bool,
)
    requires
        mode == DeveloperMode::Execute || mode == DeveloperMode::Auto,
        forall|i: int| 0 <= i < args.len() ==> !(#[trigger] args[i]).contains('\0'),
        !forbidden_fragment(lower_seq(join_seq(args, " "@))),
    ensures
        ({
            let first = if args.len() > 0 {
                lower_seq(args[0])
            } else {
                Seq::empty()
            };
            let read = first == "status"@ || first == "diff"@ || first == "branch"@ || first == "log"@
                || first == "show"@;
            let r = rejection_with_components(mode, "git"@, 1, args, approved_high_risk);
            &&& read ==> r is None
            &&& !read ==> r == Some((DeveloperErrorKind::Permission, "Phase 1 Git access is read-only"@))
        }),
{
    reveal_strlit("git");
    reveal_strlit(".exe");
    reveal_strlit("status");
    reveal_strlit("diff");
    reveal_strlit("branch");
    reveal_strlit("log");
    reveal_strlit("show");
    reveal_strlit("-c");
    reveal_strlit("-e");
    reveal_strlit("exec");
    reveal_strlit("dlx");
    reveal_strlit("python");
    reveal_strlit("node");
    reveal_strlit("powershell");
    reveal_strlit("pwsh");
    let g = "git"@;
    assert(!crate::text::ends_with_seq(g, ".exe"@));
    assert(strip_suffixes(g, ".exe"@) == g);
    assert(lower_seq(g) =~= g);
    assert(executable_key(g) == g);
    assert(!is_blank_seq(g)) by {
        assert(!crate::text::is_ws(g[0]));
    }
    assert(!g.contains('/'));
    assert(!g.contains('\\'));
    assert(allowlisted(g));
    assert(!is_powershell(g));
    let first = first_arg_lower(args);
    assert(!(exists|i: int| 0 <= i < args.len() && #[trigger] args[i].contains('\0')));
    if first == "status"@ || first == "diff"@ || first == "branch"@ || first == "log"@ || first == "show"@ {
        assert(git_read_operation(first));
        assert(first[0] != "exec"@[0] || first.len() != 4);
        assert(first[0] != "dlx"@[0] || first.len() != 3);
        assert(first != "exec"@ && first != "dlx"@);
        assert(g != "python"@ && g != "node"@);
    }
}

/// A command that is admitted passes every rule: it runs in EXECUTE or AUTO
/// mode, names an allowlisted executable by its bare name, has no NUL byte
/// and no destructive fragment in its arguments, uses Git only to read, runs
/// no inline code or package execution, and starts PowerShell only with
/// human approval and a `-File` argument and no `-Command`.
pub proof fn an_admitted_command_passes_every_rule(
    mode: DeveloperMode,
    executable: Seq<char>,
    args: Seq<Seq<char>>,
    approved_high_risk: bool,
)
    requires
        command_rejection(mode, executable, args, approved_high_risk) is None,
    ensures
        mode == DeveloperMode::Execute || mode == DeveloperMode::Auto,
        allowlisted(executable_key(executable)),
        ({
            let e = executable_key(executable);
            e == "cargo"@ || e == "rustc"@ || e == "pnpm"@ || e == "npm"@ || e == "node"@ || e
                == "git"@ || e == "dotnet"@ || e == "python"@ || e == "pytest"@ || e
                == "powershell"@ || e == "pwsh"@
        }),
        ({
            let j = lower_seq(join_seq(args, " "@));
            &&& !seq_contains(j, "--force"@)
            &&& !seq_contains(j, "-rf"@)
            &&& !seq_contains(j, "remove-item"@)
            &&& !seq_contains(j, "format"@)
            &&& !seq_contains(j, "diskpart"@)
            &&& !seq_contains(j, "shutdown"@)
            &&& !seq_contains(j, "reg delete"@)
            &&& !seq_contains(j, "reset --hard"@)
            &&& !seq_contains(j, "clean -f"@)
            &&& !seq_contains(j, "checkout --"@)
            &&& !seq_contains(j, "push --force"@)
        }),
        !executable.contains('/') && !executable.contains('\\'),
        forall|i: int| 0 <= i < args.len() ==> !(#[trigger] args[i]).contains('\0'),
        !forbidden_fragment(lower_seq(join_seq(args, " "@))),
        executable_key(executable) == "git"@ ==> git_read_operation(first_arg_lower(args)),
        !(executable_key(executable) == "python"@ && args.len() > 0 && first_arg_lower(args)
            == "-c"@),
        !(executable_key(executable) == "node"@ && args.len() > 0 && first_arg_lower(args)
            == "-e"@),
        args.len() > 0 ==> first_arg_lower(args) != "exec"@ && first_arg_lower(args) != "dlx"@,
        is_powershell(executable_key(executable)) ==> approved_high_risk && Seq::new(
            args.len(),
            |i: int| lower_seq(args[i]),
        ).contains("-file"@) && !Seq::new(args.len(), |i: int| lower_seq(args[i])).contains(
            "-command"@,
        ),
{
}

/// Outside EXECUTE and AUTO modes no command runs, whatever it is.
pub proof fn commands_need_an_executing_mode(
    mode: DeveloperMode,
    executable: Seq<char>,
    args: Seq<Seq<char>>,
    approved_high_risk: bool,
)
    requires
        mode != DeveloperMode::Execute,
        mode != DeveloperMode::Auto,
    ensures
        command_rejection(mode, executable, args, approved_high_risk) == Some(
            (DeveloperErrorKind::Permission, "terminal execution requires EXECUTE or AUTO mode"@),
        ),
{
}

/// The build tools run freely: in EXECUTE or AUTO mode, `cargo`, `rustc`,
/// `pnpm`, `npm`, `dotnet` or `pytest`, named by its bare name, is admitted
/// with any arguments free of NUL bytes and destructive fragments whose first
/// argument is not `exec` or `dlx`, without approval.
pub proof fn build_tools_are_admitted(
    mode: DeveloperMode,
    tool: Seq<char>,
    args: Seq<Seq<char>>,
    approved_high_risk: bool,
)
    requires
        mode == DeveloperMode::Execute || mode == DeveloperMode::Auto,
        tool == "cargo"@ || tool == "rustc"@ || tool == "pnpm"@ || tool == "npm"@ || tool
            == "dotnet"@ || tool == "pytest"@,
        forall|i: int| 0 <= i < args.len() ==> !(#[trigger] args[i]).contains('\0'),
        !forbidden_fragment(lower_seq(join_seq(args, " "@))),
        args.len() > 0 ==> first_arg_lower(args) != "exec"@ && first_arg_lower(args) != "dlx"@,
    ensures
        rejection_with_components(mode, tool, 1, args, approved_high_risk) is None,
{
    reveal_strlit("cargo");
    reveal_strlit("rustc");
    reveal_strlit("pnpm");
    reveal_strlit("npm");
    reveal_strlit("dotnet");
    reveal_strlit("pytest");
    reveal_strlit(".exe");
    reveal_strlit("git");
    reveal_strlit("python");
    reveal_strlit("node");
    reveal_strlit("powershell");
    reveal_strlit("pwsh");
    assert(tool.len() >= 3);
    assert(!crate::text::ends_with_seq(tool, ".exe"@)) by {
        if tool.len() >= 4 {
            let sub = tool.subrange(tool.len() - 4, tool.len() as int);
            assert(sub[3] == tool[tool.len() - 1]);
            assert(sub[3] != ".exe"@[3]);
        }
    }
    assert(strip_suffixes(tool, ".exe"@) == tool);
    assert(lower_seq(tool) =~= tool);
    assert(executable_key(tool) == tool);
    assert(!is_blank_seq(tool)) by {
        assert(!crate::text::is_ws(tool[0]));
    }
    assert(!tool.contains('/'));
    assert(!tool.contains('\\'));
    assert(tool != "git"@ && tool != "python"@ && tool != "node"@) by {
        assert(tool.len() == 3 ==> tool[0] != "git"@[0]);
        assert(tool.len() == 6 ==> tool[3] != "python"@[3]);
        assert(tool.len() == 4 ==> tool[0] != "node"@[0]);
    }
    assert(tool != "powershell"@ && tool != "pwsh"@) by {
        assert(tool.len() != 10);
        assert(tool.len() == 4 ==> tool[1] != "pwsh"@[1]);
    }
    assert(!is_powershell(tool));
    assert(!(exists|i: int| 0 <= i < args.len() && #[trigger] args[i].contains('\0')));
}

fn is_allowlisted(e: &str) -> (b: bool)
    ensures
        b == allowlisted(e@),
{
    str_eq(e, "cargo") || str_eq(e, "rustc") || str_eq(e, "pnpm") || str_eq(e, "npm") || str_eq(
        e,
        "node",
    ) || str_eq(e, "git") || str_eq(e, "dotnet") || str_eq(e, "python") || str_eq(e, "pytest")
        || str_eq(e, "powershell") || str_eq(e, "pwsh")
}

fn has_forbidden_fragment(j: &str) -> (b: bool)
    ensures
        b == forbidden_fragment(j@),
{
    contains(j, "--force") || contains(j, "-rf") || contains(j, "remove-item") || contains(
        j,
        "format",
    ) || contains(j, "diskpart") || contains(j, "shutdown") || contains(j, "reg delete")
        || contains(j, "reset --hard") || contains(j, "clean -f") || contains(j, "checkout --")
        || contains(j, "push --force")
}

/// Whether some argument, lowercased, equals `target`.
fn any_lower_arg_is(lower_args: &Vec<String>, target: &str) -> (b: bool)
    ensures
        b == views_of(lower_args@).contains(target@),
{
    let mut i: usize = 0;
    while i < lower_args.len()
        invariant
            i <= lower_args.len(),
            forall|j: int| 0 <= j < i ==> lower_args@[j]@ != target@,
        decreases lower_args.len() - i,
    {
        if str_eq(lower_args[i].as_str(), target) {
            assert(views_of(lower_args@)[i as int] == target@);
            return true;
        }
        i += 1;
    }
    assert forall|j: int| 0 <= j < views_of(lower_args@).len() implies views_of(
        lower_args@,
    )[j] != target@ by {}
    false
}

/// Checks a command whose executable the platform's path rules split into
/// `component_count` components; see `rejection_with_components`.
#[verifier::loop_isolation(false)]
pub fn check_command(
    mode: DeveloperMode,
    executable: &str,
    component_count: usize,
    args: &Vec<String>,
    approved_high_risk: bool,
) -> (r: Result<(), DeveloperError>)
    ensures
        match rejection_with_components(
            mode,
            executable@,
            component_count as nat,
            views_of(args@),
            approved_high_risk,
        ) {
            None => r is Ok,
            Some((kind, detail)) => r matches Err(e) && error_kind(e) == kind && error_detail(e)
                == detail,
        },
{
    let ghost a = views_of(args@);
    if !(matches!(mode, DeveloperMode::Execute) || matches!(mode, DeveloperMode::Auto)) {
        return Err(
            developer_error_lit(
                DeveloperErrorKind::Permission,
                "terminal execution requires EXECUTE or AUTO mode",
            ),
        );
    }
    if is_blank(executable) || component_count != 1 || contains_char(executable, '/')
        || contains_char(executable, '\\') {
        return Err(
            developer_error_lit(
                DeveloperErrorKind::Permission,
                "terminal executable must be an allowlisted basename",
            ),
        );
    }
    proof {
        reveal_strlit(".exe");
    }
    let stripped = trim_end_matches(executable, ".exe");
    let e = ascii_lowercase(stripped.as_str());
    if !is_allowlisted(e.as_str()) {
        return Err(
            developer_error(
                DeveloperErrorKind::Permission,
                concat2("command is not allowlisted: ", e.as_str()),
            ),
        );
    }
    let mut i: usize = 0;
    while i < args.len()
        invariant
            i <= args.len(),
            a == views_of(args@),
            forall|j: int| 0 <= j < i ==> !(#[trigger] a[j]).contains('\0'),
        decreases args.len() - i,
    {
        if contains_char(args[i].as_str(), '\0') {
            assert(a[i as int].contains('\0'));
            assert(exists|j: int| 0 <= j < a.len() && #[trigger] a[j].contains('\0'));
            return Err(
                developer_error_lit(DeveloperErrorKind::Invalid, "command argument contains NUL"),
            );
        }
        i += 1;
    }
    let mut lower_args: Vec<String> = Vec::new();
    let mut k: usize = 0;
    while k < args.len()
        invariant
            k <= args.len(),
            a == views_of(args@),
            lower_args@.len() == k,
            forall|j: int| 0 <= j < k ==> (#[trigger] lower_args@[j])@ == lower_seq(a[j]),
        decreases args.len() - k,
    {
        lower_args.push(ascii_lowercase(args[k].as_str()));
        k += 1;
    }
    assert(views_of(lower_args@) =~= Seq::new(a.len(), |i: int| lower_seq(a[i])));
    let joined = ascii_lowercase(join(args, " ").as_str());
    if has_forbidden_fragment(joined.as_str()) {
        return Err(
            developer_error_lit(
                DeveloperErrorKind::Permission,
                "destructive command arguments are forbidden",
            ),
        );
    }
    let first: String = if args.len() > 0 {
        ascii_lowercase(args[0].as_str())
    } else {
        String::new()
    };
    assert(first@ == first_arg_lower(a));
    let has_first = args.len() > 0;
    if str_eq(e.as_str(), "git") {
        let read = str_eq(first.as_str(), "status") || str_eq(first.as_str(), "diff") || str_eq(
            first.as_str(),
            "branch",
        ) || str_eq(first.as_str(), "log") || str_eq(first.as_str(), "show");
        if !read {
            return Err(
                developer_error_lit(
                    DeveloperErrorKind::Permission,
                    "Phase 1 Git access is read-only",
                ),
            );
        }
    }
    let inline = (str_eq(e.as_str(), "python") && has_first && str_eq(first.as_str(), "-c")) || (
    str_eq(e.as_str(), "node") && has_first && str_eq(first.as_str(), "-e")) || (has_first && (
    str_eq(first.as_str(), "exec") || str_eq(first.as_str(), "dlx")));
    if inline {
        return Err(
            developer_error_lit(
                DeveloperErrorKind::Permission,
                "inline or package-execution commands are forbidden",
            ),
        );
    }
    let powershell = str_eq(e.as_str(), "powershell") || str_eq(e.as_str(), "pwsh");
    if powershell && !approved_high_risk {
        return Err(
            developer_error_lit(
                DeveloperErrorKind::Permission,
                "high-risk command requires explicit human approval",
            ),
        );
    }
    if powershell {
        let has_file = any_lower_arg_is(&lower_args, "-file");
        let has_command = any_lower_arg_is(&lower_args, "-command");
        if !has_file || has_command {
            return Err(
                developer_error_lit(
                    DeveloperErrorKind::Permission,
                    "PowerShell is limited to approved -File execution",
                ),
            );
        }
    }
    Ok(())
}

/// Admits or rejects a terminal command before anything is started. The
/// result is `Ok` exactly when `command_rejection` finds no rule that
/// rejects the command, and otherwise the error of the first such rule.
///
/// The executable must be a bare, non-blank name of one path component
/// without `/` or `\`.
pub fn validate_command(
    mode: DeveloperMode,
    executable: &str,
    args: &Vec<String>,
    approved_high_risk: bool,
) -> (r: Result<(), DeveloperError>)
    ensures
        match command_rejection(mode, executable@, views_of(args@), approved_high_risk) {
            None => r is Ok,
            Some((kind, detail)) => r matches Err(e) && error_kind(e) == kind && error_detail(e)
                == detail,
        },
{
    check_command(mode, executable, components(executable).len(), args, approved_high_risk)
}

/// The timeout actually applied: the request clamped to one second .. thirty minutes.
pub fn effective_timeout(requested_ms: u64) -> (r: u64)
    ensures
        r == if requested_ms < 1000 {
            1000
        } else if requested_ms > MAX_TIMEOUT_MS {
            MAX_TIMEOUT_MS
        } else {
            requested_ms
        },
{
    if requested_ms < 1000 {
        1000
    } else if requested_ms > MAX_TIMEOUT_MS {
        MAX_TIMEOUT_MS
    } else {
        requested_ms
    }
}

} // verus!

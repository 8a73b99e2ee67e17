//! Shell-integration script generation: a fixed snippet per shell dialect,
//! assembled from the requested toggles.

use vstd::prelude::*;
use vstd::string::*;
use crate::text::str_eq;

verus! {

/// The inputs of the script-emission command.
pub struct InitOptions {
    /// The shell dialect to generate for.
    pub shell: String,
    /// Also emit the git wrapper that changes directory automatically.
    pub wrap_git: bool,
    /// Leave out the directory-changing helper functions.
    pub no_cd: bool,
}

pub const BASH_HEADER: &'static str = "# git-workty shell integration for bash\n\n";

pub const BASH_CD: &'static str = r#"# wcd - fuzzy select and cd to a worktree
wcd() {
    local dir
    dir="$(git workty pick 2>/dev/null)"
    if [ -n "$dir" ] && [ -d "$dir" ]; then
        cd "$dir" || return 1
    fi
}

# wnew - create new worktree and cd into it
wnew() {
    if [ -z "$1" ]; then
        echo "Usage: wnew <branch-name>" >&2
        return 1
    fi
    local dir
    dir="$(git workty new "$@" --print-path 2>/dev/null)"
    if [ -n "$dir" ] && [ -d "$dir" ]; then
        cd "$dir" || return 1
    fi
}

# wgo - go to a worktree by name
wgo() {
    if [ -z "$1" ]; then
        echo "Usage: wgo <worktree-name>" >&2
        return 1
    fi
    local dir
    dir="$(git workty go "$1" 2>/dev/null)"
    if [ -n "$dir" ] && [ -d "$dir" ]; then
        cd "$dir" || return 1
    else
        echo "Worktree not found: $1" >&2
        return 1
    fi
}

"#;

pub const BASH_WRAP: &'static str = r#"# git wrapper that auto-cds for workty commands
git() {
    if [ "$1" = "workty" ]; then
        case "$2" in
            go)
                local dir
                dir="$(command git workty go "${@:3}" 2>/dev/null)"
                if [ -n "$dir" ] && [ -d "$dir" ]; then
                    cd "$dir"
                else
                    command git "$@"
                fi
                ;;
            pick)
                local dir
                dir="$(command git workty pick 2>/dev/null)"
                if [ -n "$dir" ] && [ -d "$dir" ]; then
                    cd "$dir"
                else
                    command git "$@"
                fi
                ;;
            new)
                local dir
                dir="$(command git workty new "${@:3}" --print-path)"
                if [ -n "$dir" ] && [ -d "$dir" ]; then
                    cd "$dir"
                else
                    command git "$@"
                fi
                ;;
            *)
                command git "$@"
                ;;
        esac
    else
        command git "$@"
    fi
}

"#;

pub const ZSH_HEADER: &'static str = "# git-workty shell integration for zsh\n\n";

pub const ZSH_CD: &'static str = r#"# wcd - fuzzy select and cd to a worktree
wcd() {
    local dir
    dir="$(git workty pick 2>/dev/null)"
    if [[ -n "$dir" ]] && [[ -d "$dir" ]]; then
        cd "$dir"
    fi
}

# wnew - create new worktree and cd into it
wnew() {
    if [[ -z "$1" ]]; then
        echo "Usage: wnew <branch-name>" >&2
        return 1
    fi
    local dir
    dir="$(git workty new "$@" --print-path 2>/dev/null)"
    if [[ -n "$dir" ]] && [[ -d "$dir" ]]; then
        cd "$dir"
    fi
}

# wgo - go to a worktree by name
wgo() {
    if [[ -z "$1" ]]; then
        echo "Usage: wgo <worktree-name>" >&2
        return 1
    fi
    local dir
    dir="$(git workty go "$1" 2>/dev/null)"
    if [[ -n "$dir" ]] && [[ -d "$dir" ]]; then
        cd "$dir"
    else
        echo "Worktree not found: $1" >&2
        return 1
    fi
}

"#;

pub const ZSH_WRAP: &'static str = r#"# git wrapper that auto-cds for workty commands
git() {
    if [[ "$1" == "workty" ]]; then
        case "$2" in
            go)
                local dir
                dir="$(command git workty go "${@:3}" 2>/dev/null)"
                if [[ -n "$dir" ]] && [[ -d "$dir" ]]; then
                    cd "$dir"
                else
                    command git "$@"
                fi
                ;;
            pick)
                local dir
                dir="$(command git workty pick 2>/dev/null)"
                if [[ -n "$dir" ]] && [[ -d "$dir" ]]; then
                    cd "$dir"
                else
                    command git "$@"
                fi
                ;;
            new)
                local dir
                dir="$(command git workty new "${@:3}" --print-path)"
                if [[ -n "$dir" ]] && [[ -d "$dir" ]]; then
                    cd "$dir"
                else
                    command git "$@"
                fi
                ;;
            *)
                command git "$@"
                ;;
        esac
    else
        command git "$@"
    fi
}

"#;

pub const FISH_HEADER: &'static str = "# git-workty shell integration for fish\n\n";

pub const FISH_CD: &'static str = r#"# wcd - fuzzy select and cd to a worktree
function wcd
    set -l dir (git workty pick 2>/dev/null)
    if test -n "$dir" -a -d "$dir"
        cd "$dir"
    end
end

# wnew - create new worktree and cd into it
function wnew
    if test (count $argv) -eq 0
        echo "Usage: wnew <branch-name>" >&2
        return 1
    end
    set -l dir (git workty new $argv --print-path 2>/dev/null)
    if test -n "$dir" -a -d "$dir"
        cd "$dir"
    end
end

# wgo - go to a worktree by name
function wgo
    if test (count $argv) -eq 0
        echo "Usage: wgo <worktree-name>" >&2
        return 1
    end
    set -l dir (git workty go $argv[1] 2>/dev/null)
    if test -n "$dir" -a -d "$dir"
        cd "$dir"
    else
        echo "Worktree not found: $argv[1]" >&2
        return 1
    end
end

"#;

pub const FISH_WRAP: &'static str = r#"# git wrapper that auto-cds for workty commands
function git --wraps git
    if test "$argv[1]" = "workty"
        switch $argv[2]
            case go
                set -l dir (command git workty go $argv[3..] 2>/dev/null)
                if test -n "$dir" -a -d "$dir"
                    cd "$dir"
                else
                    command git $argv
                end
            case pick
                set -l dir (command git workty pick 2>/dev/null)
                if test -n "$dir" -a -d "$dir"
                    cd "$dir"
                else
                    command git $argv
                end
            case new
                set -l dir (command git workty new $argv[3..] --print-path)
                if test -n "$dir" -a -d "$dir"
                    cd "$dir"
                else
                    command git $argv
                end
            case '*'
                command git $argv
        end
    else
        command git $argv
    end
end

"#;

pub const POWERSHELL_HEADER: &'static str = "# git-workty shell integration for PowerShell\n\n";

pub const POWERSHELL_CD: &'static str = r#"# wcd - fuzzy select and cd to a worktree
function wcd {
    $dir = git workty pick 2>$null
    if ($dir -and (Test-Path $dir)) {
        Set-Location $dir
    }
}

# wnew - create new worktree and cd into it
function wnew {
    param([Parameter(Mandatory=$true)][string]$Name)
    $dir = git workty new $Name --print-path 2>$null
    if ($dir -and (Test-Path $dir)) {
        Set-Location $dir
    }
}

# wgo - go to a worktree by name
function wgo {
    param([Parameter(Mandatory=$true)][string]$Name)
    $dir = git workty go $Name 2>$null
    if ($dir -and (Test-Path $dir)) {
        Set-Location $dir
    } else {
        Write-Error "Worktree not found: $Name"
    }
}

"#;

pub const POWERSHELL_WRAP: &'static str =
    r#"# Note: Git wrapper for PowerShell requires more complex setup.
# Consider using the wcd, wnew, and wgo functions directly.

"#;

/// A script as header, optional cd helpers and optional git wrapper.
pub open spec fn spec_script(
    header: Seq<char>,
    cd_part: Seq<char>,
    wrap_part: Seq<char>,
    wrap_git: bool,
    no_cd: bool,
) -> Seq<char> {
    header + (if !no_cd {
        cd_part
    } else {
        Seq::empty()
    }) + (if wrap_git {
        wrap_part
    } else {
        Seq::empty()
    })
}

fn assemble(header: &'static str, cd_part: &'static str, wrap_part: &'static str, wrap_git: bool, no_cd: bool)
    -> (r: String)
    ensures
        r@ == spec_script(header@, cd_part@, wrap_part@, wrap_git, no_cd),
{
    let mut out = String::new();
    out.append(header);
    if !no_cd {
        out.append(cd_part);
    }
    if wrap_git {
        out.append(wrap_part);
    }
    proof {
        assert(out@ =~= spec_script(header@, cd_part@, wrap_part@, wrap_git, no_cd));
    }
    out
}

/// The bash integration script for the given toggles.
pub fn generate_bash(wrap_git: bool, no_cd: bool) -> (r: String)
    ensures
        r@ == spec_script(BASH_HEADER@, BASH_CD@, BASH_WRAP@, wrap_git, no_cd),
{
    assemble(BASH_HEADER, BASH_CD, BASH_WRAP, wrap_git, no_cd)
}

/// The zsh integration script for the given toggles.
pub fn generate_zsh(wrap_git: bool, no_cd: bool) -> (r: String)
    ensures
        r@ == spec_script(ZSH_HEADER@, ZSH_CD@, ZSH_WRAP@, wrap_git, no_cd),
{
    assemble(ZSH_HEADER, ZSH_CD, ZSH_WRAP, wrap_git, no_cd)
}

/// The fish integration script for the given toggles.
pub fn generate_fish(wrap_git: bool, no_cd: bool) -> (r: String)
    ensures
        r@ == spec_script(FISH_HEADER@, FISH_CD@, FISH_WRAP@, wrap_git, no_cd),
{
    assemble(FISH_HEADER, FISH_CD, FISH_WRAP, wrap_git, no_cd)
}

/// The PowerShell integration script for the given toggles.
pub fn generate_powershell(wrap_git: bool, no_cd: bool) -> (r: String)
    ensures
        r@ == spec_script(POWERSHELL_HEADER@, POWERSHELL_CD@, POWERSHELL_WRAP@, wrap_git, no_cd),
{
    assemble(POWERSHELL_HEADER, POWERSHELL_CD, POWERSHELL_WRAP, wrap_git, no_cd)
}

/// What `generate_init` yields: the script of the named dialect, or a
/// one-line comment naming the unsupported shell.
pub open spec fn spec_generate_init(shell: Seq<char>, wrap_git: bool, no_cd: bool) -> Seq<char> {
    if shell == "bash"@ {
        spec_script(BASH_HEADER@, BASH_CD@, BASH_WRAP@, wrap_git, no_cd)
    } else if shell == "zsh"@ {
        spec_script(ZSH_HEADER@, ZSH_CD@, ZSH_WRAP@, wrap_git, no_cd)
    } else if shell == "fish"@ {
        spec_script(FISH_HEADER@, FISH_CD@, FISH_WRAP@, wrap_git, no_cd)
    } else if shell == "powershell"@ || shell == "pwsh"@ {
        spec_script(POWERSHELL_HEADER@, POWERSHELL_CD@, POWERSHELL_WRAP@, wrap_git, no_cd)
    } else {
        "# Unsupported shell: "@ + shell + "\n"@
    }
}

/// Emits the integration script for a shell dialect.
pub fn generate_init(shell: &str, wrap_git: bool, no_cd: bool) -> (r: String)
    ensures
        r@ == spec_generate_init(shell@, wrap_git, no_cd),
{
    if str_eq(shell, "bash") {
        generate_bash(wrap_git, no_cd)
    } else if str_eq(shell, "zsh") {
        generate_zsh(wrap_git, no_cd)
    } else if str_eq(shell, "fish") {
        generate_fish(wrap_git, no_cd)
    } else if str_eq(shell, "powershell") || str_eq(shell, "pwsh") {
        generate_powershell(wrap_git, no_cd)
    } else {
        let mut out = String::new();
        out.append("# Unsupported shell: ");
        out.append(shell);
        out.append("\n");
        out
    }
}

/// The shell dialects `generate_init` supports.
pub fn supported_shells() -> (r: Vec<&'static str>)
    ensures
        r@.len() == 4,
        r@[0]@ == "bash"@,
        r@[1]@ == "zsh"@,
        r@[2]@ == "fish"@,
        r@[3]@ == "powershell"@,
{
    let mut v: Vec<&'static str> = Vec::new();
    v.push("bash");
    v.push("zsh");
    v.push("fish");
    v.push("powershell");
    v
}

} // verus!

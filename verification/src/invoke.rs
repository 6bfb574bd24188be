//! How the assistant is found and launched: the places where its executable is
//! looked for, the choice among what was found, and the launch recipe for an
//! executable on a platform.

use vstd::prelude::*;
use vstd::string::*;
use crate::text::{has_suffix, ends_with_text, texts, append_texts};

verus! {

/// The host platform, as far as the launch policy tells platforms apart.
#[derive(Debug, Clone, Copy, PartialEq, Eq)]
pub enum Platform {
    Windows,
    MacOs,
    Linux,
    Other,
}

/// How an executable is started.
#[derive(Debug, Clone, Copy, PartialEq, Eq)]
pub enum Launcher {
    /// Through PowerShell, with the execution policy bypassed.
    PowerShell,
    /// Through the native command interpreter.
    CommandInterpreter,
    /// As a program of its own.
    Direct,
}

/// A launch recipe: the program to start and its full argument list.
#[derive(Debug, Clone, PartialEq, Eq)]
pub struct InvocationPlan {
    pub program: String,
    pub args: Vec<String>,
}

pub struct InvocationPlanView {
    pub program: Seq<char>,
    pub args: Seq<Seq<char>>,
}

impl View for InvocationPlan {
    type V = InvocationPlanView;

    open spec fn view(&self) -> InvocationPlanView {
        InvocationPlanView { program: self.program@, args: texts(self.args@) }
    }
}

/// The launcher for an executable: on Windows a `.ps1` script goes through
/// PowerShell and a `.bat` or `.cmd` script through the command interpreter;
/// everything else, and everything on other platforms, is started directly.
pub open spec fn launcher_for(platform: Platform, path: Seq<char>) -> Launcher {
    if platform is Windows {
        if has_suffix(path, ".ps1"@) {
            Launcher::PowerShell
        } else if has_suffix(path, ".bat"@) || has_suffix(path, ".cmd"@) {
            Launcher::CommandInterpreter
        } else {
            Launcher::Direct
        }
    } else {
        Launcher::Direct
    }
}

/// The arguments that a launcher puts before the assistant's own.
pub open spec fn launcher_args(launcher: Launcher, path: Seq<char>) -> Seq<Seq<char>> {
    match launcher {
        Launcher::PowerShell => seq!["-NoProfile"@, "-ExecutionPolicy"@, "Bypass"@, "-File"@, path],
        Launcher::CommandInterpreter => seq!["/C"@, path],
        Launcher::Direct => seq![],
    }
}

/// The program that a launcher starts.
pub open spec fn launcher_program(launcher: Launcher, path: Seq<char>) -> Seq<char> {
    match launcher {
        Launcher::PowerShell => "powershell"@,
        Launcher::CommandInterpreter => "cmd"@,
        Launcher::Direct => path,
    }
}

/// The recipe for a prompt: the launcher's arguments, then the configured
/// extra arguments, then `--prompt` and the prompt itself.
pub open spec fn plan_for(
    platform: Platform,
    path: Seq<char>,
    base_args: Seq<Seq<char>>,
    prompt: Seq<char>,
) -> InvocationPlanView {
    let launcher = launcher_for(platform, path);
    InvocationPlanView {
        program: launcher_program(launcher, path),
        args: launcher_args(launcher, path) + base_args + seq!["--prompt"@, prompt],
    }
}

/// Chooses the launcher for an executable on a platform.
pub fn choose_launcher(platform: Platform, executable_path: &str) -> (r: Launcher)
    ensures
        r == launcher_for(platform, executable_path@),
{
    match platform {
        Platform::Windows => {
            if ends_with_text(executable_path, ".ps1") {
                Launcher::PowerShell
            } else if ends_with_text(executable_path, ".bat") || ends_with_text(
                executable_path,
                ".cmd",
            ) {
                Launcher::CommandInterpreter
            } else {
                Launcher::Direct
            }
        },
        _ => Launcher::Direct,
    }
}

/// Builds the launch recipe for a prompt. Whatever the platform and the
/// executable, the last two arguments are `--prompt` and the prompt, and the
/// configured extra arguments stand directly before them.
pub fn build(platform: Platform, executable_path: &str, base_args: &Vec<String>, prompt: &str) -> (r:
    InvocationPlan)
    ensures
        r@ == plan_for(platform, executable_path@, texts(base_args@), prompt@),
        r@.args.len() >= base_args@.len() + 2,
        r@.args[r@.args.len() - 2] == "--prompt"@,
        r@.args[r@.args.len() - 1] == prompt@,
        r@.args.subrange(r@.args.len() - 2 - base_args@.len(), r@.args.len() - 2) == texts(
            base_args@,
        ),
{
    let launcher = choose_launcher(platform, executable_path);
    let mut args: Vec<String> = Vec::new();
    let program = match launcher {
        Launcher::PowerShell => {
            args.push("-NoProfile".to_owned());
            args.push("-ExecutionPolicy".to_owned());
            args.push("Bypass".to_owned());
            args.push("-File".to_owned());
            args.push(executable_path.to_owned());
            "powershell".to_owned()
        },
        Launcher::CommandInterpreter => {
            args.push("/C".to_owned());
            args.push(executable_path.to_owned());
            "cmd".to_owned()
        },
        Launcher::Direct => executable_path.to_owned(),
    };
    assert(texts(args@) =~= launcher_args(launcher, executable_path@));
    append_texts(&mut args, base_args);
    let ghost front = texts(args@);
    args.push("--prompt".to_owned());
    args.push(prompt.to_owned());
    assert(texts(args@) =~= front + seq!["--prompt"@, prompt@]);
    let r = InvocationPlan { program, args };
    proof {
        lemma_prompt_comes_last(platform, executable_path@, texts(base_args@), prompt@);
    }
    r
}

/// On every platform and for every executable, the recipe ends with
/// `--prompt` and the prompt, directly after the configured extra arguments.
pub proof fn lemma_prompt_comes_last(
    platform: Platform,
    path: Seq<char>,
    base_args: Seq<Seq<char>>,
    prompt: Seq<char>,
)
    ensures
        ({
            let args = plan_for(platform, path, base_args, prompt).args;
            &&& args.len() >= base_args.len() + 2
            &&& args[args.len() - 2] == "--prompt"@
            &&& args[args.len() - 1] == prompt
            &&& args.subrange(args.len() - 2 - base_args.len(), args.len() - 2) == base_args
        }),
{
    let args = plan_for(platform, path, base_args, prompt).args;
    assert(args.subrange(args.len() - 2 - base_args.len(), args.len() - 2) =~= base_args);
}

} // verus!

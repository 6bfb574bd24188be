use gemini_ui::config::AppConfig;
use gemini_ui::invoke::{build, choose_launcher, InvocationPlan, Launcher, Platform};

fn strings(items: &[&str]) -> Vec<String> {
    items.iter().map(|s| s.to_string()).collect()
}

#[test]
fn direct_launch_on_linux() {
    let plan = build(Platform::Linux, "/usr/bin/gemini", &strings(&["-m", "pro"]), "hello");
    assert_eq!(
        plan,
        InvocationPlan {
            program: "/usr/bin/gemini".to_string(),
            args: strings(&["-m", "pro", "--prompt", "hello"]),
        }
    );
}

#[test]
fn powershell_script_on_windows() {
    let plan = build(Platform::Windows, "C:\\tools\\gemini.ps1", &strings(&["-x"]), "hi there");
    assert_eq!(plan.program, "powershell");
    assert_eq!(
        plan.args,
        strings(&[
            "-NoProfile",
            "-ExecutionPolicy",
            "Bypass",
            "-File",
            "C:\\tools\\gemini.ps1",
            "-x",
            "--prompt",
            "hi there",
        ])
    );
}

#[test]
fn batch_and_cmd_scripts_on_windows() {
    let bat = build(Platform::Windows, "gemini.bat", &strings(&[]), "p");
    assert_eq!(bat.program, "cmd");
    assert_eq!(bat.args, strings(&["/C", "gemini.bat", "--prompt", "p"]));
    let cmd = build(Platform::Windows, "gemini.cmd", &strings(&["a", "b"]), "p");
    assert_eq!(cmd.program, "cmd");
    assert_eq!(cmd.args, strings(&["/C", "gemini.cmd", "a", "b", "--prompt", "p"]));
}

#[test]
fn native_executable_on_windows() {
    let plan = build(Platform::Windows, "C:\\gemini.exe", &strings(&[]), "p");
    assert_eq!(plan.program, "C:\\gemini.exe");
    assert_eq!(plan.args, strings(&["--prompt", "p"]));
}

#[test]
fn script_suffix_is_ignored_off_windows() {
    for platform in [Platform::Linux, Platform::MacOs, Platform::Other] {
        for path in ["gemini.ps1", "gemini.bat", "gemini.cmd"] {
            let plan = build(platform, path, &strings(&["-v"]), "q");
            assert_eq!(plan.program, path);
            assert_eq!(plan.args, strings(&["-v", "--prompt", "q"]));
        }
    }
}

#[test]
fn suffix_must_be_at_the_end_and_in_lower_case() {
    assert_eq!(choose_launcher(Platform::Windows, "gemini.ps1.exe"), Launcher::Direct);
    assert_eq!(choose_launcher(Platform::Windows, "gemini.PS1"), Launcher::Direct);
    assert_eq!(choose_launcher(Platform::Windows, ".ps1"), Launcher::PowerShell);
    assert_eq!(choose_launcher(Platform::Windows, "ps1"), Launcher::Direct);
    assert_eq!(choose_launcher(Platform::Windows, "a.bat"), Launcher::CommandInterpreter);
    assert_eq!(choose_launcher(Platform::Windows, "a.cmd"), Launcher::CommandInterpreter);
    assert_eq!(choose_launcher(Platform::Linux, "a.cmd"), Launcher::Direct);
}

#[test]
fn prompt_is_always_last() {
    let base = strings(&["--model", "x", "--prompt"]);
    for platform in [Platform::Windows, Platform::Linux, Platform::MacOs, Platform::Other] {
        for path in ["gemini", "g.ps1", "g.bat", "g.cmd", "g.exe", ""] {
            let plan = build(platform, path, &base, "--prompt");
            let n = plan.args.len();
            assert!(n >= base.len() + 2);
            assert_eq!(plan.args[n - 2], "--prompt");
            assert_eq!(plan.args[n - 1], "--prompt");
            assert_eq!(&plan.args[n - 2 - base.len()..n - 2], &base[..]);
        }
    }
}

#[test]
fn default_config_is_empty() {
    let config = AppConfig::default();
    assert_eq!(config.gemini_cli_path, None);
    assert!(config.gemini_cli_args.is_empty());
    assert!(config.needs_search());
}

#[test]
fn executable_prefers_configuration_then_search_then_bare_name() {
    let configured = AppConfig {
        gemini_cli_path: Some("/opt/gemini".to_string()),
        gemini_cli_args: vec![],
    };
    assert!(!configured.needs_search());
    assert_eq!(configured.executable(Some("/usr/bin/gemini".to_string())), "/opt/gemini");
    assert_eq!(configured.executable(None), "/opt/gemini");
    let bare = AppConfig::default();
    assert_eq!(bare.executable(Some("/usr/bin/gemini".to_string())), "/usr/bin/gemini");
    assert_eq!(bare.executable(None), "gemini");
}

#[test]
fn plan_from_configuration() {
    let config = AppConfig {
        gemini_cli_path: None,
        gemini_cli_args: strings(&["--yolo"]),
    };
    let plan = config.plan(Platform::Windows, Some("C:\\g\\gemini.cmd".to_string()), "2+2?");
    assert_eq!(plan.program, "cmd");
    assert_eq!(plan.args, strings(&["/C", "C:\\g\\gemini.cmd", "--yolo", "--prompt", "2+2?"]));
    let fallback = config.plan(Platform::Linux, None, "2+2?");
    assert_eq!(fallback.program, "gemini");
    assert_eq!(fallback.args, strings(&["--yolo", "--prompt", "2+2?"]));
}

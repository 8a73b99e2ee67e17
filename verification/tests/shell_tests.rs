use workty::shell::{
    generate_bash, generate_init, supported_shells, BASH_CD, BASH_HEADER, BASH_WRAP, FISH_CD,
    FISH_HEADER, POWERSHELL_CD, POWERSHELL_HEADER, ZSH_CD, ZSH_HEADER, ZSH_WRAP,
};

#[test]
fn test_generate_bash_parts() {
    assert_eq!(generate_bash(false, false), format!("{}{}", BASH_HEADER, BASH_CD));
    assert_eq!(generate_bash(true, false), format!("{}{}{}", BASH_HEADER, BASH_CD, BASH_WRAP));
    assert_eq!(generate_bash(false, true), BASH_HEADER);
    assert_eq!(generate_bash(true, true), format!("{}{}", BASH_HEADER, BASH_WRAP));
}

#[test]
fn test_generate_init_dialects() {
    assert_eq!(generate_init("bash", false, false), format!("{}{}", BASH_HEADER, BASH_CD));
    assert_eq!(
        generate_init("zsh", true, false),
        format!("{}{}{}", ZSH_HEADER, ZSH_CD, ZSH_WRAP)
    );
    assert_eq!(generate_init("fish", false, false), format!("{}{}", FISH_HEADER, FISH_CD));
    assert_eq!(
        generate_init("powershell", false, false),
        format!("{}{}", POWERSHELL_HEADER, POWERSHELL_CD)
    );
    assert_eq!(
        generate_init("pwsh", false, false),
        generate_init("powershell", false, false)
    );
}

#[test]
fn test_generate_init_unsupported() {
    assert_eq!(generate_init("tcsh", false, false), "# Unsupported shell: tcsh\n");
}

#[test]
fn test_generate_init_helpers_present() {
    let script = generate_init("zsh", false, false);
    assert!(script.contains("wcd()"));
    assert!(script.contains("wnew()"));
    assert!(script.contains("wgo()"));
    let bare = generate_init("zsh", false, true);
    assert!(!bare.contains("wcd()"));
}

#[test]
fn test_supported_shells() {
    assert_eq!(supported_shells(), vec!["bash", "zsh", "fish", "powershell"]);
}

use memocap::install::{agents_path, global_agents_path, status};
use memocap::paths::{join_path, Paths, PathsError};
use memocap::{agents_block, AGENTS_BEGIN, AGENTS_END};

#[test]
fn paths_join_like_unix_paths() {
    assert_eq!(join_path("/home/test", ".codex"), "/home/test/.codex");
    assert_eq!(join_path("/home/test/", ".codex"), "/home/test/.codex");
    assert_eq!(join_path("", "AGENTS.md"), "AGENTS.md");
    assert_eq!(join_path("/home/test", "/etc/x"), "/etc/x");
}

#[test]
fn paths_are_laid_out_under_home_and_the_data_directory() {
    let paths = Paths::locate(None, Some("/home/test".to_owned()), None).expect("home is known");
    assert_eq!(paths.home, "/home/test");
    assert_eq!(paths.codex_home, "/home/test/.codex");
    assert_eq!(paths.data_dir, "/home/test/.memocap");
    assert_eq!(paths.database, "/home/test/.memocap/memocap.db");
    assert_eq!(paths.installed_binary, "/home/test/.codex/bin/memocap");
    let moved = Paths::locate(Some("/srv/me".to_owned()), Some("/home/test".to_owned()), Some("/data".to_owned())).expect("home is known");
    assert_eq!(moved.home, "/srv/me");
    assert_eq!(moved.database, "/data/memocap.db");
    let empty_env = Paths::locate(Some(String::new()), Some("/home/test".to_owned()), Some(String::new())).expect("home is known");
    assert_eq!(empty_env.home, "/home/test");
    assert_eq!(empty_env.data_dir, "/home/test/.memocap");
    assert!(matches!(Paths::locate(None, None, None), Err(PathsError::HomeUnknown)));
    assert_eq!(PathsError::HomeUnknown.message(), "无法确定用户目录；请设置 MEMOCAP_HOME");
}

#[test]
fn install_targets_the_global_or_the_project_agents_file() {
    let paths = Paths::locate(None, Some("/home/test".to_owned()), None).expect("home is known");
    assert_eq!(global_agents_path(&paths), "/home/test/.codex/AGENTS.md");
    assert_eq!(agents_path(&paths, true, "/work/project"), "/home/test/.codex/AGENTS.md");
    assert_eq!(agents_path(&paths, false, "/work/project"), "/work/project/AGENTS.md");
    let report = status(&paths, false, "/work/project", true);
    assert_eq!(report.binary, "/home/test/.codex/bin/memocap");
    assert_eq!(report.database, "/home/test/.memocap/memocap.db");
    assert_eq!(report.agents_path, "/work/project/AGENTS.md");
    assert!(report.configured);
}

#[test]
fn the_rule_block_names_the_binary_between_its_markers() {
    let block = agents_block("/home/test/.codex/bin/memocap");
    assert!(block.starts_with(AGENTS_BEGIN));
    assert!(block.ends_with(&format!("{AGENTS_END}\n")));
    assert!(block.contains("- Remember: `/home/test/.codex/bin/memocap remember --type <type> --tags \"tag1,tag2\" \"content\"`\n"));
    assert!(block.contains("- Recall: `/home/test/.codex/bin/memocap recall \"query\" --limit 5`\n"));
    assert!(block.contains("- List: `/home/test/.codex/bin/memocap list`\n"));
    assert!(block.contains("- Forget: `/home/test/.codex/bin/memocap forget <id>` (confirm unless the user was explicit)\n"));
    assert!(block.starts_with("<!-- memocap:begin -->\n## Local memory\n\nRecall-first (言必检): recall on every utterance, then answer.\n"));
}

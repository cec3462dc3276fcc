use gitrs::command::{run, Command, Effect, CONFIG_FILE};
use gitrs::config::Config;

#[test]
fn test_run_add() {
    let mut cfg = Config::new("/root".to_string(), CONFIG_FILE.to_string()).expect("new failed");
    assert_eq!(cfg.path(), "/root/.gitrs.yaml");
    let got = run(
        &mut cfg,
        Command::Add {
            repo: "github.com/a/a".to_string(),
            pin: true,
        },
    );
    assert_eq!(got, Ok(Effect::Save));
    assert_eq!(cfg.repos().len(), 1);
    assert_eq!(cfg.repos()[0].get_name(), "github.com/a/a");
    assert_eq!(cfg.repos()[0].get_url(), "git@github.com:a/a.git");
    assert_eq!(cfg.repos()[0].get_pin(), true);
    assert_eq!(cfg.repos()[0].get_sha(), "");
}

#[test]
fn test_run_add_invalid_name() {
    let mut cfg = Config::new("/root".to_string(), CONFIG_FILE.to_string()).expect("new failed");
    let got = run(
        &mut cfg,
        Command::Add {
            repo: "not-a-valid-name".to_string(),
            pin: false,
        },
    );
    assert_eq!(got.err().map(|e| e.name), Some("not-a-valid-name".to_string()));
    assert_eq!(cfg.repos().len(), 0);
}

#[test]
fn test_run_remove() {
    let mut cfg = Config::new("/root".to_string(), CONFIG_FILE.to_string()).expect("new failed");
    cfg.add("github.com/a/a".to_string(), false).expect("add failed");
    cfg.add("github.com/b/b".to_string(), false).expect("add failed");
    let got = run(
        &mut cfg,
        Command::Remove {
            repo: "github.com/a/a".to_string(),
        },
    );
    assert_eq!(got, Ok(Effect::Save));
    assert_eq!(cfg.repos().len(), 1);
    assert_eq!(cfg.repos()[0].get_name(), "github.com/b/b");
}

#[test]
fn test_run_sync() {
    let mut cfg = Config::new("/root".to_string(), CONFIG_FILE.to_string()).expect("new failed");
    cfg.add("github.com/a/a".to_string(), false).expect("add failed");
    let got = run(&mut cfg, Command::Sync { clean_only: true });
    assert_eq!(got, Ok(Effect::Reconcile { clean_only: true }));
    let got = run(&mut cfg, Command::Sync { clean_only: false });
    assert_eq!(got, Ok(Effect::Reconcile { clean_only: false }));
    assert_eq!(cfg.repos().len(), 1);
}

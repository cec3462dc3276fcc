use gitrs::config::{has_distinct_names, has_names, position, Config, CONFIG_VERSION};
use gitrs::path::join;
use gitrs::repo::Repo;

fn create_test_cfg(root: &str) -> Config {
    Config::new(root.to_string(), join(root, "test.yaml"))
        .expect("expected successful creation of got value")
}

fn record(name: &str) -> Repo {
    Repo::new()
        .name(name.to_string())
        .expect("name failed")
        .url(name.to_string())
        .expect("url failed")
        .pin(false)
        .sha("".to_string())
        .to_owned()
}

#[test]
fn test_new() {
    let got = Config::new("/foo".to_string(), "test.yaml".to_string())
        .expect("failed to create 'got'");

    assert_eq!(got.root(), "/foo");
    assert_eq!(got.path(), "/foo/test.yaml");
    assert_eq!(got.repos().len(), 0);
    assert_eq!(got.version(), String::from(CONFIG_VERSION));
    assert_eq!(got.version(), "v1beta");
}

#[test]
fn test_new_twice_gives_equal_configs() {
    let got = create_test_cfg("/tmp/root");

    // should be the default config values
    let want = Config::new("/tmp/root".to_string(), join("/tmp/root", "test.yaml"))
        .expect("expected successful creation of want value");

    assert_eq!(got, want);
    assert_eq!(got.path(), "/tmp/root/test.yaml");
}

#[test]
fn test_add() {
    let mut got = create_test_cfg("/tmp/root");

    let r = got.add("github.com/a/a".to_string(), false);
    assert_eq!(r.err().is_none(), true);
    assert_eq!(got.repos().len(), 1);
    assert_eq!(got.repos().to_owned(), vec![record("github.com/a/a")]);

    // Try adding duplicate
    let r = got.add("github.com/a/a".to_string(), false);
    assert_eq!(r.err().is_none(), true);
    assert_eq!(got.repos().to_owned(), vec![record("github.com/a/a")]);

    let r = got.add("github.com/b/b".to_string(), false);
    assert_eq!(r.err().is_none(), true);
    assert_eq!(
        got.repos().to_owned(),
        vec![record("github.com/a/a"), record("github.com/b/b")]
    );
}

#[test]
fn test_remove() {
    let mut got = create_test_cfg("/tmp/root");

    let r = got.add("github.com/a/a".to_string(), false);
    assert_eq!(r.err().is_none(), true);
    assert_eq!(got.repos().len(), 1);
    assert_eq!(got.repos().to_owned(), vec![record("github.com/a/a")]);

    let r = got.remove("github.com/a/a".to_string());
    assert_eq!(r.err().is_none(), true);
    assert_eq!(got.repos().len(), 0);
    assert_eq!(got.repos().to_owned(), Vec::<Repo>::new());

    // Try removing twice
    let r = got.remove("github.com/a/a".to_string());
    assert_eq!(r.err().is_none(), true);
    assert_eq!(got.repos().len(), 0);
    assert_eq!(got.repos().to_owned(), Vec::<Repo>::new());
}

#[test]
fn test_add_invalid_name_changes_nothing() {
    let mut got = create_test_cfg("/tmp/root");
    got.add("github.com/a/a".to_string(), true)
        .expect("add failed");

    let r = got.add("not-a-valid-name".to_string(), false);
    assert_eq!(
        r.err().map(|e| e.name),
        Some("not-a-valid-name".to_string())
    );
    assert_eq!(got.repos().len(), 1);
    assert_eq!(got.repos()[0].get_name(), "github.com/a/a");
    assert_eq!(got.repos()[0].get_pin(), true);
}

#[test]
fn test_add_replaces_pin_and_sha() {
    let mut got = create_test_cfg("/tmp/root");
    got.add("github.com/a/a".to_string(), false)
        .expect("add failed");
    got.add("github.com/b/b".to_string(), false)
        .expect("add failed");
    let mut changed = got.repos().to_owned();
    changed[0].sha("abc".to_string());
    assert!(got.repos_mut(changed));
    assert_eq!(got.repos()[0].get_sha(), "abc");

    got.add("github.com/a/a".to_string(), true)
        .expect("add failed");
    assert_eq!(got.repos().len(), 2);
    assert_eq!(got.repos()[0].get_name(), "github.com/a/a");
    assert_eq!(got.repos()[0].get_pin(), true);
    assert_eq!(got.repos()[0].get_sha(), "");
    assert_eq!(got.repos()[1].get_name(), "github.com/b/b");
}

#[test]
fn test_remove_keeps_the_others() {
    let mut got = create_test_cfg("/tmp/root");
    for n in ["github.com/a/a", "github.com/b/b", "github.com/c/c"] {
        got.add(n.to_string(), false).expect("add failed");
    }
    got.remove("github.com/b/b".to_string())
        .expect("remove failed");
    assert_eq!(
        got.repos().to_owned(),
        vec![record("github.com/a/a"), record("github.com/c/c")]
    );
}

#[test]
fn test_position() {
    let repos = vec![record("github.com/a/a"), record("github.com/b/b")];
    assert_eq!(position(&repos, &"github.com/a/a".to_string()), 0);
    assert_eq!(position(&repos, &"github.com/b/b".to_string()), 1);
    assert_eq!(position(&repos, &"github.com/c/c".to_string()), 2);
}

#[test]
fn test_join() {
    assert_eq!(join("/foo", "test.yaml"), "/foo/test.yaml");
    assert_eq!(join("/foo/", "test.yaml"), "/foo/test.yaml");
    assert_eq!(join("/foo", "/bar/test.yaml"), "/bar/test.yaml");
    assert_eq!(join("", "test.yaml"), "test.yaml");
    assert_eq!(join("/foo", ""), "/foo/");
    assert_eq!(join("/root", "github.com/a/a"), "/root/github.com/a/a");
}

#[test]
fn test_restore() {
    let got = Config::restore(
        "v0".to_string(),
        "/data".to_string(),
        "elsewhere/cfg.yaml".to_string(),
        vec![record("github.com/b/b"), record("github.com/a/a")],
    )
    .expect("restore failed");
    assert_eq!(got.version(), "v0");
    assert_eq!(got.root(), "/data");
    assert_eq!(got.path(), "elsewhere/cfg.yaml");
    assert_eq!(
        got.repos().to_owned(),
        vec![record("github.com/b/b"), record("github.com/a/a")]
    );
}

#[test]
fn test_restore_refuses_a_name_twice() {
    let got = Config::restore(
        "v1beta".to_string(),
        "/data".to_string(),
        "/data/cfg.yaml".to_string(),
        vec![
            record("github.com/a/a"),
            record("github.com/b/b"),
            record("github.com/a/a"),
        ],
    );
    assert_eq!(got, None);
}

#[test]
fn test_repos_mut_replaces_the_list() {
    let mut got = create_test_cfg("/tmp/root");
    got.add("github.com/a/a".to_string(), false)
        .expect("add failed");
    assert!(got.repos_mut(vec![record("github.com/c/c"), record("github.com/b/b")]));
    assert_eq!(
        got.repos().to_owned(),
        vec![record("github.com/c/c"), record("github.com/b/b")]
    );
    assert_eq!(got.root(), "/tmp/root");
    assert_eq!(got.path(), "/tmp/root/test.yaml");
}

#[test]
fn test_repos_mut_refuses_a_name_twice() {
    let mut got = create_test_cfg("/tmp/root");
    got.add("github.com/a/a".to_string(), false)
        .expect("add failed");
    assert!(!got.repos_mut(vec![record("github.com/b/b"), record("github.com/b/b")]));
    assert_eq!(got.repos().to_owned(), vec![record("github.com/a/a")]);
}

#[test]
fn test_has_distinct_names() {
    assert!(has_distinct_names(&vec![]));
    assert!(has_distinct_names(&vec![record("github.com/a/a")]));
    assert!(has_distinct_names(&vec![
        record("github.com/a/a"),
        record("github.com/b/b"),
        record("github.com/c/c")
    ]));
    assert!(!has_distinct_names(&vec![
        record("github.com/a/a"),
        record("github.com/b/b"),
        record("github.com/b/b")
    ]));
    assert!(!has_distinct_names(&vec![
        record("github.com/a/a"),
        record("github.com/b/b"),
        record("github.com/a/a")
    ]));
}

#[test]
fn test_restore_refuses_a_record_without_a_name() {
    let got = Config::restore(
        "v1beta".to_string(),
        "/data".to_string(),
        "/data/cfg.yaml".to_string(),
        vec![record("github.com/a/a"), Repo::new()],
    );
    assert_eq!(got, None);
}

#[test]
fn test_repos_mut_refuses_a_record_without_a_name() {
    let mut got = create_test_cfg("/tmp/root");
    got.add("github.com/a/a".to_string(), false)
        .expect("add failed");
    assert!(!got.repos_mut(vec![Repo::new()]));
    assert_eq!(got.repos().to_owned(), vec![record("github.com/a/a")]);
}

#[test]
fn test_has_names() {
    assert!(has_names(&vec![]));
    assert!(has_names(&vec![record("github.com/a/a"), record("github.com/a/a")]));
    assert!(!has_names(&vec![record("github.com/a/a"), Repo::new()]));
}

use kara::archive::{plan_entry, EntryKind};

#[test]
fn entries_lose_their_top_level_component() {
    let plan = plan_entry("vosk-model/am/final.mdl", Some(0o644), "/data/asr").unwrap();
    assert_eq!(plan.kind, EntryKind::File);
    assert_eq!(plan.path, "/data/asr/am/final.mdl");
    assert_eq!(plan.parent.as_deref(), Some("/data/asr/am"));
    assert_eq!(plan.mode, Some(0o644));
}

#[test]
fn directories_are_told_by_the_trailing_slash() {
    let plan = plan_entry("vosk-model/graph/phones/", None, "/data/asr").unwrap();
    assert_eq!(plan.kind, EntryKind::Directory);
    assert_eq!(plan.path, "/data/asr/graph/phones");
    assert_eq!(plan.parent, None);
    assert_eq!(plan.mode, None);
}

#[test]
fn the_top_level_directory_is_the_destination() {
    let plan = plan_entry("vosk-model-small-en-us-0.15/", Some(0o755), "/data/asr").unwrap();
    assert_eq!(plan.kind, EntryKind::Directory);
    assert_eq!(plan.path, "/data/asr");

    let plan = plan_entry("README", None, "/data/asr").unwrap();
    assert_eq!(plan.kind, EntryKind::File);
    assert_eq!(plan.path, "/data/asr");
    assert_eq!(plan.parent, None);
}

#[test]
fn traversal_lands_inside_the_destination() {
    let plan = plan_entry("../../etc/evil", None, "/data/asr").unwrap();
    assert_eq!(plan.kind, EntryKind::File);
    assert_eq!(plan.path, "/data/asr/evil");
    assert_eq!(plan.parent.as_deref(), Some("/data/asr"));

    for name in [
        "model/../../../etc/passwd",
        "model/a/../../../../root/.ssh/authorized_keys",
        "/etc/shadow",
        "//etc//shadow",
        "model/./../x/../../y",
        "..",
        "../..",
        "model/..",
        "",
        "a/b/../../../..//c/d/../e",
    ] {
        let plan = plan_entry(name, None, "/data/asr").unwrap();
        assert!(
            plan.path == "/data/asr" || plan.path.starts_with("/data/asr/"),
            "{} went to {}",
            name,
            plan.path
        );
        assert!(!plan.path.split('/').any(|piece| piece == ".."), "{}", plan.path);
        let below = &plan.path["/data/asr".len()..];
        assert!(!below.contains("//"), "{}", plan.path);
    }
}

#[test]
fn parent_steps_inside_the_tree_are_resolved() {
    let plan = plan_entry("model/conf/../ivector/final.ie", None, "dest").unwrap();
    assert_eq!(plan.path, "dest/ivector/final.ie");
    assert_eq!(plan.parent.as_deref(), Some("dest/ivector"));
    let plan = plan_entry("model/./conf//mfcc.conf", None, "dest").unwrap();
    assert_eq!(plan.path, "dest/conf/mfcc.conf");
}

#[test]
fn destination_with_or_without_trailing_slash() {
    assert_eq!(plan_entry("m/a/b", None, "/data/asr/").unwrap().path, "/data/asr/a/b");
    assert_eq!(plan_entry("m/a/b", None, "/").unwrap().path, "/a/b");
    assert_eq!(plan_entry("m/a/b", None, "").unwrap().path, "a/b");
    assert_eq!(plan_entry("m/a/b", None, "").unwrap().parent.as_deref(), Some("a"));
}

#[test]
fn names_with_a_nul_are_passed_over() {
    assert!(plan_entry("model/a\0b", None, "/data/asr").is_none());
    assert!(plan_entry("\0", Some(0o600), "/data/asr").is_none());
}

#[test]
fn names_beyond_ascii_are_kept() {
    let plan = plan_entry("modèle/données/é.txt", None, "/données").unwrap();
    assert_eq!(plan.path, "/données/données/é.txt");
    assert_eq!(plan.parent.as_deref(), Some("/données/données"));
}

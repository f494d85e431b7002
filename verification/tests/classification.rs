use result_links::classify::{
    check_name, check_target, classify, note_removal, note_walk_failure, Entry, Notice, Step,
};
use result_links::config::Config;
use result_links::report::{act_on, decide, find_nix_store_links, Action};

const STORE: &[u8] = b"/nix/store";

fn link(name: &[u8], target: &[u8]) -> Entry {
    Entry { is_symlink: true, name: name.to_vec(), target: Some(target.to_vec()) }
}

fn quiet() -> Config {
    Config::new(false, false, 0)
}

fn pass() -> Step {
    Step { proceed: true, notice: None }
}

fn drop_silently() -> Step {
    Step { proceed: false, notice: None }
}

fn drop_noting(notice: Notice) -> Step {
    Step { proceed: false, notice: Some(notice) }
}

#[test]
fn default_config_uses_the_nix_store() {
    let config = Config::new(true, false, 3);
    assert_eq!(config.store_root, b"/nix/store".to_vec());
    assert!(config.delete);
    assert!(!config.cross_filesystems);
    assert_eq!(config.verbosity, 3);
}

#[test]
fn verbose_from_level_one() {
    assert!(!Config::new(false, false, 0).verbose());
    assert!(Config::new(false, false, 1).verbose());
    assert!(Config::new(false, false, 2).verbose());
    assert!(Config::new(false, false, 255).verbose());
}

#[test]
fn walk_never_follows_links() {
    for cross in [false, true] {
        for delete in [false, true] {
            let options = Config::new(delete, cross, 0).walk_options();
            assert!(!options.follow_links);
        }
    }
}

#[test]
fn walk_stays_on_one_file_system_by_default() {
    assert!(Config::new(false, false, 0).walk_options().same_file_system);
    assert!(!Config::new(false, true, 0).walk_options().same_file_system);
}

#[test]
fn walk_failures_are_noted_only_when_verbose() {
    assert_eq!(note_walk_failure(false), None);
    assert_eq!(note_walk_failure(true), Some(Notice::WalkFailed));
}

#[test]
fn removal_failures_are_always_noted() {
    assert_eq!(note_removal(true), None);
    assert_eq!(note_removal(false), Some(Notice::RemoveFailed));
}

#[test]
fn name_step_passes_result_links() {
    assert_eq!(check_name(true, b"result", false), pass());
    assert_eq!(check_name(true, b"result", true), pass());
    assert_eq!(check_name(true, b"result-2", false), pass());
    assert_eq!(check_name(true, "result-\u{e9}".as_bytes(), true), pass());
}

#[test]
fn name_step_drops_other_names_silently() {
    assert_eq!(check_name(true, b"other", false), drop_silently());
    assert_eq!(check_name(true, b"other", true), drop_silently());
    assert_eq!(check_name(true, b"results", true), drop_silently());
    assert_eq!(check_name(true, b"", true), drop_silently());
}

#[test]
fn name_step_drops_what_is_no_link() {
    assert_eq!(check_name(false, b"result", false), drop_silently());
    assert_eq!(check_name(false, b"result", true), drop_silently());
    assert_eq!(check_name(false, b"result-2", true), drop_silently());
    assert_eq!(check_name(false, b"result-\xff", true), drop_silently());
}

#[test]
fn name_step_drops_names_that_are_not_text() {
    assert_eq!(check_name(true, b"result-\xff", false), drop_silently());
    assert_eq!(check_name(true, b"result-\xff", true), drop_noting(Notice::InvalidName));
    assert_eq!(check_name(true, b"\xc3", true), drop_noting(Notice::InvalidName));
    assert_eq!(check_name(true, b"result-\xc0\xaf", true), drop_noting(Notice::InvalidName));
    assert_eq!(check_name(true, b"result-\xed\xa0\x80", true), drop_noting(Notice::InvalidName));
    assert_eq!(check_name(true, b"other\xff", true), drop_noting(Notice::InvalidName));
}

#[test]
fn target_step_passes_top_level_store_entries() {
    assert_eq!(check_target(Some(b"/nix/store/abcd-foo"), STORE, false), pass());
    assert_eq!(check_target(Some(b"/nix/store/abcd-foo"), STORE, true), pass());
    assert_eq!(check_target(Some(b"/nix/store/abcd-foo/"), STORE, true), pass());
}

#[test]
fn target_step_drops_deeper_and_foreign_targets_silently() {
    assert_eq!(check_target(Some(b"/nix/store/abcd-foo/bin"), STORE, true), drop_silently());
    assert_eq!(check_target(Some(b"/nix/store"), STORE, true), drop_silently());
    assert_eq!(check_target(Some(b"/nix/store/"), STORE, true), drop_silently());
    assert_eq!(check_target(Some(b"/nix/storeX"), STORE, true), drop_silently());
    assert_eq!(check_target(Some(b"/usr/lib"), STORE, true), drop_silently());
    assert_eq!(check_target(Some(b"../store/x"), STORE, false), drop_silently());
    assert_eq!(check_target(Some(b""), STORE, true), drop_silently());
}

#[test]
fn target_step_drops_unreadable_targets() {
    assert_eq!(check_target(None, STORE, false), drop_silently());
    assert_eq!(check_target(None, STORE, true), drop_noting(Notice::UnreadableTarget));
}

#[test]
fn target_step_uses_the_given_store_root() {
    assert_eq!(check_target(Some(b"/gnu/store/abcd-foo"), b"/gnu/store", false), pass());
    assert_eq!(check_target(Some(b"/nix/store/abcd-foo"), b"/gnu/store", false), drop_silently());
}

#[test]
fn links_to_store_entries_qualify_under_every_setting() {
    for name in [&b"result"[..], b"result-", b"result-2", b"result-dev"] {
        for target in [&b"/nix/store/abcd-foo"[..], b"/nix/store/x", b"/nix/store/.hidden"] {
            for verbosity in [0u8, 1, 2] {
                for cross in [false, true] {
                    for delete in [false, true] {
                        let config = Config::new(delete, cross, verbosity);
                        assert_eq!(classify(&link(name, target), &config), pass());
                    }
                }
            }
        }
    }
}

#[test]
fn links_below_a_store_entry_do_not_qualify() {
    assert_eq!(classify(&link(b"result", b"/nix/store/abcd-foo/bin"), &quiet()), drop_silently());
    assert_eq!(classify(&link(b"result", b"/nix/store/a/b/c"), &quiet()), drop_silently());
    assert_eq!(classify(&link(b"result-2", b"/nix/store/a/.."), &quiet()), drop_silently());
}

#[test]
fn links_outside_the_store_do_not_qualify() {
    assert_eq!(classify(&link(b"result", b"/home/user/out"), &quiet()), drop_silently());
    assert_eq!(classify(&link(b"result", b"/nix/var/x"), &quiet()), drop_silently());
    assert_eq!(classify(&link(b"result", b"/nix/store"), &quiet()), drop_silently());
    assert_eq!(classify(&link(b"result", b"/nix/store-x"), &quiet()), drop_silently());
    assert_eq!(classify(&link(b"result", b"store/x"), &quiet()), drop_silently());
}

#[test]
fn files_and_directories_do_not_qualify() {
    let verbose = Config::new(false, false, 1);
    for name in [&b"result"[..], b"result-2", b"other"] {
        let unread = Entry { is_symlink: false, name: name.to_vec(), target: None };
        assert_eq!(classify(&unread, &quiet()), drop_silently());
        assert_eq!(classify(&unread, &verbose), drop_silently());
        let read = Entry {
            is_symlink: false,
            name: name.to_vec(),
            target: Some(b"/nix/store/abcd-foo".to_vec()),
        };
        assert_eq!(classify(&read, &quiet()), drop_silently());
        assert_eq!(classify(&read, &verbose), drop_silently());
    }
}

#[test]
fn link_with_unreadable_target_does_not_qualify() {
    let entry = Entry { is_symlink: true, name: b"result".to_vec(), target: None };
    assert_eq!(classify(&entry, &quiet()), drop_silently());
    assert_eq!(
        classify(&entry, &Config::new(false, false, 1)),
        drop_noting(Notice::UnreadableTarget)
    );
}

#[test]
fn dangling_link_is_judged_by_its_target_text() {
    let gone = link(b"result", b"/nix/store/removed-long-ago");
    assert_eq!(classify(&gone, &quiet()), pass());
    let elsewhere = link(b"result", b"/tmp/removed-long-ago");
    assert_eq!(classify(&elsewhere, &quiet()), drop_silently());
}

#[test]
fn name_is_judged_before_the_target() {
    let verbose = Config::new(false, false, 1);
    let other = Entry { is_symlink: true, name: b"other".to_vec(), target: None };
    assert_eq!(classify(&other, &verbose), drop_silently());
    let garbled = Entry { is_symlink: true, name: b"result-\xfe".to_vec(), target: None };
    assert_eq!(classify(&garbled, &verbose), drop_noting(Notice::InvalidName));
    assert_eq!(classify(&garbled, &quiet()), drop_silently());
}

#[test]
fn actions_follow_the_classification() {
    let reporting = Config::new(false, false, 0);
    let removing = Config::new(true, false, 0);
    assert_eq!(act_on(true, &reporting), Action { report: true, remove: false });
    assert_eq!(act_on(true, &removing), Action { report: true, remove: true });
    assert_eq!(act_on(false, &reporting), Action { report: false, remove: false });
    assert_eq!(act_on(false, &removing), Action { report: false, remove: false });
}

fn work_tree() -> Vec<Entry> {
    vec![
        Entry { is_symlink: false, name: b"work".to_vec(), target: None },
        link(b"result", b"/nix/store/abcd-foo"),
        link(b"result-2", b"/nix/store/abcd-foo"),
        Entry { is_symlink: false, name: b"sub".to_vec(), target: None },
        link(b"result", b"/nix/store/abcd-foo/bin"),
        link(b"other", b"/nix/store/abcd-foo"),
    ]
}

#[test]
fn work_tree_reports_exactly_the_two_result_links() {
    let entries = work_tree();
    assert_eq!(find_nix_store_links(&entries, &Config::new(false, false, 0)), vec![1, 2]);
}

#[test]
fn work_tree_removes_exactly_what_it_reports() {
    let entries = work_tree();
    let reporting = Config::new(false, false, 0);
    let removing = Config::new(true, false, 0);
    let mut removed = Vec::new();
    for (i, entry) in entries.iter().enumerate() {
        let dry = decide(entry, &reporting);
        let wet = decide(entry, &removing);
        assert_eq!(dry.report, wet.report);
        assert!(!dry.remove);
        assert_eq!(wet.remove, wet.report);
        if wet.remove {
            removed.push(i);
        }
    }
    assert_eq!(removed, vec![1, 2]);
    assert_eq!(find_nix_store_links(&entries, &removing), vec![1, 2]);
}

#[test]
fn reporting_twice_gives_the_same_links() {
    let entries = work_tree();
    let config = Config::new(false, false, 0);
    let first = find_nix_store_links(&entries, &config);
    let second = find_nix_store_links(&entries, &config);
    assert_eq!(first, second);
    let verbose = Config::new(false, true, 2);
    assert_eq!(find_nix_store_links(&entries, &verbose), first);
}

#[test]
fn removing_one_link_leaves_the_others_as_they_were() {
    let mut entries = work_tree();
    let config = Config::new(true, false, 0);
    entries.remove(1);
    assert_eq!(find_nix_store_links(&entries, &config), vec![1]);
    assert_eq!(classify(&entries[1], &config), pass());
    assert_eq!(classify(&entries[3], &config), drop_silently());
    assert_eq!(classify(&entries[4], &config), drop_silently());
}

#[test]
fn no_entries_no_links() {
    assert_eq!(find_nix_store_links(&Vec::new(), &quiet()), Vec::<usize>::new());
}

#[test]
fn links_are_found_in_walk_order() {
    let entries = vec![
        link(b"result-b", b"/nix/store/b"),
        link(b"nope", b"/nix/store/b"),
        link(b"result-a", b"/nix/store/a"),
        link(b"result", b"/nix/store/a"),
    ];
    assert_eq!(find_nix_store_links(&entries, &quiet()), vec![0, 2, 3]);
}

#[test]
fn relative_targets_do_not_qualify() {
    assert_eq!(classify(&link(b"result", b"nix/store/x"), &quiet()), drop_silently());
    assert_eq!(classify(&link(b"result", b"./nix/store/x"), &quiet()), drop_silently());
    assert_eq!(classify(&link(b"result", b"x"), &quiet()), drop_silently());
    assert_eq!(classify(&link(b"result", b""), &quiet()), drop_silently());
}

#[test]
fn targets_are_read_by_component() {
    assert_eq!(classify(&link(b"result", b"/nix//store/x"), &quiet()), pass());
    assert_eq!(classify(&link(b"result", b"/nix/store/x/"), &quiet()), pass());
    assert_eq!(classify(&link(b"result", b"/nix/store/."), &quiet()), drop_silently());
}

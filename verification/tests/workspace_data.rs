use ki::lsp::workspace_data::{
    sanitize_component, workspace_directory_of, LockOutcome, SlotSearch, SlotStep,
    WorkspaceDataLease,
};

/// Tries slots as long as those in `held` are locked by someone else.
fn acquire(server_id: &str, root: &str, held: &[&str]) -> String {
    let mut search: SlotSearch =
        WorkspaceDataLease::acquire("/cache", server_id, root.as_bytes());
    loop {
        let outcome = if held.contains(&search.slot_dir().as_str()) {
            LockOutcome::WouldBlock
        } else {
            LockOutcome::Locked
        };
        match search.try_acquire_slot(outcome) {
            SlotStep::Acquired(lease) => return lease.data_dir().to_string(),
            SlotStep::TryNext => {}
            _ => panic!("expected a slot"),
        }
    }
}

#[test]
fn reuses_first_slot_after_release() {
    assert_eq!(
        acquire("jdtls", "/root", &[]),
        acquire("jdtls", "/root", &[])
    );
}

#[test]
fn concurrent_leases_use_different_slots() {
    let first = acquire("jdtls", "/root", &[]);
    let slot = first.strip_suffix("/data").unwrap();
    assert!(slot.ends_with("/0"));
    let second = acquire("jdtls", "/root", &[slot]);

    assert_ne!(first, second);
    assert_eq!(first.rsplit('/').next(), Some("data"));
    assert_eq!(second.rsplit('/').next(), Some("data"));
    assert!(second.ends_with("/1/data"));
}

#[test]
fn leases_are_kept_apart_and_released_slots_are_given_again() {
    let mut held: Vec<String> = Vec::new();
    for number in 0..4 {
        let slots: Vec<&str> = held.iter().map(String::as_str).collect();
        let data_dir = acquire("jdtls", "/root", &slots);
        assert!(data_dir.ends_with(&format!("/{number}/data")));
        held.push(data_dir.strip_suffix("/data").unwrap().to_string());
    }
    let released = held.remove(1);
    held.remove(1);
    let slots: Vec<&str> = held.iter().map(String::as_str).collect();
    assert_eq!(
        acquire("jdtls", "/root", &slots),
        format!("{released}/data")
    );
}

#[test]
fn data_is_kept_apart() {
    let mut directories = Vec::new();
    for server_id in ["jdtls", "a/b", "a_b"] {
        for root in ["/first", "/second"] {
            let first = acquire(server_id, root, &[]);
            let slot = first.strip_suffix("/data").unwrap().to_string();
            directories.push(first);
            directories.push(acquire(server_id, root, &[&slot]));
        }
    }
    let count = directories.len();
    directories.sort();
    directories.dedup();
    assert_eq!(directories.len(), count);
}

#[test]
fn any_cache_directory_holds_the_data() {
    for (cache_dir, expected) in [
        ("", "lsp/a-"),
        ("cache", "cache/lsp/a-"),
        ("/", "/lsp/a-"),
        ("/cache/", "/cache/lsp/a-"),
    ] {
        let search = WorkspaceDataLease::acquire(cache_dir, "a", b"/root");
        assert!(search.workspace_dir().starts_with(expected));
    }
}

#[test]
fn different_roots_use_different_workspace_buckets() {
    assert_ne!(
        acquire("jdtls", "/first", &[]),
        acquire("jdtls", "/second", &[])
    );
}

#[test]
fn server_id_cannot_escape_cache_directory() {
    let data_dir = acquire("../../jdtls", "/root", &[]);
    assert!(data_dir.starts_with("/cache/lsp/.._.._jdtls-"));
    assert_eq!(data_dir.split('/').count(), 7);
    assert!(data_dir.split('/').all(|name| name != ".."));
}

#[test]
fn directories_are_named_by_hashes() {
    let search = WorkspaceDataLease::acquire("/cache", "", b"");
    let hash = "af1349b9f5f9a1a6a0404dea36dcc9499bcb25c9adc112b7cc9a93cae41f3262";
    assert_eq!(
        search.workspace_dir(),
        format!("/cache/lsp/server-af1349b9/{hash}")
    );
    assert_eq!(
        search.lock_path(),
        format!("/cache/lsp/server-af1349b9/{hash}/0/.lock")
    );
    assert_eq!(
        workspace_directory_of("/c", "a", "0123456789", "r"),
        "/c/lsp/a-01234567/r"
    );
    assert_eq!(
        blake3::hash(b"").to_hex().as_str(),
        hash
    );
}

#[test]
fn names_are_sanitized() {
    assert_eq!(sanitize_component("rust-analyzer_1.0"), "rust-analyzer_1.0");
    assert_eq!(sanitize_component("a/b\\c d"), "a_b_c_d");
    assert_eq!(sanitize_component("ä"), "_");
    assert_eq!(sanitize_component(""), "server");
    assert_eq!(sanitize_component("."), "server");
    assert_eq!(sanitize_component(".."), "server");
    assert_eq!(sanitize_component("..."), "...");
    assert_eq!(sanitize_component(&"x".repeat(100)), "x".repeat(48));
}

#[test]
fn sanitized_names_stay() {
    for name in ["a", "...", "server", ".._.._jdtls", "A-1_b.c"] {
        assert_eq!(sanitize_component(name), name);
    }
    for name in ["", "..", "a b", &"ü".repeat(60)] {
        let once = sanitize_component(name);
        assert_eq!(sanitize_component(&once), once);
    }
}

#[test]
fn faults_end_the_search() {
    let mut search = WorkspaceDataLease::acquire("/cache", "a", b"/root");
    let path = search.lock_path();
    match search.try_acquire_slot(LockOutcome::Failed) {
        SlotStep::Failed(message) => {
            assert_eq!(message, format!("Failed to lock LSP data slot {path}"))
        }
        _ => panic!("expected the search to fail"),
    }
}

use dexor::{
    collect_jobs, prefixed, run_job, xor_in_place, Component, DirEntry, Input, Job, Node,
    PrefixKind, DEFAULT_XOR_KEY, FILENAME_PREFIX, OUTPUT_DIR_NAME,
};

fn comp(part: &str) -> Component {
    match part {
        "." => Component::CurDir,
        ".." => Component::ParentDir,
        name => Component::Normal(name.as_bytes().to_vec()),
    }
}

/// "/a/b" -> [root, a, b]; "a/b" -> [a, b]; "." and ".." as their own kinds.
fn path(s: &str) -> Vec<Component> {
    let mut out: Vec<Component> = Vec::new();
    if s.starts_with('/') {
        out.push(Component::RootDir);
    }
    for part in s.split('/') {
        if !part.is_empty() {
            out.push(comp(part));
        }
    }
    out
}

/// A Windows path on a drive: `prefix` (such as "C:"), the root, then `rest`.
fn win(prefix: &str, rooted: bool, rest: &[&str]) -> Vec<Component> {
    let drive = prefix.as_bytes()[0].to_ascii_uppercase();
    let mut out = vec![Component::Prefix(prefix.as_bytes().to_vec(), PrefixKind::Disk(drive))];
    if rooted {
        out.push(Component::RootDir);
    }
    out.extend(rest.iter().map(|p| comp(p)));
    out
}

fn file(name: &str) -> DirEntry {
    DirEntry { name: name.as_bytes().to_vec(), node: Node::File }
}

fn dir(name: &str, entries: Vec<DirEntry>) -> DirEntry {
    DirEntry { name: name.as_bytes().to_vec(), node: Node::Dir(entries) }
}

fn other(name: &str) -> DirEntry {
    DirEntry { name: name.as_bytes().to_vec(), node: Node::Other }
}

#[test]
fn collect_puts_prefixed_files_in_sibling_folder() {
    let tmp = "/tmp/dexor-test-collect-1";
    let inputs = vec![
        Input { path: path(&format!("{tmp}/loose.bin")), node: Node::File },
        Input {
            path: path(&format!("{tmp}/q")),
            node: Node::Dir(vec![dir("sub", vec![file("b.dll")]), file("a.exe")]),
        },
    ];
    let mut jobs = collect_jobs(&inputs);
    jobs.sort_by(|a, b| a.dest.cmp(&b.dest));

    // output lands in a sibling `dexor-decoded/` folder, leaf names prefixed,
    // sub-folder names untouched.
    let dests: Vec<_> = jobs.iter().map(|j| j.dest.clone()).collect();
    assert_eq!(
        dests,
        vec![
            path(&format!("{tmp}/dexor-decoded/dexor_loose.bin")),
            path(&format!("{tmp}/dexor-decoded/q/dexor_a.exe")),
            path(&format!("{tmp}/dexor-decoded/q/sub/dexor_b.dll")),
        ]
    );
}

#[test]
fn sources_are_the_files_found_in_listing_order() {
    let inputs = vec![Input {
        path: path("/data/q"),
        node: Node::Dir(vec![file("z.bin"), dir("sub", vec![file("b.dll")]), file("a.exe")]),
    }];
    let jobs = collect_jobs(&inputs);
    assert_eq!(
        jobs,
        vec![
            Job { source: path("/data/q/z.bin"), dest: path("/data/dexor-decoded/q/dexor_z.bin") },
            Job {
                source: path("/data/q/sub/b.dll"),
                dest: path("/data/dexor-decoded/q/sub/dexor_b.dll"),
            },
            Job { source: path("/data/q/a.exe"), dest: path("/data/dexor-decoded/q/dexor_a.exe") },
        ]
    );
}

#[test]
fn symlinks_and_special_entries_are_skipped() {
    let inputs = vec![
        Input {
            path: path("/data/q"),
            node: Node::Dir(vec![other("link"), file("a"), other("fifo"), dir("empty", vec![])]),
        },
        Input { path: path("/data/socket"), node: Node::Other },
    ];
    let jobs = collect_jobs(&inputs);
    assert_eq!(
        jobs,
        vec![Job { source: path("/data/q/a"), dest: path("/data/dexor-decoded/q/dexor_a") }]
    );
}

#[test]
fn nothing_dropped_gives_no_jobs() {
    assert!(collect_jobs(&[]).is_empty());
}

#[test]
fn relative_file_without_folder_writes_into_dexor_decoded() {
    let inputs = vec![Input { path: path("foo.bin"), node: Node::File }];
    let jobs = collect_jobs(&inputs);
    assert_eq!(
        jobs,
        vec![Job { source: path("foo.bin"), dest: path("dexor-decoded/dexor_foo.bin") }]
    );
}

#[test]
fn root_folder_goes_to_current_dir_with_fallback_name() {
    let inputs = vec![Input { path: path("/"), node: Node::Dir(vec![file("x")]) }];
    let jobs = collect_jobs(&inputs);
    assert_eq!(
        jobs,
        vec![Job { source: path("/x"), dest: path("./dexor-decoded/decoded/dexor_x") }]
    );
}

#[test]
fn folder_ending_in_dotdot_uses_fallback_name() {
    let inputs = vec![Input { path: path("a/.."), node: Node::Dir(vec![file("x")]) }];
    let jobs = collect_jobs(&inputs);
    assert_eq!(
        jobs,
        vec![Job { source: path("a/../x"), dest: path("a/dexor-decoded/decoded/dexor_x") }]
    );
}

#[test]
fn file_without_a_name_uses_fallback_name() {
    let inputs = vec![Input { path: vec![comp("a"), Component::CurDir], node: Node::File }];
    let jobs = collect_jobs(&inputs);
    assert_eq!(jobs[0].dest, path("a/dexor-decoded/dexor_decoded.bin"));
}

#[test]
fn deep_tree_is_reproduced() {
    let inputs = vec![Input {
        path: path("/in"),
        node: Node::Dir(vec![dir("a", vec![dir("b", vec![dir("c", vec![file("leaf")])])])]),
    }];
    let jobs = collect_jobs(&inputs);
    assert_eq!(jobs.len(), 1);
    assert_eq!(jobs[0].source, path("/in/a/b/c/leaf"));
    assert_eq!(jobs[0].dest, path("/dexor-decoded/in/a/b/c/dexor_leaf"));
}

#[test]
fn one_job_per_file_at_any_depth() {
    let inputs = vec![Input {
        path: path("/x/q"),
        node: Node::Dir(vec![
            file("1"),
            dir("d", vec![file("2"), other("s"), dir("e", vec![file("3"), file("4")])]),
            other("t"),
        ]),
    }];
    let jobs = collect_jobs(&inputs);
    assert_eq!(jobs.len(), 4);
    for j in &jobs {
        // every output lies inside the sibling output folder
        assert_eq!(j.dest[..3].to_vec(), path("/x/dexor-decoded"));
        match j.dest.last().unwrap() {
            Component::Normal(n) => assert!(n.starts_with(b"dexor_")),
            other => panic!("unexpected last component {other:?}"),
        }
    }
}

#[test]
fn prefix_is_dexor_underscore() {
    assert_eq!(prefixed(b"foo.bin"), b"dexor_foo.bin".to_vec());
    assert_eq!(prefixed(b""), b"dexor_".to_vec());
    assert_eq!(FILENAME_PREFIX, "dexor_");
    assert_eq!(OUTPUT_DIR_NAME, "dexor-decoded");
}

#[test]
fn decoding_a_scrambled_file_gives_the_original_back() {
    let original = b"\x7fELF\x02\x01\x01 some program bytes".to_vec();
    let mut scrambled = original.clone();
    xor_in_place(&mut scrambled, DEFAULT_XOR_KEY);
    assert_ne!(scrambled, original, "scrambled file must differ from original");

    let inputs = vec![Input {
        path: path("/tmp/run/scrambled"),
        node: Node::Dir(vec![file("sample.bin")]),
    }];
    let jobs = collect_jobs(&inputs);
    assert_eq!(jobs.len(), 1);
    assert_eq!(jobs[0].dest, path("/tmp/run/dexor-decoded/scrambled/dexor_sample.bin"));

    let plan = run_job(&jobs[0], scrambled, DEFAULT_XOR_KEY);
    assert_eq!(plan.data, original, "decoded bytes must match the original exactly");
    assert_eq!(plan.dest, jobs[0].dest);
    assert_eq!(plan.dir, Some(path("/tmp/run/dexor-decoded/scrambled")));
}

#[test]
fn run_job_xors_and_names_the_parent_folder() {
    let job = Job { source: path("/a/b"), dest: path("/a/dexor-decoded/dexor_b") };
    let plan = run_job(&job, vec![1, 2, 3], 0x01);
    assert_eq!(plan.data, vec![0, 3, 2]);
    assert_eq!(plan.dir, Some(path("/a/dexor-decoded")));
    assert_eq!(plan.dest, path("/a/dexor-decoded/dexor_b"));

    let root_job = Job { source: path("/a"), dest: path("/") };
    assert_eq!(run_job(&root_job, vec![], 9).dir, None);
}

#[test]
fn windows_drive_root_has_no_parent_and_no_name() {
    let inputs = vec![Input { path: win("C:", true, &[]), node: Node::Dir(vec![file("x.bin")]) }];
    let jobs = collect_jobs(&inputs);
    assert_eq!(
        jobs,
        vec![Job {
            source: win("C:", true, &["x.bin"]),
            dest: path("./dexor-decoded/decoded/dexor_x.bin"),
        }]
    );
}

#[test]
fn windows_bare_prefix_has_no_parent() {
    let inputs = vec![Input { path: win("D:", false, &[]), node: Node::Dir(vec![file("y")]) }];
    let jobs = collect_jobs(&inputs);
    assert_eq!(jobs[0].source, win("D:", false, &["y"]));
    assert_eq!(jobs[0].dest, path("./dexor-decoded/decoded/dexor_y"));
}

#[test]
fn windows_file_goes_next_to_it() {
    let inputs = vec![Input { path: win("C:", true, &["q", "a.exe"]), node: Node::File }];
    let jobs = collect_jobs(&inputs);
    assert_eq!(
        jobs,
        vec![Job {
            source: win("C:", true, &["q", "a.exe"]),
            dest: win("C:", true, &["q", "dexor-decoded", "dexor_a.exe"]),
        }]
    );
    let plan = run_job(&jobs[0], vec![0x77], DEFAULT_XOR_KEY);
    assert_eq!(plan.dir, Some(win("C:", true, &["q", "dexor-decoded"])));
    assert_eq!(plan.data, vec![0]);
}

#[test]
fn no_job_writes_over_its_source() {
    let inputs = vec![
        Input { path: path("/a/dexor_x"), node: Node::File },
        Input { path: path("."), node: Node::File },
        Input { path: vec![], node: Node::File },
        Input { path: path("/d"), node: Node::Dir(vec![file("dexor_y"), dir("e", vec![file("")])]) },
    ];
    let jobs = collect_jobs(&inputs);
    assert_eq!(jobs.len(), 5);
    for j in &jobs {
        assert_ne!(j.dest, j.source);
    }
}

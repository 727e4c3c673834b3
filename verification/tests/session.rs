use dexor::{
    key_digits, log_kind, parse_key, preset_label, presets, Component, DecodeAction, DecodeEvent,
    LogKind, Pending, PrefixKind, Session, DEFAULT_XOR_KEY,
};

fn p(parts: &[&str]) -> Vec<Component> {
    parts
        .iter()
        .map(|s| match *s {
            "/" => Component::RootDir,
            name => Component::Normal(name.as_bytes().to_vec()),
        })
        .collect()
}

#[test]
fn pending_keeps_each_path_once() {
    let mut q = Pending::new();
    assert!(q.is_empty());
    assert!(q.add(p(&["/", "tmp", "a"])));
    assert!(q.add(p(&["/", "tmp", "b"])));
    assert!(!q.add(p(&["/", "tmp", "a"])));
    assert_eq!(q.len(), 2);
    assert_eq!(q.get(0), &p(&["/", "tmp", "a"]));
    assert_eq!(q.get(1), &p(&["/", "tmp", "b"]));
    assert!(q.contains(&p(&["/", "tmp", "b"])));
    assert!(!q.contains(&p(&["tmp", "b"])));
    q.clear();
    assert!(q.is_empty());
    assert!(q.add(p(&["/", "tmp", "a"])));
}

#[test]
fn presets_match_the_documented_table() {
    let v = presets();
    let got: Vec<(&str, u8)> = v.iter().map(|x| (x.name, x.key)).collect();
    assert_eq!(
        got,
        vec![
            ("Cisco AMP / Secure Endpoint", 0x77),
            ("Microsoft MSE / Antimalware", 0xFF),
            ("SentinelOne", 0xFF),
            ("Microsoft Defender (macOS)", 0x25),
            ("VIPRE", 0x33),
        ]
    );
}

#[test]
fn preset_label_is_first_match_or_custom() {
    assert_eq!(preset_label(0x77), "Cisco AMP / Secure Endpoint");
    assert_eq!(preset_label(0xFF), "Microsoft MSE / Antimalware");
    assert_eq!(preset_label(0x25), "Microsoft Defender (macOS)");
    assert_eq!(preset_label(0x33), "VIPRE");
    assert_eq!(preset_label(0x00), "Custom");
    assert_eq!(preset_label(0x78), "Custom");
    for k in 0..=255u8 {
        let l = preset_label(k);
        assert!(l == "Custom" || presets().iter().any(|x| x.name == l && x.key == k));
    }
}

#[test]
fn key_parses_like_from_str_radix_16() {
    for s in [
        "77", " ff ", "+1A", "-1", "", "+", "100", "0000ff", "g1", "Ff", "\u{3000}7f\t", "1 2",
        "+-1", "0", "\u{a0}", "é1",
    ] {
        assert_eq!(parse_key(s), u8::from_str_radix(s.trim(), 16).ok(), "{s:?}");
    }
    assert_eq!(parse_key("77"), Some(0x77));
    assert_eq!(parse_key(" ff "), Some(0xFF));
    assert_eq!(parse_key("100"), None);
}

#[test]
fn key_box_round_trips() {
    for k in 0..=255u8 {
        let (a, b) = key_digits(k);
        let text: String = [a, b].iter().collect();
        assert_eq!(text, format!("{:02X}", k));
        assert_eq!(parse_key(&text), Some(k));
    }
}

#[test]
fn log_lines_are_classified_by_first_char() {
    assert_eq!(log_kind("\u{2713} /tmp/x"), LogKind::Success);
    assert_eq!(log_kind("\u{2717} /tmp/x \u{2014} denied"), LogKind::Failure);
    assert_eq!(log_kind("\u{26a0} Nothing queued yet."), LogKind::Warning);
    assert_eq!(log_kind("\u{2192} Decoding 1 file(s) with key 0x77\u{2026}"), LogKind::Progress);
    assert_eq!(log_kind("Done: 1 decoded, 0 failed."), LogKind::Plain);
    assert_eq!(log_kind(""), LogKind::Plain);
    assert_eq!(log_kind(" \u{2713}"), LogKind::Plain);
}

#[test]
fn session_starts_fresh_and_counts() {
    let mut s = Session::new();
    assert_eq!(s.key, DEFAULT_XOR_KEY);
    assert!(s.pending.is_empty());
    assert_eq!((s.ok_count, s.err_count), (0, 0));

    assert!(s.set_key_text("25"));
    assert_eq!(s.key, 0x25);
    assert!(!s.set_key_text("zz"));
    assert_eq!(s.key, 0x25);

    s.pending.add(p(&["a"]));
    s.on_decode_event(DecodeEvent::Written("x".to_string()));
    s.on_decode_event(DecodeEvent::Written("y".to_string()));
    s.on_decode_event(DecodeEvent::Failed("z".to_string(), "e".to_string()));
    assert_eq!((s.ok_count, s.err_count), (2, 1));
    s.on_decode_event(DecodeEvent::Finished);
    assert!(s.pending.is_empty());
    assert_eq!((s.ok_count, s.err_count), (2, 1));
    s.clear_log();
    assert_eq!((s.ok_count, s.err_count), (0, 0));
    assert_eq!(s.key, 0x25);
}

#[test]
fn decode_with_nothing_queued_only_warns() {
    let mut s = Session::new();
    let (line, next) = s.on_decode_event(DecodeEvent::Requested);
    assert_eq!(line.as_deref(), Some("\u{26a0} Nothing queued yet."));
    assert_eq!(next, DecodeAction::Stop);
    assert_eq!(log_kind(line.as_deref().unwrap()), LogKind::Warning);
    assert_eq!((s.ok_count, s.err_count), (0, 0));
}

#[test]
fn failed_scan_keeps_the_queue() {
    let mut s = Session::new();
    s.pending.add(p(&["/", "gone"]));
    assert_eq!(s.on_decode_event(DecodeEvent::Requested), (None, DecodeAction::Scan));
    let (line, next) =
        s.on_decode_event(DecodeEvent::ScanFailed("No such file or directory".to_string()));
    assert_eq!(
        line.as_deref(),
        Some("\u{2717} Could not read inputs: No such file or directory")
    );
    assert_eq!(next, DecodeAction::Stop);
    assert_eq!(s.pending.len(), 1);
    assert_eq!((s.ok_count, s.err_count), (0, 0));
}

#[test]
fn a_decode_run_logs_every_file_and_the_totals() {
    let mut s = Session::new();
    s.pending.add(p(&["/", "q"]));
    assert_eq!(s.on_decode_event(DecodeEvent::Requested), (None, DecodeAction::Scan));

    let (line, next) = s.on_decode_event(DecodeEvent::Planned(12));
    assert_eq!(line.as_deref(), Some("\u{2192} Decoding 12 file(s) with key 0x77\u{2026}"));
    assert_eq!(next, DecodeAction::RunJobs);

    let (line, next) = s.on_decode_event(DecodeEvent::Written("/dexor-decoded/q/dexor_a".into()));
    assert_eq!(line.as_deref(), Some("\u{2713} /dexor-decoded/q/dexor_a"));
    assert_eq!(next, DecodeAction::RunJobs);

    let (line, _) = s.on_decode_event(DecodeEvent::Failed(
        "/q/b".into(),
        "Permission denied (os error 13)".into(),
    ));
    assert_eq!(line.as_deref(), Some("\u{2717} /q/b \u{2014} Permission denied (os error 13)"));
    assert_eq!(log_kind(line.as_deref().unwrap()), LogKind::Failure);

    let (line, next) = s.on_decode_event(DecodeEvent::Finished);
    assert_eq!(line.as_deref(), Some("Done: 1 decoded, 1 failed."));
    assert_eq!(next, DecodeAction::Stop);
    assert!(s.pending.is_empty());

    // the queue is empty now: a second press only warns
    let (line, next) = s.on_decode_event(DecodeEvent::Requested);
    assert_eq!(line.as_deref(), Some("\u{26a0} Nothing queued yet."));
    assert_eq!(next, DecodeAction::Stop);
}

#[test]
fn totals_and_counts_are_written_in_decimal() {
    let mut s = Session::new();
    s.key = 0x0A;
    let (line, _) = s.on_decode_event(DecodeEvent::Planned(0));
    assert_eq!(line.as_deref(), Some("\u{2192} Decoding 0 file(s) with key 0x0A\u{2026}"));
    let (line, _) = s.on_decode_event(DecodeEvent::Planned(usize::MAX));
    assert_eq!(line, Some(format!("\u{2192} Decoding {} file(s) with key 0x0A\u{2026}", usize::MAX)));
    for _ in 0..1007 {
        s.on_decode_event(DecodeEvent::Written(String::new()));
    }
    for _ in 0..10 {
        s.on_decode_event(DecodeEvent::Failed(String::new(), String::new()));
    }
    let (line, _) = s.on_decode_event(DecodeEvent::Finished);
    assert_eq!(line.as_deref(), Some("Done: 1007 decoded, 10 failed."));
    for n in [0usize, 9, 10, 99, 100, 12345, 4294967296] {
        let mut t = Session::new();
        let (line, _) = t.on_decode_event(DecodeEvent::Planned(n));
        assert_eq!(line, Some(format!("\u{2192} Decoding {n} file(s) with key 0x77\u{2026}")));
    }
}

fn drive(raw: &str, kind: PrefixKind, rest: &[&str]) -> Vec<Component> {
    let mut out = vec![Component::Prefix(raw.as_bytes().to_vec(), kind), Component::RootDir];
    out.extend(rest.iter().map(|s| Component::Normal(s.as_bytes().to_vec())));
    out
}

#[test]
fn drive_letters_compare_without_case() {
    let mut q = Pending::new();
    assert!(q.add(drive("C:", PrefixKind::Disk(b'C'), &["x"])));
    // `c:\x` is the same path as `C:\x`
    assert!(!q.add(drive("c:", PrefixKind::Disk(b'c'), &["x"])));
    assert!(q.contains(&drive("c:", PrefixKind::Disk(b'C'), &["x"])));
    // names keep their case
    assert!(q.add(drive("C:", PrefixKind::Disk(b'C'), &["X"])));
    // a verbatim disk prefix is another prefix
    assert!(q.add(drive("\\\\?\\C:", PrefixKind::VerbatimDisk(b'C'), &["x"])));
    assert!(!q.add(drive("\\\\?\\c:", PrefixKind::VerbatimDisk(b'c'), &["x"])));
    // UNC shares compare server and share as written
    let unc = |s: &str| PrefixKind::UNC(s.as_bytes().to_vec(), b"share".to_vec());
    assert!(q.add(drive("\\\\srv\\share", unc("srv"), &["x"])));
    assert!(!q.add(drive("//srv/share", unc("srv"), &["x"])));
    assert!(q.add(drive("\\\\SRV\\share", unc("SRV"), &["x"])));
    assert_eq!(q.len(), 5);
}

use alice::process::{pipe_names, AppState, ProcessInfo};

fn record(name: &str, ts: u64, child: u8) -> ProcessInfo<u8> {
    let (i, o, e) = pipe_names(name, ts).unwrap();
    ProcessInfo {
        exec_name: name.to_string(),
        timestamp: ts,
        pid: 42,
        in_pipe: i,
        out_pipe: o,
        err_pipe: e,
        child,
    }
}

#[test]
fn pipe_names_use_the_file_name_and_time() {
    let (i, o, e) = pipe_names("/usr/local/bin/svc.py", 1700000000).unwrap();
    assert_eq!(i, "svc.py1700000000.i");
    assert_eq!(o, "svc.py1700000000.o");
    assert_eq!(e, "svc.py1700000000.e");
    let (i, _, _) = pipe_names("dep", 0).unwrap();
    assert_eq!(i, "dep0.i");
    let (i, _, _) = pipe_names("dir/app/", u64::MAX).unwrap();
    assert_eq!(i, "app18446744073709551615.i");
}

#[test]
fn pipe_names_need_a_file_name() {
    assert!(pipe_names("", 5).is_none());
    assert!(pipe_names("/", 5).is_none());
    assert!(pipe_names("a/..", 5).is_none());
}

#[test]
fn describes_a_record() {
    let p = record("./svc", 12, 0);
    assert_eq!(
        p.describe(),
        "ProcessInfo: exec_name=./svc, timestamp=12, pid=42, in_pipe=svc12.i, out_pipe=svc12.o, err_pipe=svc12.e"
    );
}

#[test]
fn receive_pipe_choice() {
    let p = record("svc", 3, 0);
    assert_eq!(p.receive_pipe(false), "svc3.o");
    assert_eq!(p.receive_pipe(true), "svc3.e");
}

#[test]
fn renew_keeps_the_executable() {
    let mut p = record("svc", 3, 1);
    let mut fresh = record("svc", 9, 2);
    fresh.exec_name = "other".to_string();
    fresh.pid = 7;
    p.renew(fresh);
    assert_eq!(p.exec_name, "svc");
    assert_eq!(p.timestamp, 9);
    assert_eq!(p.pid, 7);
    assert_eq!(p.in_pipe, "svc9.i");
    assert_eq!(p.child, 2);
}

#[test]
fn table_records_and_forgets() {
    let mut t: AppState<u8> = AppState::new();
    assert_eq!(t.len(), 0);
    assert!(t.insert("a", record("a", 1, 1)).is_none());
    assert!(t.insert("b", record("b", 2, 2)).is_none());
    assert!(t.contains("a"));
    assert_eq!(t.get("b").unwrap().child, 2);
    assert_eq!(t.len(), 2);
    let prev = t.insert("a", record("a", 5, 5)).unwrap();
    assert_eq!(prev.timestamp, 1);
    assert_eq!(t.get("a").unwrap().timestamp, 5);
    assert_eq!(t.len(), 2);
    let mut names = t.names();
    names.sort();
    assert_eq!(names, vec!["a".to_string(), "b".to_string()]);
    assert_eq!(t.remove("a").unwrap().child, 5);
    assert!(t.get("a").is_none());
    assert!(t.remove("a").is_none());
    assert!(t.contains("b"));
    assert_eq!(t.len(), 1);
}

#[test]
fn restart_keeps_the_names() {
    let mut t: AppState<u8> = AppState::new();
    t.insert("a", record("a", 1, 1));
    t.insert("b", record("b", 1, 1));
    let mut old = t.remove("a").unwrap();
    old.renew(record("a", 2, 9));
    t.insert("a", old);
    let mut names = t.names();
    names.sort();
    assert_eq!(names, vec!["a".to_string(), "b".to_string()]);
    assert_eq!(t.get("a").unwrap().timestamp, 2);
}

/// The rule the library states for `Path::file_name`: the last part
/// between slashes other than an empty part or `.`, none if it is `..`.
fn stated_file_name(path: &str) -> Option<String> {
    let last = path.split('/').filter(|p| !p.is_empty() && *p != ".").last()?;
    if last == ".." {
        None
    } else {
        Some(last.to_string())
    }
}

#[test]
fn file_name_rule_matches_std() {
    let paths = [
        "", "/", "//", ".", "..", "./", "./.", "a", "/a", "a/", "a//", "a/.", "a/./", "a/..",
        "a/../b", "./a", "../a", ".a", "...", "a/...", "/usr/bin/env", "dir/app/", "x/./.",
        "x/.//", "α/β", "a b/c d", "/./", "/..", "a/.//..//",
    ];
    for p in paths {
        let std_name = std::path::Path::new(p)
            .file_name()
            .map(|f| f.to_string_lossy().into_owned());
        assert_eq!(stated_file_name(p), std_name, "path {:?}", p);
        let expected = stated_file_name(p).map(|f| format!("{}1.i", f));
        assert_eq!(pipe_names(p, 1).map(|t| t.0), expected, "path {:?}", p);
    }
}

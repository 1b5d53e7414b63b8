use pdftool::walk::{EntryFacts, TreeWalk, WalkRequest};

fn file(path: &str) -> EntryFacts {
    let name = path.rsplit('/').next().map(|s| s.to_string());
    EntryFacts { path: path.to_string(), file_name: name, is_file: true, is_dir: false }
}

fn dir(path: &str) -> EntryFacts {
    let name = path.rsplit('/').next().map(|s| s.to_string());
    EntryFacts { path: path.to_string(), file_name: name, is_file: false, is_dir: true }
}

/// Drives a walk, listing directories with `list`; returns the result and the
/// directories read, in order.
fn drive(root: &str, names: &[&str], depth: usize, list: impl Fn(&str) -> Option<Vec<EntryFacts>>) -> (Option<String>, Vec<String>) {
    let names = names.iter().map(|s| s.to_string()).collect();
    let (mut w, mut req) = TreeWalk::new(root.to_string(), names, depth);
    let mut read = Vec::new();
    loop {
        match req {
            WalkRequest::Done(found) => return (found, read),
            WalkRequest::ReadDir(d) => {
                read.push(d.clone());
                req = w.step(list(&d));
            }
        }
    }
}

/// `/r/a/b/.../pdfsvc`, with the file `levels` directories below `/r`.
fn chain(levels: usize) -> impl Fn(&str) -> Option<Vec<EntryFacts>> {
    move |d: &str| {
        let below = d.matches('/').count() - 1;
        if below < levels {
            Some(vec![dir(&format!("{d}/d{below}"))])
        } else if below == levels {
            Some(vec![file(&format!("{d}/pdfsvc"))])
        } else {
            Some(vec![])
        }
    }
}

#[test]
fn walk_depth_zero_reads_nothing() {
    let (found, read) = drive("/r", &["pdfsvc"], 0, |_| Some(vec![file("/r/pdfsvc")]));
    assert_eq!(found, None);
    assert!(read.is_empty());
}

#[test]
fn walk_covers_six_levels_below_the_root() {
    for levels in 0..=6 {
        let (found, _) = drive("/r", &["pdfsvc"], 7, chain(levels));
        assert!(found.is_some(), "{levels}");
        assert!(found.unwrap().ends_with("/pdfsvc"));
    }
    let (found, read) = drive("/r", &["pdfsvc"], 7, chain(7));
    assert_eq!(found, None);
    assert_eq!(read.len(), 7);
}

#[test]
fn walk_takes_first_match_depth_first() {
    let list = |d: &str| -> Option<Vec<EntryFacts>> {
        match d {
            "/r" => Some(vec![file("/r/readme"), dir("/r/a"), file("/r/PDFSVC"), dir("/r/b")]),
            "/r/a" => Some(vec![dir("/r/a/x"), file("/r/a/other")]),
            "/r/a/x" => Some(vec![file("/r/a/x/pdfsvc")]),
            "/r/b" => Some(vec![file("/r/b/pdfsvc")]),
            _ => None,
        }
    };
    let (found, read) = drive("/r", &["pdfsvc"], 7, list);
    assert_eq!(found, Some("/r/a/x/pdfsvc".to_string()));
    assert_eq!(read, vec!["/r", "/r/a", "/r/a/x"]);
    let (found, read) = drive("/r", &["pdfsvc"], 2, list);
    assert_eq!(found, Some("/r/PDFSVC".to_string()));
    assert_eq!(read, vec!["/r", "/r/a"]);
    let (found, _) = drive("/r", &["pdfsvc"], 1, list);
    assert_eq!(found, Some("/r/PDFSVC".to_string()));
}

#[test]
fn walk_skips_unreadable_and_nameless_entries() {
    let list = |d: &str| -> Option<Vec<EntryFacts>> {
        match d {
            "/r" => Some(vec![
                dir("/r/locked"),
                EntryFacts { path: "/r/odd".into(), file_name: None, is_file: true, is_dir: false },
                EntryFacts { path: "/r/pdfsvc".into(), file_name: Some("pdfsvc".into()), is_file: false, is_dir: false },
                dir("/r/ok"),
            ]),
            "/r/ok" => Some(vec![file("/r/ok/pdfsvc.exe")]),
            _ => None,
        }
    };
    let (found, read) = drive("/r", &["pdfsvc.exe", "pdfsvc"], 7, list);
    assert_eq!(found, Some("/r/ok/pdfsvc.exe".to_string()));
    assert_eq!(read, vec!["/r", "/r/locked", "/r/ok"]);
    let (found, read) = drive("/r", &["pdfsvc"], 7, |_| None);
    assert_eq!(found, None);
    assert_eq!(read, vec!["/r"]);
    let (found, _) = drive("/r", &[], 7, list);
    assert_eq!(found, None);
}

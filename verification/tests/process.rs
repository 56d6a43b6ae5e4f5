use tree_pool::process::{is_in_use, processes_in_dir, ProcessInfo, ProcessSighting};

fn sighting(pid: u32, name: &str, cwd: Option<&str>) -> ProcessSighting {
    ProcessSighting {
        info: ProcessInfo { pid, name: name.to_string() },
        cwd: cwd.map(|c| c.to_string()),
    }
}

#[test]
fn nonexistent_dir_returns_empty() {
    let procs = processes_in_dir(None, vec![sighting(1, "sh", Some("/"))]);
    assert!(procs.is_empty());
}

#[test]
fn processes_inside_are_found() {
    let all = vec![
        sighting(1, "a", Some("/p/1/repo")),
        sighting(2, "b", Some("/p/1/repo/src")),
        sighting(3, "c", Some("/p/1/repository")),
        sighting(4, "d", None),
        sighting(5, "e", Some("/p")),
    ];
    let procs = processes_in_dir(Some("/p/1/repo".to_string()), all);
    let pids: Vec<u32> = procs.iter().map(|p| p.pid).collect();
    assert_eq!(pids, vec![1, 2]);
}

#[test]
fn in_use_when_any_process_inside() {
    assert!(is_in_use(Some("/p".to_string()), vec![sighting(1, "a", Some("/p/x"))]));
    assert!(!is_in_use(Some("/p".to_string()), vec![sighting(1, "a", Some("/q"))]));
    assert!(!is_in_use(None, vec![sighting(1, "a", Some("/p"))]));
}

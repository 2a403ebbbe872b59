use radiall::icons::{IconEntry, IconLib};

fn lib(names: &[&str]) -> IconLib {
    let entries: Vec<IconEntry> = names
        .iter()
        .map(|n| IconEntry {
            name: n.to_string(),
            set: "test".into(),
            path: format!("/tmp/{n}.svg"),
        })
        .collect();
    IconLib::from_entries(entries)
}

#[test]
fn search_ranks_prefix_before_contains() {
    let l = lib(&["arrow-up", "bar-chart", "chart-arrow", "chart-bar"]);
    let hits: Vec<&str> = l.search("chart", 10).iter().map(|e| e.name.as_str()).collect();
    assert_eq!(hits, ["chart-arrow", "chart-bar", "bar-chart"]);
}

#[test]
fn search_caps_and_handles_empty() {
    let l = lib(&["a", "b", "c", "d"]);
    assert_eq!(l.search("", 2).len(), 2);
    assert_eq!(l.search("zzz", 10).len(), 0);
    assert_eq!(l.search("  B ", 10).len(), 1); // trimmed, lowercased
}

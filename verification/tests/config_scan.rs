use juan_note::mcp::{scan_for_mcp_json_files, CandidateFile};

fn file(path: &str, content: &str) -> CandidateFile {
    CandidateFile { path: path.to_string(), content: content.to_string() }
}

#[test]
fn scan_picks_json_files_mentioning_servers() {
    let files = vec![
        file("a/assistant.json", "{\"mcpServers\":{}}"),
        file("b/readme.txt", "mcp server notes"),
        file("c/other.json", "{\"theme\":\"dark\"}"),
        file("d/tools.json", "{\"server\":\"local\"}"),
    ];
    let picked = scan_for_mcp_json_files(&files);
    assert_eq!(picked, vec![0, 3]);
}

#[test]
fn scan_of_nothing_interesting_is_empty() {
    let files = vec![
        file("x.yaml", "mcp"),
        file("y.json", "{\"plain\":true}"),
    ];
    assert_eq!(scan_for_mcp_json_files(&files), Vec::<usize>::new());
}

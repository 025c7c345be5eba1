//! Configuration-file probing for external tool integrations: the decision
//! of which files look like integration configuration. The caller walks the
//! file system and hands the file names and contents in as plain values.

use vstd::prelude::*;

use crate::chars::{contains_seq, ends_with, ends_with_chars, has_substr, str_chars};

verus! {

/// One file a directory walk found: its path and its text.
#[derive(Debug, Clone)]
pub struct CandidateFile {
    pub path: String,
    pub content: String,
}

/// A file worth probing for integration servers: named like a JSON file,
/// with text that mentions such a configuration.
pub open spec fn mcp_candidate(path: Seq<char>, content: Seq<char>) -> bool {
    &&& ends_with(path, ".json"@)
    &&& (has_substr(content, "mcp"@) || has_substr(content, "server"@))
}

/// Pick, in order, the indexes of the files worth probing for integration
/// servers: exactly those that `mcp_candidate` accepts.
pub fn scan_for_mcp_json_files(files: &Vec<CandidateFile>) -> (r: Vec<usize>)
    ensures
        forall|k: int|
            0 <= k < r@.len() ==> (#[trigger] r@[k] < files@.len() && mcp_candidate(
                files@[r@[k] as int].path@,
                files@[r@[k] as int].content@,
            )),
        forall|i: int|
            0 <= i < files@.len() && mcp_candidate(
                (#[trigger] files@[i]).path@,
                files@[i].content@,
            ) ==> r@.contains(i as usize),
        forall|k: int, l: int| 0 <= k < l < r@.len() ==> #[trigger] r@[k] < #[trigger] r@[l],
{
    let suffix = str_chars(".json");
    let p_mcp = str_chars("mcp");
    let p_server = str_chars("server");
    let mut r: Vec<usize> = Vec::new();
    let mut i: usize = 0;
    let n = files.len();
    while i < n
        invariant
            n == files@.len(),
            i <= n,
            suffix@ == ".json"@,
            p_mcp@ == "mcp"@,
            p_server@ == "server"@,
            forall|k: int|
                0 <= k < r@.len() ==> (#[trigger] r@[k] < i && mcp_candidate(
                    files@[r@[k] as int].path@,
                    files@[r@[k] as int].content@,
                )),
            forall|j: int|
                0 <= j < i && mcp_candidate(
                    (#[trigger] files@[j]).path@,
                    files@[j].content@,
                ) ==> r@.contains(j as usize),
            forall|k: int, l: int| 0 <= k < l < r@.len() ==> #[trigger] r@[k] < #[trigger] r@[l],
        decreases n - i,
    {
        let pv = str_chars(files[i].path.as_str());
        let cv = str_chars(files[i].content.as_str());
        if ends_with_chars(&pv, &suffix) && (contains_seq(&cv, &p_mcp) || contains_seq(
            &cv,
            &p_server,
        )) {
            let ghost prev = r@;
            r.push(i);
            proof {
                assert(r@[r@.len() - 1] == i);
                assert forall|j: int|
                    0 <= j < i + 1 && mcp_candidate(
                        (#[trigger] files@[j]).path@,
                        files@[j].content@,
                    ) implies r@.contains(j as usize) by {
                    if j < i {
                        let k = choose|k: int| 0 <= k < prev.len() && prev[k] == j as usize;
                        assert(r@[k] == j as usize);
                    } else {
                        assert(r@[r@.len() - 1] == j as usize);
                    }
                }
            }
        }
        i = i + 1;
    }
    r
}

} // verus!

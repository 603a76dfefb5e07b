use std::path::Path;

use kleos::gate::MemoryGate;
use kleos::watcher::{is_session_log, parse_session_path};

fn std_parse_session_path(path: &Path) -> Option<(String, String)> {
    let stem = path.file_stem()?.to_str()?.to_string();
    let mut ancestors = path.ancestors();
    ancestors.next();
    let _sessions_dir = ancestors.next()?;
    let project_dir = ancestors.next()?;
    let project = project_dir.file_name()?.to_str()?.to_string();
    Some((project, stem))
}

fn std_clean(response: &str) -> String {
    let cleaned = response.trim();
    let json_str = if cleaned.starts_with("```") {
        cleaned.trim_start_matches("```json").trim_start_matches("```").trim_end_matches("```").trim()
    } else {
        cleaned
    };
    json_str.to_string()
}

const PATHS: &[&str] = &[
    "",
    "/",
    ".",
    "..",
    "a",
    "a.jsonl",
    "/a.jsonl",
    "a/b.jsonl",
    "a/b/c.jsonl",
    "/a/b/c.jsonl",
    "./a/b/c.jsonl",
    "./b/c.jsonl",
    "a/./b/c.jsonl",
    "a//b///c.jsonl",
    "a/b/c.jsonl/",
    "a/b/c.jsonl/.",
    "a/b/..",
    "a/../c.jsonl",
    "../b/c.jsonl",
    "../../c.jsonl",
    "x/y/.hidden",
    "x/y/.hidden.jsonl",
    "x/y/name.",
    "x/y/a.b.c",
    "/r/p/sessions/s-1.jsonl",
    "/r/p/sessions/s-1.JSONL",
    "p/s/jsonl",
    "p/s/.jsonl",
    "p/s/..jsonl",
    "p/s/x..jsonl",
    "//p//s//f.jsonl//",
    "p/./././s/f",
    "/./p/s/f",
    "ä/ö/ü.jsonl",
];

#[test]
fn session_paths_match_std_path() {
    for p in PATHS {
        assert_eq!(parse_session_path(p), std_parse_session_path(Path::new(p)), "path {:?}", p);
        let std_ext = Path::new(p).extension().and_then(|e| e.to_str()) == Some("jsonl");
        assert_eq!(is_session_log(p), std_ext, "path {:?}", p);
    }
}

#[test]
fn reply_cleaning_matches_str_trimming() {
    let replies = [
        "",
        "   ",
        "{\"store\": false}",
        "  {\"store\": false}\n",
        "```json\n{\"store\": true}\n```",
        "```\n{\"store\": true}\n```",
        "``````json{}``````",
        "```json```json {} ``` ```",
        "\u{3000}```json\t{}\u{2028}```\u{85}",
        "``",
        "```",
        "text ```",
        "```json",
    ];
    for r in replies {
        assert_eq!(MemoryGate::clean_reply(r), std_clean(r), "reply {:?}", r);
    }
}

use file_server::cache::ResponseCache;
use file_server::dispatch::{
    begin_request, directory_listing, finish_request, FileResult, Job, Step,
};
use file_server::protocol::Instruction;
use file_server::response::{bad_400, build_json_response, ok_200, valid_header};
use file_server::text::escape_content;

fn request(method: &str, instr: &str, path: &str) -> String {
    format!("{method} / HTTP/1.1\r\n\r\n{{\"instruction\":\"{instr}\",\"path\":\"{path}\"}}")
}

fn request_with(method: &str, instr: &str, path: &str, content: &str) -> String {
    format!(
        "{method} / HTTP/1.1\r\n\r\n{{\"instruction\": \"{instr}\", \"path\": \"{path}\", \"content\": \"{content}\"}}"
    )
}

fn reply(step: Step) -> String {
    match step {
        Step::Reply(s) => s,
        Step::Execute(_) => panic!("expected a reply"),
    }
}

fn job(step: Step) -> Job {
    match step {
        Step::Execute(j) => j,
        Step::Reply(s) => panic!("expected a job, got {s}"),
    }
}

#[test]
fn status_lines() {
    assert_eq!(ok_200("hi"), "HTTP/1.1 200 OK\r\n\r\nhi");
    assert_eq!(bad_400("no"), "HTTP/1.1 400 Bad\r\n\r\nno");
    assert_eq!(ok_200(""), "HTTP/1.1 200 OK\r\n\r\n");
}

#[test]
fn json_envelope_keeps_unescaped_length() {
    let r = build_json_response("say \"hi\"".to_string(), 8);
    assert_eq!(
        r,
        "HTTP/1.1 200 OK\r\n\r\nContent-Type: application/json\r\nAccept: */*\r\nContent-Length: 8\r\n\r\n{\"content\": \"say \\\"hi\\\"\"}"
    );
}

#[test]
fn json_envelope_length_in_decimal() {
    let zero = build_json_response(String::new(), 0);
    assert!(zero.contains("Content-Length: 0\r\n"));
    assert!(zero.ends_with("{\"content\": \"\"}"));
    let big = build_json_response("x".to_string(), 1234567);
    assert!(big.contains("Content-Length: 1234567\r\n"));
    let ten = build_json_response("x".to_string(), 10);
    assert!(ten.contains("Content-Length: 10\r\n"));
}

#[test]
fn escaping_puts_backslash_before_quotes_only() {
    assert_eq!(escape_content("a\"b\"\"c"), "a\\\"b\\\"\\\"c");
    assert_eq!(escape_content("plain é"), "plain é");
    assert_eq!(escape_content(""), "");
}

#[test]
fn failure_diagnostic_echoes_request() {
    assert_eq!(
        valid_header("READFILE", "./root/x", &None),
        "Request header was valid. Still failed action: `READFILE` on `./root/x`\nInstruction: `READFILE`\nPath: `./root/x`\n"
    );
    assert_eq!(
        valid_header("WRTFILE", "./root/x", &Some("t".to_string())),
        "Request header was valid. Still failed action: `WRTFILE` on `./root/x`\nInstruction: `WRTFILE`\nPath: `./root/x`\nContent: `t`"
    );
}

#[test]
fn cache_records_looks_up_and_overrides() {
    let mut c = ResponseCache::new();
    assert!(c.lookup(Instruction::ReadFile, "./root/a").is_none());
    c.record(Instruction::ReadFile, "./root/a".to_string(), "one".to_string(), 3);
    assert_eq!(
        c.lookup(Instruction::ReadFile, "./root/a"),
        Some(("one".to_string(), 3))
    );
    assert!(c.lookup(Instruction::ReadDir, "./root/a").is_none());
    c.record(Instruction::ReadFile, "./root/a".to_string(), "two!".to_string(), 4);
    assert_eq!(
        c.lookup(Instruction::ReadFile, "./root/a"),
        Some(("two!".to_string(), 4))
    );
}

#[test]
fn invalidation_drops_related_paths_only() {
    let mut c = ResponseCache::new();
    for p in ["./root", "./root/a", "./root/a/b", "./root/ab", "./root/c"] {
        c.record(Instruction::ReadDir, p.to_string(), p.to_string(), 1);
    }
    c.invalidate("./root/a");
    assert!(c.lookup(Instruction::ReadDir, "./root").is_none());
    assert!(c.lookup(Instruction::ReadDir, "./root/a").is_none());
    assert!(c.lookup(Instruction::ReadDir, "./root/a/b").is_none());
    assert!(c.lookup(Instruction::ReadDir, "./root/ab").is_some());
    assert!(c.lookup(Instruction::ReadDir, "./root/c").is_some());
}

#[test]
fn create_dir_scenario() {
    let mut cache = ResponseCache::new();
    let raw = request("POST", "CRTDIR", "./root/a");
    let j = job(begin_request(&raw, &cache));
    assert_eq!(j.instruction, Instruction::CreateDir);
    assert_eq!(j.path, "./root/a");
    let first = finish_request(&j, FileResult::Success, &mut cache);
    assert_eq!(first, "HTTP/1.1 200 OK\r\n\r\nCreated directory at: `./root/a`");
    let j = job(begin_request(&raw, &cache));
    let second = finish_request(&j, FileResult::Exists, &mut cache);
    assert_eq!(second, "HTTP/1.1 200 OK\r\n\r\nDirectory `./root/a` already exists.");
}

#[test]
fn read_missing_file_scenario() {
    let mut cache = ResponseCache::new();
    let raw = request("GET", "READFILE", "./root/missing.txt");
    let j = job(begin_request(&raw, &cache));
    let r = finish_request(&j, FileResult::DoesNotExist, &mut cache);
    assert!(r.starts_with("HTTP/1.1 400 Bad\r\n\r\n"));
    assert!(r.contains("does not exist"));
    assert!(!r.contains("Content-Length"));
    assert!(cache.lookup(Instruction::ReadFile, "./root/missing.txt").is_none());
}

#[test]
fn delete_outside_root_scenario() {
    let cache = ResponseCache::new();
    let raw = request("DELETE", "DELFILE", "./etc/passwd");
    let r = reply(begin_request(&raw, &cache));
    assert_eq!(
        r,
        "HTTP/1.1 400 Bad\r\n\r\nSupplied path: `./etc/passwd` is not inside ./root"
    );
}

#[test]
fn outside_root_refused_for_every_instruction() {
    let cache = ResponseCache::new();
    let all = [
        ("POST", "CRTDIR"),
        ("POST", "CRTFILE"),
        ("DELETE", "DELFILE"),
        ("DELETE", "DELDIR"),
        ("GET", "READFILE"),
        ("GET", "READDIR"),
        ("PUT", "WRTFILE"),
    ];
    for (verb, instr) in all {
        for path in ["./etc/passwd", "/root/a", "root", ""] {
            let r = reply(begin_request(&request(verb, instr, path), &cache));
            assert!(r.starts_with("HTTP/1.1 400 Bad"), "{instr} {path}");
            assert!(r.contains("is not inside ./root"));
        }
    }
}

#[test]
fn verb_mismatch_is_refused() {
    let cache = ResponseCache::new();
    let r = reply(begin_request(&request("GET", "CRTDIR", "./root/a"), &cache));
    assert_eq!(
        r,
        "HTTP/1.1 400 Bad\r\n\r\nSupplied method: `GET` is not supported for given instruction: `CRTDIR`"
    );
    let r = reply(begin_request(&request("BREW", "READDIR", "./root"), &cache));
    assert!(r.starts_with("HTTP/1.1 400 Bad"));
}

#[test]
fn unknown_instruction_is_refused() {
    let cache = ResponseCache::new();
    let r = reply(begin_request(&request("POST", "MOVE", "./root/a"), &cache));
    assert_eq!(
        r,
        "HTTP/1.1 400 Bad\r\n\r\nSupplied instr: `MOVE` is unknown or not supported with method: `POST`"
    );
}

#[test]
fn unreadable_frame_is_refused() {
    let cache = ResponseCache::new();
    let r = reply(begin_request("GET / HTTP/1.1\r\n\r\n", &cache));
    assert_eq!(r, "HTTP/1.1 400 Bad\r\n\r\nNo payload provided");
}

#[test]
fn write_without_content_is_refused() {
    let cache = ResponseCache::new();
    let r = reply(begin_request(&request("PUT", "WRTFILE", "./root/f"), &cache));
    assert_eq!(
        r,
        "HTTP/1.1 400 Bad\r\n\r\nCan not write to `./root/f` because not content was provided"
    );
}

#[test]
fn create_file_twice() {
    let mut cache = ResponseCache::new();
    let raw = request("POST", "CRTFILE", "./root/f.txt");
    let j = job(begin_request(&raw, &cache));
    assert_eq!(
        finish_request(&j, FileResult::Success, &mut cache),
        "HTTP/1.1 200 OK\r\n\r\nCreated file at: `./root/f.txt`"
    );
    let j = job(begin_request(&raw, &cache));
    assert_eq!(j.instruction, Instruction::CreateFile);
    assert_eq!(
        finish_request(&j, FileResult::Exists, &mut cache),
        "HTTP/1.1 200 OK\r\n\r\nFile `./root/f.txt` already exists."
    );
}

#[test]
fn read_is_served_from_cache_until_written() {
    let mut cache = ResponseCache::new();
    let read = request("GET", "READFILE", "./root/f.txt");
    let j = job(begin_request(&read, &cache));
    let first = finish_request(&j, FileResult::Content("old".to_string(), 3), &mut cache);
    let again = reply(begin_request(&read, &cache));
    assert_eq!(first, again);

    let write = request_with("PUT", "WRTFILE", "./root/f.txt", "X");
    let w = job(begin_request(&write, &cache));
    assert_eq!(w.text, Some("X".to_string()));
    let r = finish_request(&w, FileResult::Success, &mut cache);
    assert_eq!(
        r,
        "HTTP/1.1 200 OK\r\n\r\nText: `X` successfuly written to file at `./root/f.txt`"
    );
    let j = job(begin_request(&read, &cache));
    let fresh = finish_request(&j, FileResult::Content("oldX".to_string(), 4), &mut cache);
    assert!(fresh.contains("oldX"));
}

#[test]
fn write_then_read_round_trip() {
    let mut cache = ResponseCache::new();
    let w = job(begin_request(
        &request_with("PUT", "WRTFILE", "./root/r.txt", "abc"),
        &cache,
    ));
    finish_request(&w, FileResult::Success, &mut cache);
    let j = job(begin_request(&request("GET", "READFILE", "./root/r.txt"), &cache));
    let content = "ab\"abc".to_string();
    let len = content.len();
    let r = finish_request(&j, FileResult::Content(content, len), &mut cache);
    assert!(r.contains("abc"));
    assert!(r.contains("Content-Length: 6\r\n"));
    assert!(r.ends_with("{\"content\": \"ab\\\"abc\"}"));
}

#[test]
fn directory_change_invalidates_listing() {
    let mut cache = ResponseCache::new();
    let list = request("GET", "READDIR", "./root");
    let j = job(begin_request(&list, &cache));
    finish_request(&j, FileResult::Content("a/".to_string(), 2), &mut cache);
    assert!(matches!(begin_request(&list, &cache), Step::Reply(_)));
    let c = job(begin_request(&request("POST", "CRTFILE", "./root/b"), &cache));
    finish_request(&c, FileResult::Success, &mut cache);
    assert!(matches!(begin_request(&list, &cache), Step::Execute(_)));
}

#[test]
fn outcome_messages() {
    let mut cache = ResponseCache::new();
    let mk = |instruction, text: Option<&str>| Job {
        instruction,
        path: "./root/p".to_string(),
        text: text.map(|t| t.to_string()),
    };
    let cases = [
        (mk(Instruction::DeleteFile, None), FileResult::Success, "HTTP/1.1 200 OK\r\n\r\nDeleted file at: `./root/p`"),
        (mk(Instruction::DeleteFile, None), FileResult::DoesNotExist, "HTTP/1.1 200 OK\r\n\r\nFile at supplied path: `./root/p` does not exists."),
        (mk(Instruction::DeleteDir, None), FileResult::Success, "HTTP/1.1 200 OK\r\n\r\nDeleted directory at: `./root/p`"),
        (mk(Instruction::DeleteDir, None), FileResult::DoesNotExist, "HTTP/1.1 200 OK\r\n\r\nDirectory at supplied path: `./root/p` does not exists."),
        (mk(Instruction::ReadDir, None), FileResult::DoesNotExist, "HTTP/1.1 200 OK\r\n\r\nCan not read directory at: `./root/p` because it does not exist"),
        (mk(Instruction::WriteFile, Some("t")), FileResult::DoesNotExist, "HTTP/1.1 200 OK\r\n\r\nCan not write to file at: `./root/p` because it does not exist"),
        (mk(Instruction::CreateDir, None), FileResult::Error, "HTTP/1.1 400 Bad\r\n\r\nRequest header was valid. Still failed action: `CRTDIR` on `./root/p`\nInstruction: `CRTDIR`\nPath: `./root/p`\n"),
        (mk(Instruction::WriteFile, Some("t")), FileResult::Error, "HTTP/1.1 400 Bad\r\n\r\nRequest header was valid. Still failed action: `WRTFILE` on `./root/p`\nInstruction: `WRTFILE`\nPath: `./root/p`\nContent: `t`"),
        (mk(Instruction::CreateFile, None), FileResult::DoesNotExist, "HTTP/1.1 400 Bad\r\n\r\nRequest header was valid. Still failed action: `CRTFILE` on `./root/p`\nInstruction: `CRTFILE`\nPath: `./root/p`\n"),
    ];
    for (j, outcome, expected) in cases {
        assert_eq!(finish_request(&j, outcome, &mut cache), expected);
    }
}

#[test]
fn failed_read_records_nothing() {
    let mut cache = ResponseCache::new();
    let j = Job { instruction: Instruction::ReadFile, path: "./root/q".to_string(), text: None };
    let r = finish_request(&j, FileResult::Error, &mut cache);
    assert!(r.starts_with("HTTP/1.1 400 Bad"));
    assert!(cache.lookup(Instruction::ReadFile, "./root/q").is_none());
}

#[test]
fn listing_puts_slash_after_each_name() {
    let names = vec!["a.txt".to_string(), "sub".to_string(), "é".to_string()];
    assert_eq!(directory_listing(&names), "a.txt/sub/é/");
    assert_eq!(directory_listing(&Vec::new()), "");
}

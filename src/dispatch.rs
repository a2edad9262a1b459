//! One request cycle, split where the file system is reached: reading and
//! checking a frame decides whether the cache or a refusal answers it, or
//! which file operation to perform; the operation's outcome then decides
//! the response and what the cache keeps.

use vstd::prelude::*;
use crate::cache::{related, ResponseCache};
use crate::frame::{frame_of, parse_request, RequestView};
use crate::protocol::{is_read, parse_params, token, token_of, validation, Instruction, ParseError};
use crate::response::{
    bad_400, bad_text, build_json_response, enclose, failure_text, json_text, ok_200, ok_text,
    valid_header,
};
use crate::text::{opt_view, push_char};

verus! {

/// The reply to a frame that cannot be read.
pub const NO_PAYLOAD: &'static str = "No payload provided";

/// What a file operation came to.
pub enum FileResult {
    /// The operation did what it was asked.
    Success,
    /// What was to be created is there already.
    Exists,
    /// What was to be read, changed or deleted is not there.
    DoesNotExist,
    /// A read's content and its length in bytes.
    Content(String, usize),
    /// The file system failed.
    Error,
}

/// A file operation to perform, with what it needs.
pub struct Job {
    pub instruction: Instruction,
    pub path: String,
    pub text: Option<String>,
}

/// What to do with a request once it is read and checked.
pub enum Step {
    /// Send this response; nothing reaches the file system.
    Reply(String),
    /// Perform this operation, then hand its outcome to `finish_request`.
    Execute(Job),
}

/// The model of a `Step`.
pub enum StepView {
    Reply(Seq<char>),
    Execute(Instruction, Seq<char>, Option<Seq<char>>),
}

impl View for Step {
    type V = StepView;

    open spec fn view(&self) -> StepView {
        match self {
            Step::Reply(s) => StepView::Reply(s@),
            Step::Execute(j) => StepView::Execute(j.instruction, j.path@, opt_view(j.text)),
        }
    }
}

/// The cache's model: content and length by instruction and path.
pub type CacheView = Map<(Instruction, Seq<char>), (Seq<char>, usize)>;

/// The message that refuses a request, naming what was refused.
pub open spec fn refusal_text(e: ParseError, m: RequestView) -> Seq<char> {
    match e {
        ParseError::NotInRoot => "Supplied path: `"@ + m.path + "` is not inside ./root"@,
        ParseError::WrongMethod => "Supplied method: `"@ + m.method
            + "` is not supported for given instruction: `"@ + m.instruction + "`"@,
        ParseError::UnkownMethod => "Supplied method: `"@ + m.method
            + "` is unknown or not supported"@,
        ParseError::UnknownInstruction => "Supplied instr: `"@ + m.instruction
            + "` is unknown or not supported with method: `"@ + m.method + "`"@,
    }
}

/// The message for a write that brings no text.
pub open spec fn no_content_text(path: Seq<char>) -> Seq<char> {
    "Can not write to `"@ + path + "` because not content was provided"@
}

/// What a request comes to before the file system: a refusal, an answer
/// from the cache, or an operation to perform.
pub open spec fn step_of(raw: Seq<char>, cache: CacheView) -> StepView {
    match frame_of(raw) {
        Err(_) => StepView::Reply(bad_text(NO_PAYLOAD@)),
        Ok(m) => match validation(m.instruction, m.path, m.method) {
            Err(e) => StepView::Reply(bad_text(refusal_text(e, m))),
            Ok(i) => if is_read(i) && cache.contains_key((i, m.path)) {
                StepView::Reply(
                    json_text(cache[(i, m.path)].0, cache[(i, m.path)].1 as nat),
                )
            } else if i == Instruction::WriteFile && m.text is None {
                StepView::Reply(bad_text(no_content_text(m.path)))
            } else {
                StepView::Execute(i, m.path, m.text)
            },
        },
    }
}

/// The text of an optional text; empty where there is none.
pub open spec fn text_or_empty(text: Option<Seq<char>>) -> Seq<char> {
    match text {
        Some(t) => t,
        None => Seq::empty(),
    }
}

/// The response to an operation's outcome. An outcome that the operation
/// cannot have, and a failure, give the diagnostic.
pub open spec fn reply_for(
    i: Instruction,
    path: Seq<char>,
    text: Option<Seq<char>>,
    outcome: FileResult,
) -> Seq<char> {
    match (i, outcome) {
        (Instruction::CreateDir, FileResult::Success) => ok_text(
            "Created directory at: `"@ + path + "`"@,
        ),
        (Instruction::CreateDir, FileResult::Exists) => ok_text(
            "Directory `"@ + path + "` already exists."@,
        ),
        (Instruction::CreateFile, FileResult::Success) => ok_text(
            "Created file at: `"@ + path + "`"@,
        ),
        (Instruction::CreateFile, FileResult::Exists) => ok_text(
            "File `"@ + path + "` already exists."@,
        ),
        (Instruction::DeleteFile, FileResult::Success) => ok_text(
            "Deleted file at: `"@ + path + "`"@,
        ),
        (Instruction::DeleteFile, FileResult::DoesNotExist) => ok_text(
            "File at supplied path: `"@ + path + "` does not exists."@,
        ),
        (Instruction::DeleteDir, FileResult::Success) => ok_text(
            "Deleted directory at: `"@ + path + "`"@,
        ),
        (Instruction::DeleteDir, FileResult::DoesNotExist) => ok_text(
            "Directory at supplied path: `"@ + path + "` does not exists."@,
        ),
        (Instruction::ReadFile, FileResult::Content(c, n)) => json_text(c@, n as nat),
        (Instruction::ReadDir, FileResult::Content(c, n)) => json_text(c@, n as nat),
        (Instruction::ReadFile, FileResult::DoesNotExist) => bad_text(
            "Can not read file at: `"@ + path + "` because it does not exist"@,
        ),
        (Instruction::ReadDir, FileResult::DoesNotExist) => ok_text(
            "Can not read directory at: `"@ + path + "` because it does not exist"@,
        ),
        (Instruction::WriteFile, FileResult::Success) => ok_text(
            "Text: `"@ + text_or_empty(text) + "` successfuly written to file at `"@ + path
                + "`"@,
        ),
        (Instruction::WriteFile, FileResult::DoesNotExist) => ok_text(
            "Can not write to file at: `"@ + path + "` because it does not exist"@,
        ),
        _ => bad_text(failure_text(token(i), path, text)),
    }
}

/// What the cache holds after an operation: a read's content is recorded,
/// any other operation forgets every entry related to its path.
pub open spec fn cache_after(
    cache: CacheView,
    i: Instruction,
    path: Seq<char>,
    outcome: FileResult,
) -> CacheView {
    if is_read(i) {
        match outcome {
            FileResult::Content(c, n) => cache.insert((i, path), (c@, n)),
            _ => cache,
        }
    } else {
        cache.filter_keys(|k: (Instruction, Seq<char>)| !related(k.1, path))
    }
}

/// A directory listing: each entry name followed by `/`, in the order given.
pub open spec fn listing_of(names: Seq<Seq<char>>) -> Seq<char>
    decreases names.len(),
{
    if names.len() == 0 {
        Seq::empty()
    } else {
        listing_of(names.drop_last()) + names.last() + seq!['/']
    }
}

/// The listing text for the entry names of a directory.
pub fn directory_listing(names: &Vec<String>) -> (r: String)
    ensures
        r@ == listing_of(names@.map_values(|n: String| n@)),
{
    let ghost all = names@.map_values(|n: String| n@);
    let mut out = String::new();
    let mut i: usize = 0;
    assert(all.take(0) =~= Seq::<Seq<char>>::empty());
    while i < names.len()
        invariant
            i <= names.len(),
            all == names@.map_values(|n: String| n@),
            out@ == listing_of(all.take(i as int)),
        decreases names.len() - i,
    {
        assert(all.take(i + 1).drop_last() =~= all.take(i as int));
        assert(all.take(i + 1).last() == names[i as int]@);
        out.append(names[i].as_str());
        push_char(&mut out, '/');
        i = i + 1;
    }
    assert(all.take(names.len() as int) =~= all);
    out
}

/// The message that refuses a request.
fn refusal(e: ParseError, instr: &str, path: &str, method: &str) -> (r: String)
    ensures
        r@ == refusal_text(
            e,
            RequestView { instruction: instr@, path: path@, text: None, method: method@ },
        ),
{
    match e {
        ParseError::NotInRoot => enclose("Supplied path: `", path, "` is not inside ./root"),
        ParseError::WrongMethod => {
            let mut s = enclose(
                "Supplied method: `",
                method,
                "` is not supported for given instruction: `",
            );
            s.append(instr);
            s.append("`");
            s
        },
        ParseError::UnkownMethod => enclose(
            "Supplied method: `",
            method,
            "` is unknown or not supported",
        ),
        ParseError::UnknownInstruction => {
            let mut s = enclose(
                "Supplied instr: `",
                instr,
                "` is unknown or not supported with method: `",
            );
            s.append(method);
            s.append("`");
            s
        },
    }
}

/// Reads and checks a frame, and decides what answers it: a refusal, the
/// cache, or a file operation, which the caller performs and hands to
/// `finish_request`. Nothing that is refused reaches the file system.
pub fn begin_request(raw: &str, cache: &ResponseCache) -> (r: Step)
    ensures
        r@ == step_of(raw@, cache@),
{
    let req = match parse_request(raw) {
        Ok(req) => req,
        Err(_) => {
            return Step::Reply(bad_400(NO_PAYLOAD));
        },
    };
    let i = match parse_params(&req.instruction, &req.path, &req.method) {
        Ok(i) => i,
        Err(e) => {
            let msg = refusal(
                e,
                req.instruction.as_str(),
                req.path.as_str(),
                req.method.as_str(),
            );
            return Step::Reply(bad_400(msg.as_str()));
        },
    };
    if i == Instruction::ReadFile || i == Instruction::ReadDir {
        if let Some((content, len)) = cache.lookup(i, req.path.as_str()) {
            return Step::Reply(build_json_response(content, len));
        }
    }
    if i == Instruction::WriteFile && req.text.is_none() {
        let msg = enclose(
            "Can not write to `",
            req.path.as_str(),
            "` because not content was provided",
        );
        return Step::Reply(bad_400(msg.as_str()));
    }
    Step::Execute(Job { instruction: i, path: req.path, text: req.text })
}

/// The response to a performed operation, with the cache brought up to
/// date: a read's content is recorded, and any change forgets what the
/// cache held for the paths it may have touched.
pub fn finish_request(job: &Job, outcome: FileResult, cache: &mut ResponseCache) -> (r: String)
    ensures
        r@ == reply_for(job.instruction, job.path@, opt_view(job.text), outcome),
        final(cache)@ == cache_after(old(cache)@, job.instruction, job.path@, outcome),
{
    let path = job.path.as_str();
    let i = job.instruction;
    if !(i == Instruction::ReadFile || i == Instruction::ReadDir) {
        cache.invalidate(path);
    }
    match (i, outcome) {
        (Instruction::CreateDir, FileResult::Success) => ok_200(
            enclose("Created directory at: `", path, "`").as_str(),
        ),
        (Instruction::CreateDir, FileResult::Exists) => ok_200(
            enclose("Directory `", path, "` already exists.").as_str(),
        ),
        (Instruction::CreateFile, FileResult::Success) => ok_200(
            enclose("Created file at: `", path, "`").as_str(),
        ),
        (Instruction::CreateFile, FileResult::Exists) => ok_200(
            enclose("File `", path, "` already exists.").as_str(),
        ),
        (Instruction::DeleteFile, FileResult::Success) => ok_200(
            enclose("Deleted file at: `", path, "`").as_str(),
        ),
        (Instruction::DeleteFile, FileResult::DoesNotExist) => ok_200(
            enclose("File at supplied path: `", path, "` does not exists.").as_str(),
        ),
        (Instruction::DeleteDir, FileResult::Success) => ok_200(
            enclose("Deleted directory at: `", path, "`").as_str(),
        ),
        (Instruction::DeleteDir, FileResult::DoesNotExist) => ok_200(
            enclose("Directory at supplied path: `", path, "` does not exists.").as_str(),
        ),
        (Instruction::ReadFile, FileResult::Content(c, n))
        | (Instruction::ReadDir, FileResult::Content(c, n)) => {
            cache.record(i, job.path.clone(), c.clone(), n);
            build_json_response(c, n)
        },
        (Instruction::ReadFile, FileResult::DoesNotExist) => bad_400(
            enclose("Can not read file at: `", path, "` because it does not exist").as_str(),
        ),
        (Instruction::ReadDir, FileResult::DoesNotExist) => ok_200(
            enclose("Can not read directory at: `", path, "` because it does not exist").as_str(),
        ),
        (Instruction::WriteFile, FileResult::Success) => {
            let t = match &job.text {
                Some(t) => t.as_str(),
                None => {
                    proof {
                        reveal_strlit("");
                    }
                    ""
                },
            };
            assert(t@ == text_or_empty(opt_view(job.text)));
            let mut s = enclose("Text: `", t, "` successfuly written to file at `");
            s.append(path);
            s.append("`");
            ok_200(s.as_str())
        },
        (Instruction::WriteFile, FileResult::DoesNotExist) => ok_200(
            enclose("Can not write to file at: `", path, "` because it does not exist").as_str(),
        ),
        _ => bad_400(valid_header(token_of(i), path, &job.text).as_str()),
    }
}

} // verus!

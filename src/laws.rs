//! Properties of whole request cycles, stated over the models that the
//! functions' contracts use, and proved.

use vstd::prelude::*;
use crate::cache::{related, within};
use crate::dispatch::{cache_after, refusal_text, reply_for, step_of, CacheView, FileResult, StepView};
use crate::frame::frame_of;
use crate::protocol::{
    expected_verb, inside_root, instruction_of, is_read, validation, verb_of, Instruction, ParseError,
};
use crate::response::{bad_text, json_text, ok_text};
use crate::text::escape_quotes;

verus! {

/// A request whose path is not spelled under the root is refused with a
/// client error naming the path, whatever its instruction and verb and
/// whatever the cache holds: no file operation is asked for.
pub proof fn lemma_outside_root_refused(raw: Seq<char>, cache: CacheView)
    requires
        frame_of(raw) is Ok,
        !inside_root(frame_of(raw)->Ok_0.path),
    ensures
        step_of(raw, cache) == StepView::Reply(
            bad_text(refusal_text(ParseError::NotInRoot, frame_of(raw)->Ok_0)),
        ),
{
}

/// A request whose verb is not the one the table expects for its
/// instruction is refused with a client error, and no file operation is
/// asked for. Under the root, for a known instruction, the refusal is the
/// verb-mismatch message.
pub proof fn lemma_verb_mismatch_refused(raw: Seq<char>, cache: CacheView)
    requires
        frame_of(raw) is Ok,
        expected_verb(frame_of(raw)->Ok_0.instruction) != verb_of(frame_of(raw)->Ok_0.method),
    ensures
        ({
            let m = frame_of(raw)->Ok_0;
            let e = validation(m.instruction, m.path, m.method);
            &&& e is Err
            &&& step_of(raw, cache) == StepView::Reply(bad_text(refusal_text(e->Err_0, m)))
            &&& (inside_root(m.path) && instruction_of(m.instruction) is Some) ==> e == Err::<
                Instruction,
                ParseError,
            >(ParseError::WrongMethod)
        }),
{
}

/// Creating a file is never answered from the cache: the same request,
/// issued again after the first has been performed, whatever its outcome,
/// goes to the file system again. A created file is reported as created,
/// one that is there already as existing.
pub proof fn lemma_create_file_repeated(raw: Seq<char>, cache: CacheView, first: FileResult)
    requires
        frame_of(raw) is Ok,
        validation(
            frame_of(raw)->Ok_0.instruction,
            frame_of(raw)->Ok_0.path,
            frame_of(raw)->Ok_0.method,
        ) == Ok::<Instruction, ParseError>(Instruction::CreateFile),
    ensures
        ({
            let m = frame_of(raw)->Ok_0;
            let job = StepView::Execute(Instruction::CreateFile, m.path, m.text);
            &&& step_of(raw, cache) == job
            &&& step_of(raw, cache_after(cache, Instruction::CreateFile, m.path, first)) == job
            &&& reply_for(Instruction::CreateFile, m.path, m.text, FileResult::Success)
                == ok_text("Created file at: `"@ + m.path + "`"@)
            &&& reply_for(Instruction::CreateFile, m.path, m.text, FileResult::Exists) == ok_text(
                "File `"@ + m.path + "` already exists."@,
            )
        }),
{
}

proof fn lemma_related_to_itself(p: Seq<char>)
    ensures
        related(p, p),
{
    assert(within(p, p));
}

/// After any change at a path, whatever its outcome, a read of a related
/// path (the path itself, one under it or one above it) is not answered
/// from the cache: it goes to the file system.
pub proof fn lemma_read_after_change_misses(
    cache: CacheView,
    change: Instruction,
    changed: Seq<char>,
    outcome: FileResult,
    raw: Seq<char>,
)
    requires
        !is_read(change),
        frame_of(raw) is Ok,
        validation(
            frame_of(raw)->Ok_0.instruction,
            frame_of(raw)->Ok_0.path,
            frame_of(raw)->Ok_0.method,
        ) is Ok,
        is_read(
            validation(
                frame_of(raw)->Ok_0.instruction,
                frame_of(raw)->Ok_0.path,
                frame_of(raw)->Ok_0.method,
            )->Ok_0,
        ),
        related(frame_of(raw)->Ok_0.path, changed),
    ensures
        ({
            let m = frame_of(raw)->Ok_0;
            let i = validation(m.instruction, m.path, m.method)->Ok_0;
            step_of(raw, cache_after(cache, change, changed, outcome)) == StepView::Execute(
                i,
                m.path,
                m.text,
            )
        }),
{
    let m = frame_of(raw)->Ok_0;
    let i = validation(m.instruction, m.path, m.method)->Ok_0;
    let after = cache_after(cache, change, changed, outcome);
    assert(!after.contains_key((i, m.path)));
}

/// A write followed by a read of the same path: the read goes to the file
/// system, its content comes back with the length it was given and its
/// quotes escaped, and the next identical read is answered with that same
/// response from the cache.
pub proof fn lemma_write_then_read(
    cache: CacheView,
    written: FileResult,
    raw: Seq<char>,
    content: String,
    len: usize,
)
    requires
        frame_of(raw) is Ok,
        validation(
            frame_of(raw)->Ok_0.instruction,
            frame_of(raw)->Ok_0.path,
            frame_of(raw)->Ok_0.method,
        ) == Ok::<Instruction, ParseError>(Instruction::ReadFile),
    ensures
        ({
            let m = frame_of(raw)->Ok_0;
            let after_write = cache_after(cache, Instruction::WriteFile, m.path, written);
            let read = FileResult::Content(content, len);
            let after_read = cache_after(after_write, Instruction::ReadFile, m.path, read);
            &&& step_of(raw, after_write) == StepView::Execute(
                Instruction::ReadFile,
                m.path,
                m.text,
            )
            &&& reply_for(Instruction::ReadFile, m.path, m.text, read) == json_text(
                content@,
                len as nat,
            )
            &&& step_of(raw, after_read) == StepView::Reply(json_text(content@, len as nat))
        }),
{
    let m = frame_of(raw)->Ok_0;
    lemma_related_to_itself(m.path);
    lemma_read_after_change_misses(cache, Instruction::WriteFile, m.path, written, raw);
}

/// Content without double quotes is carried unchanged.
pub proof fn lemma_plain_content_unescaped(s: Seq<char>)
    requires
        !s.contains('"'),
    ensures
        escape_quotes(s) == s,
    decreases s.len(),
{
    if s.len() > 0 {
        assert(!s.drop_last().contains('"')) by {
            if s.drop_last().contains('"') {
                let k = choose|k: int| 0 <= k < s.drop_last().len() && s.drop_last()[k] == '"';
                assert(s[k] == '"');
            }
        }
        lemma_plain_content_unescaped(s.drop_last());
        assert(s.last() != '"') by {
            assert(s[s.len() - 1] == s.last());
        }
        assert(s.drop_last().push(s.last()) =~= s);
    }
}

} // verus!

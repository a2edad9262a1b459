//! The request vocabulary: instructions, verbs, the table that ties each
//! instruction to the verb allowed to invoke it, and the checks a request
//! passes before anything touches the file system.

use vstd::prelude::*;
use crate::text::{chars_of, same_text, slice_of, spells, spells_word, starts_with, trim, trim_bounds};

verus! {

/// The directory that every permitted path must be spelled under.
pub const ROOT: &'static str = "./root";

/// The operation a request asks for.
#[derive(PartialEq, Eq, Structural, Clone, Copy, Debug)]
pub enum Instruction {
    CreateDir,
    CreateFile,
    DeleteFile,
    DeleteDir,
    ReadFile,
    ReadDir,
    WriteFile,
}

/// The verb of a request's method line.
#[derive(PartialEq, Eq, Structural, Clone, Copy, Debug)]
pub enum RequestVerbs {
    GET,
    POST,
    DELETE,
    PUT,
    UNKOWN,
}

/// Why a parsed request was refused before any file-system work.
#[derive(PartialEq, Eq, Structural, Clone, Copy, Debug)]
pub enum ParseError {
    WrongMethod,
    UnkownMethod,
    NotInRoot,
    UnknownInstruction,
}

/// Whether `path` is spelled under the sandbox root.
pub open spec fn inside_root(path: Seq<char>) -> bool {
    ROOT@.is_prefix_of(path)
}

/// The instruction that a token names, if any.
pub open spec fn instruction_of(token: Seq<char>) -> Option<Instruction> {
    if token == "CRTDIR"@ {
        Some(Instruction::CreateDir)
    } else if token == "CRTFILE"@ {
        Some(Instruction::CreateFile)
    } else if token == "DELFILE"@ {
        Some(Instruction::DeleteFile)
    } else if token == "DELDIR"@ {
        Some(Instruction::DeleteDir)
    } else if token == "READFILE"@ {
        Some(Instruction::ReadFile)
    } else if token == "READDIR"@ {
        Some(Instruction::ReadDir)
    } else if token == "WRTFILE"@ {
        Some(Instruction::WriteFile)
    } else {
        None
    }
}

/// The token that names each instruction.
pub open spec fn token(i: Instruction) -> Seq<char> {
    match i {
        Instruction::CreateDir => "CRTDIR"@,
        Instruction::CreateFile => "CRTFILE"@,
        Instruction::DeleteFile => "DELFILE"@,
        Instruction::DeleteDir => "DELDIR"@,
        Instruction::ReadFile => "READFILE"@,
        Instruction::ReadDir => "READDIR"@,
        Instruction::WriteFile => "WRTFILE"@,
    }
}

/// Whether the instruction reads, and so may be answered from the cache.
pub open spec fn is_read(i: Instruction) -> bool {
    i == Instruction::ReadFile || i == Instruction::ReadDir
}

/// The one verb that may invoke each instruction.
pub open spec fn required_verb(i: Instruction) -> RequestVerbs {
    match i {
        Instruction::CreateDir | Instruction::CreateFile => RequestVerbs::POST,
        Instruction::DeleteFile | Instruction::DeleteDir => RequestVerbs::DELETE,
        Instruction::ReadFile | Instruction::ReadDir => RequestVerbs::GET,
        Instruction::WriteFile => RequestVerbs::PUT,
    }
}

/// The verb that the table expects for a token; `UNKOWN` for a token that
/// names no instruction.
pub open spec fn expected_verb(token: Seq<char>) -> RequestVerbs {
    match instruction_of(token) {
        Some(i) => required_verb(i),
        None => RequestVerbs::UNKOWN,
    }
}

/// The verb that a method token names, ignoring case and surrounding white
/// space.
pub open spec fn verb_of(method: Seq<char>) -> RequestVerbs {
    let t = trim(method);
    if spells(t, "post"@) {
        RequestVerbs::POST
    } else if spells(t, "delete"@) {
        RequestVerbs::DELETE
    } else if spells(t, "get"@) {
        RequestVerbs::GET
    } else if spells(t, "put"@) {
        RequestVerbs::PUT
    } else {
        RequestVerbs::UNKOWN
    }
}

/// What the checks make of a request: the instruction to run, or why it is
/// refused. The sandbox is checked first, then the instruction, then the verb.
pub open spec fn validation(instr: Seq<char>, path: Seq<char>, method: Seq<char>) -> Result<
    Instruction,
    ParseError,
> {
    if !inside_root(path) {
        Err(ParseError::NotInRoot)
    } else {
        match instruction_of(instr) {
            None => Err(ParseError::UnknownInstruction),
            Some(i) => if verb_of(method) == required_verb(i) {
                Ok(i)
            } else {
                Err(ParseError::WrongMethod)
            },
        }
    }
}

/// Whether `path` is spelled under the sandbox root.
pub fn is_inside_root(path: &String) -> (r: bool)
    ensures
        r == inside_root(path@),
{
    let p = chars_of(path.as_str());
    let root = chars_of(ROOT);
    starts_with(&p, &root)
}

/// The instruction that `token` names, if any.
pub fn parse_instruction(token: &String) -> (r: Option<Instruction>)
    ensures
        r == instruction_of(token@),
{
    let t = token.as_str();
    if same_text(t, "CRTDIR") {
        Some(Instruction::CreateDir)
    } else if same_text(t, "CRTFILE") {
        Some(Instruction::CreateFile)
    } else if same_text(t, "DELFILE") {
        Some(Instruction::DeleteFile)
    } else if same_text(t, "DELDIR") {
        Some(Instruction::DeleteDir)
    } else if same_text(t, "READFILE") {
        Some(Instruction::ReadFile)
    } else if same_text(t, "READDIR") {
        Some(Instruction::ReadDir)
    } else if same_text(t, "WRTFILE") {
        Some(Instruction::WriteFile)
    } else {
        None
    }
}

/// The token that names `i`.
pub fn token_of(i: Instruction) -> (r: &'static str)
    ensures
        r@ == token(i),
{
    match i {
        Instruction::CreateDir => "CRTDIR",
        Instruction::CreateFile => "CRTFILE",
        Instruction::DeleteFile => "DELFILE",
        Instruction::DeleteDir => "DELDIR",
        Instruction::ReadFile => "READFILE",
        Instruction::ReadDir => "READDIR",
        Instruction::WriteFile => "WRTFILE",
    }
}

/// The verb that the table requires for `i`.
pub fn verb_for(i: Instruction) -> (r: RequestVerbs)
    ensures
        r == required_verb(i),
{
    match i {
        Instruction::CreateDir | Instruction::CreateFile => RequestVerbs::POST,
        Instruction::DeleteFile | Instruction::DeleteDir => RequestVerbs::DELETE,
        Instruction::ReadFile | Instruction::ReadDir => RequestVerbs::GET,
        Instruction::WriteFile => RequestVerbs::PUT,
    }
}

/// The verb that the table expects for the instruction token `instr`.
pub fn instr_to_verb(instr: &String) -> (r: RequestVerbs)
    ensures
        r == expected_verb(instr@),
{
    match parse_instruction(instr) {
        Some(i) => verb_for(i),
        None => RequestVerbs::UNKOWN,
    }
}

/// The verb that a method token names.
pub fn string_method_to_enum(method: &String) -> (r: RequestVerbs)
    ensures
        r == verb_of(method@),
{
    let cs = chars_of(method.as_str());
    let (a, b) = trim_bounds(&cs, 0, cs.len());
    assert(cs@.subrange(0, cs.len() as int) =~= cs@);
    let t = slice_of(&cs, a, b);
    if spells_word(&t, &chars_of("post")) {
        RequestVerbs::POST
    } else if spells_word(&t, &chars_of("delete")) {
        RequestVerbs::DELETE
    } else if spells_word(&t, &chars_of("get")) {
        RequestVerbs::GET
    } else if spells_word(&t, &chars_of("put")) {
        RequestVerbs::PUT
    } else {
        RequestVerbs::UNKOWN
    }
}

/// Checks a parsed request: its path must lie under the root, its
/// instruction token must be known, and its method must be the verb that
/// the table gives that instruction. Returns the instruction to run.
pub fn parse_params(instr: &String, path: &String, method: &String) -> (r: Result<
    Instruction,
    ParseError,
>)
    ensures
        r == validation(instr@, path@, method@),
{
    if !is_inside_root(path) {
        return Err(ParseError::NotInRoot);
    }
    match parse_instruction(instr) {
        None => Err(ParseError::UnknownInstruction),
        Some(i) => {
            if string_method_to_enum(method) == verb_for(i) {
                Ok(i)
            } else {
                Err(ParseError::WrongMethod)
            }
        },
    }
}

} // verus!

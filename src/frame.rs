//! The wire frame: a method line, then a flat `{key: value, ...}` payload
//! naming an instruction, a path and, for writes, the text to append.

use vstd::prelude::*;
use crate::text::{
    before, chars_of, find_char, first_index, lex_less, lex_lt, opt_view, remove_char, slice_of,
    split, split_chars, trim, trim_chars, trimmed, views, without,
};

verus! {

/// Why a frame could not be read.
#[derive(PartialEq, Eq, Structural, Clone, Copy, Debug)]
pub enum ParseFailure {
    /// The frame holds no `{` or no `}`.
    NoPayload,
    /// The payload does not hold two or three `key: value` pairs.
    MalformedPayload,
}

/// A request as read from its frame, before validation.
pub struct Request {
    pub instruction: String,
    pub path: String,
    /// The text to append; `None` where the frame gave none or an empty one.
    pub text: Option<String>,
    pub method: String,
}

/// The model of a `Request`.
pub struct RequestView {
    pub instruction: Seq<char>,
    pub path: Seq<char>,
    pub text: Option<Seq<char>>,
    pub method: Seq<char>,
}

impl View for Request {
    type V = RequestView;

    open spec fn view(&self) -> RequestView {
        RequestView {
            instruction: self.instruction@,
            path: self.path@,
            text: opt_view(self.text),
            method: self.method@,
        }
    }
}

/// The method token: what precedes the first `/`, trimmed.
pub open spec fn method_token(raw: Seq<char>) -> Seq<char> {
    trim(before(raw, '/'))
}

/// The characters strictly between positions `a` and `b` of `s`.
pub open spec fn between(s: Seq<char>, a: int, b: int) -> Seq<char> {
    if a < b {
        s.subrange(a + 1, b)
    } else {
        Seq::empty()
    }
}

/// The payload: what lies between the first `{` and the first `}`, with
/// the double quotes taken out; `None` where either brace is missing.
pub open spec fn payload_body(raw: Seq<char>) -> Option<Seq<char>> {
    match (first_index(raw, '{'), first_index(raw, '}')) {
        (Some(a), Some(b)) => Some(without(between(raw, a, b), '"')),
        _ => None,
    }
}

/// The payload cut at each `,` and each piece at each `:`. A payload of two
/// pieces gets an empty third pair, so that it sorts as a missing content.
pub open spec fn fields_of(body: Seq<char>) -> Seq<Seq<Seq<char>>> {
    let parts = split(body, ',').map_values(|p: Seq<char>| split(p, ':'));
    if parts.len() == 2 {
        parts.push(seq![Seq::empty(), Seq::empty()])
    } else {
        parts
    }
}

/// Three pairs of a key and a value.
pub open spec fn well_formed(f: Seq<Seq<Seq<char>>>) -> bool {
    &&& f.len() == 3
    &&& forall|i: int| 0 <= i < 3 ==> #[trigger] f[i].len() == 2
}

/// `e` put into the key-sorted `sorted` after every pair whose key is not
/// greater than its own. Keys are compared without surrounding white space.
pub open spec fn insert_by_key(sorted: Seq<Seq<Seq<char>>>, e: Seq<Seq<char>>) -> Seq<
    Seq<Seq<char>>,
>
    decreases sorted.len(),
{
    if sorted.len() == 0 {
        seq![e]
    } else if lex_lt(trim(e[0]), trim(sorted.last()[0])) {
        insert_by_key(sorted.drop_last(), e).push(sorted.last())
    } else {
        sorted.push(e)
    }
}

/// The pairs sorted by key, pairs of equal keys kept in their order.
pub open spec fn sort_by_key(f: Seq<Seq<Seq<char>>>) -> Seq<Seq<Seq<char>>>
    decreases f.len(),
{
    if f.len() == 0 {
        f
    } else {
        insert_by_key(sort_by_key(f.drop_last()), f.last())
    }
}

/// What a frame reads as. After sorting by key the pairs stand as content,
/// instruction, path; each value is trimmed, and an empty content is none.
pub open spec fn frame_of(raw: Seq<char>) -> Result<RequestView, ParseFailure> {
    match payload_body(raw) {
        None => Err(ParseFailure::NoPayload),
        Some(body) => {
            let f = fields_of(body);
            if !well_formed(f) {
                Err(ParseFailure::MalformedPayload)
            } else {
                let s = sort_by_key(f);
                let content = trim(s[0][1]);
                Ok(
                    RequestView {
                        instruction: trim(s[1][1]),
                        path: trim(s[2][1]),
                        text: if content.len() == 0 {
                            None
                        } else {
                            Some(content)
                        },
                        method: method_token(raw),
                    },
                )
            }
        },
    }
}

/// The model of split-up fields.
pub open spec fn fields_view(v: Seq<Vec<Vec<char>>>) -> Seq<Seq<Seq<char>>> {
    v.map_values(|p: Vec<Vec<char>>| views(p@))
}

/// Whether the fields are three pairs of a key and a value.
pub fn json_format_is_valid(json: &Vec<Vec<Vec<char>>>) -> (r: bool)
    ensures
        r == well_formed(fields_view(json@)),
{
    if json.len() != 3 {
        return false;
    }
    let mut i: usize = 0;
    while i < 3
        invariant
            i <= 3,
            json.len() == 3,
            forall|j: int| 0 <= j < i ==> #[trigger] fields_view(json@)[j].len() == 2,
        decreases 3 - i,
    {
        if json[i].len() != 2 {
            assert(fields_view(json@)[i as int].len() != 2);
            return false;
        }
        i = i + 1;
    }
    true
}

proof fn lemma_sort_three(f: Seq<Seq<Seq<char>>>)
    requires
        f.len() == 3,
    ensures
        sort_by_key(f) == insert_by_key(insert_by_key(seq![f[0]], f[1]), f[2]),
{
    let f2 = f.drop_last();
    let f1 = f2.drop_last();
    let f0 = f1.drop_last();
    assert(f0.len() == 0);
    assert(sort_by_key(f0) == f0);
    assert(f1.last() == f[0]);
    assert(f2.last() == f[1]);
    assert(f.last() == f[2]);
    assert(insert_by_key(f0, f1.last()) == seq![f[0]]);
    assert(sort_by_key(f1) == insert_by_key(sort_by_key(f0), f1.last()));
    assert(sort_by_key(f1) == seq![f[0]]);
    assert(sort_by_key(f2) == insert_by_key(sort_by_key(f1), f2.last()));
    assert(sort_by_key(f) == insert_by_key(sort_by_key(f2), f.last()));
}

proof fn lemma_field(fields: Seq<Vec<Vec<char>>>, i: int)
    requires
        0 <= i < fields.len(),
    ensures
        fields_view(fields)[i].len() == fields[i]@.len(),
        forall|j: int|
            0 <= j < fields[i]@.len() ==> #[trigger] fields_view(fields)[i][j] == fields[i]@[j]@,
{
}

/// The positions of the three pairs in the order that sorting by key gives.
fn key_order(fields: &Vec<Vec<Vec<char>>>) -> (r: (usize, usize, usize))
    requires
        well_formed(fields_view(fields@)),
    ensures
        r.0 < 3 && r.1 < 3 && r.2 < 3,
        sort_by_key(fields_view(fields@)) == seq![
            fields_view(fields@)[r.0 as int],
            fields_view(fields@)[r.1 as int],
            fields_view(fields@)[r.2 as int],
        ],
{
    let ghost f = fields_view(fields@);
    proof {
        lemma_sort_three(f);
        assert(f[0].len() == 2 && f[1].len() == 2 && f[2].len() == 2);
        lemma_field(fields@, 0);
        lemma_field(fields@, 1);
        lemma_field(fields@, 2);
        assert(f[0][0] == fields[0][0]@);
        assert(f[1][0] == fields[1][0]@);
        assert(f[2][0] == fields[2][0]@);
    }
    let k0 = trim_chars(&fields[0][0]);
    let k1 = trim_chars(&fields[1][0]);
    let k2 = trim_chars(&fields[2][0]);
    let keys = [k0, k1, k2];
    let ghost s1 = insert_by_key(seq![f[0]], f[1]);
    let (a, b): (usize, usize) = if lex_less(&keys[1], &keys[0]) {
        assert(insert_by_key(seq![f[0]].drop_last(), f[1]) == seq![f[1]]);
        assert(s1 =~= seq![f[1], f[0]]);
        (1, 0)
    } else {
        assert(s1 =~= seq![f[0], f[1]]);
        (0, 1)
    };
    assert(s1 == seq![f[a as int], f[b as int]]);
    let ghost s2 = insert_by_key(s1, f[2]);
    if lex_less(&keys[2], &keys[b]) {
        let ghost s3 = seq![f[a as int]];
        assert(s1.last() == f[b as int]);
        assert(s1.drop_last() =~= s3);
        assert(s2 == insert_by_key(s3, f[2]).push(f[b as int]));
        assert(s3.last() == f[a as int]);
        if lex_less(&keys[2], &keys[a]) {
            assert(s3.drop_last() =~= Seq::<Seq<Seq<char>>>::empty());
            assert(insert_by_key(s3, f[2]) == insert_by_key(s3.drop_last(), f[2]).push(
                f[a as int],
            ));
            assert(insert_by_key(s3, f[2]) =~= seq![f[2], f[a as int]]);
            assert(s2 =~= seq![f[2], f[a as int], f[b as int]]);
            (2, a, b)
        } else {
            assert(insert_by_key(s3, f[2]) =~= seq![f[a as int], f[2]]);
            assert(s2 =~= seq![f[a as int], f[2], f[b as int]]);
            (a, 2, b)
        }
    } else {
        assert(s2 =~= seq![f[a as int], f[b as int], f[2]]);
        (a, b, 2)
    }
}

/// The method token of the characters `cs`.
fn method_of(cs: &Vec<char>) -> (r: String)
    ensures
        r@ == method_token(cs@),
{
    let end = match find_char(cs, '/') {
        Some(i) => i,
        None => cs.len(),
    };
    assert(cs@.subrange(0, cs.len() as int) =~= cs@);
    assert(cs@.subrange(0, end as int) =~= before(cs@, '/'));
    trimmed(cs, 0, end)
}

/// The payload of the characters `cs`, if it has braces.
fn body_of(cs: &Vec<char>) -> (r: Option<Vec<char>>)
    ensures
        opt_chars(r) == payload_body(cs@),
{
    let open = find_char(cs, '{');
    let close = find_char(cs, '}');
    match (open, close) {
        (Some(a), Some(b)) => {
            let inner = if a < b {
                slice_of(cs, a + 1, b)
            } else {
                assert(between(cs@, a as int, b as int) =~= Seq::<char>::empty());
                Vec::new()
            };
            Some(remove_char(&inner, '"'))
        },
        _ => None,
    }
}

/// The view of optional characters.
pub open spec fn opt_chars(o: Option<Vec<char>>) -> Option<Seq<char>> {
    match o {
        Some(v) => Some(v@),
        None => None,
    }
}

/// The payload cut into pieces and pairs.
fn fields_from(body: &Vec<char>) -> (r: Vec<Vec<Vec<char>>>)
    ensures
        fields_view(r@) == fields_of(body@),
{
    let pieces = split_chars(body, ',');
    let ghost parts = split(body@, ',').map_values(|p: Seq<char>| split(p, ':'));
    let mut out: Vec<Vec<Vec<char>>> = Vec::new();
    let mut k: usize = 0;
    while k < pieces.len()
        invariant
            k <= pieces.len(),
            views(pieces@) == split(body@, ','),
            parts == split(body@, ',').map_values(|p: Seq<char>| split(p, ':')),
            fields_view(out@) == parts.take(k as int),
        decreases pieces.len() - k,
    {
        let pairs = split_chars(&pieces[k], ':');
        assert(pieces[k as int]@ == views(pieces@)[k as int]);
        let ghost before_out = out@;
        out.push(pairs);
        assert(fields_view(out@) =~= fields_view(before_out).push(views(pairs@)));
        assert(parts.take(k + 1) =~= parts.take(k as int).push(parts[k as int]));
        k = k + 1;
    }
    assert(parts.take(k as int) =~= parts);
    assert(fields_view(out@) =~= parts);
    if out.len() == 2 {
        let ghost before_out = out@;
        let mut blank: Vec<Vec<char>> = Vec::new();
        blank.push(Vec::new());
        blank.push(Vec::new());
        assert(views(blank@) =~= seq![Seq::<char>::empty(), Seq::<char>::empty()]);
        out.push(blank);
        assert(fields_view(out@) =~= fields_view(before_out).push(
            seq![Seq::<char>::empty(), Seq::<char>::empty()],
        ));
    }
    out
}

/// Reads a frame into a request, or says why it cannot be read.
pub fn parse_request(raw: &str) -> (r: Result<Request, ParseFailure>)
    ensures
        match frame_of(raw@) {
            Ok(m) => r is Ok && r->Ok_0@ == m,
            Err(e) => r == Err::<Request, ParseFailure>(e),
        },
{
    let cs = chars_of(raw);
    let body = match body_of(&cs) {
        Some(b) => b,
        None => {
            return Err(ParseFailure::NoPayload);
        },
    };
    let fields = fields_from(&body);
    if !json_format_is_valid(&fields) {
        return Err(ParseFailure::MalformedPayload);
    }
    let ghost f = fields_view(fields@);
    let (c, i, p) = key_order(&fields);
    proof {
        assert(f[c as int].len() == 2 && f[i as int].len() == 2 && f[p as int].len() == 2);
        lemma_field(fields@, c as int);
        lemma_field(fields@, i as int);
        lemma_field(fields@, p as int);
        assert(f[c as int][1] == fields[c as int][1]@);
        assert(f[i as int][1] == fields[i as int][1]@);
        assert(f[p as int][1] == fields[p as int][1]@);
    }
    let content_field = &fields[c][1];
    let instr_field = &fields[i][1];
    let path_field = &fields[p][1];
    assert(content_field@.subrange(0, content_field.len() as int) =~= content_field@);
    assert(instr_field@.subrange(0, instr_field.len() as int) =~= instr_field@);
    assert(path_field@.subrange(0, path_field.len() as int) =~= path_field@);
    let content = trimmed(content_field, 0, content_field.len());
    let text = if content.as_str().is_empty() {
        None
    } else {
        Some(content)
    };
    Ok(
        Request {
            instruction: trimmed(instr_field, 0, instr_field.len()),
            path: trimmed(path_field, 0, path_field.len()),
            text,
            method: method_of(&cs),
        },
    )
}

/// Reads a frame into its instruction, path, optional text and method, or
/// `None` where it cannot be read.
pub fn parse_json(json_like: &str) -> (r: Option<(String, String, Option<String>, String)>)
    ensures
        match frame_of(json_like@) {
            Ok(m) => match r {
                Some(t) => t.0@ == m.instruction && t.1@ == m.path && opt_view(t.2) == m.text
                    && t.3@ == m.method,
                None => false,
            },
            Err(_) => r is None,
        },
{
    match parse_request(json_like) {
        Ok(req) => Some((req.instruction, req.path, req.text, req.method)),
        Err(_) => None,
    }
}

} // verus!

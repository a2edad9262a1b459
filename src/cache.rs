//! The response cache: the content of earlier reads, keyed by instruction
//! and path, and dropped whenever a path they depend on is changed.

use vstd::prelude::*;
use crate::protocol::Instruction;
use crate::text::{chars_of, same_text, starts_with};

verus! {

/// `p` is the directory path `dir` itself or lies under it.
pub open spec fn within(p: Seq<char>, dir: Seq<char>) -> bool {
    &&& dir.is_prefix_of(p)
    &&& {
        ||| p.len() == dir.len()
        ||| p[dir.len() as int] == '/'
        ||| (dir.len() > 0 && dir.last() == '/')
    }
}

/// One of `p` and `q` lies within the other: a change at either can change
/// what a read of the other returns.
pub open spec fn related(p: Seq<char>, q: Seq<char>) -> bool {
    within(p, q) || within(q, p)
}

/// One remembered read.
struct CacheEntry {
    instruction: Instruction,
    path: String,
    content: String,
    length: usize,
}

/// The key of an entry: its instruction and its path.
spec fn key_of(e: CacheEntry) -> (Instruction, Seq<char>) {
    (e.instruction, e.path@)
}

/// The value of an entry: its content and its length.
spec fn value_of(e: CacheEntry) -> (Seq<char>, usize) {
    (e.content@, e.length)
}

/// The map that a list of entries stands for; a later entry overrides an
/// earlier one of the same key.
spec fn map_of(s: Seq<CacheEntry>) -> Map<(Instruction, Seq<char>), (Seq<char>, usize)>
    decreases s.len(),
{
    if s.len() == 0 {
        Map::empty()
    } else {
        map_of(s.drop_last()).insert(key_of(s.last()), value_of(s.last()))
    }
}

/// Which keys a pass over the entries removes: with an instruction, that
/// key alone; without one, every key whose path is related to `path`.
spec fn doomed(k: (Instruction, Seq<char>), instr: Option<Instruction>, path: Seq<char>) -> bool {
    match instr {
        Some(i) => k == (i, path),
        None => related(k.1, path),
    }
}

/// The entries that a pass keeps, in their order.
spec fn kept(s: Seq<CacheEntry>, instr: Option<Instruction>, path: Seq<char>) -> Seq<
    CacheEntry,
>
    decreases s.len(),
{
    if s.len() == 0 {
        s
    } else if doomed(key_of(s.last()), instr, path) {
        kept(s.drop_last(), instr, path)
    } else {
        kept(s.drop_last(), instr, path).push(s.last())
    }
}

proof fn lemma_kept_map(s: Seq<CacheEntry>, instr: Option<Instruction>, path: Seq<char>)
    ensures
        map_of(kept(s, instr, path)) =~= map_of(s).filter_keys(
            |k: (Instruction, Seq<char>)| !doomed(k, instr, path),
        ),
    decreases s.len(),
{
    if s.len() > 0 {
        lemma_kept_map(s.drop_last(), instr, path);
        let k = key_of(s.last());
        if !doomed(k, instr, path) {
            let t = kept(s.drop_last(), instr, path);
            assert(kept(s, instr, path).drop_last() =~= t);
        }
    }
}

/// The cache of read responses.
pub struct ResponseCache {
    entries: Vec<CacheEntry>,
}

impl View for ResponseCache {
    type V = Map<(Instruction, Seq<char>), (Seq<char>, usize)>;

    closed spec fn view(&self) -> Self::V {
        map_of(self.entries@)
    }
}

/// Whether `p` is the directory path `dir` or lies under it.
fn is_within(p: &Vec<char>, dir: &Vec<char>) -> (r: bool)
    ensures
        r == within(p@, dir@),
{
    if !starts_with(p, dir) {
        return false;
    }
    p.len() == dir.len() || p[dir.len()] == '/' || (dir.len() > 0 && dir[dir.len() - 1] == '/')
}

impl ResponseCache {
    /// An empty cache.
    pub fn new() -> (r: ResponseCache)
        ensures
            r@ == Map::<(Instruction, Seq<char>), (Seq<char>, usize)>::empty(),
    {
        ResponseCache { entries: Vec::new() }
    }

    /// The content and length remembered for `instruction` on `path`, if any.
    pub fn lookup(&self, instruction: Instruction, path: &str) -> (r: Option<(String, usize)>)
        ensures
            r is Some <==> self@.contains_key((instruction, path@)),
            match r {
                Some(v) => (v.0@, v.1) == self@[(instruction, path@)],
                None => true,
            },
    {
        let ghost s = self.entries@;
        let mut i: usize = self.entries.len();
        assert(s.take(s.len() as int) =~= s);
        while i > 0
            invariant
                i <= s.len(),
                s == self.entries@,
                map_of(s).contains_key((instruction, path@)) == map_of(s.take(i as int)).contains_key(
                    (instruction, path@),
                ),
                map_of(s).contains_key((instruction, path@)) ==> map_of(s)[(instruction, path@)]
                    == map_of(s.take(i as int))[(instruction, path@)],
            decreases i,
        {
            let e = &self.entries[i - 1];
            assert(s.take(i as int).drop_last() =~= s.take(i - 1));
            if e.instruction == instruction && same_text(e.path.as_str(), path) {
                return Some((e.content.clone(), e.length));
            }
            i = i - 1;
        }
        None
    }

    /// Removes the entries that `doomed` names.
    fn drop_where(&mut self, instr: Option<Instruction>, path: &str)
        ensures
            final(self)@ == old(self)@.filter_keys(
                |k: (Instruction, Seq<char>)| !doomed(k, instr, path@),
            ),
    {
        let ghost orig = self.entries@;
        let target = chars_of(path);
        let mut i: usize = 0;
        let mut j: usize = 0;
        assert(orig.take(0) =~= Seq::<CacheEntry>::empty());
        assert(orig.skip(0) =~= orig);
        assert(orig.len() == self.entries.len());
        while i < self.entries.len()
            invariant
                j <= orig.len() <= usize::MAX,
                target@ == path@,
                self.entries@ == kept(orig.take(j as int), instr, path@) + orig.skip(j as int),
                i == kept(orig.take(j as int), instr, path@).len(),
            decreases self.entries.len() - i,
        {
            let ghost before = self.entries@;
            assert(before.len() == i + (orig.len() - j));
            assert(j < orig.len());
            assert(before[i as int] == orig[j as int]);
            assert(orig.take(j + 1).drop_last() =~= orig.take(j as int));
            assert(orig.skip(j as int).drop_first() =~= orig.skip(j + 1));
            let e = &self.entries[i];
            let gone = match instr {
                Some(want) => e.instruction == want && same_text(e.path.as_str(), path),
                None => {
                    let p = chars_of(e.path.as_str());
                    is_within(&p, &target) || is_within(&target, &p)
                },
            };
            assert(gone == doomed(key_of(orig[j as int]), instr, path@));
            if gone {
                self.entries.remove(i);
                assert(self.entries@ =~= kept(orig.take(j + 1), instr, path@) + orig.skip(j + 1));
            } else {
                assert(self.entries@ =~= kept(orig.take(j + 1), instr, path@) + orig.skip(j + 1));
                i = i + 1;
            }
            j = j + 1;
        }
        assert(orig.take(j as int) =~= orig);
        assert(self.entries@ =~= kept(orig, instr, path@));
        proof {
            lemma_kept_map(orig, instr, path@);
        }
    }

    /// Remembers `content` of `length` as what `instruction` on `path`
    /// returned, in place of anything remembered for that key before.
    pub fn record(&mut self, instruction: Instruction, path: String, content: String, length: usize)
        ensures
            final(self)@ == old(self)@.insert((instruction, path@), (content@, length)),
    {
        self.drop_where(Some(instruction), path.as_str());
        let ghost mid = self.entries@;
        let ghost old_map = old(self)@;
        self.entries.push(CacheEntry { instruction, path, content, length });
        assert(self.entries@.drop_last() =~= mid);
        assert(self@ =~= old_map.insert((instruction, path@), (content@, length)));
    }

    /// Forgets every entry whose path is related to `path`: the path itself,
    /// what lies under it, and the directories it lies in.
    pub fn invalidate(&mut self, path: &str)
        ensures
            final(self)@ == old(self)@.filter_keys(
                |k: (Instruction, Seq<char>)| !related(k.1, path@),
            ),
    {
        self.drop_where(None, path);
        assert(self@ =~= old(self)@.filter_keys(
            |k: (Instruction, Seq<char>)| !related(k.1, path@),
        ));
    }
}

} // verus!

//! Mapping a code address to the function that contains it, through a table of
//! function starts sorted by offset and a blob of NUL-terminated names.

use vstd::prelude::*;

verus! {

/// One function start: its offset from the start of the code segment, and the
/// offset of its NUL-terminated name in the string blob.
#[derive(Clone, Copy, Debug, PartialEq, Eq, Structural)]
pub struct SymbolEntry {
    pub code_offset: u32,
    pub name_offset: u32,
}

/// Index of the last entry of `s` whose start is at or below `off`, or -1
/// when every entry starts above `off`.
pub open spec fn last_start_at_or_below(s: Seq<SymbolEntry>, off: int) -> int
    decreases s.len(),
{
    if s.len() == 0 {
        -1
    } else if s.last().code_offset <= off {
        s.len() - 1
    } else {
        last_start_at_or_below(s.drop_last(), off)
    }
}

/// Index of the first NUL byte of `s` at or after `start`, if any.
pub open spec fn first_nul_from(s: Seq<u8>, start: int) -> Option<int>
    decreases s.len() - start,
{
    if start < 0 || start >= s.len() {
        None
    } else if s[start] == 0 {
        Some(start)
    } else {
        first_nul_from(s, start + 1)
    }
}

/// The name stored at `start` in the string blob `s`: the bytes up to, not
/// including, the first NUL; `None` when no NUL follows before the end.
pub open spec fn name_at(s: Seq<u8>, start: int) -> Option<Seq<u8>> {
    match first_nul_from(s, start) {
        Some(end) => Some(s.subrange(start, end)),
        None => None,
    }
}

/// The entries are in ascending order of `code_offset`.
pub open spec fn sorted(s: Seq<SymbolEntry>) -> bool {
    forall|i: int, j: int| 0 <= i <= j < s.len() ==> s[i].code_offset <= s[j].code_offset
}

/// The symbol tables of one image, with the start of its code segment.
pub struct Symbolizer {
    text_start: usize,
    symbols: Option<Vec<SymbolEntry>>,
    strings: Vec<u8>,
}

impl Symbolizer {
    pub closed spec fn spec_text_start(&self) -> int {
        self.text_start as int
    }

    /// The symbol table, or `None` when it is absent.
    pub closed spec fn spec_symbols(&self) -> Option<Seq<SymbolEntry>> {
        match self.symbols {
            Some(v) => Some(v@),
            None => None,
        }
    }

    pub closed spec fn spec_strings(&self) -> Seq<u8> {
        self.strings@
    }

    pub open spec fn wf(&self) -> bool {
        match self.spec_symbols() {
            Some(s) => sorted(s),
            None => true,
        }
    }

    /// What `resolve` returns for the address `pc`: the name of the function
    /// that contains it and the distance from that function's start.
    pub open spec fn resolve_spec(&self, pc: int) -> Option<(Seq<u8>, int)> {
        match self.spec_symbols() {
            None => None,
            Some(s) => {
                let off = pc - self.spec_text_start();
                let i = last_start_at_or_below(s, off);
                if off < 0 || i < 0 {
                    None
                } else {
                    match name_at(self.spec_strings(), s[i].name_offset as int) {
                        Some(name) => Some((name, off - s[i].code_offset)),
                        None => None,
                    }
                }
            },
        }
    }

    /// Builds the tables of an image whose code segment starts at
    /// `text_start`. A symbol table that is not in ascending order cannot be
    /// searched and is treated as absent.
    pub fn new(text_start: usize, symbols: Option<Vec<SymbolEntry>>, strings: Vec<u8>) -> (r:
        Symbolizer)
        ensures
            r.wf(),
            r.spec_text_start() == text_start,
            r.spec_strings() == strings@,
            r.spec_symbols() == (match symbols {
                Some(v) => if sorted(v@) {
                    Some(v@)
                } else {
                    None
                },
                None => None,
            }),
    {
        let symbols = match symbols {
            Some(v) => if is_sorted(&v) {
                Some(v)
            } else {
                None
            },
            None => None,
        };
        Symbolizer { text_start, symbols, strings }
    }

    /// Maps the code address `pc` to the name of the function that contains
    /// it and the offset of `pc` into that function.
    pub fn resolve(&self, pc: usize) -> (r: Option<(Vec<u8>, usize)>)
        requires
            self.wf(),
        ensures
            match r {
                Some((name, inner)) => self.resolve_spec(pc as int) == Some((name@, inner as int)),
                None => self.resolve_spec(pc as int) is None,
            },
    {
        let symbols = match &self.symbols {
            Some(v) => v,
            None => return None,
        };
        if pc < self.text_start {
            return None;
        }
        let off: usize = pc - self.text_start;
        let p = partition_point(symbols, off);
        if p == 0 {
            return None;
        }
        let entry = symbols[p - 1];
        match name_from(&self.strings, entry.name_offset as usize) {
            Some(name) => Some((name, off - entry.code_offset as usize)),
            None => None,
        }
    }
}

/// An address below the start of the code segment never resolves.
pub proof fn lemma_below_text_start(t: Symbolizer, pc: int)
    requires
        pc < t.spec_text_start(),
    ensures
        t.resolve_spec(pc) is None,
{
}

/// An address that lies before the start of the first function of a non-empty
/// table never resolves.
pub proof fn lemma_before_first_entry(t: Symbolizer, pc: int)
    requires
        t.wf(),
        t.spec_symbols() is Some,
        t.spec_symbols()->0.len() > 0,
        pc - t.spec_text_start() < t.spec_symbols()->0[0].code_offset,
    ensures
        t.resolve_spec(pc) is None,
{
    let s = t.spec_symbols()->0;
    let off = pc - t.spec_text_start();
    if off >= 0 {
        assert forall|i: int| 0 <= i < s.len() implies s[i].code_offset > off by {
            assert(s[0].code_offset <= s[i].code_offset);
        }
        lemma_last_start(s, off, 0);
    }
}

/// An address from the start of entry `i` up to, not including, the start of
/// entry `i + 1` (or any address from the start of the last entry on) resolves
/// to the name of entry `i`, at its distance from that entry's start, as long
/// as that name is terminated within the string blob.
pub proof fn lemma_owning_entry(t: Symbolizer, pc: int, i: int)
    requires
        t.wf(),
        t.spec_symbols() is Some,
        0 <= i < t.spec_symbols()->0.len(),
        t.spec_text_start() + t.spec_symbols()->0[i].code_offset <= pc,
        i + 1 < t.spec_symbols()->0.len() ==> pc < t.spec_text_start()
            + t.spec_symbols()->0[i + 1].code_offset,
        name_at(t.spec_strings(), t.spec_symbols()->0[i].name_offset as int) is Some,
    ensures
        t.resolve_spec(pc) == Some(
            (
                name_at(t.spec_strings(), t.spec_symbols()->0[i].name_offset as int)->0,
                pc - t.spec_text_start() - t.spec_symbols()->0[i].code_offset,
            ),
        ),
{
    let s = t.spec_symbols()->0;
    let off = pc - t.spec_text_start();
    assert forall|j: int| 0 <= j < i + 1 implies s[j].code_offset <= off by {
        assert(s[j].code_offset <= s[i].code_offset);
    }
    assert forall|j: int| i + 1 <= j < s.len() implies s[j].code_offset > off by {
        assert(s[i + 1].code_offset <= s[j].code_offset);
    }
    lemma_last_start(s, off, i + 1);
}

/// Without a symbol table no address resolves.
pub proof fn lemma_absent_table(t: Symbolizer, pc: int)
    requires
        t.spec_symbols() is None,
    ensures
        t.resolve_spec(pc) is None,
{
}

/// An address whose owning entry names an offset with no NUL after it before
/// the end of the string blob does not resolve.
pub proof fn lemma_unterminated_name(t: Symbolizer, pc: int)
    requires
        t.spec_symbols() is Some,
        pc >= t.spec_text_start(),
        last_start_at_or_below(t.spec_symbols()->0, pc - t.spec_text_start()) >= 0,
        first_nul_from(
            t.spec_strings(),
            t.spec_symbols()->0[last_start_at_or_below(
                t.spec_symbols()->0,
                pc - t.spec_text_start(),
            )].name_offset as int,
        ) is None,
    ensures
        t.resolve_spec(pc) is None,
{
}

/// Tells whether `v` is in ascending order of `code_offset`.
pub fn is_sorted(v: &Vec<SymbolEntry>) -> (r: bool)
    ensures
        r == sorted(v@),
{
    let mut i: usize = 1;
    if v.len() == 0 {
        return true;
    }
    while i < v.len()
        invariant
            1 <= i <= v.len(),
            sorted(v@.subrange(0, i as int)),
        decreases v.len() - i,
    {
        if v[i - 1].code_offset > v[i].code_offset {
            assert(!sorted(v@)) by {
                assert(v@[i - 1].code_offset > v@[i as int].code_offset);
            }
            return false;
        }
        assert forall|a: int, b: int| 0 <= a <= b < i + 1 implies v@[a].code_offset
            <= v@[b].code_offset by {
            if b < i {
                assert(v@.subrange(0, i as int)[a] == v@[a]);
                assert(v@.subrange(0, i as int)[b] == v@[b]);
            } else if a < b {
                assert(v@.subrange(0, i as int)[a] == v@[a]);
                assert(v@.subrange(0, i as int)[i - 1] == v@[i - 1]);
            }
        }
        i = i + 1;
    }
    assert(v@.subrange(0, v.len() as int) =~= v@);
    true
}

/// With the entries before `p` starting at or below `off` and those from `p`
/// on starting above it, the last entry at or below `off` is `p - 1`.
proof fn lemma_last_start(s: Seq<SymbolEntry>, off: int, p: int)
    requires
        0 <= p <= s.len(),
        forall|i: int| 0 <= i < p ==> s[i].code_offset <= off,
        forall|i: int| p <= i < s.len() ==> s[i].code_offset > off,
    ensures
        last_start_at_or_below(s, off) == p - 1,
    decreases s.len(),
{
    if s.len() > 0 && p < s.len() {
        let t = s.drop_last();
        assert forall|i: int| 0 <= i < p implies t[i].code_offset <= off by {
            assert(t[i] == s[i]);
        }
        assert forall|i: int| p <= i < t.len() implies t[i].code_offset > off by {
            assert(t[i] == s[i]);
        }
        lemma_last_start(t, off, p);
    }
}

/// Number of leading entries of the sorted table `v` that start at or below
/// `off`, found by binary search.
fn partition_point(v: &Vec<SymbolEntry>, off: usize) -> (p: usize)
    requires
        sorted(v@),
    ensures
        p <= v.len(),
        p as int - 1 == last_start_at_or_below(v@, off as int),
        forall|i: int| 0 <= i < p ==> v@[i].code_offset <= off,
        forall|i: int| p <= i < v.len() ==> v@[i].code_offset > off,
{
    let mut lo: usize = 0;
    let mut hi: usize = v.len();
    while lo < hi
        invariant
            lo <= hi <= v.len(),
            sorted(v@),
            forall|i: int| 0 <= i < lo ==> v@[i].code_offset <= off,
            forall|i: int| hi <= i < v.len() ==> v@[i].code_offset > off,
        decreases hi - lo,
    {
        let mid = lo + (hi - lo) / 2;
        if v[mid].code_offset as usize <= off {
            assert forall|i: int| 0 <= i < mid + 1 implies v@[i].code_offset <= off by {
                assert(v@[i].code_offset <= v@[mid as int].code_offset);
            }
            lo = mid + 1;
        } else {
            assert forall|i: int| mid <= i < v.len() implies v@[i].code_offset > off by {
                assert(v@[mid as int].code_offset <= v@[i].code_offset);
            }
            hi = mid;
        }
    }
    proof {
        lemma_last_start(v@, off as int, lo as int);
    }
    lo
}

/// The name that starts at `start` in the string blob `strings`, copied out.
fn name_from(strings: &Vec<u8>, start: usize) -> (r: Option<Vec<u8>>)
    ensures
        match r {
            Some(name) => name_at(strings@, start as int) == Some(name@),
            None => name_at(strings@, start as int) is None,
        },
{
    let mut i: usize = start;
    let mut name: Vec<u8> = Vec::new();
    while i < strings.len()
        invariant
            start <= i,
            first_nul_from(strings@, start as int) == first_nul_from(strings@, i as int),
            i <= strings.len() ==> name@ == strings@.subrange(start as int, i as int),
            forall|k: int| start <= k < i ==> strings@[k] != 0,
        decreases strings.len() - i,
    {
        if strings[i] == 0 {
            return Some(name);
        }
        name.push(strings[i]);
        assert(name@ =~= strings@.subrange(start as int, i + 1));
        i = i + 1;
    }
    None
}

} // verus!

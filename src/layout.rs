//! The link-time image layout: the words that locate the unwind metadata and
//! the optional symbol and string tables, and the records of the symbol table.

use vstd::prelude::*;
use crate::symbols::SymbolEntry;

verus! {

/// Bytes per record of the symbol table.
pub const SYMBOL_RECORD_SIZE: usize = 8;

/// Location and extent of the unwind metadata blob.
#[derive(Clone, Copy, Debug, PartialEq, Eq, Structural)]
pub struct UnwindHeader {
    pub data_start: u64,
    pub data_length: u64,
}

/// The addresses that the linker resolves for the panic path. A start of
/// zero marks a table that was not linked in.
#[derive(Clone, Copy, Debug, PartialEq, Eq, Structural)]
pub struct LinkTables {
    pub header: UnwindHeader,
    pub sym_start: u64,
    pub sym_end: u64,
    pub str_start: u64,
    pub str_end: u64,
}

/// The little-endian value of the four bytes of `b` from `i` on.
pub open spec fn u32_le(b: Seq<u8>, i: int) -> int {
    b[i] + 256 * b[i + 1] + 65536 * b[i + 2] + 16777216 * b[i + 3]
}

/// The records of a symbol table laid out in `b`: eight bytes each, the code
/// offset then the name offset; trailing bytes that make no whole record are
/// not part of the table.
pub open spec fn decoded_symbols(b: Seq<u8>) -> Seq<SymbolEntry> {
    Seq::new(
        (b.len() / 8) as nat,
        |k: int|
            SymbolEntry {
                code_offset: u32_le(b, 8 * k) as u32,
                name_offset: u32_le(b, 8 * k + 4) as u32,
            },
    )
}

impl LinkTables {
    /// Reads the tables from the words of the image: the unwind header's two
    /// words, then, in the layout with symbols, the start and end of the
    /// symbol table and of the string blob. Fewer than two words is no header
    /// at all; any count but two or six leaves symbolication out.
    pub fn from_words(words: &[u64]) -> (r: Option<LinkTables>)
        ensures
            words@.len() < 2 <==> r is None,
            r is Some ==> r->0.header == (UnwindHeader {
                data_start: words@[0],
                data_length: words@[1],
            }),
            r is Some && words@.len() == 6 ==> r->0.sym_start == words@[2] && r->0.sym_end
                == words@[3] && r->0.str_start == words@[4] && r->0.str_end == words@[5],
            r is Some && words@.len() != 6 ==> r->0.sym_start == 0 && r->0.sym_end == 0
                && r->0.str_start == 0 && r->0.str_end == 0,
    {
        if words.len() < 2 {
            return None;
        }
        let header = UnwindHeader { data_start: words[0], data_length: words[1] };
        if words.len() == 6 {
            Some(
                LinkTables {
                    header,
                    sym_start: words[2],
                    sym_end: words[3],
                    str_start: words[4],
                    str_end: words[5],
                },
            )
        } else {
            Some(LinkTables { header, sym_start: 0, sym_end: 0, str_start: 0, str_end: 0 })
        }
    }

    /// Number of records in the symbol table, or `None` when the table is
    /// absent: its start is null or its bounds are reversed.
    pub fn symbol_count(&self) -> (r: Option<u64>)
        ensures
            r == (if self.sym_start == 0 || self.sym_end < self.sym_start {
                None::<u64>
            } else {
                Some(((self.sym_end - self.sym_start) / 8) as u64)
            }),
    {
        if self.sym_start == 0 || self.sym_end < self.sym_start {
            None
        } else {
            Some((self.sym_end - self.sym_start) / 8)
        }
    }

    /// Length in bytes of the string blob; zero when it is absent.
    pub fn string_len(&self) -> (r: u64)
        ensures
            r == (if self.str_start == 0 || self.str_end < self.str_start {
                0
            } else {
                self.str_end - self.str_start
            }),
    {
        if self.str_start == 0 || self.str_end < self.str_start {
            0
        } else {
            self.str_end - self.str_start
        }
    }
}

/// The little-endian `u32` at `i` in `b`.
fn read_u32_le(b: &[u8], i: usize) -> (r: u32)
    requires
        i + 4 <= b@.len(),
    ensures
        r == u32_le(b@, i as int),
{
    b[i] as u32 + 256 * (b[i + 1] as u32) + 65536 * (b[i + 2] as u32) + 16777216 * (
    b[i + 3] as u32)
}

/// Decodes the records of a symbol table from its bytes.
pub fn decode_symbols(b: &[u8]) -> (r: Vec<SymbolEntry>)
    ensures
        r@ == decoded_symbols(b@),
{
    let len: usize = b.len();
    let n: usize = len / SYMBOL_RECORD_SIZE;
    let mut out: Vec<SymbolEntry> = Vec::new();
    let mut k: usize = 0;
    while k < n
        invariant
            n == b@.len() / 8,
            len == b@.len(),
            k <= n,
            out@ =~= decoded_symbols(b@).subrange(0, k as int),
        decreases n - k,
    {
        assert(8 * k + 8 <= b@.len()) by (nonlinear_arith)
            requires
                k < n,
                n == b@.len() / 8,
        ;
        let e = SymbolEntry {
            code_offset: read_u32_le(b, 8 * k),
            name_offset: read_u32_le(b, 8 * k + 4),
        };
        out.push(e);
        k = k + 1;
    }
    out
}

} // verus!

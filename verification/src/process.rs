//! One process of a snapshot, and the orders in which processes are listed.

use crate::text::{bytes_le, contains_chars, contains_text, decimal_chars, decimal_of, lex_le,
    lemma_lex_le_reflexive, lemma_lex_le_total, lemma_lex_le_transitive, lowercase_of};
use vstd::prelude::*;
use vstd::utf8::encode_utf8;

verus! {

/// What a snapshot holds of one process.
///
/// The processor share is kept as the bit pattern of a single-precision
/// number, so that it can be ordered exactly and handed back unchanged.
#[derive(Clone, Debug)]
pub struct ProcessRecord {
    pub pid: u32,
    pub name: String,
    pub memory_bytes: u64,
    pub cpu_percent_bits: u32,
    pub run_time_seconds: u64,
    pub virtual_memory_bytes: u64,
    pub executable_path: Option<String>,
    pub command_line: Vec<String>,
    pub owner_user_id: Option<u32>,
}

/// The column by which the process table is ordered.
#[derive(Clone, Copy, Debug, PartialEq, Eq, Structural)]
pub enum SortKey {
    Pid,
    Name,
    Memory,
    Cpu,
}

/// Position of a single-precision bit pattern in the total order of such
/// numbers: negative values below positive ones, larger magnitudes further
/// out, minus zero directly below plus zero.
pub open spec fn cpu_rank(bits: u32) -> int {
    if bits < 0x8000_0000u32 {
        bits as int
    } else {
        0x7FFF_FFFF - bits
    }
}

/// Computes `cpu_rank`.
pub fn cpu_rank_of(bits: u32) -> (r: i64)
    ensures
        r == cpu_rank(bits),
{
    if bits < 0x8000_0000u32 {
        bits as i64
    } else {
        0x7FFF_FFFFi64 - (bits as i64)
    }
}

/// The bytes by which a name is ordered: its UTF-8 form.
pub open spec fn name_bytes(record: ProcessRecord) -> Seq<u8> {
    encode_utf8(record.name@)
}

/// `a` is listed at or before `b` under `key`, when nothing but the key
/// column is looked at. Pids and names go upwards, memory and processor
/// share go downwards.
pub open spec fn ranks_at_or_before(key: SortKey, a: ProcessRecord, b: ProcessRecord) -> bool {
    match key {
        SortKey::Pid => a.pid <= b.pid,
        SortKey::Name => lex_le(name_bytes(a), name_bytes(b)),
        SortKey::Memory => a.memory_bytes >= b.memory_bytes,
        SortKey::Cpu => cpu_rank(a.cpu_percent_bits) >= cpu_rank(b.cpu_percent_bits),
    }
}

/// Decides `ranks_at_or_before`.
pub fn ranks_before(key: SortKey, a: &ProcessRecord, b: &ProcessRecord) -> (r: bool)
    ensures
        r == ranks_at_or_before(key, *a, *b),
{
    match key {
        SortKey::Pid => a.pid <= b.pid,
        SortKey::Name => bytes_le(a.name.as_str().as_bytes(), b.name.as_str().as_bytes()),
        SortKey::Memory => a.memory_bytes >= b.memory_bytes,
        SortKey::Cpu => cpu_rank_of(a.cpu_percent_bits) >= cpu_rank_of(b.cpu_percent_bits),
    }
}

/// Under every key the ranking compares any two records, each with itself,
/// and passes through a middle one.
pub proof fn lemma_ranking_is_total_preorder(key: SortKey)
    ensures
        forall|a: ProcessRecord| #[trigger] ranks_at_or_before(key, a, a),
        forall|a: ProcessRecord, b: ProcessRecord|
            #[trigger] ranks_at_or_before(key, a, b) || #[trigger] ranks_at_or_before(key, b, a),
        forall|a: ProcessRecord, b: ProcessRecord, c: ProcessRecord|
            #[trigger] ranks_at_or_before(key, a, b) && #[trigger] ranks_at_or_before(key, b, c)
                ==> ranks_at_or_before(key, a, c),
{
    assert forall|a: ProcessRecord| #[trigger] ranks_at_or_before(key, a, a) by {
        lemma_lex_le_reflexive(name_bytes(a));
    }
    assert forall|a: ProcessRecord, b: ProcessRecord|
        #[trigger] ranks_at_or_before(key, a, b) || #[trigger] ranks_at_or_before(key, b, a) by {
        lemma_lex_le_total(name_bytes(a), name_bytes(b));
    }
    assert forall|a: ProcessRecord, b: ProcessRecord, c: ProcessRecord|
        #[trigger] ranks_at_or_before(key, a, b) && #[trigger] ranks_at_or_before(
            key,
            b,
            c,
        ) implies ranks_at_or_before(key, a, c) by {
        if key == SortKey::Name {
            lemma_lex_le_transitive(name_bytes(a), name_bytes(b), name_bytes(c));
        }
    }
}

/// The record passes a filter whose lower-case form is `needle`: the
/// needle is part of the decimal pid or of the lower-case name.
pub open spec fn matches_needle(pid: u32, name_lower: Seq<char>, needle: Seq<char>) -> bool {
    contains_text(decimal_of(pid as nat), needle) || contains_text(name_lower, needle)
}

/// The record passes the filter text: an empty text lets every record pass,
/// any other is looked for, without regard to case, in the decimal pid and
/// in the name.
pub open spec fn record_matches(record: ProcessRecord, filter_text: Seq<char>) -> bool {
    filter_text.len() == 0 || matches_needle(
        record.pid,
        lowercase_of(record.name@),
        lowercase_of(filter_text),
    )
}

/// Decides `matches_needle` for a name and a needle that are already in
/// lower case.
pub fn matches_lowered(pid: u32, name_lower: &Vec<char>, needle: &Vec<char>) -> (r: bool)
    ensures
        r == matches_needle(pid, name_lower@, needle@),
{
    let digits = decimal_chars(pid as u64);
    contains_chars(&digits, needle) || contains_chars(name_lower, needle)
}

} // verus!

//! Reading the free graphics memory that `llama-server --list-devices` reports, and the
//! arithmetic that sizes the KV cache from a model's dimensions.
use vstd::prelude::*;

use crate::settings::AppSettings;
use crate::text::{
    ascii_lower, ascii_lower_char, chars_of, decimal, is_digit_char, lemma_decimal_digits,
    lemma_parse_decimal, unsigned_body, line_bounds, lines_seq, parse_u64_chars,
    parse_u64_spec, push_decimal, rfind_char, rfind_char_before, str_eq, trim_end_bound,
    trim_end_seq,
};

verus! {

/// The marker `"mib free"` that follows each free-memory figure, in lowercase.
pub open spec fn mib_free_marker() -> Seq<char> {
    seq!['m', 'i', 'b', ' ', 'f', 'r', 'e', 'e']
}

/// The marker occurs in `line` at character `i`, matched without regard to ASCII case (no
/// other character has one of the marker's letters as its lowercase).
pub open spec fn marker_at(line: Seq<char>, i: int) -> bool {
    0 <= i && i + 8 <= line.len() && ascii_lower(line.subrange(i, i + 8)) == mib_free_marker()
}

/// The number written before a marker: the last word of `prefix` once its trailing white
/// space is gone (the whole text when it holds no space), read as a `u64`.
pub open spec fn number_before(prefix: Seq<char>) -> Option<u64> {
    let t = trim_end_seq(prefix);
    match rfind_char_before(t, ' ', t.len() as int) {
        Some(k) => parse_u64_spec(t.subrange(k + 1, t.len() as int)),
        None => if t.len() > 0 {
            parse_u64_spec(t)
        } else {
            None
        },
    }
}

/// Walking back over digits, the search for a space ends at the space before them.
proof fn lemma_rfind_space_over_digits(s: Seq<char>, sp: int, k: int)
    requires
        0 <= sp < k <= s.len(),
        s[sp] == ' ',
        forall|j: int| sp < j < s.len() ==> is_digit_char(#[trigger] s[j]),
    ensures
        rfind_char_before(s, ' ', k) == Some(sp),
    decreases k,
{
    if k - 1 > sp {
        assert(is_digit_char(s[k - 1]));
        lemma_rfind_space_over_digits(s, sp, k - 1);
    }
}

/// The figure before a marker is the number written last, after a space: whatever text
/// comes before it, `"… N"` reads as `N`.
pub proof fn lemma_number_before_last_word(p: Seq<char>, n: u64)
    ensures
        number_before(p + seq![' '] + decimal(n as nat)) == Some(n),
{
    let d = decimal(n as nat);
    lemma_decimal_digits(n as nat);
    lemma_parse_decimal(n as nat, u64::MAX as nat);
    let s = p + seq![' '] + d;
    let sp = p.len() as int;
    assert(s[sp] == ' ');
    assert forall|j: int| sp < j < s.len() implies is_digit_char(#[trigger] s[j]) by {
        assert(s[j] == d[j - sp - 1]);
    }
    assert(is_digit_char(s.last()));
    assert(trim_end_seq(s) == s);
    lemma_rfind_space_over_digits(s, sp, s.len() as int);
    assert(s.subrange(sp + 1, s.len() as int) =~= d);
    assert(unsigned_body(d) == d);
}

/// The figures in front of the markers of `line` from character `i` on: the markers are
/// taken from left to right without overlap, and each one whose text before it ends in a
/// number gives that number.
pub open spec fn free_mibs_from(line: Seq<char>, i: int) -> Seq<u64>
    decreases line.len() - i,
{
    if i < 0 || i + 8 > line.len() {
        Seq::empty()
    } else if marker_at(line, i) {
        match number_before(line.subrange(0, i)) {
            Some(n) => seq![n] + free_mibs_from(line, i + 8),
            None => free_mibs_from(line, i + 8),
        }
    } else {
        free_mibs_from(line, i + 1)
    }
}

/// The figures in front of every `"MiB free"` of `line`, matched without regard to case.
pub open spec fn line_free_mibs(line: Seq<char>) -> Seq<u64> {
    free_mibs_from(line, 0)
}

/// Reads the number in front of a marker; `prefix` is the text before the marker.
fn number_before_exec(prefix: &str) -> (r: Option<u64>)
    ensures
        r == number_before(prefix@),
{
    let v = chars_of(prefix);
    let t = trim_end_bound(&v, 0, v.len());
    assert(v@.subrange(0, v@.len() as int) =~= v@);
    let ghost ts = v@.subrange(0, t as int);
    match rfind_char(&v, ' ', 0, t) {
        Some(k) => {
            proof {
                crate::text::lemma_rfind_char_before(ts, ' ', t as int);
            }
            assert(ts.subrange(k + 1, ts.len() as int) =~= v@.subrange(k + 1, t as int));
            parse_u64_chars(&v, k + 1, t)
        },
        None => {
            if t > 0 {
                parse_u64_chars(&v, 0, t)
            } else {
                None
            }
        },
    }
}

/// Whether the marker occurs in `v` at character `i` (see `marker_at`).
fn marker_at_exec(v: &Vec<char>, i: usize) -> (r: bool)
    requires
        i + 8 <= v@.len(),
    ensures
        r == marker_at(v@, i as int),
{
    let marker: Vec<char> = vec!['m', 'i', 'b', ' ', 'f', 'r', 'e', 'e'];
    assert(marker@ =~= mib_free_marker());
    let mut k: usize = 0;
    while k < 8
        invariant
            i + 8 <= v.len(),
            marker@ == mib_free_marker(),
            0 <= k <= 8,
            forall|j: int| 0 <= j < k ==> ascii_lower_char(#[trigger] v@[i + j]) == marker@[j],
        decreases 8 - k,
    {
        let c = v[i + k];
        let lc = if 'A' <= c && c <= 'Z' {
            ((c as u8) + 32) as char
        } else {
            c
        };
        if lc != marker[k] {
            assert(ascii_lower(v@.subrange(i as int, i + 8))[k as int] != mib_free_marker()[k as int]);
            return false;
        }
        k = k + 1;
    }
    let ghost sub = v@.subrange(i as int, i + 8);
    assert forall|j: int| 0 <= j < 8 implies ascii_lower(sub)[j] == mib_free_marker()[j] by {
        assert(sub[j] == v@[i + j]);
    }
    assert(ascii_lower(sub) =~= mib_free_marker());
    true
}

/// Every figure written as `"N MiB free"` in `line`, in order, matched without regard to case.
pub fn extract_all_free_mib_from_line(line: &str) -> (r: Vec<u64>)
    ensures
        r@ == line_free_mibs(line@),
{
    let v = chars_of(line);
    let mut results: Vec<u64> = Vec::new();
    let mut i: usize = 0;
    while i < v.len() && 8 <= v.len() - i
        invariant
            v@ == line@,
            line_free_mibs(line@) == results@ + free_mibs_from(line@, i as int),
        decreases v@.len() - i,
    {
        if marker_at_exec(&v, i) {
            let prefix = line.substring_char(0, i);
            let ghost rest = free_mibs_from(line@, i + 8);
            match number_before_exec(prefix) {
                Some(n) => {
                    let ghost old_results = results@;
                    results.push(n);
                    assert(old_results + (seq![n] + rest) =~= results@ + rest);
                },
                None => {},
            }
            i = i + 8;
        } else {
            i = i + 1;
        }
    }
    assert(free_mibs_from(line@, i as int) == Seq::<u64>::empty());
    assert(results@ + Seq::<u64>::empty() =~= results@);
    results
}

} // verus!

verus! {

/// The figures of all `lines`, line after line.
pub open spec fn lines_free_mibs(lines: Seq<Seq<char>>) -> Seq<u64>
    decreases lines.len(),
{
    if lines.len() == 0 {
        Seq::empty()
    } else {
        lines_free_mibs(lines.drop_last()) + line_free_mibs(lines.last())
    }
}

/// The sum of a sequence of figures.
pub open spec fn sum_of(s: Seq<u64>) -> nat
    decreases s.len(),
{
    if s.len() == 0 {
        0
    } else {
        sum_of(s.drop_last()) + s.last() as nat
    }
}

/// `n`, or `u64::MAX` where `n` does not fit.
pub open spec fn saturate(n: nat) -> u64 {
    if n > u64::MAX {
        u64::MAX
    } else {
        n as u64
    }
}

/// The total of all figures in the figures `found`: `None` when there are none, else their sum,
/// held at `u64::MAX` where it does not fit.
pub open spec fn total_of(found: Seq<u64>) -> Option<u64> {
    if found.len() > 0 {
        Some(saturate(sum_of(found)))
    } else {
        None
    }
}

/// The figures of a stretch of lines are those of its first part followed by those of the
/// rest.
pub proof fn lemma_lines_free_mibs_split(a: Seq<Seq<char>>, b: Seq<Seq<char>>)
    ensures
        lines_free_mibs(a + b) == lines_free_mibs(a) + lines_free_mibs(b),
    decreases b.len(),
{
    if b.len() == 0 {
        assert(a + b =~= a);
        assert(lines_free_mibs(a) + Seq::<u64>::empty() =~= lines_free_mibs(a));
    } else {
        lemma_lines_free_mibs_split(a, b.drop_last());
        assert((a + b).drop_last() =~= a + b.drop_last());
        assert((a + b).last() == b.last());
    }
}

/// A single line gives every one of its figures, in order, however many it holds.
pub proof fn lemma_one_line_gives_all_figures(line: Seq<char>)
    ensures
        lines_free_mibs(seq![line]) == line_free_mibs(line),
{
    let one = seq![line];
    assert(one.drop_last() =~= Seq::<Seq<char>>::empty());
    assert(one.last() == line);
    assert(lines_free_mibs(one.drop_last()) == Seq::<u64>::empty());
    assert(lines_free_mibs(one) == lines_free_mibs(one.drop_last()) + line_free_mibs(line));
    assert(Seq::<u64>::empty() + line_free_mibs(line) =~= line_free_mibs(line));
}

/// The sum of figures adds up over a split.
pub proof fn lemma_sum_of_split(a: Seq<u64>, b: Seq<u64>)
    ensures
        sum_of(a + b) == sum_of(a) + sum_of(b),
    decreases b.len(),
{
    if b.len() == 0 {
        assert(a + b =~= a);
    } else {
        lemma_sum_of_split(a, b.drop_last());
        assert((a + b).drop_last() =~= a + b.drop_last());
    }
}

/// The total of a listing counts every figure of every line: the figures of the lines
/// before the last, and all figures of the last line, each added in full.
pub proof fn lemma_total_counts_every_figure(lines: Seq<Seq<char>>)
    requires
        lines.len() > 0,
    ensures
        sum_of(lines_free_mibs(lines)) == sum_of(lines_free_mibs(lines.drop_last())) + sum_of(
            line_free_mibs(lines.last()),
        ),
        lines_free_mibs(lines).len() == lines_free_mibs(lines.drop_last()).len() + line_free_mibs(
            lines.last(),
        ).len(),
{
    let a = lines.drop_last();
    let b = seq![lines.last()];
    assert(lines =~= a + b);
    lemma_lines_free_mibs_split(a, b);
    lemma_one_line_gives_all_figures(lines.last());
    lemma_sum_of_split(lines_free_mibs(a), line_free_mibs(lines.last()));
}

/// The sum of every `"N MiB free"` figure in `text` (held at `u64::MAX`), or `None` when
/// there is none.
pub fn sum_all_free_mib(text: &str) -> (r: Option<u64>)
    ensures
        r == total_of(lines_free_mibs(lines_seq(text@))),
{
    let v = chars_of(text);
    let bounds = line_bounds(&v);
    let ghost lines = lines_seq(text@);
    let mut total: u64 = 0;
    let mut found: Vec<u64> = Vec::new();
    let mut i: usize = 0;
    while i < bounds.len()
        invariant
            v@ == text@,
            lines == lines_seq(text@),
            bounds@.len() == lines.len(),
            forall|j: int|
                0 <= j < bounds@.len() ==> {
                    &&& (#[trigger] bounds@[j]).0 <= bounds@[j].1 <= v@.len()
                    &&& v@.subrange(bounds@[j].0 as int, bounds@[j].1 as int) == lines[j]
                },
            0 <= i <= bounds@.len(),
            lines_free_mibs(lines.take(i as int)) == found@,
            total == saturate(sum_of(found@)),
        decreases bounds@.len() - i,
    {
        let (a, b) = bounds[i];
        let line = text.substring_char(a, b);
        assert(lines.take(i + 1).drop_last() =~= lines.take(i as int));
        assert(lines.take(i + 1).last() == lines[i as int]);
        let vals = extract_all_free_mib_from_line(line);
        let mut k: usize = 0;
        let ghost base = found@;
        while k < vals.len()
            invariant
                0 <= k <= vals@.len(),
                found@ == base + vals@.take(k as int),
                total == saturate(sum_of(found@)),
            decreases vals@.len() - k,
        {
            let ghost before = found@;
            total = total.saturating_add(vals[k]);
            found.push(vals[k]);
            assert(found@.drop_last() =~= before);
            assert(vals@.take(k + 1) =~= vals@.take(k as int).push(vals@[k as int]));
            k = k + 1;
        }
        assert(vals@.take(vals@.len() as int) =~= vals@);
        i = i + 1;
    }
    assert(lines.take(bounds@.len() as int) =~= lines);
    if found.len() > 0 {
        Some(total)
    } else {
        None
    }
}

/// What the device listing tells of the free graphics memory.
#[derive(Clone, Copy, Debug, PartialEq, Eq, Structural)]
pub enum FreeMemoryReading {
    /// The summed figures, in MiB.
    Total(u64),
    /// Neither output holds a figure.
    NotFound,
}

/// The outcome of reading the two outputs of the device listing: standard output first,
/// and the error output only where standard output holds no figure.
pub open spec fn free_memory_reading(stdout: Seq<char>, stderr: Seq<char>) -> FreeMemoryReading {
    match total_of(lines_free_mibs(lines_seq(stdout))) {
        Some(t) => FreeMemoryReading::Total(t),
        None => match total_of(lines_free_mibs(lines_seq(stderr))) {
            Some(t) => FreeMemoryReading::Total(t),
            None => FreeMemoryReading::NotFound,
        },
    }
}

/// Standard output decides when it holds a figure, whatever the error output says; the error
/// output is read only when standard output holds none; with no figure in either, nothing is
/// found.
pub proof fn lemma_stdout_first(stdout: Seq<char>, stderr: Seq<char>)
    ensures
        lines_free_mibs(lines_seq(stdout)).len() > 0 ==> free_memory_reading(stdout, stderr)
            == FreeMemoryReading::Total(saturate(sum_of(lines_free_mibs(lines_seq(stdout))))),
        lines_free_mibs(lines_seq(stdout)).len() == 0 && lines_free_mibs(lines_seq(stderr)).len()
            > 0 ==> free_memory_reading(stdout, stderr) == FreeMemoryReading::Total(
            saturate(sum_of(lines_free_mibs(lines_seq(stderr)))),
        ),
        lines_free_mibs(lines_seq(stdout)).len() == 0 && lines_free_mibs(lines_seq(stderr)).len()
            == 0 ==> free_memory_reading(stdout, stderr) == FreeMemoryReading::NotFound,
{
}

/// Reads the free graphics memory (MiB) from the outputs of `llama-server --list-devices`.
pub fn read_free_mib(stdout: &str, stderr: &str) -> (r: FreeMemoryReading)
    ensures
        r == free_memory_reading(stdout@, stderr@),
{
    match sum_all_free_mib(stdout) {
        Some(t) => FreeMemoryReading::Total(t),
        None => match sum_all_free_mib(stderr) {
            Some(t) => FreeMemoryReading::Total(t),
            None => FreeMemoryReading::NotFound,
        },
    }
}

} // verus!

verus! {

/// The dimensions of a model that the KV cache estimate needs, read from its GGUF header.
#[derive(Clone, Copy, Debug, PartialEq, Eq, Structural)]
pub struct GgufInfo {
    /// Number of transformer blocks (`{arch}.block_count`).
    pub block_count: usize,
    /// Number of key/value heads.
    pub kv_head_count: usize,
    /// Dimension of one head.
    pub head_dim: usize,
    /// Embedding width (`{arch}.embedding_length`).
    pub embedding_length: usize,
    /// Size of the model file in bytes.
    pub file_size: u64,
}

/// A metadata value of a GGUF header, as far as the estimate reads it.
#[derive(Clone, Debug, PartialEq, Eq)]
pub enum MetadataValue {
    /// A string value.
    Text(String),
    /// A value that reads as an unsigned 64-bit integer.
    Unsigned(u64),
    /// Any other value.
    Other,
}

/// Why the model dimensions could not be read from a header; each variant names the keys
/// that were tried.
#[derive(Clone, Debug, PartialEq, Eq)]
pub enum GgufError {
    /// `general.architecture` is missing or not a string.
    NoArchitecture,
    /// The block count is missing.
    NoBlockCount(String),
    /// No key/value head count under any of the three keys.
    NoKvHeadCount(String, String, String),
    /// No head dimension under either key.
    NoHeadDim(String, String),
    /// The embedding width is missing.
    NoEmbeddingLength(String),
}

/// Index of the first entry whose key is `key`, from position `from` on.
pub open spec fn find_key(entries: Seq<(String, MetadataValue)>, key: Seq<char>, from: int) -> Option<int>
    decreases entries.len() - from,
{
    if from < 0 || from >= entries.len() {
        None
    } else if entries[from].0@ == key {
        Some(from)
    } else {
        find_key(entries, key, from + 1)
    }
}

/// The entry found first among `keys`, tried in order (`get(a).or_else(get(b))...`).
pub open spec fn find_first_key(entries: Seq<(String, MetadataValue)>, keys: Seq<Seq<char>>) -> Option<int>
    decreases keys.len(),
{
    if keys.len() == 0 {
        None
    } else {
        match find_key(entries, keys[0], 0) {
            Some(i) => Some(i),
            None => find_first_key(entries, keys.drop_first()),
        }
    }
}

/// The unsigned value of the entry at `idx`, if it holds one.
pub open spec fn unsigned_at(entries: Seq<(String, MetadataValue)>, idx: Option<int>) -> Option<u64> {
    match idx {
        Some(i) => match entries[i].1 {
            MetadataValue::Unsigned(n) => Some(n),
            _ => None,
        },
        None => None,
    }
}

/// The text of the entry at `idx`, if it holds one.
pub open spec fn text_at(entries: Seq<(String, MetadataValue)>, idx: Option<int>) -> Option<Seq<char>> {
    match idx {
        Some(i) => match entries[i].1 {
            MetadataValue::Text(s) => Some(s@),
            _ => None,
        },
        None => None,
    }
}

/// The unsigned value found first under `keys`.
pub open spec fn lookup_unsigned(entries: Seq<(String, MetadataValue)>, keys: Seq<Seq<char>>) -> Option<u64> {
    unsigned_at(entries, find_first_key(entries, keys))
}

/// The key `{arch}{suffix}`.
pub open spec fn arch_key(arch: Seq<char>, suffix: &str) -> Seq<char> {
    arch + suffix@
}

/// The model dimensions that a header yields, or the first that is missing.
pub open spec fn gguf_info_spec(entries: Seq<(String, MetadataValue)>, file_size: u64) -> Result<(usize, usize, usize, usize), GgufErrorKind> {
    match text_at(entries, find_key(entries, "general.architecture"@, 0)) {
        None => Err(GgufErrorKind::NoArchitecture),
        Some(arch) => {
            let block = lookup_unsigned(entries, seq![arch_key(arch, ".block_count")]);
            let heads = lookup_unsigned(
                entries,
                seq![
                    arch_key(arch, ".attention.key_head_count"),
                    arch_key(arch, ".attention.head_count_kv"),
                    arch_key(arch, ".attention.head_count"),
                ],
            );
            let dim = lookup_unsigned(
                entries,
                seq![arch_key(arch, ".head_dim"), arch_key(arch, ".attention.key_length")],
            );
            let emb = lookup_unsigned(entries, seq![arch_key(arch, ".embedding_length")]);
            if block is None {
                Err(GgufErrorKind::NoBlockCount)
            } else if heads is None {
                Err(GgufErrorKind::NoKvHeadCount)
            } else if dim is None {
                Err(GgufErrorKind::NoHeadDim)
            } else if emb is None {
                Err(GgufErrorKind::NoEmbeddingLength)
            } else {
                Ok(
                    (
                        block->0 as usize,
                        heads->0 as usize,
                        dim->0 as usize,
                        emb->0 as usize,
                    ),
                )
            }
        },
    }
}

/// The value found first under the keys `k1`, `k2`, `k3`, tried in that order: the value of
/// the first key that is present, if it is a number.
pub open spec fn first_present_unsigned(
    entries: Seq<(String, MetadataValue)>,
    k1: Seq<char>,
    k2: Seq<char>,
    k3: Seq<char>,
) -> Option<u64> {
    if find_key(entries, k1, 0) is Some {
        unsigned_at(entries, find_key(entries, k1, 0))
    } else if find_key(entries, k2, 0) is Some {
        unsigned_at(entries, find_key(entries, k2, 0))
    } else {
        unsigned_at(entries, find_key(entries, k3, 0))
    }
}

/// In a header that names its architecture `arch` and gives the block count `b` and the
/// embedding width `e`, the key/value head count is the number under the first present key of
/// `attention.key_head_count`, `attention.head_count_kv`, `attention.head_count`, and the head
/// dimension the number under the first present key of `head_dim`, `attention.key_length`;
/// where one of them yields no number, that dimension is reported missing.
pub proof fn lemma_gguf_fallback_keys(
    entries: Seq<(String, MetadataValue)>,
    file_size: u64,
    arch: Seq<char>,
    b: u64,
    e: u64,
)
    requires
        text_at(entries, find_key(entries, "general.architecture"@, 0)) == Some(arch),
        unsigned_at(entries, find_key(entries, arch + ".block_count"@, 0)) == Some(b),
        unsigned_at(entries, find_key(entries, arch + ".embedding_length"@, 0)) == Some(e),
    ensures
        ({
            let heads = first_present_unsigned(
                entries,
                arch + ".attention.key_head_count"@,
                arch + ".attention.head_count_kv"@,
                arch + ".attention.head_count"@,
            );
            let dim = if find_key(entries, arch + ".head_dim"@, 0) is Some {
                unsigned_at(entries, find_key(entries, arch + ".head_dim"@, 0))
            } else {
                unsigned_at(entries, find_key(entries, arch + ".attention.key_length"@, 0))
            };
            gguf_info_spec(entries, file_size) == match (heads, dim) {
                (None, _) => Err(GgufErrorKind::NoKvHeadCount),
                (Some(_), None) => Err(GgufErrorKind::NoHeadDim),
                (Some(h), Some(d)) => Ok((b as usize, h as usize, d as usize, e as usize)),
            }
        }),
{
    reveal_with_fuel(find_first_key, 4);
    let k1 = arch + ".attention.key_head_count"@;
    let k2 = arch + ".attention.head_count_kv"@;
    let k3 = arch + ".attention.head_count"@;
    let ks = seq![k1, k2, k3];
    assert(ks[0] == k1);
    assert(ks.drop_first() =~= seq![k2, k3]);
    assert(ks.drop_first()[0] == k2);
    assert(ks.drop_first().drop_first() =~= seq![k3]);
    assert(ks.drop_first().drop_first()[0] == k3);
    assert(ks.drop_first().drop_first().drop_first() =~= Seq::<Seq<char>>::empty());
    let d1 = arch + ".head_dim"@;
    let d2 = arch + ".attention.key_length"@;
    let ds = seq![d1, d2];
    assert(ds[0] == d1);
    assert(ds.drop_first() =~= seq![d2]);
    assert(ds.drop_first()[0] == d2);
    assert(ds.drop_first().drop_first() =~= Seq::<Seq<char>>::empty());
    let bs = seq![arch + ".block_count"@];
    assert(bs[0] == arch + ".block_count"@);
    assert(bs.drop_first() =~= Seq::<Seq<char>>::empty());
    let es = seq![arch + ".embedding_length"@];
    assert(es[0] == arch + ".embedding_length"@);
    assert(es.drop_first() =~= Seq::<Seq<char>>::empty());
    assert(arch_key(arch, ".attention.key_head_count") == k1);
    assert(arch_key(arch, ".attention.head_count_kv") == k2);
    assert(arch_key(arch, ".attention.head_count") == k3);
    assert(arch_key(arch, ".head_dim") == d1);
    assert(arch_key(arch, ".attention.key_length") == d2);
    assert(lookup_unsigned(entries, bs) == Some(b));
    assert(lookup_unsigned(entries, es) == Some(e));
}

/// Which dimension a header lacks.
#[derive(Clone, Copy, Debug, PartialEq, Eq, Structural)]
pub enum GgufErrorKind {
    NoArchitecture,
    NoBlockCount,
    NoKvHeadCount,
    NoHeadDim,
    NoEmbeddingLength,
}

/// The kind of an error, without the keys it names.
pub open spec fn error_kind(e: GgufError) -> GgufErrorKind {
    match e {
        GgufError::NoArchitecture => GgufErrorKind::NoArchitecture,
        GgufError::NoBlockCount(_) => GgufErrorKind::NoBlockCount,
        GgufError::NoKvHeadCount(_, _, _) => GgufErrorKind::NoKvHeadCount,
        GgufError::NoHeadDim(_, _) => GgufErrorKind::NoHeadDim,
        GgufError::NoEmbeddingLength(_) => GgufErrorKind::NoEmbeddingLength,
    }
}

/// The keys that the error `e` names are the keys tried, in order, for the dimension it
/// reports, built from the architecture that the header `entries` names.
pub open spec fn names_tried_keys(e: GgufError, entries: Seq<(String, MetadataValue)>) -> bool {
    match text_at(entries, find_key(entries, "general.architecture"@, 0)) {
        None => true,
        Some(arch) => match e {
            GgufError::NoArchitecture => true,
            GgufError::NoBlockCount(k) => k@ == arch_key(arch, ".block_count"),
            GgufError::NoKvHeadCount(a, b, c) => {
                &&& a@ == arch_key(arch, ".attention.key_head_count")
                &&& b@ == arch_key(arch, ".attention.head_count_kv")
                &&& c@ == arch_key(arch, ".attention.head_count")
            },
            GgufError::NoHeadDim(a, b) => {
                &&& a@ == arch_key(arch, ".head_dim")
                &&& b@ == arch_key(arch, ".attention.key_length")
            },
            GgufError::NoEmbeddingLength(k) => k@ == arch_key(arch, ".embedding_length"),
        },
    }
}

fn find_key_exec(entries: &Vec<(String, MetadataValue)>, key: &String) -> (r: Option<usize>)
    ensures
        find_key(entries@, key@, 0) == (match r {
            Some(i) => Some(i as int),
            None => None::<int>,
        }),
        r matches Some(i) ==> i < entries@.len(),
{
    let mut i: usize = 0;
    while i < entries.len()
        invariant
            0 <= i <= entries@.len(),
            find_key(entries@, key@, 0) == find_key(entries@, key@, i as int),
        decreases entries@.len() - i,
    {
        if crate::text::str_eq(entries[i].0.as_str(), key.as_str()) {
            return Some(i);
        }
        i = i + 1;
    }
    None
}

fn unsigned_exec(entries: &Vec<(String, MetadataValue)>, idx: Option<usize>) -> (r: Option<u64>)
    requires
        idx matches Some(i) ==> i < entries@.len(),
    ensures
        r == unsigned_at(entries@, match idx {
            Some(i) => Some(i as int),
            None => None::<int>,
        }),
{
    match idx {
        Some(i) => match &entries[i].1 {
            MetadataValue::Unsigned(n) => Some(*n),
            _ => None,
        },
        None => None,
    }
}

fn arch_key_exec(arch: &String, suffix: &str) -> (r: String)
    ensures
        r@ == arch_key(arch@, suffix),
{
    String::from_str(arch.as_str()).concat(suffix)
}

/// Reads the model dimensions from the header `entries` (key, value) of a GGUF file whose
/// size is `file_size`. Keys are tried in this order: the key/value head
/// count under `attention.key_head_count`, then `attention.head_count_kv`, then
/// `attention.head_count`; the head dimension under `head_dim`, then
/// `attention.key_length`. The first key present decides, whatever its value.
pub fn gguf_info_from_metadata(entries: &Vec<(String, MetadataValue)>, file_size: u64) -> (r: Result<GgufInfo, GgufError>)
    ensures
        match (r, gguf_info_spec(entries@, file_size)) {
            (Ok(info), Ok((b, h, d, e))) => info.block_count == b && info.kv_head_count == h
                && info.head_dim == d && info.embedding_length == e && info.file_size == file_size,
            (Err(err), Err(kind)) => error_kind(err) == kind && names_tried_keys(err, entries@),
            _ => false,
        },
{
    let arch_name = String::from_str("general.architecture");
    let arch = match find_key_exec(entries, &arch_name) {
        Some(i) => match &entries[i].1 {
            MetadataValue::Text(s) => s.clone(),
            _ => {
                return Err(GgufError::NoArchitecture);
            },
        },
        None => {
            return Err(GgufError::NoArchitecture);
        },
    };
    let block_key = arch_key_exec(&arch, ".block_count");
    let block = unsigned_exec(entries, find_key_exec(entries, &block_key));
    proof {
        reveal_with_fuel(find_first_key, 2);
        assert(seq![block_key@].drop_first() =~= Seq::<Seq<char>>::empty());
        assert(seq![block_key@][0] == block_key@);
        assert(block == lookup_unsigned(entries@, seq![block_key@]));
    }
    let k1 = arch_key_exec(&arch, ".attention.key_head_count");
    let k2 = arch_key_exec(&arch, ".attention.head_count_kv");
    let k3 = arch_key_exec(&arch, ".attention.head_count");
    let i1 = find_key_exec(entries, &k1);
    let i2 = find_key_exec(entries, &k2);
    let i3 = find_key_exec(entries, &k3);
    let hi = if i1.is_some() {
        i1
    } else if i2.is_some() {
        i2
    } else {
        i3
    };
    let heads = unsigned_exec(entries, hi);
    proof {
        reveal_with_fuel(find_first_key, 4);
        let ks = seq![k1@, k2@, k3@];
        assert(ks[0] == k1@);
        assert(ks.drop_first()[0] == k2@);
        assert(ks.drop_first().drop_first()[0] == k3@);
        assert(ks.drop_first() =~= seq![k2@, k3@]);
        assert(ks.drop_first().drop_first() =~= seq![k3@]);
        assert(ks.drop_first().drop_first().drop_first() =~= Seq::<Seq<char>>::empty());
        assert(heads == lookup_unsigned(entries@, ks));
    }
    let d1 = arch_key_exec(&arch, ".head_dim");
    let d2 = arch_key_exec(&arch, ".attention.key_length");
    let j1 = find_key_exec(entries, &d1);
    let j2 = find_key_exec(entries, &d2);
    let di = if j1.is_some() {
        j1
    } else {
        j2
    };
    let dim = unsigned_exec(entries, di);
    proof {
        reveal_with_fuel(find_first_key, 3);
        let ks = seq![d1@, d2@];
        assert(ks[0] == d1@);
        assert(ks.drop_first()[0] == d2@);
        assert(ks.drop_first() =~= seq![d2@]);
        assert(ks.drop_first().drop_first() =~= Seq::<Seq<char>>::empty());
        assert(dim == lookup_unsigned(entries@, ks));
    }
    let emb_key = arch_key_exec(&arch, ".embedding_length");
    let emb = unsigned_exec(entries, find_key_exec(entries, &emb_key));
    proof {
        reveal_with_fuel(find_first_key, 2);
        assert(seq![emb_key@].drop_first() =~= Seq::<Seq<char>>::empty());
        assert(seq![emb_key@][0] == emb_key@);
        assert(emb == lookup_unsigned(entries@, seq![emb_key@]));
    }
    let block_count = match block {
        Some(n) => n as usize,
        None => {
            return Err(GgufError::NoBlockCount(block_key));
        },
    };
    let kv_head_count = match heads {
        Some(n) => n as usize,
        None => {
            return Err(GgufError::NoKvHeadCount(k1, k2, k3));
        },
    };
    let head_dim = match dim {
        Some(n) => n as usize,
        None => {
            return Err(GgufError::NoHeadDim(d1, d2));
        },
    };
    let embedding_length = match emb {
        Some(n) => n as usize,
        None => {
            return Err(GgufError::NoEmbeddingLength(emb_key));
        },
    };
    Ok(GgufInfo { block_count, kv_head_count, head_dim, embedding_length, file_size })
}

} // verus!

verus! {

/// `a * b`, held at `u64::MAX`.
pub open spec fn sat_mul(a: nat, b: nat) -> u64 {
    saturate(a * b)
}

/// `a - b`, held at 0.
pub open spec fn sat_sub(a: u64, b: u64) -> u64 {
    if a >= b {
        (a - b) as u64
    } else {
        0
    }
}

/// Bytes of the compute buffer: slots × blocks × embedding width × batch tokens × 3
/// (two bytes per f16 value, half as much again), each product held at `u64::MAX`.
pub open spec fn compute_buffer_spec(slots: nat, blocks: nat, emb: nat, batch: nat) -> u64 {
    sat_mul(sat_mul(sat_mul(sat_mul(slots, blocks) as nat, emb) as nat, batch) as nat, 3)
}

fn saturating_mul_u64(a: u64, b: u64) -> (r: u64)
    ensures
        r == sat_mul(a as nat, b as nat),
{
    match a.checked_mul(b) {
        Some(p) => p,
        None => u64::MAX,
    }
}

/// Bytes of the compute buffer for the settings `s` and the model `g` (see
/// `compute_buffer_spec`); the batch is `s.batch_size` × 1024 tokens.
pub fn compute_buffer_bytes(g: &GgufInfo, s: &AppSettings) -> (r: u64)
    requires
        s.batch_size * 1024 <= usize::MAX,
    ensures
        r == compute_buffer_spec(
            s.parallel_slots as nat,
            g.block_count as nat,
            g.embedding_length as nat,
            (s.batch_size * 1024) as nat,
        ),
{
    let a = saturating_mul_u64(s.parallel_slots as u64, g.block_count as u64);
    let b = saturating_mul_u64(a, g.embedding_length as u64);
    let c = saturating_mul_u64(b, s.batch_size_actual() as u64);
    saturating_mul_u64(c, 3)
}

/// MiB of graphics memory left once the model file is loaded (`free_mib` less the file size
/// in whole MiB, held at 0), and MiB of the compute buffer.
pub open spec fn usable_and_buffer_mib(g: GgufInfo, s: AppSettings, free_mib: u64) -> (u64, u64) {
    let cb = compute_buffer_spec(
        s.parallel_slots as nat,
        g.block_count as nat,
        g.embedding_length as nat,
        (s.batch_size * 1024) as nat,
    );
    (sat_sub(free_mib, g.file_size / 1048576), cb / 1048576)
}

/// The text that reports the memory left for the KV cache: `"{n} MB"`, or `"超出 {n} MB"`
/// ("exceeds by") where the compute buffer does not fit.
pub open spec fn kv_cache_space_text(g: GgufInfo, s: AppSettings, free_mib: u64) -> Seq<char> {
    let (usable, cb_mib) = usable_and_buffer_mib(g, s, free_mib);
    if cb_mib > usable {
        "超出 "@ + decimal((cb_mib - usable) as nat) + " MB"@
    } else {
        decimal((usable - cb_mib) as nat) + " MB"@
    }
}

/// The memory left for the KV cache: free graphics memory less the model file, less the
/// compute buffer, in MiB, as text (see `kv_cache_space_text`).
pub fn calc_kv_cache_space(gguf: &GgufInfo, settings: &AppSettings, free_mib: u64) -> (r: String)
    requires
        settings.batch_size * 1024 <= usize::MAX,
    ensures
        r@ == kv_cache_space_text(*gguf, *settings, free_mib),
{
    let cb = compute_buffer_bytes(gguf, settings);
    let model_mib = gguf.file_size / (1024 * 1024);
    let usable_mib = free_mib.saturating_sub(model_mib);
    let cb_mib = cb / (1024 * 1024);
    if cb_mib > usable_mib {
        let mut out = String::from_str("超出 ");
        push_decimal(&mut out, cb_mib - usable_mib);
        out.concat(" MB")
    } else {
        let mut out = String::new();
        push_decimal(&mut out, usable_mib - cb_mib);
        let r = out.concat(" MB");
        assert(r@ =~= kv_cache_space_text(*gguf, *settings, free_mib));
        r
    }
}

/// Bytes of graphics memory left for the KV cache: free memory less the model file (whole
/// MiB, held at 0), in bytes (held at `u64::MAX`), less the compute buffer (held at 0).
pub open spec fn kv_cache_bytes_spec(g: GgufInfo, s: AppSettings, free_mib: u64) -> u64 {
    let usable = sat_mul(sat_mul(sat_sub(free_mib, g.file_size / 1048576) as nat, 1024) as nat, 1024);
    sat_sub(
        usable,
        compute_buffer_spec(
            s.parallel_slots as nat,
            g.block_count as nat,
            g.embedding_length as nat,
            (s.batch_size * 1024) as nat,
        ),
    )
}

/// Bytes of graphics memory left for the KV cache (see `kv_cache_bytes_spec`), the budget
/// from which the largest context is estimated.
pub fn kv_cache_bytes(gguf: &GgufInfo, settings: &AppSettings, free_mib: u64) -> (r: u64)
    requires
        settings.batch_size * 1024 <= usize::MAX,
    ensures
        r == kv_cache_bytes_spec(*gguf, *settings, free_mib),
{
    let cb = compute_buffer_bytes(gguf, settings);
    let model_mib = gguf.file_size / (1024 * 1024);
    let usable = saturating_mul_u64(saturating_mul_u64(free_mib.saturating_sub(model_mib), 1024), 1024);
    usable.saturating_sub(cb)
}

/// Multiplying a value that was held at `u64::MAX` holds the whole product there.
proof fn lemma_sat_mul_saturate(x: nat, y: nat)
    ensures
        sat_mul(saturate(x) as nat, y) == saturate(x * y),
{
    if x > u64::MAX && y > 0 {
        assert(u64::MAX as nat * y >= u64::MAX as nat) by (nonlinear_arith)
            requires
                y > 0,
        ;
        assert(x * y >= x) by (nonlinear_arith)
            requires
                y > 0,
        ;
    }
    if y == 0 {
        assert(x * y == 0) by (nonlinear_arith)
            requires
                y == 0,
        ;
        assert(saturate(x) as nat * y == 0) by (nonlinear_arith)
            requires
                y == 0,
        ;
    }
}

/// The compute buffer is slots × blocks × embedding width × batch tokens × 3 bytes, held at
/// `u64::MAX` where the product does not fit.
pub proof fn lemma_compute_buffer_product(slots: nat, blocks: nat, emb: nat, batch: nat)
    ensures
        compute_buffer_spec(slots, blocks, emb, batch) == saturate(slots * blocks * emb * batch * 3),
{
    lemma_sat_mul_saturate(slots * blocks, emb);
    lemma_sat_mul_saturate(slots * blocks * emb, batch);
    lemma_sat_mul_saturate(slots * blocks * emb * batch, 3);
}

/// The memory reported for the KV cache: the free memory less the model file (whole MiB,
/// none when the file is larger), less the compute buffer of every parallel slot
/// (slots × blocks × embedding width × batch tokens × 3 bytes, in whole MiB); what the
/// buffer exceeds that memory by, where it does not fit.
pub proof fn lemma_kv_space_from_inputs(g: GgufInfo, s: AppSettings, free_mib: u64)
    ensures
        ({
            let model_mib = g.file_size as int / 1048576;
            let usable: int = if free_mib >= model_mib { free_mib - model_mib } else { 0 };
            let buffer: int = saturate(
                s.parallel_slots as nat * g.block_count as nat * g.embedding_length as nat * (
                s.batch_size * 1024) as nat * 3,
            ) as int / 1048576;
            kv_cache_space_text(g, s, free_mib) == if buffer > usable {
                "超出 "@ + decimal((buffer - usable) as nat) + " MB"@
            } else {
                decimal((usable - buffer) as nat) + " MB"@
            }
        }),
        ({
            let model_mib = g.file_size as int / 1048576;
            let usable: int = if free_mib >= model_mib { free_mib - model_mib } else { 0 };
            let buffer: int = saturate(
                s.parallel_slots as nat * g.block_count as nat * g.embedding_length as nat * (
                s.batch_size * 1024) as nat * 3,
            ) as int;
            let usable_bytes: int = saturate((usable * 1048576) as nat) as int;
            kv_cache_bytes_spec(g, s, free_mib) as int == if usable_bytes >= buffer {
                usable_bytes - buffer
            } else {
                0
            }
        }),
{
    lemma_compute_buffer_product(
        s.parallel_slots as nat,
        g.block_count as nat,
        g.embedding_length as nat,
        (s.batch_size * 1024) as nat,
    );
    let usable = sat_sub(free_mib, g.file_size / 1048576) as nat;
    lemma_sat_mul_saturate(usable, 1024);
    assert(saturate(usable) == usable);
    assert(usable * 1024 * 1024 == usable * 1048576) by (nonlinear_arith);
    lemma_sat_mul_saturate(usable * 1024, 1024);
}

/// Bits per stored element of a KV cache type: 32 for `f32`, 16 for `f16` and `bf16`, 8 for
/// `q8_0`, 5 for `q5_0` and `q5_1`, 4 for `q4_0`, `q4_1` and `iq4_nl`, and 16 for anything else.
pub open spec fn cache_type_bits_spec(t: Seq<char>) -> u64 {
    if t == "f32"@ {
        32
    } else if t == "f16"@ || t == "bf16"@ {
        16
    } else if t == "q8_0"@ {
        8
    } else if t == "q5_0"@ || t == "q5_1"@ {
        5
    } else if t == "q4_0"@ || t == "q4_1"@ || t == "iq4_nl"@ {
        4
    } else {
        16
    }
}

/// Bits per stored element of a KV cache type (one eighth of its precision in bytes).
pub fn cache_type_bits(t: &str) -> (r: u64)
    ensures
        r == cache_type_bits_spec(t@),
{
    if str_eq(t, "f32") {
        32
    } else if str_eq(t, "f16") || str_eq(t, "bf16") {
        16
    } else if str_eq(t, "q8_0") {
        8
    } else if str_eq(t, "q5_0") || str_eq(t, "q5_1") {
        5
    } else if str_eq(t, "q4_0") || str_eq(t, "q4_1") || str_eq(t, "iq4_nl") {
        4
    } else {
        16
    }
}

} // verus!

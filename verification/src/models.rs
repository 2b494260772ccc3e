//! The model browser: which files of a directory are GGUF models, projectors or draft
//! models, how their lists are sorted, and the coloured tags that a file name shows.
use vstd::prelude::*;

use crate::text::{
    all_digits, case_folded, chars_of, contains_seq, ends_with_seq, find_char, find_char_from,
    is_digit_char, lemma_find_char_from, lowercased, owned_range, starts_with_seq, str_contains,
    str_ends_with, str_eq, str_starts_with, trim_end_bound, trim_seq, trim_start_bound,
    sorted_order, stable_order, views, ascii_lower, ascii_lower_char,
    lemma_sorted_order_sorts, lex_less, occurs_in,
};

verus! {

/// What a part of a model file name says, which decides the colour of its tag.
#[derive(Clone, Copy, Debug, PartialEq, Eq, Structural)]
pub enum TagKind {
    /// A parameter count such as `7b` or `350m`.
    ParamSize,
    /// A quantisation such as `q4_k_m` or `iq3_xs`.
    Quantization,
    /// A version or a plain number such as `3.1`.
    Number,
    /// A training method such as `instruct` or `dpo`.
    Training,
    /// A float precision such as `fp16` or `bf16`.
    Precision,
    /// An adapter such as `lora`.
    Adapter,
    /// A context length such as `32k` or `long`.
    Context,
    /// A model architecture such as `mamba` or `rwkv`.
    Architecture,
    /// Anything else.
    Other,
}

/// The pieces of `s` from `start` on, cut at each `sep`, as `str::split` yields them.
pub open spec fn split_from(s: Seq<char>, sep: char, start: int) -> Seq<Seq<char>>
    decreases s.len() - start,
{
    if start < 0 || start > s.len() {
        Seq::empty()
    } else {
        match find_char_from(s, sep, start) {
            None => seq![s.subrange(start, s.len() as int)],
            Some(k) => {
                proof {
                    lemma_find_char_from(s, sep, start);
                }
                seq![s.subrange(start, k)] + split_from(s, sep, k + 1)
            },
        }
    }
}

/// `s` holds a character `'0'..='9'`.
pub open spec fn has_digit(s: Seq<char>) -> bool {
    exists|i: int| 0 <= i < s.len() && #[trigger] is_digit_char(s[i])
}

/// A parameter count: a digit somewhere, and a last character `b` or `m`.
pub open spec fn param_size_like(s: Seq<char>) -> bool {
    has_digit(s) && s.len() > 0 && (s.last() == 'b' || s.last() == 'm')
}

/// A quantisation: `iq` and a digit, or `q` and a digit, at the start.
pub open spec fn quantization_like(s: Seq<char>) -> bool {
    (starts_with_seq(s, "iq"@) && s.len() > 2 && is_digit_char(s[2])) || (s.len() > 1 && s[0]
        == 'q' && is_digit_char(s[1]))
}

/// Every character is a digit or a dot.
pub open spec fn digits_and_dots_only(s: Seq<char>) -> bool {
    forall|i: int| 0 <= i < s.len() ==> is_digit_char(#[trigger] s[i]) || s[i] == '.'
}

/// A training method named somewhere in the part.
pub open spec fn training_like(s: Seq<char>) -> bool {
    ||| contains_seq(s, "instruct"@)
    ||| contains_seq(s, "chat"@)
    ||| contains_seq(s, "sft"@)
    ||| contains_seq(s, "rlhf"@)
    ||| contains_seq(s, "dpo"@)
    ||| contains_seq(s, "orpo"@)
    ||| contains_seq(s, "grpo"@)
}

/// A float precision named somewhere in the part.
pub open spec fn precision_like(s: Seq<char>) -> bool {
    ||| contains_seq(s, "fp16"@)
    ||| contains_seq(s, "bf16"@)
    ||| contains_seq(s, "f32"@)
    ||| contains_seq(s, "fp8"@)
}

/// An adapter named somewhere in the part.
pub open spec fn adapter_like(s: Seq<char>) -> bool {
    ||| contains_seq(s, "lora"@)
    ||| contains_seq(s, "adapter"@)
    ||| contains_seq(s, "delta"@)
}

/// A context length: a digit and a last `k`, the word `long`, or one of `128`, `64`, `32`.
pub open spec fn context_like(s: Seq<char>) -> bool {
    ||| (s.len() > 0 && s.last() == 'k' && has_digit(s))
    ||| contains_seq(s, "long"@)
    ||| s == "128"@
    ||| s == "64"@
    ||| s == "32"@
}

/// An architecture named somewhere in the part.
pub open spec fn architecture_like(s: Seq<char>) -> bool {
    ||| contains_seq(s, "mamba"@)
    ||| contains_seq(s, "rwkv"@)
    ||| contains_seq(s, "hyena"@)
    ||| contains_seq(s, "decoder"@)
}

/// The kind of a trimmed part `part` whose lowercase is `lower`: the first rule that holds.
pub open spec fn tag_kind(part: Seq<char>, lower: Seq<char>) -> TagKind {
    if param_size_like(lower) {
        TagKind::ParamSize
    } else if quantization_like(lower) {
        TagKind::Quantization
    } else if digits_and_dots_only(part) {
        TagKind::Number
    } else if training_like(lower) {
        TagKind::Training
    } else if precision_like(lower) {
        TagKind::Precision
    } else if adapter_like(lower) {
        TagKind::Adapter
    } else if context_like(lower) {
        TagKind::Context
    } else if architecture_like(lower) {
        TagKind::Architecture
    } else {
        TagKind::Other
    }
}

/// The tags of the pieces `parts`: each piece trimmed, empty ones left out, each with its kind.
pub open spec fn tags_of(parts: Seq<Seq<char>>) -> Seq<(Seq<char>, TagKind)>
    decreases parts.len(),
{
    if parts.len() == 0 {
        Seq::empty()
    } else {
        let t = trim_seq(parts.last());
        if t.len() == 0 {
            tags_of(parts.drop_last())
        } else {
            tags_of(parts.drop_last()).push((t, tag_kind(t, case_folded(t))))
        }
    }
}

/// `name` without a final `.gguf`.
pub open spec fn file_stem(name: Seq<char>) -> Seq<char> {
    if ends_with_seq(name, ".gguf"@) {
        name.subrange(0, name.len() - ".gguf"@.len())
    } else {
        name
    }
}

/// The tags of a model file name: its stem cut at each `-`.
pub open spec fn name_tags(name: Seq<char>) -> Seq<(Seq<char>, TagKind)> {
    tags_of(split_from(file_stem(name), '-', 0))
}

/// The views of a list of tags.
pub open spec fn tag_views(tags: Seq<(String, TagKind)>) -> Seq<(Seq<char>, TagKind)> {
    tags.map_values(|t: (String, TagKind)| (t.0@, t.1))
}

/// Whether `s` holds a digit `'0'..='9'`.
fn contains_digit(s: &str) -> (r: bool)
    ensures
        r == has_digit(s@),
{
    let v = chars_of(s);
    let mut i: usize = 0;
    while i < v.len()
        invariant
            v@ == s@,
            i <= v@.len(),
            forall|j: int| 0 <= j < i ==> !is_digit_char(#[trigger] v@[j]),
        decreases v@.len() - i,
    {
        if '0' <= v[i] && v[i] <= '9' {
            assert(is_digit_char(s@[i as int]));
            return true;
        }
        i = i + 1;
    }
    false
}

/// Whether a lowercase part names a parameter count (a digit, and a last `b` or `m`).
pub fn is_param_size(s: &str) -> (r: bool)
    ensures
        r == param_size_like(s@),
{
    let v = chars_of(s);
    contains_digit(s) && v.len() > 0 && (v[v.len() - 1] == 'b' || v[v.len() - 1] == 'm')
}

/// Whether a lowercase part names a quantisation (`iq` or `q`, then a digit).
pub fn is_quantization(s: &str) -> (r: bool)
    ensures
        r == quantization_like(s@),
{
    let v = chars_of(s);
    if str_starts_with(s, "iq") && v.len() > 2 && '0' <= v[2] && v[2] <= '9' {
        return true;
    }
    v.len() > 1 && v[0] == 'q' && '0' <= v[1] && v[1] <= '9'
}

/// Whether every character of `s` is a digit or a dot.
fn is_digits_and_dots(s: &str) -> (r: bool)
    ensures
        r == digits_and_dots_only(s@),
{
    let v = chars_of(s);
    let mut i: usize = 0;
    while i < v.len()
        invariant
            v@ == s@,
            i <= v@.len(),
            forall|j: int| 0 <= j < i ==> is_digit_char(#[trigger] v@[j]) || v@[j] == '.',
        decreases v@.len() - i,
    {
        if !(('0' <= v[i] && v[i] <= '9') || v[i] == '.') {
            return false;
        }
        i = i + 1;
    }
    true
}

/// Whether a lowercase part names a training method.
pub fn is_training_method(s: &str) -> (r: bool)
    ensures
        r == training_like(s@),
{
    str_contains(s, "instruct") || str_contains(s, "chat") || str_contains(s, "sft")
        || str_contains(s, "rlhf") || str_contains(s, "dpo") || str_contains(s, "orpo")
        || str_contains(s, "grpo")
}

/// Whether a lowercase part names a float precision.
fn is_precision(s: &str) -> (r: bool)
    ensures
        r == precision_like(s@),
{
    str_contains(s, "fp16") || str_contains(s, "bf16") || str_contains(s, "f32") || str_contains(
        s,
        "fp8",
    )
}

/// Whether a lowercase part names an adapter.
fn is_adapter(s: &str) -> (r: bool)
    ensures
        r == adapter_like(s@),
{
    str_contains(s, "lora") || str_contains(s, "adapter") || str_contains(s, "delta")
}

/// Whether a lowercase part names a context length.
pub fn is_context_length(s: &str) -> (r: bool)
    ensures
        r == context_like(s@),
{
    let v = chars_of(s);
    if v.len() > 0 && v[v.len() - 1] == 'k' && contains_digit(s) {
        return true;
    }
    str_contains(s, "long") || str_eq(s, "128") || str_eq(s, "64") || str_eq(s, "32")
}

/// Whether a lowercase part names an architecture.
fn is_architecture(s: &str) -> (r: bool)
    ensures
        r == architecture_like(s@),
{
    str_contains(s, "mamba") || str_contains(s, "rwkv") || str_contains(s, "hyena")
        || str_contains(s, "decoder")
}

/// The kind of the trimmed part `part`, whose lowercase is `lower`.
pub fn classify_tag(part: &str, lower: &str) -> (k: TagKind)
    ensures
        k == tag_kind(part@, lower@),
{
    if is_param_size(lower) {
        TagKind::ParamSize
    } else if is_quantization(lower) {
        TagKind::Quantization
    } else if is_digits_and_dots(part) {
        TagKind::Number
    } else if is_training_method(lower) {
        TagKind::Training
    } else if is_precision(lower) {
        TagKind::Precision
    } else if is_adapter(lower) {
        TagKind::Adapter
    } else if is_context_length(lower) {
        TagKind::Context
    } else if is_architecture(lower) {
        TagKind::Architecture
    } else {
        TagKind::Other
    }
}

/// The coloured tags of a model file name: the name without `.gguf`, cut at each `-`,
/// each piece trimmed, empty pieces left out, each tag with the kind its lowercase shows.
pub fn parse_tags(filename: &str) -> (tags: Vec<(String, TagKind)>)
    ensures
        tag_views(tags@) == name_tags(filename@),
{
    let v = chars_of(filename);
    let suffix = chars_of(".gguf");
    let end: usize = if str_ends_with(filename, ".gguf") {
        v.len() - suffix.len()
    } else {
        v.len()
    };
    let ghost s = v@.subrange(0, end as int);
    assert(s == file_stem(filename@));
    let mut tags: Vec<(String, TagKind)> = Vec::new();
    let mut start: usize = 0;
    let ghost mut done: Seq<Seq<char>> = Seq::empty();
    loop
        invariant_except_break
            split_from(s, '-', 0) == done + split_from(s, '-', start as int),
        invariant
            v@ == filename@,
            end <= v@.len(),
            s == v@.subrange(0, end as int),
            start <= end,
            tag_views(tags@) == tags_of(done),
        ensures
            split_from(s, '-', 0) == done,
            tag_views(tags@) == tags_of(done),
        decreases end - start,
    {
        let found = find_char(&v, '-', start, end);
        proof {
            lemma_find_char_from(s, '-', start as int);
        }
        let piece_end: usize = match found {
            Some(k) => k,
            None => end,
        };
        let ghost piece = s.subrange(start as int, piece_end as int);
        assert(piece == v@.subrange(start as int, piece_end as int));
        let n = trim_end_bound(&v, start, piece_end);
        let m = trim_start_bound(&v, start, n);
        assert(v@.subrange(m as int, n as int) == trim_seq(piece));
        let ghost before = done;
        proof {
            done = done.push(piece);
            assert(done.drop_last() =~= before);
        }
        let ghost old_tags = tags@;
        if m < n {
            let text = owned_range(filename, m, n);
            let lower = lowercased(text.as_str());
            let kind = classify_tag(text.as_str(), lower.as_str());
            tags.push((text, kind));
            assert(tag_views(tags@) =~= tag_views(old_tags).push((text@, kind)));
        } else {
            assert(trim_seq(piece).len() == 0);
        }
        match found {
            Some(k) => {
                assert(split_from(s, '-', start as int) =~= seq![piece] + split_from(
                    s,
                    '-',
                    k + 1,
                ));
                assert(split_from(s, '-', 0) =~= done + split_from(s, '-', k + 1));
                start = k + 1;
            },
            None => {
                assert(split_from(s, '-', start as int) =~= seq![piece]);
                assert(split_from(s, '-', 0) =~= done);
                break ;
            },
        }
    }
    tags
}

/// The list of the model browser that a file belongs to.
#[derive(Clone, Copy, Debug, PartialEq, Eq, Structural)]
pub enum ModelKind {
    /// A model to serve.
    Main,
    /// A multimodal projector.
    Mmproj,
    /// A draft model for speculative decoding.
    Dflash,
}

/// A lowercase file name that names a multimodal projector.
pub open spec fn mmproj_like(lower: Seq<char>) -> bool {
    ||| contains_seq(lower, "mmproj"@)
    ||| contains_seq(lower, "clip"@)
    ||| (contains_seq(lower, "proj"@) && contains_seq(lower, "vision"@))
}

/// A lowercase file name that names a draft model.
pub open spec fn dflash_like(lower: Seq<char>) -> bool {
    contains_seq(lower, "dflash"@)
}

/// The list that a directory entry named `name` goes to: none where its lowercase does not
/// end in `.gguf`; else draft models first, then projectors, then the rest.
pub open spec fn model_kind_of(name: Seq<char>) -> Option<ModelKind> {
    let lower = case_folded(name);
    if !ends_with_seq(lower, ".gguf"@) {
        None
    } else if dflash_like(lower) {
        Some(ModelKind::Dflash)
    } else if mmproj_like(lower) {
        Some(ModelKind::Mmproj)
    } else {
        Some(ModelKind::Main)
    }
}

/// The positions among `names[0..n]` of the entries that go to `kind`, in directory order.
pub open spec fn picked(names: Seq<Seq<char>>, kind: ModelKind, n: nat) -> Seq<usize>
    decreases n,
{
    if n == 0 {
        Seq::empty()
    } else {
        let p = picked(names, kind, (n - 1) as nat);
        if model_kind_of(names[n - 1]) == Some(kind) {
            p.push((n - 1) as usize)
        } else {
            p
        }
    }
}

/// The lowercase names at the positions `p`, the keys by which a list is sorted.
pub open spec fn keys_at(names: Seq<Seq<char>>, p: Seq<usize>) -> Seq<Seq<char>> {
    p.map_values(|i: usize| case_folded(names[i as int]))
}

/// The positions of the entries that go to `kind`, sorted by lowercase name, entries of equal
/// lowercase name in directory order.
pub open spec fn listed(names: Seq<Seq<char>>, kind: ModelKind) -> Seq<usize> {
    let p = picked(names, kind, names.len());
    sorted_order(keys_at(names, p), p.len()).map_values(|j: usize| p[j as int])
}

/// A GGUF file of the model browser.
#[derive(Clone, Debug, PartialEq, Eq)]
pub struct ModelFile {
    /// Its position in the directory listing that was scanned.
    pub entry: usize,
    /// Its file name.
    pub name: String,
    /// The tags its name shows.
    pub tags: Vec<(String, TagKind)>,
}

/// The GGUF files of a directory, in their three lists.
#[derive(Clone, Debug)]
pub struct ModelListing {
    pub main_files: Vec<ModelFile>,
    pub mmproj_files: Vec<ModelFile>,
    pub dflash_files: Vec<ModelFile>,
}

/// `file` describes the entry at position `i` of `names`.
pub open spec fn describes(file: ModelFile, names: Seq<String>, i: usize) -> bool {
    &&& file.entry == i
    &&& i < names.len()
    &&& file.name@ == names[i as int]@
    &&& tag_views(file.tags@) == name_tags(names[i as int]@)
}

/// `files` is the list `kind` of the directory listing `names`.
pub open spec fn is_listing_of(files: Seq<ModelFile>, names: Seq<String>, kind: ModelKind) -> bool {
    let l = listed(views(names), kind);
    &&& files.len() == l.len()
    &&& forall|j: int| 0 <= j < files.len() ==> describes(#[trigger] files[j], names, l[j])
}

/// `picked` only holds positions below `n`, in increasing order.
pub proof fn lemma_picked_bounds(names: Seq<Seq<char>>, kind: ModelKind, n: nat)
    ensures
        picked(names, kind, n).len() <= n,
        forall|j: int|
            0 <= j < picked(names, kind, n).len() ==> #[trigger] picked(names, kind, n)[j] < n,
    decreases n,
{
    if n > 0 {
        lemma_picked_bounds(names, kind, (n - 1) as nat);
    }
}

/// What `picked` holds: positions below `n`, in increasing order, of entries that go to
/// `kind`, and among them every such position below `n`.
pub proof fn lemma_picked(names: Seq<Seq<char>>, kind: ModelKind, n: nat)
    requires
        n <= names.len(),
        n <= usize::MAX,
    ensures
        picked(names, kind, n).len() <= n,
        forall|j: int|
            0 <= j < picked(names, kind, n).len() ==> #[trigger] picked(names, kind, n)[j] < n
                && model_kind_of(names[picked(names, kind, n)[j] as int]) == Some(kind),
        forall|j1: int, j2: int|
            0 <= j1 < j2 < picked(names, kind, n).len() ==> #[trigger] picked(names, kind, n)[j1]
                < #[trigger] picked(names, kind, n)[j2],
        forall|i: int|
            0 <= i < n && model_kind_of(names[i]) == Some(kind) ==> #[trigger] in_list(
                picked(names, kind, n),
                i,
            ),
    decreases n,
{
    if n > 0 {
        let q = picked(names, kind, (n - 1) as nat);
        lemma_picked(names, kind, (n - 1) as nat);
        let p = picked(names, kind, n);
        assert forall|i: int|
            0 <= i < n && model_kind_of(names[i]) == Some(kind) implies #[trigger] in_list(p, i) by {
            if i == n - 1 {
                assert(p[q.len() as int] == i);
            } else {
                assert(in_list(q, i));
                let j = choose|j: int| 0 <= j < q.len() && q[j] == i;
                assert(p[j] == q[j]);
            }
        }
        if model_kind_of(names[n - 1]) == Some(kind) {
            assert forall|j1: int, j2: int| 0 <= j1 < j2 < p.len() implies #[trigger] p[j1]
                < #[trigger] p[j2] by {
                assert(p[j1] == q[j1]);
                if j2 < q.len() {
                    assert(p[j2] == q[j2]);
                }
            }
        }
    }
}

/// Position `i` occurs in the list `l`.
pub open spec fn in_list(l: Seq<usize>, i: int) -> bool {
    exists|j: int| 0 <= j < l.len() && l[j] == i
}

/// The list `kind` of a directory listing holds every entry that goes to `kind`, each once,
/// and nothing else; it is sorted by lowercase name, entries of equal lowercase name in
/// listing order. (As `model_kind_of` gives each entry at most one list, every GGUF file is
/// shown in exactly one list.)
pub proof fn lemma_listed_exactly(names: Seq<Seq<char>>, kind: ModelKind)
    requires
        names.len() <= usize::MAX,
    ensures
        forall|i: int|
            0 <= i < names.len() ==> (#[trigger] in_list(listed(names, kind), i) <==> model_kind_of(
                names[i],
            ) == Some(kind)),
        forall|i: int| #[trigger] in_list(listed(names, kind), i) ==> 0 <= i < names.len(),
        forall|j1: int, j2: int|
            0 <= j1 < j2 < listed(names, kind).len() ==> #[trigger] listed(names, kind)[j1]
                != #[trigger] listed(names, kind)[j2],
        forall|j1: int, j2: int|
            0 <= j1 < j2 < listed(names, kind).len() ==> !lex_less(
                case_folded(names[#[trigger] listed(names, kind)[j2] as int]),
                case_folded(names[#[trigger] listed(names, kind)[j1] as int]),
            ),
        forall|j1: int, j2: int|
            0 <= j1 < j2 < listed(names, kind).len() && case_folded(
                names[#[trigger] listed(names, kind)[j1] as int],
            ) == case_folded(names[#[trigger] listed(names, kind)[j2] as int]) ==> listed(
                names,
                kind,
            )[j1] < listed(names, kind)[j2],
{
    let p = picked(names, kind, names.len());
    let keys = keys_at(names, p);
    let o = sorted_order(keys, p.len());
    let l = listed(names, kind);
    lemma_picked(names, kind, names.len());
    lemma_sorted_order_sorts(keys, p.len());
    assert(l.len() == o.len());
    assert forall|j: int| 0 <= j < l.len() implies #[trigger] l[j] == p[o[j] as int] && o[j]
        < p.len() && keys[o[j] as int] == case_folded(names[l[j] as int]) by {}
    assert forall|i: int| 0 <= i < names.len() implies (#[trigger] in_list(l, i)
        <==> model_kind_of(names[i]) == Some(kind)) by {
        if in_list(l, i) {
            let j = choose|j: int| 0 <= j < l.len() && l[j] == i;
            assert(l[j] == p[o[j] as int]);
        }
        if model_kind_of(names[i]) == Some(kind) {
            assert(in_list(p, i));
            let q = choose|q: int| 0 <= q < p.len() && p[q] == i;
            assert(occurs_in(o, q as nat));
            let j = choose|j: int| 0 <= j < o.len() && o[j] == q as nat;
            assert(l[j] == p[o[j] as int]);
        }
    }
    assert forall|i: int| #[trigger] in_list(l, i) implies 0 <= i < names.len() by {
        let j = choose|j: int| 0 <= j < l.len() && l[j] == i;
        assert(l[j] == p[o[j] as int]);
    }
    assert forall|j1: int, j2: int| 0 <= j1 < j2 < l.len() implies #[trigger] l[j1]
        != #[trigger] l[j2] by {
        assert(o[j1] != o[j2]);
        if o[j1] < o[j2] {
            assert(p[o[j1] as int] < p[o[j2] as int]);
        } else {
            assert(p[o[j2] as int] < p[o[j1] as int]);
        }
    }
    assert forall|j1: int, j2: int| 0 <= j1 < j2 < l.len() implies !lex_less(
        case_folded(names[#[trigger] l[j2] as int]),
        case_folded(names[#[trigger] l[j1] as int]),
    ) by {
        assert(!lex_less(keys[o[j2] as int], keys[o[j1] as int]));
    }
    assert forall|j1: int, j2: int|
        0 <= j1 < j2 < l.len() && case_folded(names[#[trigger] l[j1] as int]) == case_folded(
            names[#[trigger] l[j2] as int],
        ) implies l[j1] < l[j2] by {
        assert(keys[o[j1] as int] == keys[o[j2] as int]);
        assert(o[j1] < o[j2]);
        assert(p[o[j1] as int] < p[o[j2] as int]);
    }
}

/// The list `kind` of the directory entries `names`, whose lists are `kinds`.
fn list_kind(names: &Vec<String>, kinds: &Vec<Option<ModelKind>>, kind: ModelKind) -> (files: Vec<
    ModelFile,
>)
    requires
        kinds@.len() == names@.len(),
        forall|i: int| 0 <= i < names@.len() ==> #[trigger] kinds@[i] == model_kind_of(names@[i]@),
    ensures
        is_listing_of(files@, names@, kind),
{
    let ghost ns = views(names@);
    let mut positions: Vec<usize> = Vec::new();
    let mut keys: Vec<Vec<char>> = Vec::new();
    let mut i: usize = 0;
    while i < names.len()
        invariant
            kinds@.len() == names@.len(),
            forall|i: int| 0 <= i < names@.len() ==> #[trigger] kinds@[i] == model_kind_of(names@[i]@),
            ns == views(names@),
            i <= names@.len(),
            positions@ == picked(ns, kind, i as nat),
            keys@.len() == positions@.len(),
            keys@.map_values(|k: Vec<char>| k@) == keys_at(ns, positions@),
        decreases names@.len() - i,
    {
        proof {
            lemma_picked_bounds(ns, kind, i as nat);
        }
        if kinds[i] == Some(kind) {
            let lower = lowercased(names[i].as_str());
            let key = chars_of(lower.as_str());
            let ghost old_keys = keys@;
            let ghost old_pos = positions@;
            positions.push(i);
            keys.push(key);
            assert forall|j: int| 0 <= j < keys@.len() implies #[trigger] keys@[j]@ == keys_at(
                ns,
                positions@,
            )[j] by {
                if j < keys@.len() - 1 {
                    assert(keys@[j] == old_keys[j]);
                    assert(positions@[j] == old_pos[j]);
                    assert(old_keys.map_values(|k: Vec<char>| k@)[j] == keys_at(ns, old_pos)[j]);
                } else {
                    assert(ns[i as int] == names@[i as int]@);
                }
            }
            assert(keys@.map_values(|k: Vec<char>| k@) =~= keys_at(ns, positions@));
        }
        i = i + 1;
    }
    proof {
        lemma_picked_bounds(ns, kind, names@.len());
    }
    let order = stable_order(&keys);
    let ghost l = listed(ns, kind);
    proof {
        lemma_sorted_order_sorts(keys_at(ns, positions@), positions@.len());
    }
    assert(order@ == sorted_order(keys_at(ns, positions@), positions@.len()));
    let mut files: Vec<ModelFile> = Vec::new();
    let mut j: usize = 0;
    while j < order.len()
        invariant
            ns == views(names@),
            positions@ == picked(ns, kind, names@.len()),
            forall|k: int| 0 <= k < positions@.len() ==> #[trigger] positions@[k] < names@.len(),
            order@ == sorted_order(keys_at(ns, positions@), positions@.len()),
            order@.len() == positions@.len(),
            forall|k: int| 0 <= k < order@.len() ==> #[trigger] order@[k] < positions@.len(),
            l == listed(ns, kind),
            l.len() == order@.len(),
            j <= order@.len(),
            files@.len() == j,
            forall|k: int| 0 <= k < j ==> describes(#[trigger] files@[k], names@, l[k]),
        decreases order@.len() - j,
    {
        let p = positions[order[j]];
        assert(p == l[j as int]);
        let name = names[p].clone();
        let tags = parse_tags(names[p].as_str());
        files.push(ModelFile { entry: p, name, tags });
        j = j + 1;
    }
    files
}

/// Sorts the entries of a directory listing into the three lists of the model browser:
/// the GGUF files (by the lowercase name), draft models and projectors apart from the rest,
/// each list sorted by lowercase name, entries of equal lowercase name in listing order.
pub fn scan_model_files(names: &Vec<String>) -> (listing: ModelListing)
    ensures
        is_listing_of(listing.main_files@, names@, ModelKind::Main),
        is_listing_of(listing.mmproj_files@, names@, ModelKind::Mmproj),
        is_listing_of(listing.dflash_files@, names@, ModelKind::Dflash),
{
    let mut kinds: Vec<Option<ModelKind>> = Vec::new();
    let mut i: usize = 0;
    while i < names.len()
        invariant
            i <= names@.len(),
            kinds@.len() == i,
            forall|k: int| 0 <= k < i ==> #[trigger] kinds@[k] == model_kind_of(names@[k]@),
        decreases names@.len() - i,
    {
        let lower = lowercased(names[i].as_str());
        let kind = if !str_ends_with(lower.as_str(), ".gguf") {
            None
        } else if is_dflash_file(lower.as_str()) {
            Some(ModelKind::Dflash)
        } else if is_mmproj_file(lower.as_str()) {
            Some(ModelKind::Mmproj)
        } else {
            Some(ModelKind::Main)
        };
        kinds.push(kind);
        i = i + 1;
    }
    ModelListing {
        main_files: list_kind(names, &kinds, ModelKind::Main),
        mmproj_files: list_kind(names, &kinds, ModelKind::Mmproj),
        dflash_files: list_kind(names, &kinds, ModelKind::Dflash),
    }
}

/// Whether a lowercase file name names a multimodal projector.
pub fn is_mmproj_file(filename: &str) -> (r: bool)
    ensures
        r == mmproj_like(filename@),
{
    str_contains(filename, "mmproj") || str_contains(filename, "clip") || (str_contains(
        filename,
        "proj",
    ) && str_contains(filename, "vision"))
}

/// Whether a lowercase file name names a draft model.
pub fn is_dflash_file(filename: &str) -> (r: bool)
    ensures
        r == dflash_like(filename@),
{
    str_contains(filename, "dflash")
}

/// `name` and `word` are equal once both are lowercased and then compared without regard to
/// ASCII case.
pub open spec fn names_dir(name: Seq<char>, word: Seq<char>) -> bool {
    ascii_lower(case_folded(name)) == ascii_lower(word)
}

/// The first position `i >= from` of `names` whose name is `word`, in the sense of `names_dir`.
pub open spec fn first_named(names: Seq<Seq<char>>, word: Seq<char>, from: int) -> Option<int>
    decreases names.len() - from,
{
    if from < 0 || from >= names.len() {
        None
    } else if names_dir(names[from], word) {
        Some(from)
    } else {
        first_named(names, word, from + 1)
    }
}

/// The subdirectory that holds the models: the first named `models`, else the first named
/// `model`, whatever the case of their letters.
pub open spec fn model_dir_choice(names: Seq<Seq<char>>) -> Option<int> {
    match first_named(names, "models"@, 0) {
        Some(i) => Some(i),
        None => first_named(names, "model"@, 0),
    }
}

/// The ASCII lowercase of `c`.
fn lower_ascii_char(c: char) -> (r: char)
    ensures
        r == ascii_lower_char(c),
{
    if 'A' <= c && c <= 'Z' {
        let code: u8 = c as u8;
        (code + 32) as char
    } else {
        c
    }
}

/// Whether `a` and `b` are equal without regard to ASCII case.
pub fn eq_ignore_ascii_case(a: &str, b: &str) -> (r: bool)
    ensures
        r == (ascii_lower(a@) == ascii_lower(b@)),
{
    let v = chars_of(a);
    let w = chars_of(b);
    if v.len() != w.len() {
        assert(ascii_lower(a@).len() != ascii_lower(b@).len());
        return false;
    }
    let mut i: usize = 0;
    while i < v.len()
        invariant
            v@ == a@,
            w@ == b@,
            v@.len() == w@.len(),
            i <= v@.len(),
            forall|j: int| 0 <= j < i ==> ascii_lower(a@)[j] == ascii_lower(b@)[j],
        decreases v@.len() - i,
    {
        if lower_ascii_char(v[i]) != lower_ascii_char(w[i]) {
            assert(ascii_lower(a@)[i as int] != ascii_lower(b@)[i as int]);
            return false;
        }
        i = i + 1;
    }
    assert(ascii_lower(a@) =~= ascii_lower(b@));
    true
}

/// The first position of `names` whose name is `word`, in the sense of `names_dir`.
fn find_named(names: &Vec<String>, word: &str) -> (r: Option<usize>)
    ensures
        first_named(views(names@), word@, 0) == (match r {
            Some(i) => Some(i as int),
            None => None::<int>,
        }),
{
    let mut i: usize = 0;
    while i < names.len()
        invariant
            i <= names@.len(),
            first_named(views(names@), word@, 0) == first_named(views(names@), word@, i as int),
        decreases names@.len() - i,
    {
        let lower = lowercased(names[i].as_str());
        if eq_ignore_ascii_case(lower.as_str(), word) {
            return Some(i);
        }
        i = i + 1;
    }
    None
}

/// Which of the subdirectories named `dir_names` holds the models: the first named `models`,
/// else the first named `model`, whatever the case of their letters; none where neither is.
pub fn pick_model_dir(dir_names: &Vec<String>) -> (r: Option<usize>)
    ensures
        model_dir_choice(views(dir_names@)) == (match r {
            Some(i) => Some(i as int),
            None => None::<int>,
        }),
{
    match find_named(dir_names, "models") {
        Some(i) => Some(i),
        None => find_named(dir_names, "model"),
    }
}

/// What the model browser holds: the directory it last scanned, the modification time that
/// directory had then (in nanoseconds from the Unix epoch, negative before it), and the
/// three lists it found there.
pub struct ModelBrowserState {
    pub cached_dir: String,
    pub cached_modified: Option<i128>,
    pub main_files: Vec<ModelFile>,
    pub mmproj_files: Vec<ModelFile>,
    pub dflash_files: Vec<ModelFile>,
}

/// The browser holds nothing.
pub open spec fn is_cleared(b: ModelBrowserState) -> bool {
    &&& b.cached_dir@.len() == 0
    &&& b.cached_modified is None
    &&& b.main_files@.len() == 0
    &&& b.mmproj_files@.len() == 0
    &&& b.dflash_files@.len() == 0
}

/// The browser must scan `dir` again: it last scanned another directory, or the same one
/// at another modification time.
pub open spec fn must_rescan(b: ModelBrowserState, dir: Seq<char>, modified: Option<i128>) -> bool {
    !(b.cached_dir@ == dir && b.cached_modified == modified)
}

/// The list `kind` of the browser.
pub open spec fn files_of(b: ModelBrowserState, kind: ModelKind) -> Seq<ModelFile> {
    match kind {
        ModelKind::Main => b.main_files@,
        ModelKind::Mmproj => b.mmproj_files@,
        ModelKind::Dflash => b.dflash_files@,
    }
}

impl ModelBrowserState {
    /// A browser that holds nothing.
    pub fn new() -> (b: Self)
        ensures
            is_cleared(b),
    {
        ModelBrowserState {
            cached_dir: String::new(),
            cached_modified: None,
            main_files: Vec::new(),
            mmproj_files: Vec::new(),
            dflash_files: Vec::new(),
        }
    }

    /// Forgets the directory and its lists.
    pub fn invalidate(&mut self)
        ensures
            is_cleared(*final(self)),
    {
        self.cached_dir = String::new();
        self.cached_modified = None;
        self.main_files = Vec::new();
        self.mmproj_files = Vec::new();
        self.dflash_files = Vec::new();
    }

    /// Brings the browser to the directory `dir`, whose modification time is `modified`.
    /// Where `dir` is empty the browser is cleared and nothing is to be scanned; else it is
    /// left as it is, and the result says whether `dir` must be scanned and stored again.
    pub fn sync(&mut self, dir: &str, modified: Option<i128>) -> (scan: bool)
        ensures
            dir@.len() == 0 ==> !scan && is_cleared(*final(self)),
            dir@.len() > 0 ==> *final(self) == *old(self) && scan == must_rescan(
                *old(self),
                dir@,
                modified,
            ),
    {
        if dir.unicode_len() == 0 {
            self.invalidate();
            return false;
        }
        let same_time = match (self.cached_modified, modified) {
            (None, None) => true,
            (Some(a), Some(b)) => a == b,
            _ => false,
        };
        !(str_eq(self.cached_dir.as_str(), dir) && same_time)
    }

    /// Records what a scan of `dir`, at modification time `modified`, found.
    pub fn store(&mut self, dir: &str, modified: Option<i128>, listing: ModelListing)
        ensures
            final(self).cached_dir@ == dir@,
            final(self).cached_modified == modified,
            final(self).main_files@ == listing.main_files@,
            final(self).mmproj_files@ == listing.mmproj_files@,
            final(self).dflash_files@ == listing.dflash_files@,
    {
        self.cached_dir = String::from_str(dir);
        self.cached_modified = modified;
        self.main_files = listing.main_files;
        self.mmproj_files = listing.mmproj_files;
        self.dflash_files = listing.dflash_files;
    }

    /// The list `kind`.
    pub fn files(&self, kind: ModelKind) -> (files: &Vec<ModelFile>)
        ensures
            files@ == files_of(*self, kind),
    {
        match kind {
            ModelKind::Main => &self.main_files,
            ModelKind::Mmproj => &self.mmproj_files,
            ModelKind::Dflash => &self.dflash_files,
        }
    }
}

/// Once a scan of a directory is stored, bringing the browser to the same directory at the
/// same modification time asks for no new scan.
pub proof fn lemma_stored_scan_is_kept(b: ModelBrowserState, dir: Seq<char>, modified: Option<i128>)
    requires
        b.cached_dir@ == dir,
        b.cached_modified == modified,
    ensures
        !must_rescan(b, dir, modified),
{
}

} // verus!

//! What the launcher decides about a running `llama-server`: the level of each log line,
//! the log kept in memory, the command line, and the states of the server.
use vstd::prelude::*;
use std::collections::VecDeque;

use crate::settings::{AppSettings, gpu_layers_arg};
use crate::text::{
    decimal, push_decimal, views, join_seq, join_strings, str_eq,
    chars_of, contains_seq, find_char_from, find_seq_from, is_digit_char, str_contains,
    trim_seq, trim_start_bound, trim_start_seq, trim_end_bound, find_chars, find_char,
};

verus! {

/// The level of a log line.
#[derive(Clone, Copy, Debug, PartialEq, Eq, Structural)]
pub enum LogLevel {
    Info,
    Warn,
    Error,
}

/// One line of the server's output.
#[derive(Clone, Debug, PartialEq, Eq)]
pub struct LogEntry {
    pub text: String,
    pub level: LogLevel,
}

impl LogEntry {
    /// A copy of this entry.
    pub fn duplicate(&self) -> (r: LogEntry)
        ensures
            r == *self,
    {
        LogEntry { text: self.text.clone(), level: self.level }
    }
}

/// Number of `'.'` in `s`.
pub open spec fn count_dots(s: Seq<char>) -> nat
    decreases s.len(),
{
    if s.len() == 0 {
        0
    } else {
        count_dots(s.drop_last()) + if s.last() == '.' {
            1nat
        } else {
            0nat
        }
    }
}

/// Every character of `s` is a digit or `'.'`.
pub open spec fn digits_and_dots(s: Seq<char>) -> bool {
    forall|i: int| 0 <= i < s.len() ==> is_digit_char(#[trigger] s[i]) || s[i] == '.'
}

/// The level that a single letter marks.
pub open spec fn level_letter(c: char) -> Option<LogLevel> {
    if c == 'I' {
        Some(LogLevel::Info)
    } else if c == 'W' {
        Some(LogLevel::Warn)
    } else if c == 'E' {
        Some(LogLevel::Error)
    } else {
        None
    }
}

/// The level written after a time stamp: past leading white space, a word of digits and
/// at least two dots, one space, then a single `I`, `W` or `E` that ends the line or is
/// followed by a space.
pub open spec fn stamped_level(line: Seq<char>) -> Option<LogLevel> {
    let t = trim_start_seq(line);
    if t.len() == 0 || !is_digit_char(t[0]) {
        None
    } else {
        match find_char_from(t, ' ', 0) {
            None => None,
            Some(k) => {
                let stamp = t.subrange(0, k);
                let rest = t.subrange(k + 1, t.len() as int);
                if !digits_and_dots(stamp) || count_dots(stamp) < 2 || rest.len() == 0 {
                    None
                } else if rest.len() == 1 || rest[1] == ' ' {
                    level_letter(rest[0])
                } else {
                    None
                }
            },
        }
    }
}

/// The level given to a line of output: the stamped level where there is one, else a
/// warning if the line mentions `WARN` or `warn`, an error if it mentions `ERROR` or
/// `error`, information otherwise.
pub open spec fn line_level(line: Seq<char>) -> LogLevel {
    match stamped_level(line) {
        Some(l) => l,
        None => if contains_seq(line, "WARN"@) || contains_seq(line, "warn"@) {
            LogLevel::Warn
        } else if contains_seq(line, "ERROR"@) || contains_seq(line, "error"@) {
            LogLevel::Error
        } else {
            LogLevel::Info
        },
    }
}

fn level_letter_exec(c: char) -> (r: Option<LogLevel>)
    ensures
        r == level_letter(c),
{
    if c == 'I' {
        Some(LogLevel::Info)
    } else if c == 'W' {
        Some(LogLevel::Warn)
    } else if c == 'E' {
        Some(LogLevel::Error)
    } else {
        None
    }
}

/// Reads the level written after a time stamp (see `stamped_level`).
pub fn detect_log_level(line: &str) -> (r: Option<LogLevel>)
    ensures
        r == stamped_level(line@),
{
    let v = chars_of(line);
    let b = trim_start_bound(&v, 0, v.len());
    assert(v@.subrange(0, v@.len() as int) =~= v@);
    let ghost t = v@.subrange(b as int, v@.len() as int);
    if b == v.len() || !('0' <= v[b] && v[b] <= '9') {
        return None;
    }
    let k = match find_char(&v, ' ', b, v.len()) {
        Some(k) => k,
        None => {
            proof {
                crate::text::lemma_find_char_from(v@, ' ', b as int);
                if find_char_from(t, ' ', 0) is Some {
                    crate::text::lemma_find_char_from(t, ' ', 0);
                    let j = find_char_from(t, ' ', 0)->0;
                    assert(v@[b + j] == ' ');
                }
            }
            return None;
        },
    };
    proof {
        crate::text::lemma_find_char_from(v@, ' ', b as int);
        crate::text::lemma_find_char_from(t, ' ', 0);
        assert forall|j: int| 0 <= j < k - b implies t[j] != ' ' by {
            assert(t[j] == v@[b + j]);
        }
        assert(t[k - b] == ' ');
        lemma_first_char_index(t, ' ', (k - b) as int);
    }
    let ghost stamp = t.subrange(0, k - b);
    let mut dots: usize = 0;
    let mut i = b;
    while i < k
        invariant
            b <= i <= k < v@.len(),
            t == v@.subrange(b as int, v@.len() as int),
            stamp == t.subrange(0, k - b),
            dots == count_dots(stamp.subrange(0, i - b)),
            dots <= i - b,
            t == trim_start_seq(line@),
            v@ == line@,
            t.len() > 0,
            is_digit_char(t[0]),
            find_char_from(t, ' ', 0) == Some((k - b) as int),
            digits_and_dots(stamp.subrange(0, i - b)),
        decreases k - i,
    {
        let c = v[i];
        assert(c == stamp[i - b]);
        assert(stamp.subrange(0, i - b + 1).drop_last() =~= stamp.subrange(0, i - b));
        if !(('0' <= c && c <= '9') || c == '.') {
            assert(!(is_digit_char(stamp[i - b]) || stamp[i - b] == '.'));
            return None;
        }
        if c == '.' {
            dots = dots + 1;
        }
        assert forall|j: int| 0 <= j < i - b + 1 implies is_digit_char(
            #[trigger] stamp.subrange(0, i - b + 1)[j],
        ) || stamp.subrange(0, i - b + 1)[j] == '.' by {
            if j < i - b {
                assert(stamp.subrange(0, i - b + 1)[j] == stamp.subrange(0, i - b)[j]);
            }
        }
        i = i + 1;
    }
    assert(stamp.subrange(0, k - b) =~= stamp);
    if dots < 2 {
        return None;
    }
    let r0 = k + 1;
    let ghost rest = t.subrange(k - b + 1, t.len() as int);
    if r0 >= v.len() {
        return None;
    }
    assert(rest[0] == v@[r0 as int]);
    if r0 + 1 == v.len() || v[r0 + 1] == ' ' {
        level_letter_exec(v[r0])
    } else {
        assert(rest[1] == v@[r0 + 1]);
        None
    }
}

/// A search from the start finds the first occurrence.
proof fn lemma_first_char_index(s: Seq<char>, c: char, k: int)
    requires
        0 <= k < s.len(),
        s[k] == c,
        forall|j: int| 0 <= j < k ==> s[j] != c,
    ensures
        find_char_from(s, c, 0) == Some(k),
{
    lemma_first_char_index_from(s, c, k, k);
}

proof fn lemma_first_char_index_from(s: Seq<char>, c: char, k: int, d: int)
    requires
        0 <= k < s.len(),
        0 <= d <= k,
        s[k] == c,
        forall|j: int| 0 <= j < k ==> s[j] != c,
    ensures
        find_char_from(s, c, k - d) == Some(k),
    decreases d,
{
    if d > 0 {
        lemma_first_char_index_from(s, c, k, d - 1);
    }
}

/// The level of a line of output (see `line_level`).
pub fn classify_log_line(line: &str) -> (r: LogLevel)
    ensures
        r == line_level(line@),
{
    match detect_log_level(line) {
        Some(level) => level,
        None => {
            if str_contains(line, "WARN") || str_contains(line, "warn") {
                LogLevel::Warn
            } else if str_contains(line, "ERROR") || str_contains(line, "error") {
                LogLevel::Error
            } else {
                LogLevel::Info
            }
        },
    }
}

} // verus!

verus! {

/// A character that ends the progress figure.
pub open spec fn is_stop(c: char) -> bool {
    c == ' ' || c == '\t' || c == ',' || c == '\n'
}

/// Index of the first stop character of `rest` from `i` on, or its length.
pub open spec fn stop_index(rest: Seq<char>, i: int) -> int
    decreases rest.len() - i,
{
    if i < 0 || i >= rest.len() {
        rest.len() as int
    } else if is_stop(rest[i]) {
        i
    } else {
        stop_index(rest, i + 1)
    }
}

/// The text of the figure after the first `"progress = "` in a line, up to the first space,
/// tab, comma or line feed, trimmed; `None` where the line holds no `"progress = "`.
pub open spec fn progress_field(text: Seq<char>) -> Option<Seq<char>> {
    match find_seq_from(text, "progress = "@, 0) {
        None => None,
        Some(p) => {
            let rest = text.subrange(p + "progress = "@.len(), text.len() as int);
            Some(trim_seq(rest.subrange(0, stop_index(rest, 0))))
        },
    }
}

/// The text of the prefill progress figure in a line of output (see `progress_field`);
/// the value itself is a floating-point number, read by the caller.
pub fn progress_text(text: &str) -> (r: Option<String>)
    ensures
        match (r, progress_field(text@)) {
            (Some(s), Some(f)) => s@ == f,
            (None, None) => true,
            _ => false,
        },
{
    let v = chars_of(text);
    let pat = chars_of("progress = ");
    let p = match find_chars(&v, &pat, 0) {
        Some(p) => p,
        None => {
            return None;
        },
    };
    proof {
        crate::text::lemma_find_seq_from(v@, pat@, 0);
        let i = find_seq_from(v@, pat@, 0)->0;
        assert(i + pat@.len() <= v@.len());
        assert(p == i);
    }
    let vlen = v.len();
    let plen = pat.len();
    assert(p + plen <= vlen);
    let start = p + plen;
    let ghost rest = v@.subrange(start as int, v@.len() as int);
    let mut e = start;
    while e < v.len() && !(v[e] == ' ' || v[e] == '\t' || v[e] == ',' || v[e] == '\n')
        invariant
            start <= e <= v@.len(),
            rest == v@.subrange(start as int, v@.len() as int),
            stop_index(rest, 0) == stop_index(rest, e - start),
        decreases v@.len() - e,
    {
        assert(rest[e - start] == v@[e as int]);
        e = e + 1;
    }
    proof {
        if e < v@.len() {
            assert(rest[e - start] == v@[e as int]);
        }
        assert(stop_index(rest, e - start) == e - start);
    }
    let te = trim_end_bound(&v, start, e);
    let tb = trim_start_bound(&v, start, te);
    assert(rest.subrange(0, e - start) =~= v@.subrange(start as int, e as int));
    Some(crate::text::owned_range(text, tb, te))
}

} // verus!

verus! {

/// The most lines of output kept in memory.
pub const MAX_LOG_LINES: usize = 10000;

/// The log after `e` arrives: appended, and the oldest line dropped when `MAX_LOG_LINES`
/// are already kept.
pub open spec fn log_after_push(log: Seq<LogEntry>, e: LogEntry) -> Seq<LogEntry> {
    if log.len() >= MAX_LOG_LINES {
        log.drop_first().push(e)
    } else {
        log.push(e)
    }
}

/// The lines of output kept in memory, oldest first, at most `MAX_LOG_LINES` of them.
pub struct LogBuffer {
    entries: VecDeque<LogEntry>,
}

impl LogBuffer {
    /// The kept lines, oldest first.
    pub closed spec fn view(&self) -> Seq<LogEntry> {
        self.entries@
    }

    /// The buffer holds no more than `MAX_LOG_LINES` lines.
    pub closed spec fn wf(&self) -> bool {
        self.entries@.len() <= MAX_LOG_LINES
    }

    /// An empty log.
    pub fn new() -> (r: LogBuffer)
        ensures
            r.wf(),
            r.view() == Seq::<LogEntry>::empty(),
    {
        LogBuffer { entries: VecDeque::new() }
    }

    /// Number of kept lines.
    pub fn len(&self) -> (r: usize)
        ensures
            r == self.view().len(),
    {
        self.entries.len()
    }

    /// Adds a line, dropping the oldest one when the buffer is full.
    pub fn push(&mut self, e: LogEntry)
        requires
            old(self).wf(),
        ensures
            final(self).wf(),
            final(self).view() == log_after_push(old(self).view(), e),
    {
        if self.entries.len() >= MAX_LOG_LINES {
            let _ = self.entries.pop_front();
        }
        self.entries.push_back(e);
    }

    /// Drops every line.
    pub fn clear(&mut self)
        ensures
            final(self).wf(),
            final(self).view() == Seq::<LogEntry>::empty(),
    {
        self.entries = VecDeque::new();
    }

    /// Copies of the kept lines, oldest first.
    pub fn entries(&self) -> (r: Vec<LogEntry>)
        ensures
            r@ == self.view(),
    {
        let mut r: Vec<LogEntry> = Vec::new();
        let mut i: usize = 0;
        while i < self.entries.len()
            invariant
                i <= self.entries@.len(),
                r@ == self.entries@.take(i as int),
            decreases self.entries@.len() - i,
        {
            r.push(self.entries[i].duplicate());
            assert(self.entries@.take(i + 1) =~= self.entries@.take(i as int).push(
                self.entries@[i as int],
            ));
            i = i + 1;
        }
        assert(self.entries@.take(i as int) =~= self.entries@);
        r
    }

    /// Whether some kept line contains `pattern`.
    pub fn any_contains(&self, pattern: &str) -> (r: bool)
        ensures
            r == exists|i: int|
                0 <= i < self.view().len() && contains_seq(#[trigger] self.view()[i].text@, pattern@),
    {
        let mut i: usize = 0;
        while i < self.entries.len()
            invariant
                i <= self.entries@.len(),
                forall|j: int| 0 <= j < i ==> !contains_seq(#[trigger] self.entries@[j].text@, pattern@),
            decreases self.entries@.len() - i,
        {
            if str_contains(self.entries[i].text.as_str(), pattern) {
                return true;
            }
            i = i + 1;
        }
        false
    }
}

/// A log never holds more than `MAX_LOG_LINES` lines, its newest line is the one last added,
/// and the lines before it are kept in order.
pub proof fn lemma_log_push(log: Seq<LogEntry>, e: LogEntry)
    requires
        log.len() <= MAX_LOG_LINES,
    ensures
        log_after_push(log, e).len() <= MAX_LOG_LINES,
        log_after_push(log, e).last() == e,
        log_after_push(log, e).drop_last() == (if log.len() >= MAX_LOG_LINES {
            log.drop_first()
        } else {
            log
        }),
{
    if log.len() >= MAX_LOG_LINES {
        assert(log.drop_first().push(e).drop_last() =~= log.drop_first());
    } else {
        assert(log.push(e).drop_last() =~= log);
    }
}

} // verus!

verus! {

/// The floating-point settings as the server receives them, written by the caller
/// (`f32` values printed in their shortest form), and the physical batch size in tokens.
pub struct LaunchFloats {
    pub ubatch_size_actual: usize,
    pub temperature: String,
    pub top_p: String,
    pub repeat_penalty: String,
    pub presence_penalty: String,
    pub spec_draft_p_min: String,
    pub spec_draft_p_split: String,
}

/// The decimal form of a signed integer, as `to_string` writes it.
pub open spec fn signed_decimal(i: int) -> Seq<char> {
    if i < 0 {
        "-"@ + decimal((-i) as nat)
    } else {
        decimal(i as nat)
    }
}

/// `flag value` when `cond` holds, nothing otherwise.
pub open spec fn opt_pair(cond: bool, flag: Seq<char>, value: Seq<char>) -> Seq<Seq<char>> {
    if cond {
        seq![flag, value]
    } else {
        Seq::empty()
    }
}

/// `flag` when `cond` holds, nothing otherwise.
pub open spec fn opt_flag(cond: bool, flag: Seq<char>) -> Seq<Seq<char>> {
    if cond {
        seq![flag]
    } else {
        Seq::empty()
    }
}

/// The arguments that every launch passes.
pub open spec fn base_args(s: AppSettings, f: LaunchFloats) -> Seq<Seq<char>> {
    seq![
        "--model"@, s.model_path@,
        "--host"@, s.host@,
        "--port"@, decimal(s.port as nat),
        "--ctx-size"@, decimal((s.context * 1024) as nat),
        "--parallel"@, decimal(s.parallel_slots as nat),
        "--batch-size"@, decimal((s.batch_size * 1024) as nat),
        "--ubatch-size"@, decimal(f.ubatch_size_actual as nat),
        "--gpu-layers"@, gpu_layers_arg(s.gpu_layers_mode),
        "--temperature"@, f.temperature@,
        "--top-p"@, f.top_p@,
        "--top-k"@, signed_decimal(s.top_k as int),
        "--repeat-penalty"@, f.repeat_penalty@,
        "--presence-penalty"@, f.presence_penalty@,
    ]
}

/// Arguments on attention, the projector, and speculative decoding.
pub open spec fn model_args(s: AppSettings, f: LaunchFloats) -> Seq<Seq<char>> {
    let speculative = s.spec_type@ != "none"@;
    opt_pair(s.flash_attn@.len() > 0, "--flash-attn"@, s.flash_attn@)
        + opt_pair(s.mmproj_path@.len() > 0, "--mmproj"@, s.mmproj_path@)
        + opt_pair(s.dflash_path@.len() > 0, "--model-draft"@, s.dflash_path@)
        + opt_pair(speculative, "--spec-type"@, s.spec_type@)
        + (if speculative {
            seq![
                "--spec-draft-n-max"@, decimal(s.spec_draft_n_max as nat),
                "--spec-draft-n-min"@, decimal(s.spec_draft_n_min as nat),
                "--spec-draft-p-min"@, f.spec_draft_p_min@,
                "--spec-draft-p-split"@, f.spec_draft_p_split@,
            ]
        } else {
            Seq::empty()
        })
}

/// Arguments on the KV cache.
pub open spec fn cache_args(s: AppSettings) -> Seq<Seq<char>> {
    seq![if s.kv_offload { "-kvo"@ } else { "-nkvo"@ }]
        + opt_pair(s.cache_type_k@.len() > 0, "--cache-type-k"@, s.cache_type_k@)
        + opt_pair(s.cache_type_v@.len() > 0, "--cache-type-v"@, s.cache_type_v@)
}

/// Arguments on devices and the split of the model.
pub open spec fn device_args(s: AppSettings) -> Seq<Seq<char>> {
    opt_pair(s.gpu_device@.len() > 0, "--device"@, s.gpu_device@)
        + opt_pair(s.split_mode@.len() > 0 && s.split_mode@ != "layer"@, "--split-mode"@, s.split_mode@)
        + opt_pair(s.tensor_split@.len() > 0, "--tensor-split"@, s.tensor_split@)
        + opt_flag(s.cpu_moe, "--cpu-moe"@)
        + opt_pair(s.n_cpu_moe > 0, "--n-cpu-moe"@, decimal(s.n_cpu_moe as nat))
}

/// Arguments on logging, offline use, RPC, and the web client.
pub open spec fn mode_args(s: AppSettings) -> Seq<Seq<char>> {
    opt_flag(s.verbose, "--verbose"@)
        + opt_flag(s.offline_mode, "--offline"@)
        + opt_pair(s.rpc_mode, "--rpc"@, s.rpc_endpoints@)
        + seq![if s.web_ui_enabled { "--webui"@ } else { "--no-webui"@ }]
}

/// The arguments that `llama-server` is started with.
pub open spec fn server_args(s: AppSettings, f: LaunchFloats) -> Seq<Seq<char>> {
    base_args(s, f) + model_args(s, f) + cache_args(s) + device_args(s) + mode_args(s)
}

/// `args` holds the flag `flag` with `value` as the argument right after it.
pub open spec fn has_pair(args: Seq<Seq<char>>, flag: Seq<char>, value: Seq<char>) -> bool {
    exists|i: int| #![trigger args[i]] 0 <= i && i + 1 < args.len() && args[i] == flag && args[i + 1] == value
}

/// A pair found in a part of the arguments is found once more arguments come before or after.
proof fn lemma_has_pair_append(a: Seq<Seq<char>>, b: Seq<Seq<char>>, flag: Seq<char>, value: Seq<char>)
    ensures
        has_pair(a, flag, value) ==> has_pair(a + b, flag, value),
        has_pair(b, flag, value) ==> has_pair(a + b, flag, value),
{
    if has_pair(a, flag, value) {
        let i = choose|i: int| #![trigger a[i]] 0 <= i && i + 1 < a.len() && a[i] == flag && a[i + 1] == value;
        assert((a + b)[i] == flag && (a + b)[i + 1] == value);
    }
    if has_pair(b, flag, value) {
        let i = choose|i: int| #![trigger b[i]] 0 <= i && i + 1 < b.len() && b[i] == flag && b[i + 1] == value;
        let j = i + a.len();
        assert((a + b)[j] == flag && (a + b)[j + 1] == value);
    }
}

/// The pair at position `i` of `args`.
proof fn lemma_pair_at(args: Seq<Seq<char>>, i: int, flag: Seq<char>, value: Seq<char>)
    requires
        0 <= i,
        i + 1 < args.len(),
        args[i] == flag,
        args[i + 1] == value,
    ensures
        has_pair(args, flag, value),
{
}

/// Each setting reaches the server as the argument right after its flag: the model, host,
/// port, sizes (in tokens), GPU layers and sampling values always; the flash-attention mode,
/// projector, draft model, KV cache types, device and tensor split when they are set; the
/// RPC servers in RPC mode.
pub proof fn lemma_arguments_carry_settings(s: AppSettings, f: LaunchFloats)
    ensures
        has_pair(server_args(s, f), "--model"@, s.model_path@),
        has_pair(server_args(s, f), "--host"@, s.host@),
        has_pair(server_args(s, f), "--port"@, decimal(s.port as nat)),
        has_pair(server_args(s, f), "--ctx-size"@, decimal((s.context * 1024) as nat)),
        has_pair(server_args(s, f), "--parallel"@, decimal(s.parallel_slots as nat)),
        has_pair(server_args(s, f), "--batch-size"@, decimal((s.batch_size * 1024) as nat)),
        has_pair(server_args(s, f), "--ubatch-size"@, decimal(f.ubatch_size_actual as nat)),
        has_pair(server_args(s, f), "--gpu-layers"@, gpu_layers_arg(s.gpu_layers_mode)),
        has_pair(server_args(s, f), "--temperature"@, f.temperature@),
        has_pair(server_args(s, f), "--top-p"@, f.top_p@),
        has_pair(server_args(s, f), "--top-k"@, signed_decimal(s.top_k as int)),
        has_pair(server_args(s, f), "--repeat-penalty"@, f.repeat_penalty@),
        has_pair(server_args(s, f), "--presence-penalty"@, f.presence_penalty@),
        s.flash_attn@.len() > 0 ==> has_pair(server_args(s, f), "--flash-attn"@, s.flash_attn@),
        s.mmproj_path@.len() > 0 ==> has_pair(server_args(s, f), "--mmproj"@, s.mmproj_path@),
        s.dflash_path@.len() > 0 ==> has_pair(server_args(s, f), "--model-draft"@, s.dflash_path@),
        s.cache_type_k@.len() > 0 ==> has_pair(server_args(s, f), "--cache-type-k"@, s.cache_type_k@),
        s.cache_type_v@.len() > 0 ==> has_pair(server_args(s, f), "--cache-type-v"@, s.cache_type_v@),
        s.gpu_device@.len() > 0 ==> has_pair(server_args(s, f), "--device"@, s.gpu_device@),
        s.tensor_split@.len() > 0 ==> has_pair(server_args(s, f), "--tensor-split"@, s.tensor_split@),
        s.rpc_mode ==> has_pair(server_args(s, f), "--rpc"@, s.rpc_endpoints@),
{
    let b = base_args(s, f);
    let m = model_args(s, f);
    let c = cache_args(s);
    let d = device_args(s);
    let o = mode_args(s);
    assert(server_args(s, f) == b + m + c + d + o);
    lemma_pair_at(b, 0, "--model"@, s.model_path@);
    lemma_pair_at(b, 2, "--host"@, s.host@);
    lemma_pair_at(b, 4, "--port"@, decimal(s.port as nat));
    lemma_pair_at(b, 6, "--ctx-size"@, decimal((s.context * 1024) as nat));
    lemma_pair_at(b, 8, "--parallel"@, decimal(s.parallel_slots as nat));
    lemma_pair_at(b, 10, "--batch-size"@, decimal((s.batch_size * 1024) as nat));
    lemma_pair_at(b, 12, "--ubatch-size"@, decimal(f.ubatch_size_actual as nat));
    lemma_pair_at(b, 14, "--gpu-layers"@, gpu_layers_arg(s.gpu_layers_mode));
    lemma_pair_at(b, 16, "--temperature"@, f.temperature@);
    lemma_pair_at(b, 18, "--top-p"@, f.top_p@);
    lemma_pair_at(b, 20, "--top-k"@, signed_decimal(s.top_k as int));
    lemma_pair_at(b, 22, "--repeat-penalty"@, f.repeat_penalty@);
    lemma_pair_at(b, 24, "--presence-penalty"@, f.presence_penalty@);
    let fa = opt_pair(s.flash_attn@.len() > 0, "--flash-attn"@, s.flash_attn@);
    let mp = opt_pair(s.mmproj_path@.len() > 0, "--mmproj"@, s.mmproj_path@);
    let dp = opt_pair(s.dflash_path@.len() > 0, "--model-draft"@, s.dflash_path@);
    if s.flash_attn@.len() > 0 {
        lemma_pair_at(m, 0, "--flash-attn"@, s.flash_attn@);
    }
    if s.mmproj_path@.len() > 0 {
        lemma_pair_at(m, fa.len() as int, "--mmproj"@, s.mmproj_path@);
    }
    if s.dflash_path@.len() > 0 {
        lemma_pair_at(m, (fa.len() + mp.len()) as int, "--model-draft"@, s.dflash_path@);
    }
    let ck = opt_pair(s.cache_type_k@.len() > 0, "--cache-type-k"@, s.cache_type_k@);
    if s.cache_type_k@.len() > 0 {
        lemma_pair_at(c, 1, "--cache-type-k"@, s.cache_type_k@);
    }
    if s.cache_type_v@.len() > 0 {
        lemma_pair_at(c, (1 + ck.len()) as int, "--cache-type-v"@, s.cache_type_v@);
    }
    let dv = opt_pair(s.gpu_device@.len() > 0, "--device"@, s.gpu_device@);
    let sm = opt_pair(
        s.split_mode@.len() > 0 && s.split_mode@ != "layer"@,
        "--split-mode"@,
        s.split_mode@,
    );
    if s.gpu_device@.len() > 0 {
        lemma_pair_at(d, 0, "--device"@, s.gpu_device@);
    }
    if s.tensor_split@.len() > 0 {
        lemma_pair_at(d, (dv.len() + sm.len()) as int, "--tensor-split"@, s.tensor_split@);
    }
    let vb = opt_flag(s.verbose, "--verbose"@);
    let of = opt_flag(s.offline_mode, "--offline"@);
    if s.rpc_mode {
        lemma_pair_at(o, (vb.len() + of.len()) as int, "--rpc"@, s.rpc_endpoints@);
    }
    let pairs: Seq<(Seq<char>, Seq<char>)> = seq![
        ("--model"@, s.model_path@),
        ("--host"@, s.host@),
        ("--port"@, decimal(s.port as nat)),
        ("--ctx-size"@, decimal((s.context * 1024) as nat)),
        ("--parallel"@, decimal(s.parallel_slots as nat)),
        ("--batch-size"@, decimal((s.batch_size * 1024) as nat)),
        ("--ubatch-size"@, decimal(f.ubatch_size_actual as nat)),
        ("--gpu-layers"@, gpu_layers_arg(s.gpu_layers_mode)),
        ("--temperature"@, f.temperature@),
        ("--top-p"@, f.top_p@),
        ("--top-k"@, signed_decimal(s.top_k as int)),
        ("--repeat-penalty"@, f.repeat_penalty@),
        ("--presence-penalty"@, f.presence_penalty@),
        ("--flash-attn"@, s.flash_attn@),
        ("--mmproj"@, s.mmproj_path@),
        ("--model-draft"@, s.dflash_path@),
        ("--cache-type-k"@, s.cache_type_k@),
        ("--cache-type-v"@, s.cache_type_v@),
        ("--device"@, s.gpu_device@),
        ("--tensor-split"@, s.tensor_split@),
        ("--rpc"@, s.rpc_endpoints@),
    ];
    assert forall|k: int| 0 <= k < pairs.len() implies {
        &&& has_pair(b, pairs[k].0, pairs[k].1) ==> has_pair(server_args(s, f), pairs[k].0, pairs[k].1)
        &&& has_pair(m, pairs[k].0, pairs[k].1) ==> has_pair(server_args(s, f), pairs[k].0, pairs[k].1)
        &&& has_pair(c, pairs[k].0, pairs[k].1) ==> has_pair(server_args(s, f), pairs[k].0, pairs[k].1)
        &&& has_pair(d, pairs[k].0, pairs[k].1) ==> has_pair(server_args(s, f), pairs[k].0, pairs[k].1)
        &&& has_pair(o, pairs[k].0, pairs[k].1) ==> has_pair(server_args(s, f), pairs[k].0, pairs[k].1)
    } by {
        let fl = pairs[k].0;
        let v = pairs[k].1;
        lemma_has_pair_append(b, m, fl, v);
        lemma_has_pair_append(b + m, c, fl, v);
        lemma_has_pair_append(b + m + c, d, fl, v);
        lemma_has_pair_append(b + m + c + d, o, fl, v);
    }
    assert(pairs[0] == ("--model"@, s.model_path@));
    assert(pairs[1] == ("--host"@, s.host@));
    assert(pairs[2] == ("--port"@, decimal(s.port as nat)));
    assert(pairs[3] == ("--ctx-size"@, decimal((s.context * 1024) as nat)));
    assert(pairs[4] == ("--parallel"@, decimal(s.parallel_slots as nat)));
    assert(pairs[5] == ("--batch-size"@, decimal((s.batch_size * 1024) as nat)));
    assert(pairs[6] == ("--ubatch-size"@, decimal(f.ubatch_size_actual as nat)));
    assert(pairs[7] == ("--gpu-layers"@, gpu_layers_arg(s.gpu_layers_mode)));
    assert(pairs[8] == ("--temperature"@, f.temperature@));
    assert(pairs[9] == ("--top-p"@, f.top_p@));
    assert(pairs[10] == ("--top-k"@, signed_decimal(s.top_k as int)));
    assert(pairs[11] == ("--repeat-penalty"@, f.repeat_penalty@));
    assert(pairs[12] == ("--presence-penalty"@, f.presence_penalty@));
    assert(pairs[13] == ("--flash-attn"@, s.flash_attn@));
    assert(pairs[14] == ("--mmproj"@, s.mmproj_path@));
    assert(pairs[15] == ("--model-draft"@, s.dflash_path@));
    assert(pairs[16] == ("--cache-type-k"@, s.cache_type_k@));
    assert(pairs[17] == ("--cache-type-v"@, s.cache_type_v@));
    assert(pairs[18] == ("--device"@, s.gpu_device@));
    assert(pairs[19] == ("--tensor-split"@, s.tensor_split@));
    assert(pairs[20] == ("--rpc"@, s.rpc_endpoints@));
}

fn push_text(args: &mut Vec<String>, t: &str)
    ensures
        views(final(args)@) == views(old(args)@).push(t@),
{
    args.push(String::from_str(t));
    assert(views(args@) =~= views(old(args)@).push(t@));
}

fn push_owned(args: &mut Vec<String>, t: String)
    ensures
        views(final(args)@) == views(old(args)@).push(t@),
{
    let ghost v = t@;
    args.push(t);
    assert(views(args@) =~= views(old(args)@).push(v));
}

fn push_pair(args: &mut Vec<String>, flag: &str, value: String)
    ensures
        views(final(args)@) == views(old(args)@) + seq![flag@, value@],
{
    push_text(args, flag);
    push_owned(args, value);
    assert(views(args@) =~= views(old(args)@) + seq![flag@, value@]);
}

fn decimal_of(n: u64) -> (r: String)
    ensures
        r@ == decimal(n as nat),
{
    crate::text::decimal_string(n)
}

/// `i.to_string()` for a signed integer.
pub fn signed_decimal_string(i: i32) -> (r: String)
    ensures
        r@ == signed_decimal(i as int),
{
    if i < 0 {
        let mut s = String::from_str("-");
        let m: i64 = -(i as i64);
        push_decimal(&mut s, m as u64);
        s
    } else {
        decimal_of(i as u64)
    }
}

fn push_base_args(args: &mut Vec<String>, s: &AppSettings, f: &LaunchFloats)
    requires
        s.context * 1024 <= usize::MAX,
        s.batch_size * 1024 <= usize::MAX,
    ensures
        views(final(args)@) == views(old(args)@) + base_args(*s, *f),
{
    push_pair(args, "--model", s.model_path.clone());
    push_pair(args, "--host", s.host.clone());
    push_pair(args, "--port", decimal_of(s.port as u64));
    push_pair(args, "--ctx-size", decimal_of(s.context_actual() as u64));
    push_pair(args, "--parallel", decimal_of(s.parallel_slots as u64));
    push_pair(args, "--batch-size", decimal_of(s.batch_size_actual() as u64));
    push_pair(args, "--ubatch-size", decimal_of(f.ubatch_size_actual as u64));
    push_pair(args, "--gpu-layers", s.gpu_layers_mode.to_arg());
    push_pair(args, "--temperature", f.temperature.clone());
    push_pair(args, "--top-p", f.top_p.clone());
    push_pair(args, "--top-k", signed_decimal_string(s.top_k));
    push_pair(args, "--repeat-penalty", f.repeat_penalty.clone());
    push_pair(args, "--presence-penalty", f.presence_penalty.clone());
    assert(views(args@) =~= views(old(args)@) + base_args(*s, *f));
}

fn push_model_args(args: &mut Vec<String>, s: &AppSettings, f: &LaunchFloats)
    ensures
        views(final(args)@) == views(old(args)@) + model_args(*s, *f),
{
    let ghost a0 = views(args@);
    if !s.flash_attn.as_str().is_empty() {
        push_pair(args, "--flash-attn", s.flash_attn.clone());
    }
    let ghost a1 = views(args@);
    assert(a1 =~= a0 + opt_pair(s.flash_attn@.len() > 0, "--flash-attn"@, s.flash_attn@));
    if !s.mmproj_path.as_str().is_empty() {
        push_pair(args, "--mmproj", s.mmproj_path.clone());
    }
    let ghost a2 = views(args@);
    assert(a2 =~= a1 + opt_pair(s.mmproj_path@.len() > 0, "--mmproj"@, s.mmproj_path@));
    if !s.dflash_path.as_str().is_empty() {
        push_pair(args, "--model-draft", s.dflash_path.clone());
    }
    let ghost a3 = views(args@);
    assert(a3 =~= a2 + opt_pair(s.dflash_path@.len() > 0, "--model-draft"@, s.dflash_path@));
    let speculative = !str_eq(s.spec_type.as_str(), "none");
    if speculative {
        push_pair(args, "--spec-type", s.spec_type.clone());
    }
    let ghost a4 = views(args@);
    assert(a4 =~= a3 + opt_pair(speculative, "--spec-type"@, s.spec_type@));
    if speculative {
        push_pair(args, "--spec-draft-n-max", decimal_of(s.spec_draft_n_max as u64));
        push_pair(args, "--spec-draft-n-min", decimal_of(s.spec_draft_n_min as u64));
        push_pair(args, "--spec-draft-p-min", f.spec_draft_p_min.clone());
        push_pair(args, "--spec-draft-p-split", f.spec_draft_p_split.clone());
    }
    assert(views(args@) =~= views(old(args)@) + model_args(*s, *f));
}

fn push_cache_args(args: &mut Vec<String>, s: &AppSettings)
    ensures
        views(final(args)@) == views(old(args)@) + cache_args(*s),
{
    if s.kv_offload {
        push_text(args, "-kvo");
    } else {
        push_text(args, "-nkvo");
    }
    let ghost a1 = views(args@);
    if !s.cache_type_k.as_str().is_empty() {
        push_pair(args, "--cache-type-k", s.cache_type_k.clone());
    }
    let ghost a2 = views(args@);
    assert(a2 =~= a1 + opt_pair(s.cache_type_k@.len() > 0, "--cache-type-k"@, s.cache_type_k@));
    if !s.cache_type_v.as_str().is_empty() {
        push_pair(args, "--cache-type-v", s.cache_type_v.clone());
    }
    assert(views(args@) =~= views(old(args)@) + cache_args(*s));
}

fn push_device_args(args: &mut Vec<String>, s: &AppSettings)
    ensures
        views(final(args)@) == views(old(args)@) + device_args(*s),
{
    let ghost a0 = views(args@);
    if !s.gpu_device.as_str().is_empty() {
        push_pair(args, "--device", s.gpu_device.clone());
    }
    let ghost a1 = views(args@);
    assert(a1 =~= a0 + opt_pair(s.gpu_device@.len() > 0, "--device"@, s.gpu_device@));
    let split = !s.split_mode.as_str().is_empty() && !str_eq(s.split_mode.as_str(), "layer");
    if split {
        push_pair(args, "--split-mode", s.split_mode.clone());
    }
    let ghost a2 = views(args@);
    assert(a2 =~= a1 + opt_pair(split, "--split-mode"@, s.split_mode@));
    if !s.tensor_split.as_str().is_empty() {
        push_pair(args, "--tensor-split", s.tensor_split.clone());
    }
    let ghost a3 = views(args@);
    assert(a3 =~= a2 + opt_pair(s.tensor_split@.len() > 0, "--tensor-split"@, s.tensor_split@));
    if s.cpu_moe {
        push_text(args, "--cpu-moe");
    }
    let ghost a4 = views(args@);
    assert(a4 =~= a3 + opt_flag(s.cpu_moe, "--cpu-moe"@));
    if s.n_cpu_moe > 0 {
        push_pair(args, "--n-cpu-moe", decimal_of(s.n_cpu_moe as u64));
    }
    assert(views(args@) =~= views(old(args)@) + device_args(*s));
}

fn push_mode_args(args: &mut Vec<String>, s: &AppSettings)
    ensures
        views(final(args)@) == views(old(args)@) + mode_args(*s),
{
    let ghost a0 = views(args@);
    if s.verbose {
        push_text(args, "--verbose");
    }
    let ghost a1 = views(args@);
    assert(a1 =~= a0 + opt_flag(s.verbose, "--verbose"@));
    if s.offline_mode {
        push_text(args, "--offline");
    }
    let ghost a2 = views(args@);
    assert(a2 =~= a1 + opt_flag(s.offline_mode, "--offline"@));
    if s.rpc_mode {
        push_pair(args, "--rpc", s.rpc_endpoints.clone());
    }
    let ghost a3 = views(args@);
    assert(a3 =~= a2 + opt_pair(s.rpc_mode, "--rpc"@, s.rpc_endpoints@));
    if s.web_ui_enabled {
        push_text(args, "--webui");
    } else {
        push_text(args, "--no-webui");
    }
    assert(views(args@) =~= views(old(args)@) + mode_args(*s));
}

/// The arguments that `llama-server` is started with, for the settings `s` (see
/// `server_args`). Context and batch sizes are given in tokens.
pub fn build_server_args(s: &AppSettings, f: &LaunchFloats) -> (r: Vec<String>)
    requires
        s.context * 1024 <= usize::MAX,
        s.batch_size * 1024 <= usize::MAX,
    ensures
        views(r@) == server_args(*s, *f),
{
    let mut args: Vec<String> = Vec::new();
    assert(views(args@) =~= Seq::<Seq<char>>::empty());
    push_base_args(&mut args, s, f);
    push_model_args(&mut args, s, f);
    push_cache_args(&mut args, s);
    push_device_args(&mut args, s);
    push_mode_args(&mut args, s);
    assert(views(args@) =~= server_args(*s, *f));
    args
}

/// The command line shown for a launch: the server's path, a space, then the arguments
/// separated by spaces.
pub fn launch_command_line(server_path: &str, args: &Vec<String>) -> (r: String)
    ensures
        r@ == server_path@ + " "@ + join_seq(views(args@), " "@),
{
    let joined = join_strings(args, " ");
    String::from_str(server_path).concat(" ").concat(joined.as_str())
}

} // verus!

verus! {

/// Why the server could not be started.
#[derive(Clone, Debug, PartialEq, Eq)]
pub enum ServerFault {
    /// No server executable or no model is chosen.
    MissingServerOrModel,
    /// The server's port is the RPC server's port.
    PortConflict,
    /// Starting the process failed, for the given reason.
    StartFailed(String),
}

/// The state of the managed `llama-server` process.
#[derive(Clone, Debug, PartialEq, Eq)]
pub enum ServerState {
    Idle,
    Starting,
    Running,
    Stopping,
    Error(ServerFault),
}

/// The launcher's record of the server: its state, its output, and the command line it
/// was started with. The process itself is run by the caller.
pub struct ServerCore {
    pub state: ServerState,
    pub logs: LogBuffer,
    pub launch_command: Option<String>,
}

/// The core's invariant: the log stays within its limit.
pub open spec fn core_wf(c: ServerCore) -> bool {
    c.logs.wf()
}

/// What a request to start the server decides, for the settings `s`: nothing while the
/// server runs, a fault when no server or model is chosen or the ports collide, a launch
/// otherwise.
pub open spec fn start_decision(state: ServerState, s: AppSettings) -> Option<ServerState> {
    if state is Running {
        None
    } else if s.server_path@.len() == 0 || s.model_path@.len() == 0 {
        Some(ServerState::Error(ServerFault::MissingServerOrModel))
    } else if s.port == s.rpc_port {
        Some(ServerState::Error(ServerFault::PortConflict))
    } else {
        Some(ServerState::Starting)
    }
}

impl ServerCore {
    /// An idle server with an empty log.
    pub fn new() -> (r: ServerCore)
        ensures
            core_wf(r),
            r.state is Idle,
            r.logs.view() == Seq::<LogEntry>::empty(),
            r.launch_command is None,
    {
        ServerCore { state: ServerState::Idle, logs: LogBuffer::new(), launch_command: None }
    }

    /// Whether the server runs.
    pub fn is_running(&self) -> (r: bool)
        ensures
            r == self.state is Running,
    {
        match self.state {
            ServerState::Running => true,
            _ => false,
        }
    }

    /// Whether the server has said that it listens (`"server is listening on"`).
    pub fn is_listening(&self) -> (r: bool)
        ensures
            r == exists|i: int|
                0 <= i < self.logs.view().len() && contains_seq(
                    #[trigger] self.logs.view()[i].text@,
                    "server is listening on"@,
                ),
    {
        self.logs.any_contains("server is listening on")
    }

    /// Handles a request to start the server (see `start_decision`). On a launch the log is
    /// cleared, the last command line forgotten, and the arguments to start the server with
    /// are returned; the caller starts the process and reports how that went.
    pub fn begin_start(&mut self, s: &AppSettings, f: &LaunchFloats) -> (r: Option<Vec<String>>)
        requires
            core_wf(*old(self)),
            start_decision(old(self).state, *s) == Some(ServerState::Starting) ==> {
                &&& s.context * 1024 <= usize::MAX
                &&& s.batch_size * 1024 <= usize::MAX
            },
        ensures
            core_wf(*final(self)),
            match start_decision(old(self).state, *s) {
                None => *final(self) == *old(self) && r is None,
                Some(ServerState::Starting) => {
                    &&& final(self).state is Starting
                    &&& final(self).logs.view() == Seq::<LogEntry>::empty()
                    &&& final(self).launch_command is None
                    &&& r matches Some(args) && views(args@) == server_args(*s, *f)
                },
                Some(st) => {
                    &&& final(self).state == st
                    &&& final(self).logs == old(self).logs
                    &&& final(self).launch_command == old(self).launch_command
                    &&& r is None
                },
            },
    {
        if self.is_running() {
            return None;
        }
        if s.server_path.as_str().is_empty() || s.model_path.as_str().is_empty() {
            self.state = ServerState::Error(ServerFault::MissingServerOrModel);
            return None;
        }
        if s.port == s.rpc_port {
            self.state = ServerState::Error(ServerFault::PortConflict);
            return None;
        }
        self.state = ServerState::Starting;
        self.logs.clear();
        self.launch_command = None;
        Some(build_server_args(s, f))
    }

    /// Records that the process started with the command line `command`.
    pub fn spawn_succeeded(&mut self, command: String)
        ensures
            *final(self) == (ServerCore {
                launch_command: Some(command),
                ..*old(self)
            }),
    {
        self.launch_command = Some(command);
    }

    /// Records that the process could not be started, for `reason`.
    pub fn spawn_failed(&mut self, reason: String)
        ensures
            *final(self) == (ServerCore {
                state: ServerState::Error(ServerFault::StartFailed(reason)),
                launch_command: None,
                ..*old(self)
            }),
    {
        self.state = ServerState::Error(ServerFault::StartFailed(reason));
        self.launch_command = None;
    }

    /// Records a line of the server's output, with the level `line_level` gives it.
    pub fn record_line(&mut self, text: String)
        requires
            core_wf(*old(self)),
        ensures
            core_wf(*final(self)),
            final(self).logs.view() == log_after_push(
                old(self).logs.view(),
                LogEntry { text: text, level: line_level(text@) },
            ),
            final(self).state == old(self).state,
            final(self).launch_command == old(self).launch_command,
    {
        let level = classify_log_line(text.as_str());
        self.logs.push(LogEntry { text, level });
    }

    /// Records that the process was seen to have ended, with `message` logged as a warning;
    /// the server is then idle. Each report of the end is logged.
    pub fn record_exit(&mut self, message: String)
        requires
            core_wf(*old(self)),
        ensures
            core_wf(*final(self)),
            final(self).logs.view() == log_after_push(
                old(self).logs.view(),
                LogEntry { text: message, level: LogLevel::Warn },
            ),
            final(self).state is Idle,
            final(self).launch_command == old(self).launch_command,
    {
        self.logs.push(LogEntry { text: message, level: LogLevel::Warn });
        self.state = ServerState::Idle;
    }

    /// A poll: a starting server is taken to run.
    pub fn poll(&mut self)
        ensures
            old(self).state is Starting ==> *final(self) == (ServerCore {
                state: ServerState::Running,
                ..*old(self)
            }),
            !(old(self).state is Starting) ==> *final(self) == *old(self),
    {
        if let ServerState::Starting = self.state {
            self.state = ServerState::Running;
        }
    }

    /// Stops the server: when a process was running (`had_process`) it was killed and the
    /// server is idle; the command line is forgotten either way.
    pub fn stop(&mut self, had_process: bool)
        ensures
            final(self).launch_command is None,
            final(self).logs == old(self).logs,
            had_process ==> final(self).state is Idle,
            !had_process ==> final(self).state == old(self).state,
    {
        if had_process {
            self.state = ServerState::Stopping;
            self.state = ServerState::Idle;
        }
        self.launch_command = None;
    }

    /// Empties the log.
    pub fn clear_logs(&mut self)
        ensures
            core_wf(*final(self)),
            final(self).logs.view() == Seq::<LogEntry>::empty(),
            final(self).state == old(self).state,
            final(self).launch_command == old(self).launch_command,
    {
        self.logs.clear();
    }
}

} // verus!

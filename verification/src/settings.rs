//! The launcher's settings: how many GPU layers to offload, presets, defaults, and where
//! the llama.cpp executables are looked for.
use vstd::prelude::*;

use crate::text::{
    ascii_lower, case_folded, chars_of, decimal, decimal_string, lemma_parse_decimal,
    lowercased, parse_usize_chars, parse_usize_spec, str_eq, trim_end_bound, trim_seq,
    trim_start_bound, trim_end_seq, trim_start_seq, digits_value, is_digit_char,
    lemma_decimal_digits, all_digits, is_white_space,
};

verus! {

/// How many model layers are offloaded to the GPU.
#[derive(Clone, Copy, Debug, PartialEq, Eq, Structural)]
pub enum GpuLayersMode {
    /// Let llama.cpp decide.
    Auto,
    /// Offload every layer.
    All,
    /// Offload this many layers.
    Manual(usize),
}

/// The value of `--gpu-layers` for a mode.
pub open spec fn gpu_layers_arg(m: GpuLayersMode) -> Seq<char> {
    match m {
        GpuLayersMode::Auto => "auto"@,
        GpuLayersMode::All => "999"@,
        GpuLayersMode::Manual(n) => decimal(n as nat),
    }
}

/// The mode that a settings file spells as a string: surrounding white space ignored and
/// case folded, `"auto"`, `"all"` or `"999"`, or a layer count.
pub open spec fn gpu_layers_from_text(s: Seq<char>) -> Option<GpuLayersMode> {
    let v = case_folded(trim_seq(s));
    if v == "auto"@ {
        Some(GpuLayersMode::Auto)
    } else if v == "all"@ || v == "999"@ {
        Some(GpuLayersMode::All)
    } else {
        match parse_usize_spec(v) {
            Some(n) => Some(GpuLayersMode::Manual(n)),
            None => None,
        }
    }
}

/// How a mode is written to a settings file: a string for the named modes, a number for a
/// layer count.
#[derive(Clone, Debug, PartialEq, Eq)]
pub enum GpuLayersRepr {
    /// A string value.
    Text(String),
    /// A number value.
    Number(u64),
}

/// The written form of a mode: the text, or the number.
pub open spec fn gpu_layers_repr(m: GpuLayersMode) -> (Option<Seq<char>>, u64) {
    match m {
        GpuLayersMode::Auto => (Some("auto"@), 0),
        GpuLayersMode::All => (Some("all"@), 0),
        GpuLayersMode::Manual(n) => (None, n as u64),
    }
}

/// The mode that a written form stands for.
pub open spec fn gpu_layers_from_repr(r: GpuLayersRepr) -> Option<GpuLayersMode> {
    match r {
        GpuLayersRepr::Text(s) => gpu_layers_from_text(s@),
        GpuLayersRepr::Number(v) => Some(GpuLayersMode::Manual(v as usize)),
    }
}

/// Trims white space from both ends of `s`.
pub fn trimmed(s: &str) -> (r: String)
    ensures
        r@ == trim_seq(s@),
{
    let v = chars_of(s);
    let e = trim_end_bound(&v, 0, v.len());
    let b = trim_start_bound(&v, 0, e);
    assert(v@.subrange(0, v@.len() as int) =~= v@);
    crate::text::owned_range(s, b, e)
}

impl GpuLayersMode {
    /// The value given to `--gpu-layers`: `auto`, `999` for all layers, or the count.
    pub fn to_arg(&self) -> (r: String)
        ensures
            r@ == gpu_layers_arg(*self),
    {
        match self {
            GpuLayersMode::Auto => String::from_str("auto"),
            GpuLayersMode::All => String::from_str("999"),
            GpuLayersMode::Manual(n) => decimal_string(*n as u64),
        }
    }

    /// Reads a mode written as a string (`auto`, `all`, `999`, or a count).
    pub fn from_text(value: &str) -> (r: Option<GpuLayersMode>)
        ensures
            r == gpu_layers_from_text(value@),
    {
        let t = trimmed(value);
        let v = lowercased(t.as_str());
        if str_eq(v.as_str(), "auto") {
            Some(GpuLayersMode::Auto)
        } else if str_eq(v.as_str(), "all") || str_eq(v.as_str(), "999") {
            Some(GpuLayersMode::All)
        } else {
            let c = chars_of(v.as_str());
            assert(c@.subrange(0, c@.len() as int) =~= c@);
            match parse_usize_chars(&c, 0, c.len()) {
                Some(n) => Some(GpuLayersMode::Manual(n)),
                None => None,
            }
        }
    }

    /// Reads a mode written as a number: a layer count.
    pub fn from_number(v: u64) -> (r: GpuLayersMode)
        ensures
            r == GpuLayersMode::Manual(v as usize),
    {
        GpuLayersMode::Manual(v as usize)
    }

    /// The form in which the mode is written to a settings file.
    pub fn to_repr(&self) -> (r: GpuLayersRepr)
        ensures
            match r {
                GpuLayersRepr::Text(s) => gpu_layers_repr(*self).0 == Some(s@),
                GpuLayersRepr::Number(v) => gpu_layers_repr(*self).0 is None && gpu_layers_repr(
                    *self,
                ).1 == v,
            },
    {
        match self {
            GpuLayersMode::Auto => GpuLayersRepr::Text(String::from_str("auto")),
            GpuLayersMode::All => GpuLayersRepr::Text(String::from_str("all")),
            GpuLayersMode::Manual(n) => GpuLayersRepr::Number(*n as u64),
        }
    }

    /// Reads a mode from its written form; `None` for a string that names no mode.
    pub fn from_repr(r: &GpuLayersRepr) -> (m: Option<GpuLayersMode>)
        ensures
            m == gpu_layers_from_repr(*r),
    {
        match r {
            GpuLayersRepr::Text(s) => GpuLayersMode::from_text(s.as_str()),
            GpuLayersRepr::Number(v) => Some(GpuLayersMode::from_number(*v)),
        }
    }
}

} // verus!

verus! {

/// A string of ASCII characters without uppercase letters is its own case folding.
proof fn lemma_fold_plain(s: Seq<char>)
    requires
        vstd::utf8::is_ascii_chars(s),
        forall|i: int| 0 <= i < s.len() ==> !('A' <= #[trigger] s[i] && s[i] <= 'Z'),
    ensures
        case_folded(s) == s,
{
    assert(ascii_lower(s) =~= s);
}

/// A string that neither begins nor ends with white space is its own trim.
proof fn lemma_trim_plain(s: Seq<char>)
    requires
        s.len() > 0,
        !is_white_space(s[0]),
        !is_white_space(s.last()),
    ensures
        trim_seq(s) == s,
{
    assert(trim_end_seq(s) == s);
    assert(trim_start_seq(s) == s);
}

/// The decimal form of a count is plain ASCII digits, its own trim and case folding.
proof fn lemma_decimal_plain(n: nat)
    ensures
        trim_seq(decimal(n)) == decimal(n),
        case_folded(decimal(n)) == decimal(n),
{
    lemma_decimal_digits(n);
    let s = decimal(n);
    assert(is_digit_char(s[0]));
    assert(is_digit_char(s.last()));
    lemma_trim_plain(s);
    assert forall|i: int| 0 <= i < s.len() implies '\0' <= #[trigger] s[i] <= '\u{7f}' by {
        assert(is_digit_char(s[i]));
    }
    assert forall|i: int| 0 <= i < s.len() implies !('A' <= #[trigger] s[i] && s[i] <= 'Z') by {
        assert(is_digit_char(s[i]));
    }
    lemma_fold_plain(s);
}

/// Reading back the `--gpu-layers` value of a mode gives the mode, except for a manual
/// count of 999, which reads back as all layers.
pub proof fn lemma_gpu_layers_arg_roundtrip(m: GpuLayersMode)
    requires
        m != GpuLayersMode::Manual(999),
    ensures
        gpu_layers_from_text(gpu_layers_arg(m)) == Some(m),
{
    reveal_strlit("auto");
    reveal_strlit("all");
    reveal_strlit("999");
    match m {
        GpuLayersMode::Auto => {
            lemma_trim_plain("auto"@);
            lemma_fold_plain("auto"@);
        },
        GpuLayersMode::All => {
            lemma_trim_plain("999"@);
            lemma_fold_plain("999"@);
            assert("999"@ != "auto"@);
        },
        GpuLayersMode::Manual(n) => {
            let s = decimal(n as nat);
            lemma_decimal_plain(n as nat);
            lemma_decimal_digits(n as nat);
            lemma_parse_decimal(n as nat, usize::MAX as nat);
            assert(is_digit_char(s[0]));
            assert(s != "auto"@);
            assert(s != "all"@);
            if s == "999"@ {
                assert(s.drop_last() =~= seq!['9', '9']);
                assert(s.drop_last().drop_last() =~= seq!['9']);
                assert(s.drop_last().drop_last().drop_last() =~= Seq::<char>::empty());
                assert(digits_value(Seq::<char>::empty()) == 0);
                assert(digits_value(seq!['9']) == 9) by {
                    assert(seq!['9'].drop_last() =~= Seq::<char>::empty());
                }
                assert(digits_value(seq!['9', '9']) == 99) by {
                    assert(seq!['9', '9'].drop_last() =~= seq!['9']);
                }
                assert(digits_value(s) == 999);
                assert(false);
            }
        },
    }
}

/// A mode written to a settings file and read back is the same mode.
pub proof fn lemma_gpu_layers_repr_roundtrip(m: GpuLayersMode)
    ensures
        match gpu_layers_repr(m) {
            (Some(t), _) => gpu_layers_from_text(t) == Some(m),
            (None, v) => GpuLayersMode::Manual(v as usize) == m,
        },
{
    reveal_strlit("auto");
    reveal_strlit("all");
    match m {
        GpuLayersMode::Auto => {
            lemma_trim_plain("auto"@);
            lemma_fold_plain("auto"@);
        },
        GpuLayersMode::All => {
            lemma_trim_plain("all"@);
            lemma_fold_plain("all"@);
            assert("all"@ != "auto"@);
        },
        GpuLayersMode::Manual(n) => {},
    }
}

} // verus!

verus! {

/// Reads a size stored in units of 1024 tokens: a value of 128 or more is an older raw token
/// count and is rounded up to the next unit; a smaller value is already in units and is at
/// least 1.
pub open spec fn raw_or_k(v: nat) -> nat {
    if v >= 128 {
        (v + 1023) / 1024
    } else if v >= 1 {
        v
    } else {
        1
    }
}

/// Converts a stored context or batch size to units of 1024 tokens (see `raw_or_k`).
pub fn from_raw_or_k(v: usize) -> (r: usize)
    ensures
        r == raw_or_k(v as nat),
        r >= 1,
{
    if v >= 128 {
        let q = v / 1024;
        let rem = v % 1024;
        assert((v as int + 1023) / 1024 == q + (if rem != 0 { 1int } else { 0int })) by (nonlinear_arith)
            requires
                q == v as int / 1024,
                rem == v as int % 1024,
                v >= 0,
        ;
        if rem != 0 {
            q + 1
        } else {
            q
        }
    } else if v >= 1 {
        v
    } else {
        1
    }
}

/// A raw count of `k` full units reads as `k` units, a raw count just above reads as one
/// unit more, a value already in units (below 128) other than 0 reads as itself, and no
/// value reads as 0 units.
pub proof fn lemma_raw_or_k_units(k: nat, v: nat)
    ensures
        k >= 1 ==> raw_or_k(k * 1024) == k,
        k >= 1 ==> raw_or_k(k * 1024 + 1) == k + 1,
        1 <= k < 128 ==> raw_or_k(k) == k,
        raw_or_k(v) >= 1,
{
    if k >= 1 {
        assert((k * 1024 + 1023) / 1024 == k) by (nonlinear_arith);
        assert((k * 1024 + 1 + 1023) / 1024 == k + 1) by (nonlinear_arith);
    }
}

/// Default `flash_attn` value.
pub fn default_flash_attn() -> (r: String)
    ensures
        r@ == "auto"@,
{
    String::from_str("auto")
}

/// Default for the web client switch: on.
pub fn default_web_ui_enabled() -> (r: bool)
    ensures
        r == true,
{
    true
}

/// Default session timeout, in seconds.
pub fn default_session_timeout() -> (r: usize)
    ensures
        r == 600,
{
    600
}

/// Default for scrolling the log view to new lines: on.
pub fn default_auto_scroll_logs() -> (r: bool)
    ensures
        r == true,
{
    true
}

/// Default number of log lines shown.
pub fn default_max_log_lines() -> (r: i32)
    ensures
        r == 100,
{
    100
}

/// Default for writing the log to a file: off.
pub fn default_log_to_file() -> (r: bool)
    ensures
        r == false,
{
    false
}

/// Default context size, in units of 1024 tokens.
pub fn default_context() -> (r: usize)
    ensures
        r == 4,
{
    4
}

/// Default logical batch size, in units of 1024 tokens.
pub fn default_batch_size() -> (r: usize)
    ensures
        r == 2,
{
    2
}

/// Bit pattern of the `f32` 0.5: the default physical batch size, in units of 1024 tokens.
pub fn default_ubatch_size() -> (r: u32)
    ensures
        r == 0x3f00_0000,
{
    0x3f00_0000
}

/// Default speculative decoding type: none.
pub fn default_spec_type() -> (r: String)
    ensures
        r@ == "none"@,
{
    String::from_str("none")
}

/// Default largest number of drafted tokens.
pub fn default_spec_draft_n_max() -> (r: usize)
    ensures
        r == 16,
{
    16
}

/// Bit pattern of the `f32` 0.75: the default least draft probability.
pub fn default_spec_draft_p_min() -> (r: u32)
    ensures
        r == 0x3f40_0000,
{
    0x3f40_0000
}

/// Bit pattern of the `f32` 0.10: the default draft split probability.
pub fn default_spec_draft_p_split() -> (r: u32)
    ensures
        r == 0x3dcc_cccd,
{
    0x3dcc_cccd
}

/// Bit pattern of the `f32` 0.95: the default share of free memory given to the KV cache.
pub fn default_kv_cache_ratio() -> (r: u32)
    ensures
        r == 0x3f73_3333,
{
    0x3f73_3333
}

/// The operating system the launcher runs on, as far as file names differ.
#[derive(Clone, Copy, Debug, PartialEq, Eq, Structural)]
pub enum HostOs {
    /// Executables carry the `.exe` extension.
    Windows,
    /// Executables carry no extension.
    Other,
}

/// The file name of the executable `name` on `os`.
pub open spec fn exe_file_name_spec(name: Seq<char>, os: HostOs) -> Seq<char> {
    match os {
        HostOs::Windows => name + ".exe"@,
        HostOs::Other => name,
    }
}

/// The file name of the executable `name` on `os`.
pub fn exe_file_name(name: &str, os: HostOs) -> (r: String)
    ensures
        r@ == exe_file_name_spec(name@, os),
{
    match os {
        HostOs::Windows => String::from_str(name).concat(".exe"),
        HostOs::Other => String::from_str(name),
    }
}

/// Whether `name` is the file name of the `llama-server` executable on `os`.
pub fn is_server_binary_name(name: &str, os: HostOs) -> (r: bool)
    ensures
        r == (name@ == exe_file_name_spec("llama-server"@, os)),
{
    let expected = exe_file_name("llama-server", os);
    str_eq(name, expected.as_str())
}

/// Whether `name` is the file name of the `rpc-server` executable on `os`.
pub fn is_rpc_binary_name(name: &str, os: HostOs) -> (r: bool)
    ensures
        r == (name@ == exe_file_name_spec("rpc-server"@, os)),
{
    let expected = exe_file_name("rpc-server", os);
    str_eq(name, expected.as_str())
}

} // verus!

verus! {

/// A named snapshot of the server and inference settings. Floating-point settings are
/// held as the bit patterns of their `f32` values (`f32::to_bits`).
#[derive(Clone, Debug)]
pub struct Preset {
    pub name: String,
    pub host: String,
    pub port: u16,
    pub parallel_slots: usize,
    /// Context size, in units of 1024 tokens.
    pub context: usize,
    /// Logical batch size, in units of 1024 tokens.
    pub batch_size: usize,
    /// Physical batch size in units of 1024 tokens (`f32` bits).
    pub ubatch_size: u32,
    pub temperature: u32,
    pub top_p: u32,
    pub top_k: i32,
    pub repeat_penalty: u32,
    pub presence_penalty: u32,
    pub flash_attn: String,
    pub spec_type: String,
    pub spec_draft_n_max: usize,
    pub spec_draft_n_min: usize,
    pub spec_draft_p_min: u32,
    pub spec_draft_p_split: u32,
    pub kv_offload: bool,
    pub cache_type_k: String,
    pub cache_type_v: String,
    pub kv_mlock: bool,
    pub kv_mmap: bool,
    pub kv_unified: bool,
    pub swa_full: bool,
    /// Share of free memory given to the KV cache (`f32` bits); not passed to the server.
    pub kv_cache_ratio: u32,
    pub gpu_device: String,
    pub gpu_layers_mode: GpuLayersMode,
    pub split_mode: String,
    pub tensor_split: String,
    pub cpu_moe: bool,
    pub n_cpu_moe: usize,
    pub verbose: bool,
    pub offline_mode: bool,
    pub rpc_mode: bool,
    pub rpc_endpoints: String,
    pub web_ui_enabled: bool,
    /// Session timeout, in seconds.
    pub session_timeout: usize,
}

/// All settings of the launcher. Paths are held as text; floating-point settings as the bit
/// patterns of their `f32` values.
#[derive(Clone, Debug)]
pub struct AppSettings {
    pub server_path: String,
    pub host: String,
    pub port: u16,
    pub parallel_slots: usize,
    pub model_path: String,
    pub mmproj_path: String,
    pub dflash_path: String,
    pub model_dir: String,
    /// Context size, in units of 1024 tokens.
    pub context: usize,
    /// Logical batch size, in units of 1024 tokens.
    pub batch_size: usize,
    /// Physical batch size in units of 1024 tokens (`f32` bits).
    pub ubatch_size: u32,
    pub temperature: u32,
    pub top_p: u32,
    pub top_k: i32,
    pub repeat_penalty: u32,
    pub presence_penalty: u32,
    pub flash_attn: String,
    pub spec_type: String,
    pub spec_draft_n_max: usize,
    pub spec_draft_n_min: usize,
    pub spec_draft_p_min: u32,
    pub spec_draft_p_split: u32,
    pub kv_offload: bool,
    pub cache_type_k: String,
    pub cache_type_v: String,
    pub kv_mlock: bool,
    pub kv_mmap: bool,
    pub kv_unified: bool,
    pub swa_full: bool,
    pub kv_cache_ratio: u32,
    pub gpu_device: String,
    pub gpu_layers_mode: GpuLayersMode,
    pub split_mode: String,
    pub tensor_split: String,
    pub cpu_moe: bool,
    pub n_cpu_moe: usize,
    pub rpc_server_path: String,
    pub rpc_host: String,
    pub rpc_port: u16,
    pub rpc_threads: usize,
    pub rpc_device: String,
    pub rpc_cache: bool,
    pub verbose: bool,
    pub offline_mode: bool,
    pub rpc_mode: bool,
    pub rpc_endpoints: String,
    pub web_ui_enabled: bool,
    pub session_timeout: usize,
    pub presets: Vec<Preset>,
    /// Name typed for the next preset to save (not saved to disk).
    pub new_preset_name: String,
    /// The preset being renamed (not saved to disk).
    pub rename_preset_index: Option<usize>,
    /// The new name being typed (not saved to disk).
    pub rename_preset_new_name: String,
    /// The preset applied, and the server started, when the launcher opens.
    pub auto_start_preset_name: Option<String>,
    pub auto_scroll_logs: bool,
    pub max_log_lines: i32,
    pub auto_start: bool,
    pub log_to_file: bool,
    /// Version text of llama.cpp (not saved to disk).
    pub llama_version: String,
    /// Result text of the last KV cache estimate (not saved to disk).
    pub kv_cache_result: Option<String>,
}

/// The preset that records the settings `s` under `name`.
pub open spec fn preset_of(s: AppSettings, name: String) -> Preset {
    Preset {
        name: name,
        host: s.host,
        port: s.port,
        parallel_slots: s.parallel_slots,
        context: s.context,
        batch_size: s.batch_size,
        ubatch_size: s.ubatch_size,
        temperature: s.temperature,
        top_p: s.top_p,
        top_k: s.top_k,
        repeat_penalty: s.repeat_penalty,
        presence_penalty: s.presence_penalty,
        flash_attn: s.flash_attn,
        spec_type: s.spec_type,
        spec_draft_n_max: s.spec_draft_n_max,
        spec_draft_n_min: s.spec_draft_n_min,
        spec_draft_p_min: s.spec_draft_p_min,
        spec_draft_p_split: s.spec_draft_p_split,
        kv_offload: s.kv_offload,
        cache_type_k: s.cache_type_k,
        cache_type_v: s.cache_type_v,
        kv_mlock: s.kv_mlock,
        kv_mmap: s.kv_mmap,
        kv_unified: s.kv_unified,
        swa_full: s.swa_full,
        kv_cache_ratio: s.kv_cache_ratio,
        gpu_device: s.gpu_device,
        gpu_layers_mode: s.gpu_layers_mode,
        split_mode: s.split_mode,
        tensor_split: s.tensor_split,
        cpu_moe: s.cpu_moe,
        n_cpu_moe: s.n_cpu_moe,
        verbose: s.verbose,
        offline_mode: s.offline_mode,
        rpc_mode: s.rpc_mode,
        rpc_endpoints: s.rpc_endpoints,
        web_ui_enabled: s.web_ui_enabled,
        session_timeout: s.session_timeout,
    }
}

/// The settings `s` with every setting that a preset records taken from `p`.
pub open spec fn with_preset(s: AppSettings, p: Preset) -> AppSettings {
    AppSettings {
        host: p.host,
        port: p.port,
        parallel_slots: p.parallel_slots,
        context: p.context,
        batch_size: p.batch_size,
        ubatch_size: p.ubatch_size,
        temperature: p.temperature,
        top_p: p.top_p,
        top_k: p.top_k,
        repeat_penalty: p.repeat_penalty,
        presence_penalty: p.presence_penalty,
        flash_attn: p.flash_attn,
        spec_type: p.spec_type,
        spec_draft_n_max: p.spec_draft_n_max,
        spec_draft_n_min: p.spec_draft_n_min,
        spec_draft_p_min: p.spec_draft_p_min,
        spec_draft_p_split: p.spec_draft_p_split,
        kv_offload: p.kv_offload,
        cache_type_k: p.cache_type_k,
        cache_type_v: p.cache_type_v,
        kv_mlock: p.kv_mlock,
        kv_mmap: p.kv_mmap,
        kv_unified: p.kv_unified,
        swa_full: p.swa_full,
        kv_cache_ratio: p.kv_cache_ratio,
        gpu_device: p.gpu_device,
        gpu_layers_mode: p.gpu_layers_mode,
        split_mode: p.split_mode,
        tensor_split: p.tensor_split,
        cpu_moe: p.cpu_moe,
        n_cpu_moe: p.n_cpu_moe,
        verbose: p.verbose,
        offline_mode: p.offline_mode,
        rpc_mode: p.rpc_mode,
        rpc_endpoints: p.rpc_endpoints,
        web_ui_enabled: p.web_ui_enabled,
        session_timeout: p.session_timeout,
        ..s
    }
}

impl Preset {
    /// A snapshot of the current settings under `name`.
    pub fn from_settings(settings: &AppSettings, name: String) -> (r: Preset)
        ensures
            r == preset_of(*settings, name),
    {
        Preset {
            name,
            host: settings.host.clone(),
            port: settings.port,
            parallel_slots: settings.parallel_slots,
            context: settings.context,
            batch_size: settings.batch_size,
            ubatch_size: settings.ubatch_size,
            temperature: settings.temperature,
            top_p: settings.top_p,
            top_k: settings.top_k,
            repeat_penalty: settings.repeat_penalty,
            presence_penalty: settings.presence_penalty,
            flash_attn: settings.flash_attn.clone(),
            spec_type: settings.spec_type.clone(),
            spec_draft_n_max: settings.spec_draft_n_max,
            spec_draft_n_min: settings.spec_draft_n_min,
            spec_draft_p_min: settings.spec_draft_p_min,
            spec_draft_p_split: settings.spec_draft_p_split,
            kv_offload: settings.kv_offload,
            cache_type_k: settings.cache_type_k.clone(),
            cache_type_v: settings.cache_type_v.clone(),
            kv_mlock: settings.kv_mlock,
            kv_mmap: settings.kv_mmap,
            kv_unified: settings.kv_unified,
            swa_full: settings.swa_full,
            kv_cache_ratio: settings.kv_cache_ratio,
            gpu_device: settings.gpu_device.clone(),
            gpu_layers_mode: settings.gpu_layers_mode,
            split_mode: settings.split_mode.clone(),
            tensor_split: settings.tensor_split.clone(),
            cpu_moe: settings.cpu_moe,
            n_cpu_moe: settings.n_cpu_moe,
            verbose: settings.verbose,
            offline_mode: settings.offline_mode,
            rpc_mode: settings.rpc_mode,
            rpc_endpoints: settings.rpc_endpoints.clone(),
            web_ui_enabled: settings.web_ui_enabled,
            session_timeout: settings.session_timeout,
        }
    }

    /// Copies the recorded settings into `settings`; everything else there stays.
    pub fn apply_to(self, settings: &mut AppSettings)
        ensures
            *final(settings) == with_preset(*old(settings), self),
    {
        settings.host = self.host;
        settings.port = self.port;
        settings.parallel_slots = self.parallel_slots;
        settings.context = self.context;
        settings.batch_size = self.batch_size;
        settings.ubatch_size = self.ubatch_size;
        settings.temperature = self.temperature;
        settings.top_p = self.top_p;
        settings.top_k = self.top_k;
        settings.repeat_penalty = self.repeat_penalty;
        settings.presence_penalty = self.presence_penalty;
        settings.flash_attn = self.flash_attn;
        settings.spec_type = self.spec_type;
        settings.spec_draft_n_max = self.spec_draft_n_max;
        settings.spec_draft_n_min = self.spec_draft_n_min;
        settings.spec_draft_p_min = self.spec_draft_p_min;
        settings.spec_draft_p_split = self.spec_draft_p_split;
        settings.kv_offload = self.kv_offload;
        settings.cache_type_k = self.cache_type_k;
        settings.cache_type_v = self.cache_type_v;
        settings.kv_mlock = self.kv_mlock;
        settings.kv_mmap = self.kv_mmap;
        settings.kv_unified = self.kv_unified;
        settings.swa_full = self.swa_full;
        settings.kv_cache_ratio = self.kv_cache_ratio;
        settings.gpu_device = self.gpu_device;
        settings.gpu_layers_mode = self.gpu_layers_mode;
        settings.split_mode = self.split_mode;
        settings.tensor_split = self.tensor_split;
        settings.cpu_moe = self.cpu_moe;
        settings.n_cpu_moe = self.n_cpu_moe;
        settings.verbose = self.verbose;
        settings.offline_mode = self.offline_mode;
        settings.rpc_mode = self.rpc_mode;
        settings.rpc_endpoints = self.rpc_endpoints;
        settings.web_ui_enabled = self.web_ui_enabled;
        settings.session_timeout = self.session_timeout;
    }

    /// A copy of this preset.
    pub fn duplicate(&self) -> (r: Preset)
        ensures
            r == *self,
    {
        Preset {
            name: self.name.clone(),
            host: self.host.clone(),
            port: self.port,
            parallel_slots: self.parallel_slots,
            context: self.context,
            batch_size: self.batch_size,
            ubatch_size: self.ubatch_size,
            temperature: self.temperature,
            top_p: self.top_p,
            top_k: self.top_k,
            repeat_penalty: self.repeat_penalty,
            presence_penalty: self.presence_penalty,
            flash_attn: self.flash_attn.clone(),
            spec_type: self.spec_type.clone(),
            spec_draft_n_max: self.spec_draft_n_max,
            spec_draft_n_min: self.spec_draft_n_min,
            spec_draft_p_min: self.spec_draft_p_min,
            spec_draft_p_split: self.spec_draft_p_split,
            kv_offload: self.kv_offload,
            cache_type_k: self.cache_type_k.clone(),
            cache_type_v: self.cache_type_v.clone(),
            kv_mlock: self.kv_mlock,
            kv_mmap: self.kv_mmap,
            kv_unified: self.kv_unified,
            swa_full: self.swa_full,
            kv_cache_ratio: self.kv_cache_ratio,
            gpu_device: self.gpu_device.clone(),
            gpu_layers_mode: self.gpu_layers_mode,
            split_mode: self.split_mode.clone(),
            tensor_split: self.tensor_split.clone(),
            cpu_moe: self.cpu_moe,
            n_cpu_moe: self.n_cpu_moe,
            verbose: self.verbose,
            offline_mode: self.offline_mode,
            rpc_mode: self.rpc_mode,
            rpc_endpoints: self.rpc_endpoints.clone(),
            web_ui_enabled: self.web_ui_enabled,
            session_timeout: self.session_timeout,
        }
    }
}

/// Applying a preset taken from the settings changes nothing.
pub proof fn lemma_apply_own_preset(s: AppSettings, name: String)
    ensures
        with_preset(s, preset_of(s, name)) == s,
{
}

/// A preset taken right after applying `p`, under `p`'s name, is `p`.
pub proof fn lemma_snapshot_of_applied(s: AppSettings, p: Preset)
    ensures
        preset_of(with_preset(s, p), p.name) == p,
{
}

/// The inference parameters that the presets page exports to a file and imports from one.
/// Floating-point parameters are held as the bit patterns of their `f32` values.
#[derive(Clone, Debug)]
pub struct ParamsExport {
    pub context: usize,
    pub batch_size: usize,
    pub ubatch_size: u32,
    pub temperature: u32,
    pub top_p: u32,
    pub top_k: i32,
    pub repeat_penalty: u32,
    pub presence_penalty: u32,
    pub flash_attn: String,
    pub spec_type: String,
    pub spec_draft_n_max: usize,
    pub spec_draft_n_min: usize,
    pub spec_draft_p_min: u32,
    pub spec_draft_p_split: u32,
    pub kv_offload: bool,
    pub cache_type_k: String,
    pub cache_type_v: String,
    pub kv_mlock: bool,
    pub kv_mmap: bool,
    pub kv_unified: bool,
    pub swa_full: bool,
    pub gpu_layers_mode: GpuLayersMode,
    pub split_mode: String,
    pub tensor_split: String,
    pub cpu_moe: bool,
    pub n_cpu_moe: usize,
}

/// The parameters of the settings `s` that an export holds.
pub open spec fn export_of(s: AppSettings) -> ParamsExport {
    ParamsExport {
        context: s.context,
        batch_size: s.batch_size,
        ubatch_size: s.ubatch_size,
        temperature: s.temperature,
        top_p: s.top_p,
        top_k: s.top_k,
        repeat_penalty: s.repeat_penalty,
        presence_penalty: s.presence_penalty,
        flash_attn: s.flash_attn,
        spec_type: s.spec_type,
        spec_draft_n_max: s.spec_draft_n_max,
        spec_draft_n_min: s.spec_draft_n_min,
        spec_draft_p_min: s.spec_draft_p_min,
        spec_draft_p_split: s.spec_draft_p_split,
        kv_offload: s.kv_offload,
        cache_type_k: s.cache_type_k,
        cache_type_v: s.cache_type_v,
        kv_mlock: s.kv_mlock,
        kv_mmap: s.kv_mmap,
        kv_unified: s.kv_unified,
        swa_full: s.swa_full,
        gpu_layers_mode: s.gpu_layers_mode,
        split_mode: s.split_mode,
        tensor_split: s.tensor_split,
        cpu_moe: s.cpu_moe,
        n_cpu_moe: s.n_cpu_moe,
    }
}

/// The settings `s` with every parameter that an export holds taken from `e`.
pub open spec fn with_export(s: AppSettings, e: ParamsExport) -> AppSettings {
    AppSettings {
        context: e.context,
        batch_size: e.batch_size,
        ubatch_size: e.ubatch_size,
        temperature: e.temperature,
        top_p: e.top_p,
        top_k: e.top_k,
        repeat_penalty: e.repeat_penalty,
        presence_penalty: e.presence_penalty,
        flash_attn: e.flash_attn,
        spec_type: e.spec_type,
        spec_draft_n_max: e.spec_draft_n_max,
        spec_draft_n_min: e.spec_draft_n_min,
        spec_draft_p_min: e.spec_draft_p_min,
        spec_draft_p_split: e.spec_draft_p_split,
        kv_offload: e.kv_offload,
        cache_type_k: e.cache_type_k,
        cache_type_v: e.cache_type_v,
        kv_mlock: e.kv_mlock,
        kv_mmap: e.kv_mmap,
        kv_unified: e.kv_unified,
        swa_full: e.swa_full,
        gpu_layers_mode: e.gpu_layers_mode,
        split_mode: e.split_mode,
        tensor_split: e.tensor_split,
        cpu_moe: e.cpu_moe,
        n_cpu_moe: e.n_cpu_moe,
        ..s
    }
}

impl ParamsExport {
    /// The exported parameters of `settings`.
    pub fn from_settings(settings: &AppSettings) -> (r: ParamsExport)
        ensures
            r == export_of(*settings),
    {
        ParamsExport {
            context: settings.context,
            batch_size: settings.batch_size,
            ubatch_size: settings.ubatch_size,
            temperature: settings.temperature,
            top_p: settings.top_p,
            top_k: settings.top_k,
            repeat_penalty: settings.repeat_penalty,
            presence_penalty: settings.presence_penalty,
            flash_attn: settings.flash_attn.clone(),
            spec_type: settings.spec_type.clone(),
            spec_draft_n_max: settings.spec_draft_n_max,
            spec_draft_n_min: settings.spec_draft_n_min,
            spec_draft_p_min: settings.spec_draft_p_min,
            spec_draft_p_split: settings.spec_draft_p_split,
            kv_offload: settings.kv_offload,
            cache_type_k: settings.cache_type_k.clone(),
            cache_type_v: settings.cache_type_v.clone(),
            kv_mlock: settings.kv_mlock,
            kv_mmap: settings.kv_mmap,
            kv_unified: settings.kv_unified,
            swa_full: settings.swa_full,
            gpu_layers_mode: settings.gpu_layers_mode,
            split_mode: settings.split_mode.clone(),
            tensor_split: settings.tensor_split.clone(),
            cpu_moe: settings.cpu_moe,
            n_cpu_moe: settings.n_cpu_moe,
        }
    }

    /// Copies the imported parameters into `settings`; everything else there stays.
    pub fn apply_to(self, settings: &mut AppSettings)
        ensures
            *final(settings) == with_export(*old(settings), self),
    {
        settings.context = self.context;
        settings.batch_size = self.batch_size;
        settings.ubatch_size = self.ubatch_size;
        settings.temperature = self.temperature;
        settings.top_p = self.top_p;
        settings.top_k = self.top_k;
        settings.repeat_penalty = self.repeat_penalty;
        settings.presence_penalty = self.presence_penalty;
        settings.flash_attn = self.flash_attn;
        settings.spec_type = self.spec_type;
        settings.spec_draft_n_max = self.spec_draft_n_max;
        settings.spec_draft_n_min = self.spec_draft_n_min;
        settings.spec_draft_p_min = self.spec_draft_p_min;
        settings.spec_draft_p_split = self.spec_draft_p_split;
        settings.kv_offload = self.kv_offload;
        settings.cache_type_k = self.cache_type_k;
        settings.cache_type_v = self.cache_type_v;
        settings.kv_mlock = self.kv_mlock;
        settings.kv_mmap = self.kv_mmap;
        settings.kv_unified = self.kv_unified;
        settings.swa_full = self.swa_full;
        settings.gpu_layers_mode = self.gpu_layers_mode;
        settings.split_mode = self.split_mode;
        settings.tensor_split = self.tensor_split;
        settings.cpu_moe = self.cpu_moe;
        settings.n_cpu_moe = self.n_cpu_moe;
    }
}

/// Each exported parameter is the setting of the same name, and importing sets each of
/// those settings to the parameter of the same name.
pub proof fn lemma_export_fields(s: AppSettings, e: ParamsExport)
    ensures
        export_of(s).context == s.context,
        export_of(s).batch_size == s.batch_size,
        export_of(s).ubatch_size == s.ubatch_size,
        export_of(s).temperature == s.temperature,
        export_of(s).top_p == s.top_p,
        export_of(s).top_k == s.top_k,
        export_of(s).repeat_penalty == s.repeat_penalty,
        export_of(s).presence_penalty == s.presence_penalty,
        export_of(s).flash_attn == s.flash_attn,
        export_of(s).spec_type == s.spec_type,
        export_of(s).spec_draft_n_max == s.spec_draft_n_max,
        export_of(s).spec_draft_n_min == s.spec_draft_n_min,
        export_of(s).spec_draft_p_min == s.spec_draft_p_min,
        export_of(s).spec_draft_p_split == s.spec_draft_p_split,
        export_of(s).kv_offload == s.kv_offload,
        export_of(s).cache_type_k == s.cache_type_k,
        export_of(s).cache_type_v == s.cache_type_v,
        export_of(s).kv_mlock == s.kv_mlock,
        export_of(s).kv_mmap == s.kv_mmap,
        export_of(s).kv_unified == s.kv_unified,
        export_of(s).swa_full == s.swa_full,
        export_of(s).gpu_layers_mode == s.gpu_layers_mode,
        export_of(s).split_mode == s.split_mode,
        export_of(s).tensor_split == s.tensor_split,
        export_of(s).cpu_moe == s.cpu_moe,
        export_of(s).n_cpu_moe == s.n_cpu_moe,
        with_export(s, e).context == e.context,
        with_export(s, e).batch_size == e.batch_size,
        with_export(s, e).ubatch_size == e.ubatch_size,
        with_export(s, e).temperature == e.temperature,
        with_export(s, e).top_p == e.top_p,
        with_export(s, e).top_k == e.top_k,
        with_export(s, e).repeat_penalty == e.repeat_penalty,
        with_export(s, e).presence_penalty == e.presence_penalty,
        with_export(s, e).flash_attn == e.flash_attn,
        with_export(s, e).spec_type == e.spec_type,
        with_export(s, e).spec_draft_n_max == e.spec_draft_n_max,
        with_export(s, e).spec_draft_n_min == e.spec_draft_n_min,
        with_export(s, e).spec_draft_p_min == e.spec_draft_p_min,
        with_export(s, e).spec_draft_p_split == e.spec_draft_p_split,
        with_export(s, e).kv_offload == e.kv_offload,
        with_export(s, e).cache_type_k == e.cache_type_k,
        with_export(s, e).cache_type_v == e.cache_type_v,
        with_export(s, e).kv_mlock == e.kv_mlock,
        with_export(s, e).kv_mmap == e.kv_mmap,
        with_export(s, e).kv_unified == e.kv_unified,
        with_export(s, e).swa_full == e.swa_full,
        with_export(s, e).gpu_layers_mode == e.gpu_layers_mode,
        with_export(s, e).split_mode == e.split_mode,
        with_export(s, e).tensor_split == e.tensor_split,
        with_export(s, e).cpu_moe == e.cpu_moe,
        with_export(s, e).n_cpu_moe == e.n_cpu_moe,
{
}

/// Importing parameters leaves every setting that an export does not hold as it was.
pub proof fn lemma_import_keeps_other_settings(s: AppSettings, e: ParamsExport)
    ensures
        with_export(s, e).server_path == s.server_path,
        with_export(s, e).host == s.host,
        with_export(s, e).port == s.port,
        with_export(s, e).parallel_slots == s.parallel_slots,
        with_export(s, e).model_path == s.model_path,
        with_export(s, e).mmproj_path == s.mmproj_path,
        with_export(s, e).dflash_path == s.dflash_path,
        with_export(s, e).model_dir == s.model_dir,
        with_export(s, e).kv_cache_ratio == s.kv_cache_ratio,
        with_export(s, e).gpu_device == s.gpu_device,
        with_export(s, e).rpc_server_path == s.rpc_server_path,
        with_export(s, e).rpc_host == s.rpc_host,
        with_export(s, e).rpc_port == s.rpc_port,
        with_export(s, e).rpc_threads == s.rpc_threads,
        with_export(s, e).rpc_device == s.rpc_device,
        with_export(s, e).rpc_cache == s.rpc_cache,
        with_export(s, e).verbose == s.verbose,
        with_export(s, e).offline_mode == s.offline_mode,
        with_export(s, e).rpc_mode == s.rpc_mode,
        with_export(s, e).rpc_endpoints == s.rpc_endpoints,
        with_export(s, e).web_ui_enabled == s.web_ui_enabled,
        with_export(s, e).session_timeout == s.session_timeout,
        with_export(s, e).presets == s.presets,
        with_export(s, e).new_preset_name == s.new_preset_name,
        with_export(s, e).rename_preset_index == s.rename_preset_index,
        with_export(s, e).rename_preset_new_name == s.rename_preset_new_name,
        with_export(s, e).auto_start_preset_name == s.auto_start_preset_name,
        with_export(s, e).auto_scroll_logs == s.auto_scroll_logs,
        with_export(s, e).max_log_lines == s.max_log_lines,
        with_export(s, e).auto_start == s.auto_start,
        with_export(s, e).log_to_file == s.log_to_file,
        with_export(s, e).llama_version == s.llama_version,
        with_export(s, e).kv_cache_result == s.kv_cache_result,
{
}

/// A preset records each setting of the same name, under the name given, and applying a
/// preset sets each of those settings to the recorded value.
pub proof fn lemma_preset_fields(s: AppSettings, name: String, p: Preset)
    ensures
        preset_of(s, name).name == name,
        preset_of(s, name).host == s.host,
        preset_of(s, name).port == s.port,
        preset_of(s, name).parallel_slots == s.parallel_slots,
        preset_of(s, name).context == s.context,
        preset_of(s, name).batch_size == s.batch_size,
        preset_of(s, name).ubatch_size == s.ubatch_size,
        preset_of(s, name).temperature == s.temperature,
        preset_of(s, name).top_p == s.top_p,
        preset_of(s, name).top_k == s.top_k,
        preset_of(s, name).repeat_penalty == s.repeat_penalty,
        preset_of(s, name).presence_penalty == s.presence_penalty,
        preset_of(s, name).flash_attn == s.flash_attn,
        preset_of(s, name).spec_type == s.spec_type,
        preset_of(s, name).spec_draft_n_max == s.spec_draft_n_max,
        preset_of(s, name).spec_draft_n_min == s.spec_draft_n_min,
        preset_of(s, name).spec_draft_p_min == s.spec_draft_p_min,
        preset_of(s, name).spec_draft_p_split == s.spec_draft_p_split,
        preset_of(s, name).kv_offload == s.kv_offload,
        preset_of(s, name).cache_type_k == s.cache_type_k,
        preset_of(s, name).cache_type_v == s.cache_type_v,
        preset_of(s, name).kv_mlock == s.kv_mlock,
        preset_of(s, name).kv_mmap == s.kv_mmap,
        preset_of(s, name).kv_unified == s.kv_unified,
        preset_of(s, name).swa_full == s.swa_full,
        preset_of(s, name).kv_cache_ratio == s.kv_cache_ratio,
        preset_of(s, name).gpu_device == s.gpu_device,
        preset_of(s, name).gpu_layers_mode == s.gpu_layers_mode,
        preset_of(s, name).split_mode == s.split_mode,
        preset_of(s, name).tensor_split == s.tensor_split,
        preset_of(s, name).cpu_moe == s.cpu_moe,
        preset_of(s, name).n_cpu_moe == s.n_cpu_moe,
        preset_of(s, name).verbose == s.verbose,
        preset_of(s, name).offline_mode == s.offline_mode,
        preset_of(s, name).rpc_mode == s.rpc_mode,
        preset_of(s, name).rpc_endpoints == s.rpc_endpoints,
        preset_of(s, name).web_ui_enabled == s.web_ui_enabled,
        preset_of(s, name).session_timeout == s.session_timeout,
        with_preset(s, p).host == p.host,
        with_preset(s, p).port == p.port,
        with_preset(s, p).parallel_slots == p.parallel_slots,
        with_preset(s, p).context == p.context,
        with_preset(s, p).batch_size == p.batch_size,
        with_preset(s, p).ubatch_size == p.ubatch_size,
        with_preset(s, p).temperature == p.temperature,
        with_preset(s, p).top_p == p.top_p,
        with_preset(s, p).top_k == p.top_k,
        with_preset(s, p).repeat_penalty == p.repeat_penalty,
        with_preset(s, p).presence_penalty == p.presence_penalty,
        with_preset(s, p).flash_attn == p.flash_attn,
        with_preset(s, p).spec_type == p.spec_type,
        with_preset(s, p).spec_draft_n_max == p.spec_draft_n_max,
        with_preset(s, p).spec_draft_n_min == p.spec_draft_n_min,
        with_preset(s, p).spec_draft_p_min == p.spec_draft_p_min,
        with_preset(s, p).spec_draft_p_split == p.spec_draft_p_split,
        with_preset(s, p).kv_offload == p.kv_offload,
        with_preset(s, p).cache_type_k == p.cache_type_k,
        with_preset(s, p).cache_type_v == p.cache_type_v,
        with_preset(s, p).kv_mlock == p.kv_mlock,
        with_preset(s, p).kv_mmap == p.kv_mmap,
        with_preset(s, p).kv_unified == p.kv_unified,
        with_preset(s, p).swa_full == p.swa_full,
        with_preset(s, p).kv_cache_ratio == p.kv_cache_ratio,
        with_preset(s, p).gpu_device == p.gpu_device,
        with_preset(s, p).gpu_layers_mode == p.gpu_layers_mode,
        with_preset(s, p).split_mode == p.split_mode,
        with_preset(s, p).tensor_split == p.tensor_split,
        with_preset(s, p).cpu_moe == p.cpu_moe,
        with_preset(s, p).n_cpu_moe == p.n_cpu_moe,
        with_preset(s, p).verbose == p.verbose,
        with_preset(s, p).offline_mode == p.offline_mode,
        with_preset(s, p).rpc_mode == p.rpc_mode,
        with_preset(s, p).rpc_endpoints == p.rpc_endpoints,
        with_preset(s, p).web_ui_enabled == p.web_ui_enabled,
        with_preset(s, p).session_timeout == p.session_timeout,
{
}

/// Applying a preset leaves every setting that a preset does not record as it was.
pub proof fn lemma_apply_keeps_other_settings(s: AppSettings, p: Preset)
    ensures
        with_preset(s, p).server_path == s.server_path,
        with_preset(s, p).model_path == s.model_path,
        with_preset(s, p).mmproj_path == s.mmproj_path,
        with_preset(s, p).dflash_path == s.dflash_path,
        with_preset(s, p).model_dir == s.model_dir,
        with_preset(s, p).rpc_server_path == s.rpc_server_path,
        with_preset(s, p).rpc_host == s.rpc_host,
        with_preset(s, p).rpc_port == s.rpc_port,
        with_preset(s, p).rpc_threads == s.rpc_threads,
        with_preset(s, p).rpc_device == s.rpc_device,
        with_preset(s, p).rpc_cache == s.rpc_cache,
        with_preset(s, p).presets == s.presets,
        with_preset(s, p).new_preset_name == s.new_preset_name,
        with_preset(s, p).rename_preset_index == s.rename_preset_index,
        with_preset(s, p).rename_preset_new_name == s.rename_preset_new_name,
        with_preset(s, p).auto_start_preset_name == s.auto_start_preset_name,
        with_preset(s, p).auto_scroll_logs == s.auto_scroll_logs,
        with_preset(s, p).max_log_lines == s.max_log_lines,
        with_preset(s, p).auto_start == s.auto_start,
        with_preset(s, p).log_to_file == s.log_to_file,
        with_preset(s, p).llama_version == s.llama_version,
        with_preset(s, p).kv_cache_result == s.kv_cache_result,
{
}

/// Importing the parameters just exported from the settings changes nothing.
pub proof fn lemma_import_own_export(s: AppSettings)
    ensures
        with_export(s, export_of(s)) == s,
{
}

/// Exporting right after importing `e` gives `e` back.
pub proof fn lemma_export_of_import(s: AppSettings, e: ParamsExport)
    ensures
        export_of(with_export(s, e)) == e,
{
}

impl AppSettings {
    /// The context size in tokens.
    pub fn context_actual(&self) -> (r: usize)
        requires
            self.context * 1024 <= usize::MAX,
        ensures
            r == self.context * 1024,
    {
        self.context * 1024
    }

    /// The logical batch size in tokens.
    pub fn batch_size_actual(&self) -> (r: usize)
        requires
            self.batch_size * 1024 <= usize::MAX,
        ensures
            r == self.batch_size * 1024,
    {
        self.batch_size * 1024
    }
}

} // verus!

verus! {

/// The values that a new preset starts with.
pub open spec fn is_default_preset(p: Preset) -> bool {
    &&& p.name@ == Seq::<char>::empty()
    &&& p.host@ == "127.0.0.1"@
    &&& p.port == 8080
    &&& p.parallel_slots == 1
    &&& p.context == 4
    &&& p.batch_size == 2
    &&& p.ubatch_size == 0x3f00_0000
    &&& p.temperature == 0x3f4c_cccd
    &&& p.top_p == 0x3f73_3333
    &&& p.top_k == 40
    &&& p.repeat_penalty == 0x3f8c_cccd
    &&& p.presence_penalty == 0
    &&& p.flash_attn@ == "auto"@
    &&& p.spec_type@ == "none"@
    &&& p.spec_draft_n_max == 16
    &&& p.spec_draft_n_min == 0
    &&& p.spec_draft_p_min == 0x3f40_0000
    &&& p.spec_draft_p_split == 0x3dcc_cccd
    &&& p.kv_offload
    &&& p.cache_type_k@ == "f16"@
    &&& p.cache_type_v@ == "f16"@
    &&& !p.kv_mlock
    &&& p.kv_mmap
    &&& !p.kv_unified
    &&& !p.swa_full
    &&& p.kv_cache_ratio == 0x3f73_3333
    &&& p.gpu_device@ == Seq::<char>::empty()
    &&& p.gpu_layers_mode == GpuLayersMode::All
    &&& p.split_mode@ == "none"@
    &&& p.tensor_split@ == Seq::<char>::empty()
    &&& !p.cpu_moe
    &&& p.n_cpu_moe == 0
    &&& !p.verbose
    &&& !p.offline_mode
    &&& !p.rpc_mode
    &&& p.rpc_endpoints@ == "127.0.0.1:50052"@
    &&& p.web_ui_enabled
    &&& p.session_timeout == 600
}

/// The values that the launcher starts with when no settings were saved.
pub open spec fn is_default_settings(s: AppSettings) -> bool {
    &&& s.server_path@ == Seq::<char>::empty()
    &&& s.host@ == "127.0.0.1"@
    &&& s.port == 8080
    &&& s.parallel_slots == 1
    &&& s.model_path@ == Seq::<char>::empty()
    &&& s.mmproj_path@ == Seq::<char>::empty()
    &&& s.dflash_path@ == Seq::<char>::empty()
    &&& s.model_dir@ == Seq::<char>::empty()
    &&& s.context == 4
    &&& s.batch_size == 2
    &&& s.ubatch_size == 0x3f00_0000
    &&& s.temperature == 0x3f4c_cccd
    &&& s.top_p == 0x3f73_3333
    &&& s.top_k == 40
    &&& s.repeat_penalty == 0x3f8c_cccd
    &&& s.presence_penalty == 0
    &&& s.flash_attn@ == "auto"@
    &&& s.spec_type@ == "none"@
    &&& s.spec_draft_n_max == 16
    &&& s.spec_draft_n_min == 0
    &&& s.spec_draft_p_min == 0x3f40_0000
    &&& s.spec_draft_p_split == 0x3dcc_cccd
    &&& s.kv_offload
    &&& s.cache_type_k@ == "f16"@
    &&& s.cache_type_v@ == "f16"@
    &&& !s.kv_mlock
    &&& s.kv_mmap
    &&& !s.kv_unified
    &&& !s.swa_full
    &&& s.kv_cache_ratio == 0x3f73_3333
    &&& s.gpu_device@ == Seq::<char>::empty()
    &&& s.gpu_layers_mode == GpuLayersMode::All
    &&& s.split_mode@ == "none"@
    &&& s.tensor_split@ == Seq::<char>::empty()
    &&& !s.cpu_moe
    &&& s.n_cpu_moe == 0
    &&& s.rpc_server_path@ == Seq::<char>::empty()
    &&& s.rpc_host@ == "127.0.0.1"@
    &&& s.rpc_port == 50052
    &&& s.rpc_threads == 8
    &&& s.rpc_device@ == Seq::<char>::empty()
    &&& !s.rpc_cache
    &&& !s.verbose
    &&& !s.offline_mode
    &&& !s.rpc_mode
    &&& s.rpc_endpoints@ == "127.0.0.1:50052"@
    &&& s.web_ui_enabled
    &&& s.session_timeout == 600
    &&& s.presets@.len() == 0
    &&& s.new_preset_name@ == Seq::<char>::empty()
    &&& s.rename_preset_index is None
    &&& s.rename_preset_new_name@ == Seq::<char>::empty()
    &&& s.auto_scroll_logs
    &&& s.max_log_lines == 100
    &&& !s.auto_start
    &&& !s.log_to_file
    &&& s.auto_start_preset_name is None
    &&& s.llama_version@ == Seq::<char>::empty()
    &&& s.kv_cache_result is None
}

impl Default for Preset {
    fn default() -> (r: Self)
        ensures
            is_default_preset(r),
    {
        Preset {
            name: String::new(),
            host: String::from_str("127.0.0.1"),
            port: 8080,
            parallel_slots: 1,
            context: 4,
            batch_size: 2,
            ubatch_size: 0x3f00_0000,
            temperature: 0x3f4c_cccd,
            top_p: 0x3f73_3333,
            top_k: 40,
            repeat_penalty: 0x3f8c_cccd,
            presence_penalty: 0,
            flash_attn: default_flash_attn(),
            spec_type: default_spec_type(),
            spec_draft_n_max: default_spec_draft_n_max(),
            spec_draft_n_min: 0,
            spec_draft_p_min: default_spec_draft_p_min(),
            spec_draft_p_split: default_spec_draft_p_split(),
            kv_offload: true,
            cache_type_k: String::from_str("f16"),
            cache_type_v: String::from_str("f16"),
            kv_mlock: false,
            kv_mmap: true,
            kv_unified: false,
            swa_full: false,
            kv_cache_ratio: default_kv_cache_ratio(),
            gpu_device: String::new(),
            gpu_layers_mode: GpuLayersMode::All,
            split_mode: String::from_str("none"),
            tensor_split: String::new(),
            cpu_moe: false,
            n_cpu_moe: 0,
            verbose: false,
            offline_mode: false,
            rpc_mode: false,
            rpc_endpoints: String::from_str("127.0.0.1:50052"),
            web_ui_enabled: default_web_ui_enabled(),
            session_timeout: default_session_timeout(),
        }
    }
}

impl Default for AppSettings {
    fn default() -> (r: Self)
        ensures
            is_default_settings(r),
    {
        AppSettings {
            server_path: String::new(),
            host: String::from_str("127.0.0.1"),
            port: 8080,
            parallel_slots: 1,
            model_path: String::new(),
            mmproj_path: String::new(),
            dflash_path: String::new(),
            model_dir: String::new(),
            context: 4,
            batch_size: 2,
            ubatch_size: 0x3f00_0000,
            temperature: 0x3f4c_cccd,
            top_p: 0x3f73_3333,
            top_k: 40,
            repeat_penalty: 0x3f8c_cccd,
            presence_penalty: 0,
            flash_attn: default_flash_attn(),
            spec_type: default_spec_type(),
            spec_draft_n_max: default_spec_draft_n_max(),
            spec_draft_n_min: 0,
            spec_draft_p_min: default_spec_draft_p_min(),
            spec_draft_p_split: default_spec_draft_p_split(),
            kv_offload: true,
            cache_type_k: String::from_str("f16"),
            cache_type_v: String::from_str("f16"),
            kv_mlock: false,
            kv_mmap: true,
            kv_unified: false,
            swa_full: false,
            kv_cache_ratio: default_kv_cache_ratio(),
            gpu_device: String::new(),
            gpu_layers_mode: GpuLayersMode::All,
            split_mode: String::from_str("none"),
            tensor_split: String::new(),
            cpu_moe: false,
            n_cpu_moe: 0,
            rpc_server_path: String::new(),
            rpc_host: String::from_str("127.0.0.1"),
            rpc_port: 50052,
            rpc_threads: 8,
            rpc_device: String::new(),
            rpc_cache: false,
            verbose: false,
            offline_mode: false,
            rpc_mode: false,
            rpc_endpoints: String::from_str("127.0.0.1:50052"),
            web_ui_enabled: default_web_ui_enabled(),
            session_timeout: default_session_timeout(),
            presets: Vec::new(),
            new_preset_name: String::new(),
            rename_preset_index: None,
            rename_preset_new_name: String::new(),
            auto_start_preset_name: None,
            auto_scroll_logs: default_auto_scroll_logs(),
            max_log_lines: default_max_log_lines(),
            auto_start: false,
            log_to_file: default_log_to_file(),
            llama_version: String::new(),
            kv_cache_result: None,
        }
    }
}

/// A preset taken from the default settings holds the default preset values, but for its name.
pub proof fn lemma_default_snapshot(s: AppSettings, name: String)
    requires
        is_default_settings(s),
        name@ == Seq::<char>::empty(),
    ensures
        is_default_preset(preset_of(s, name)),
{
}

} // verus!

verus! {

/// Index of the first preset named `name`, from position `from` on.
pub open spec fn preset_index(ps: Seq<Preset>, name: Seq<char>, from: int) -> Option<int>
    decreases ps.len() - from,
{
    if from < 0 || from >= ps.len() {
        None
    } else if ps[from].name@ == name {
        Some(from)
    } else {
        preset_index(ps, name, from + 1)
    }
}

/// The presets once `p` is saved: it replaces the first preset of the same name, or is
/// appended when there is none.
pub open spec fn presets_after_save(ps: Seq<Preset>, p: Preset) -> Seq<Preset> {
    match preset_index(ps, p.name@, 0) {
        Some(i) => ps.update(i, p),
        None => ps.push(p),
    }
}

/// No two presets share a name.
pub open spec fn names_unique(ps: Seq<Preset>) -> bool {
    forall|i: int, j: int| 0 <= i < j < ps.len() ==> ps[i].name@ != ps[j].name@
}

/// Where a search by name lands.
pub proof fn lemma_preset_index(ps: Seq<Preset>, name: Seq<char>, from: int)
    requires
        0 <= from,
    ensures
        preset_index(ps, name, from) matches Some(i) ==> from <= i < ps.len() && ps[i].name@
            == name && forall|j: int| from <= j < i ==> ps[j].name@ != name,
        preset_index(ps, name, from) is None ==> forall|j: int|
            from <= j < ps.len() ==> ps[j].name@ != name,
    decreases ps.len() - from,
{
    if from < ps.len() && ps[from].name@ != name {
        lemma_preset_index(ps, name, from + 1);
    }
}

/// Saving a preset keeps preset names distinct, and afterwards the name finds exactly the
/// saved preset.
pub proof fn lemma_save_preset(ps: Seq<Preset>, p: Preset)
    requires
        names_unique(ps),
    ensures
        names_unique(presets_after_save(ps, p)),
        preset_index(presets_after_save(ps, p), p.name@, 0) matches Some(i)
            && presets_after_save(ps, p)[i] == p,
{
    lemma_preset_index(ps, p.name@, 0);
    let after = presets_after_save(ps, p);
    lemma_preset_index(after, p.name@, 0);
    match preset_index(ps, p.name@, 0) {
        Some(i) => {
            assert forall|a: int, b: int| 0 <= a < b < after.len() implies after[a].name@
                != after[b].name@ by {
                if a != i && b != i {
                    assert(ps[a].name@ != ps[b].name@);
                }
            }
            assert(after[i] == p);
        },
        None => {
            assert(after[ps.len() as int] == p);
        },
    }
}

fn find_preset(ps: &Vec<Preset>, name: &str) -> (r: Option<usize>)
    ensures
        preset_index(ps@, name@, 0) == (match r {
            Some(i) => Some(i as int),
            None => None::<int>,
        }),
        r matches Some(i) ==> i < ps@.len(),
{
    let mut i: usize = 0;
    while i < ps.len()
        invariant
            0 <= i <= ps@.len(),
            preset_index(ps@, name@, 0) == preset_index(ps@, name@, i as int),
        decreases ps@.len() - i,
    {
        if str_eq(ps[i].name.as_str(), name) {
            return Some(i);
        }
        i = i + 1;
    }
    None
}

impl AppSettings {
    /// Saves the current settings as a preset under the typed name, trimmed; a preset of the
    /// same name is replaced. A blank name saves nothing. The typed name is cleared after a save.
    #[verifier::rlimit(60)]
    pub fn save_preset(&mut self)
        ensures
            trim_seq(old(self).new_preset_name@).len() == 0 ==> *final(self) == *old(self),
            trim_seq(old(self).new_preset_name@).len() > 0 ==> {
                &&& exists|name: String|
                    name@ == trim_seq(old(self).new_preset_name@) && final(self).presets@
                        == presets_after_save(old(self).presets@, preset_of(*old(self), name))
                &&& final(self).new_preset_name@ == Seq::<char>::empty()
                &&& *final(self) == (AppSettings {
                    presets: final(self).presets,
                    new_preset_name: final(self).new_preset_name,
                    ..*old(self)
                })
            },
    {
        let name = trimmed(self.new_preset_name.as_str());
        if name.as_str().is_empty() {
            return;
        }
        let preset = Preset::from_settings(self, name.clone());
        let ghost p = preset;
        match find_preset(&self.presets, name.as_str()) {
            Some(i) => {
                self.presets.set(i, preset);
            },
            None => {
                self.presets.push(preset);
            },
        }
        assert(self.presets@ == presets_after_save(old(self).presets@, p));
        self.new_preset_name = String::new();
    }

    /// Applies the preset at `index`; returns whether it is the auto-start preset, in which
    /// case the server is to be started. An index past the end changes nothing.
    pub fn load_preset(&mut self, index: usize) -> (start: bool)
        ensures
            index >= old(self).presets@.len() ==> *final(self) == *old(self) && !start,
            index < old(self).presets@.len() ==> {
                &&& *final(self) == with_preset(*old(self), old(self).presets@[index as int])
                &&& start == (old(self).auto_start_preset_name matches Some(n) && n@ == old(
                    self,
                ).presets@[index as int].name@)
            },
    {
        if index >= self.presets.len() {
            return false;
        }
        let preset = self.presets[index].duplicate();
        let start = match &self.auto_start_preset_name {
            Some(n) => str_eq(n.as_str(), preset.name.as_str()),
            None => false,
        };
        preset.apply_to(self);
        start
    }

    /// Removes the preset at `index`; a rename of that preset is abandoned. An index past
    /// the end changes nothing.
    #[verifier::rlimit(60)]
    pub fn delete_preset(&mut self, index: usize)
        ensures
            index >= old(self).presets@.len() ==> *final(self) == *old(self),
            index < old(self).presets@.len() ==> {
                &&& final(self).presets@ == old(self).presets@.remove(index as int)
                &&& if old(self).rename_preset_index == Some(index) {
                    &&& final(self).rename_preset_index is None
                    &&& final(self).rename_preset_new_name@ == Seq::<char>::empty()
                    &&& *final(self) == (AppSettings {
                        presets: final(self).presets,
                        rename_preset_index: None,
                        rename_preset_new_name: final(self).rename_preset_new_name,
                        ..*old(self)
                    })
                } else {
                    *final(self) == (AppSettings { presets: final(self).presets, ..*old(self) })
                }
            },
    {
        if index < self.presets.len() {
            self.presets.remove(index);
            if self.rename_preset_index == Some(index) {
                self.rename_preset_index = None;
                self.rename_preset_new_name = String::new();
            }
        }
    }

    /// Starts renaming the preset at `index`, with its current name as the new name.
    /// An index past the end changes nothing.
    pub fn begin_rename(&mut self, index: usize)
        ensures
            index >= old(self).presets@.len() ==> *final(self) == *old(self),
            index < old(self).presets@.len() ==> *final(self) == (AppSettings {
                rename_preset_index: Some(index),
                rename_preset_new_name: old(self).presets@[index as int].name,
                ..*old(self)
            }),
    {
        if index < self.presets.len() {
            self.rename_preset_index = Some(index);
            self.rename_preset_new_name = self.presets[index].name.clone();
        }
    }

    /// Confirms the rename under way: the preset takes the new name, trimmed, unless it is
    /// blank; then the rename ends. Without a rename of an existing preset nothing changes.
    #[verifier::rlimit(60)]
    pub fn confirm_rename(&mut self)
        ensures
            (old(self).rename_preset_index matches Some(i) && i < old(self).presets@.len()) ==> {
                let i = old(self).rename_preset_index->0;
                {
                    &&& final(self).rename_preset_index is None
                    &&& final(self).rename_preset_new_name@ == Seq::<char>::empty()
                    &&& final(self).presets@.len() == old(self).presets@.len()
                    &&& forall|j: int|
                        0 <= j < old(self).presets@.len() && j != i ==> final(self).presets@[j]
                            == old(self).presets@[j]
                    &&& if trim_seq(old(self).rename_preset_new_name@).len() > 0 {
                        &&& final(self).presets@[i as int].name@ == trim_seq(
                            old(self).rename_preset_new_name@,
                        )
                        &&& final(self).presets@[i as int] == (Preset {
                            name: final(self).presets@[i as int].name,
                            ..old(self).presets@[i as int]
                        })
                    } else {
                        final(self).presets@[i as int] == old(self).presets@[i as int]
                    }
                    &&& *final(self) == (AppSettings {
                        presets: final(self).presets,
                        rename_preset_index: None,
                        rename_preset_new_name: final(self).rename_preset_new_name,
                        ..*old(self)
                    })
                }
            },
            !(old(self).rename_preset_index matches Some(i) && i < old(self).presets@.len())
                ==> *final(self) == *old(self),
    {
        match self.rename_preset_index {
            Some(i) => {
                if i < self.presets.len() {
                    let name = trimmed(self.rename_preset_new_name.as_str());
                    if !name.as_str().is_empty() {
                        let mut p = self.presets[i].duplicate();
                        p.name = name;
                        self.presets.set(i, p);
                    }
                    self.rename_preset_index = None;
                    self.rename_preset_new_name = String::new();
                }
            },
            None => {},
        }
    }

    /// Abandons the rename under way, if it concerns an existing preset.
    pub fn cancel_rename(&mut self)
        ensures
            (old(self).rename_preset_index matches Some(i) && i < old(self).presets@.len()) ==> {
                &&& final(self).rename_preset_new_name@ == Seq::<char>::empty()
                    &&& *final(self) == (AppSettings {
                        rename_preset_index: None,
                        rename_preset_new_name: final(self).rename_preset_new_name,
                        ..*old(self)
                    })
            },
            !(old(self).rename_preset_index matches Some(i) && i < old(self).presets@.len())
                ==> *final(self) == *old(self),
    {
        match self.rename_preset_index {
            Some(i) => {
                if i < self.presets.len() {
                    self.rename_preset_index = None;
                    self.rename_preset_new_name = String::new();
                }
            },
            None => {},
        }
    }

    /// Marks the preset at `index` as the one applied at start-up (`enabled`), or unmarks
    /// it when it is the marked one. An index past the end changes nothing.
    #[verifier::rlimit(60)]
    pub fn set_auto_start_preset(&mut self, index: usize, enabled: bool)
        ensures
            index >= old(self).presets@.len() ==> *final(self) == *old(self),
            index < old(self).presets@.len() ==> {
                let name = old(self).presets@[index as int].name;
                if enabled {
                    *final(self) == (AppSettings { auto_start_preset_name: Some(name), ..*old(self) })
                } else if old(self).auto_start_preset_name matches Some(n) && n@ == name@ {
                    *final(self) == (AppSettings { auto_start_preset_name: None, ..*old(self) })
                } else {
                    *final(self) == *old(self)
                }
            },
    {
        if index >= self.presets.len() {
            return;
        }
        if enabled {
            self.auto_start_preset_name = Some(self.presets[index].name.clone());
        } else {
            let same = match &self.auto_start_preset_name {
                Some(n) => str_eq(n.as_str(), self.presets[index].name.as_str()),
                None => false,
            };
            if same {
                self.auto_start_preset_name = None;
            }
        }
    }

    /// At start-up: applies the first preset named as the auto-start preset, if any, and
    /// returns whether an auto-start preset is named (the server is then started).
    pub fn apply_auto_start_preset(&mut self) -> (start: bool)
        ensures
            start == old(self).auto_start_preset_name is Some,
            match old(self).auto_start_preset_name {
                Some(n) => match preset_index(old(self).presets@, n@, 0) {
                    Some(i) => *final(self) == with_preset(*old(self), old(self).presets@[i]),
                    None => *final(self) == *old(self),
                },
                None => *final(self) == *old(self),
            },
    {
        let found = match &self.auto_start_preset_name {
            Some(n) => find_preset(&self.presets, n.as_str()),
            None => None,
        };
        match found {
            Some(i) => {
                let p = self.presets[i].duplicate();
                p.apply_to(self);
            },
            None => {},
        }
        self.auto_start_preset_name.is_some()
    }
}

} // verus!

verus! {

/// The names found in one subdirectory.
#[derive(Clone, Debug)]
pub struct SubdirListing {
    /// The subdirectory's own name.
    pub name: String,
    /// The names of the entries in it that exist.
    pub entries: Vec<String>,
}

/// What a search for an executable reads of a directory: the names of its entries that
/// exist, and its subdirectories (`None` where the directory cannot be listed).
#[derive(Clone, Debug)]
pub struct DirListing {
    pub entries: Vec<String>,
    pub subdirs: Option<Vec<SubdirListing>>,
}

/// Where an executable was found, relative to the searched directory.
#[derive(Clone, Debug, PartialEq, Eq)]
pub struct ExeLocation {
    /// The subdirectory holding it, or `None` for the directory itself.
    pub subdir: Option<String>,
    /// The executable's file name.
    pub file_name: String,
}

/// `entries` holds the name `name`.
pub open spec fn lists_name(entries: Seq<String>, name: Seq<char>) -> bool {
    exists|i: int| 0 <= i < entries.len() && #[trigger] entries[i]@ == name
}

/// A subdirectory name contains the keyword, both case folded.
pub open spec fn keyword_match(name: Seq<char>, keyword: Seq<char>) -> bool {
    crate::text::contains_seq(case_folded(name), case_folded(keyword))
}

/// Positions of the subdirectories whose name matches `keyword`, in listing order.
pub open spec fn matching_subdirs(subs: Seq<SubdirListing>, keyword: Seq<char>) -> Seq<usize>
    decreases subs.len(),
{
    if subs.len() == 0 {
        Seq::empty()
    } else {
        let m = matching_subdirs(subs.drop_last(), keyword);
        if keyword_match(subs.last().name@, keyword) {
            m.push((subs.len() - 1) as usize)
        } else {
            m
        }
    }
}

/// The matching subdirectories in the order they are searched: sorted by name.
pub open spec fn search_order(subs: Seq<SubdirListing>, keyword: Seq<char>) -> Seq<usize> {
    let m = matching_subdirs(subs, keyword);
    let keys = m.map_values(|i: usize| subs[i as int].name@);
    crate::text::sorted_order(keys, m.len()).map_values(|k: usize| m[k as int])
}

/// The first subdirectory, in the order `cands` from position `j` on, that holds `file`.
pub open spec fn first_holding(subs: Seq<SubdirListing>, cands: Seq<usize>, file: Seq<char>, j: int) -> Option<usize>
    decreases cands.len() - j,
{
    if j < 0 || j >= cands.len() {
        None
    } else if lists_name(subs[cands[j] as int].entries@, file) {
        Some(cands[j])
    } else {
        first_holding(subs, cands, file, j + 1)
    }
}

/// Where the search finds the executable `exe`: the directory itself first, then the
/// subdirectories whose name contains `keyword` (case folded), sorted by name.
/// `Some(None)` is the directory itself, `Some(Some(i))` the subdirectory at position `i`.
pub open spec fn exe_search(listing: DirListing, exe: Seq<char>, keyword: Seq<char>, os: HostOs) -> Option<Option<usize>> {
    let file = exe_file_name_spec(exe, os);
    if lists_name(listing.entries@, file) {
        Some(None)
    } else {
        match listing.subdirs {
            None => None,
            Some(subs) => match first_holding(subs@, search_order(subs@, keyword), file, 0) {
                Some(i) => Some(Some(i)),
                None => None,
            },
        }
    }
}

/// The location that `exe_search` describes.
pub open spec fn location_matches(r: Option<ExeLocation>, listing: DirListing, exe: Seq<char>, keyword: Seq<char>, os: HostOs) -> bool {
    match (r, exe_search(listing, exe, keyword, os)) {
        (None, None) => true,
        (Some(loc), Some(None)) => loc.subdir is None && loc.file_name@ == exe_file_name_spec(exe, os),
        (Some(loc), Some(Some(i))) => loc.subdir matches Some(d) && d@ == listing.subdirs->0@[i as int].name@
            && loc.file_name@ == exe_file_name_spec(exe, os),
        _ => false,
    }
}

fn lists_name_exec(entries: &Vec<String>, name: &str) -> (r: bool)
    ensures
        r == lists_name(entries@, name@),
{
    let mut i: usize = 0;
    while i < entries.len()
        invariant
            i <= entries@.len(),
            forall|j: int| 0 <= j < i ==> #[trigger] entries@[j]@ != name@,
        decreases entries@.len() - i,
    {
        if str_eq(entries[i].as_str(), name) {
            return true;
        }
        i = i + 1;
    }
    false
}

fn matching_subdirs_exec(subs: &Vec<SubdirListing>, keyword: &str) -> (r: Vec<usize>)
    ensures
        r@ == matching_subdirs(subs@, keyword@),
        forall|i: int| 0 <= i < r@.len() ==> #[trigger] r@[i] < subs@.len(),
{
    let kw = lowercased(keyword);
    let mut r: Vec<usize> = Vec::new();
    let mut i: usize = 0;
    while i < subs.len()
        invariant
            i <= subs@.len(),
            kw@ == case_folded(keyword@),
            r@ == matching_subdirs(subs@.take(i as int), keyword@),
            forall|j: int| 0 <= j < r@.len() ==> #[trigger] r@[j] < i,
        decreases subs@.len() - i,
    {
        assert(subs@.take(i + 1).drop_last() =~= subs@.take(i as int));
        let name = lowercased(subs[i].name.as_str());
        if crate::text::str_contains(name.as_str(), kw.as_str()) {
            r.push(i);
        }
        i = i + 1;
    }
    assert(subs@.take(subs@.len() as int) =~= subs@);
    r
}

/// Looks for the executable `name` among the `entries` of one directory: its file name on
/// the system `os` where an entry has that name, `None` otherwise.
pub fn find_exe_in_dir(entries: &Vec<String>, name: &str, os: HostOs) -> (r: Option<String>)
    ensures
        match r {
            Some(f) => f@ == exe_file_name_spec(name@, os) && lists_name(entries@, f@),
            None => !lists_name(entries@, exe_file_name_spec(name@, os)),
        },
{
    let file = exe_file_name(name, os);
    if lists_name_exec(entries, file.as_str()) {
        Some(file)
    } else {
        None
    }
}

/// Searches the listed directory for the executable `exe` (see `exe_search`).
pub fn find_exe_recursive(listing: &DirListing, exe: &str, keyword: &str, os: HostOs) -> (r: Option<ExeLocation>)
    ensures
        location_matches(r, *listing, exe@, keyword@, os),
{
    let ghost file = exe_file_name_spec(exe@, os);
    match find_exe_in_dir(&listing.entries, exe, os) {
        Some(f) => {
            return Some(ExeLocation { subdir: None, file_name: f });
        },
        None => {},
    }
    match &listing.subdirs {
        None => None,
        Some(subs) => {
            let m = matching_subdirs_exec(subs, keyword);
            let mut keys: Vec<Vec<char>> = Vec::new();
            let mut k: usize = 0;
            while k < m.len()
                invariant
                    k <= m@.len(),
                    forall|i: int| 0 <= i < m@.len() ==> #[trigger] m@[i] < subs@.len(),
                    keys@.len() == k,
                    forall|i: int| 0 <= i < k ==> (#[trigger] keys@[i])@ == subs@[m@[i] as int].name@,
                decreases m@.len() - k,
            {
                keys.push(chars_of(subs[m[k]].name.as_str()));
                k = k + 1;
            }
            let ghost mk = m@.map_values(|i: usize| subs@[i as int].name@);
            assert(keys@.map_values(|kk: Vec<char>| kk@) =~= mk);
            let order = crate::text::stable_order(&keys);
            let ghost cands = order@.map_values(|kk: usize| m@[kk as int]);
            assert(cands =~= search_order(subs@, keyword@));
            let mut j: usize = 0;
            while j < order.len()
                invariant
                    j <= order@.len(),
                    cands == order@.map_values(|kk: usize| m@[kk as int]),
                    cands == search_order(subs@, keyword@),
                    forall|i: int| 0 <= i < order@.len() ==> #[trigger] order@[i] < m@.len(),
                    forall|i: int| 0 <= i < m@.len() ==> #[trigger] m@[i] < subs@.len(),
                    first_holding(subs@, cands, file, 0) == first_holding(subs@, cands, file, j as int),
                    file == exe_file_name_spec(exe@, os),
                    listing.subdirs == Some(*subs),
                    !lists_name(listing.entries@, file),
                decreases order@.len() - j,
            {
                let idx = m[order[j]];
                assert(cands[j as int] == idx);
                match find_exe_in_dir(&subs[idx].entries, exe, os) {
                    Some(f) => {
                        return Some(ExeLocation { subdir: Some(subs[idx].name.clone()), file_name: f });
                    },
                    None => {},
                }
                j = j + 1;
            }
            None
        },
    }
}

/// Settings kept beside the launcher's executable.
pub struct SettingsManager {
    /// The directory that holds the launcher (and its settings file).
    pub config_dir: String,
}

impl SettingsManager {
    /// A manager for settings kept in `config_dir`.
    pub fn with_config_dir(config_dir: String) -> (r: SettingsManager)
        ensures
            r.config_dir == config_dir,
    {
        SettingsManager { config_dir }
    }

    /// Looks for `llama-server` in the launcher's directory, given as `listing`, then in its
    /// subdirectories whose name contains `llama`.
    pub fn auto_detect_server_path(&self, listing: &DirListing, os: HostOs) -> (r: Option<ExeLocation>)
        ensures
            location_matches(r, *listing, "llama-server"@, "llama"@, os),
    {
        find_exe_recursive(listing, "llama-server", "llama", os)
    }

    /// Looks for `rpc-server` in the launcher's directory, given as `listing`, then in its
    /// subdirectories whose name contains `llama`.
    pub fn auto_detect_rpc_path(&self, listing: &DirListing, os: HostOs) -> (r: Option<ExeLocation>)
        ensures
            location_matches(r, *listing, "rpc-server"@, "llama"@, os),
    {
        find_exe_recursive(listing, "rpc-server", "llama", os)
    }
}

} // verus!

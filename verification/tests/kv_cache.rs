use llama_launcher::kv_cache::{
    cache_type_bits, calc_kv_cache_space, compute_buffer_bytes, extract_all_free_mib_from_line,
    gguf_info_from_metadata, kv_cache_bytes, read_free_mib, sum_all_free_mib, FreeMemoryReading, GgufError, GgufInfo, MetadataValue,
};
use llama_launcher::settings::AppSettings;

#[test]
fn test_extract_single_gpu() {
    let line = "  ROCm0: Radeon RX 7900 XTX (24560 MiB, 24524 MiB free)";
    let values = extract_all_free_mib_from_line(line);
    assert_eq!(values, vec![24524]);
}

#[test]
fn test_extract_multiple_gpus_same_line() {
    let line = "(24560 MiB, 24410 MiB free) GPU0 (24560 MiB, 24410 MiB free) GPU1";
    let values = extract_all_free_mib_from_line(line);
    assert_eq!(values, vec![24410, 24410]);
}

#[test]
fn test_sum_all_free_mib() {
    let text = "Available devices:\n  ROCm0: Radeon RX 7900 XTX (24560 MiB, 24524 MiB free)\n  ROCm1: Radeon RX 7900 XTX (24560 MiB, 24524 MiB free)";
    let total = sum_all_free_mib(text);
    assert_eq!(total, Some(49048));
}

#[test]
fn test_sum_all_free_mib_no_match() {
    let text = "No GPU devices found";
    let total = sum_all_free_mib(text);
    assert_eq!(total, None);
}

#[test]
fn free_figures_match_without_regard_to_case() {
    assert_eq!(extract_all_free_mib_from_line("GPU (8192 MIB, 8000 MIB FREE)"), vec![8000]);
    assert_eq!(extract_all_free_mib_from_line("CUDA0 (12288 MiB, 11000 Mib Free)"), vec![11000]);
}

#[test]
fn free_figure_needs_a_number_right_before_the_marker() {
    assert_eq!(extract_all_free_mib_from_line("free memory: MiB free"), Vec::<u64>::new());
    assert_eq!(extract_all_free_mib_from_line("(abc MiB free)"), Vec::<u64>::new());
    assert_eq!(extract_all_free_mib_from_line(""), Vec::<u64>::new());
}

#[test]
fn free_figures_of_windows_lines_are_read() {
    let text = "Vulkan0: GPU (16384 MiB, 15000 MiB free)\r\nVulkan1: GPU (8192 MiB, 1000 MiB free)\r\n";
    assert_eq!(sum_all_free_mib(text), Some(16000));
}

#[test]
fn free_memory_is_read_from_stderr_when_stdout_has_none() {
    let stdout = "ggml_vulkan: found 1 device";
    let stderr = "  Vulkan0: AMD Radeon (16368 MiB, 15872 MiB free)";
    assert_eq!(read_free_mib(stdout, stderr), FreeMemoryReading::Total(15872));
    assert_eq!(read_free_mib(stderr, "(1 MiB, 1 MiB free)"), FreeMemoryReading::Total(15872));
    assert_eq!(read_free_mib("nothing", "nothing either"), FreeMemoryReading::NotFound);
}

#[test]
fn free_memory_total_is_held_at_the_maximum() {
    let text = "(1 MiB, 18446744073709551615 MiB free)\n(1 MiB, 5 MiB free)";
    assert_eq!(sum_all_free_mib(text), Some(u64::MAX));
}

fn entry(key: &str, value: MetadataValue) -> (String, MetadataValue) {
    (key.to_string(), value)
}

fn llama_entries() -> Vec<(String, MetadataValue)> {
    vec![
        entry("general.architecture", MetadataValue::Text("llama".to_string())),
        entry("llama.block_count", MetadataValue::Unsigned(32)),
        entry("llama.attention.head_count", MetadataValue::Unsigned(32)),
        entry("llama.attention.head_count_kv", MetadataValue::Unsigned(8)),
        entry("llama.attention.key_length", MetadataValue::Unsigned(128)),
        entry("llama.embedding_length", MetadataValue::Unsigned(4096)),
    ]
}

#[test]
fn gguf_dimensions_are_read_with_fallback_keys() {
    let info = gguf_info_from_metadata(&llama_entries(), 4_368_439_584).unwrap();
    assert_eq!(
        info,
        GgufInfo {
            block_count: 32,
            kv_head_count: 8,
            head_dim: 128,
            embedding_length: 4096,
            file_size: 4_368_439_584,
        }
    );
}

#[test]
fn gguf_preferred_keys_win_over_fallbacks() {
    let mut entries = llama_entries();
    entries.push(entry("llama.attention.key_head_count", MetadataValue::Unsigned(4)));
    entries.push(entry("llama.head_dim", MetadataValue::Unsigned(64)));
    let info = gguf_info_from_metadata(&entries, 1).unwrap();
    assert_eq!(info.kv_head_count, 4);
    assert_eq!(info.head_dim, 64);
}

#[test]
fn gguf_missing_architecture_is_reported() {
    let entries = vec![entry("general.architecture", MetadataValue::Unsigned(3))];
    assert_eq!(gguf_info_from_metadata(&entries, 0), Err(GgufError::NoArchitecture));
    assert_eq!(gguf_info_from_metadata(&Vec::new(), 0), Err(GgufError::NoArchitecture));
}

#[test]
fn gguf_missing_dimensions_name_the_keys_tried() {
    let only_arch = vec![entry("general.architecture", MetadataValue::Text("qwen2".to_string()))];
    assert_eq!(
        gguf_info_from_metadata(&only_arch, 0),
        Err(GgufError::NoBlockCount("qwen2.block_count".to_string()))
    );

    let mut entries = only_arch.clone();
    entries.push(entry("qwen2.block_count", MetadataValue::Unsigned(28)));
    assert_eq!(
        gguf_info_from_metadata(&entries, 0),
        Err(GgufError::NoKvHeadCount(
            "qwen2.attention.key_head_count".to_string(),
            "qwen2.attention.head_count_kv".to_string(),
            "qwen2.attention.head_count".to_string(),
        ))
    );

    entries.push(entry("qwen2.attention.head_count_kv", MetadataValue::Unsigned(4)));
    assert_eq!(
        gguf_info_from_metadata(&entries, 0),
        Err(GgufError::NoHeadDim(
            "qwen2.head_dim".to_string(),
            "qwen2.attention.key_length".to_string(),
        ))
    );

    entries.push(entry("qwen2.attention.key_length", MetadataValue::Unsigned(128)));
    assert_eq!(
        gguf_info_from_metadata(&entries, 0),
        Err(GgufError::NoEmbeddingLength("qwen2.embedding_length".to_string()))
    );
}

#[test]
fn gguf_a_present_key_of_another_type_is_no_fallback() {
    let entries = vec![
        entry("general.architecture", MetadataValue::Text("llama".to_string())),
        entry("llama.block_count", MetadataValue::Unsigned(32)),
        entry("llama.attention.key_head_count", MetadataValue::Other),
        entry("llama.attention.head_count_kv", MetadataValue::Unsigned(8)),
    ];
    assert!(matches!(
        gguf_info_from_metadata(&entries, 0),
        Err(GgufError::NoKvHeadCount(_, _, _))
    ));
}

fn sample_model() -> GgufInfo {
    GgufInfo {
        block_count: 32,
        kv_head_count: 8,
        head_dim: 128,
        embedding_length: 4096,
        file_size: 4 * 1024 * 1024 * 1024,
    }
}

fn sample_settings() -> AppSettings {
    let mut s = AppSettings::default();
    s.parallel_slots = 1;
    s.batch_size = 2;
    s
}

#[test]
fn compute_buffer_is_slots_blocks_width_batch_times_three() {
    let s = sample_settings();
    assert_eq!(compute_buffer_bytes(&sample_model(), &s), 32 * 4096 * 2048 * 3);
    let mut two = s.clone();
    two.parallel_slots = 2;
    assert_eq!(compute_buffer_bytes(&sample_model(), &two), 2 * 32 * 4096 * 2048 * 3);
}

#[test]
fn compute_buffer_saturates() {
    let mut s = sample_settings();
    s.parallel_slots = usize::MAX;
    assert_eq!(compute_buffer_bytes(&sample_model(), &s), u64::MAX);
}

#[test]
fn kv_cache_space_reports_what_is_left() {
    let s = sample_settings();
    // 24000 MiB free, 4096 MiB of model, 768 MiB of compute buffer.
    assert_eq!(calc_kv_cache_space(&sample_model(), &s, 24000), "19136 MB");
    assert_eq!(calc_kv_cache_space(&sample_model(), &s, 4864), "0 MB");
}

#[test]
fn kv_cache_space_reports_the_excess() {
    let s = sample_settings();
    assert_eq!(calc_kv_cache_space(&sample_model(), &s, 4500), "超出 364 MB");
    assert_eq!(calc_kv_cache_space(&sample_model(), &s, 100), "超出 768 MB");
}

#[test]
fn kv_cache_bytes_is_usable_memory_less_the_buffer() {
    let s = sample_settings();
    let expected: u64 = (24000 - 4096) * 1024 * 1024 - 32 * 4096 * 2048 * 3;
    assert_eq!(kv_cache_bytes(&sample_model(), &s, 24000), expected);
    assert_eq!(kv_cache_bytes(&sample_model(), &s, 4000), 0);
}

#[test]
fn cache_type_bits_per_element() {
    assert_eq!(cache_type_bits("f32"), 32);
    assert_eq!(cache_type_bits("f16"), 16);
    assert_eq!(cache_type_bits("bf16"), 16);
    assert_eq!(cache_type_bits("q8_0"), 8);
    assert_eq!(cache_type_bits("q5_0"), 5);
    assert_eq!(cache_type_bits("q5_1"), 5);
    assert_eq!(cache_type_bits("q4_0"), 4);
    assert_eq!(cache_type_bits("q4_1"), 4);
    assert_eq!(cache_type_bits("iq4_nl"), 4);
    assert_eq!(cache_type_bits("q6_k"), 16);
    assert_eq!(cache_type_bits(""), 16);
}

#[test]
fn figures_are_read_from_the_line_itself() {
    // A Kelvin sign lowercases to a shorter character; the figure is still the one written.
    assert_eq!(extract_all_free_mib_from_line("\u{212A} 100 MiB free"), vec![100]);
    assert_eq!(extract_all_free_mib_from_line("ÄÄ 5 MiB free"), vec![5]);
    assert_eq!(extract_all_free_mib_from_line("ÄÄ MiB free"), Vec::<u64>::new());
    assert_eq!(extract_all_free_mib_from_line("İ 12 mIb FrEe, 3 MiB free"), vec![12, 3]);
    assert_eq!(sum_all_free_mib("Ä (10 MiB, 9 MiB free)\nİ 1 MiB free"), Some(10));
}

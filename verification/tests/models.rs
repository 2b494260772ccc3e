use llama_launcher::models::{
    classify_tag, eq_ignore_ascii_case, is_context_length, is_dflash_file, is_mmproj_file,
    is_param_size, is_quantization, is_training_method, parse_tags, pick_model_dir,
    scan_model_files, ModelBrowserState, ModelKind, TagKind,
};

fn tags(name: &str) -> Vec<(String, TagKind)> {
    parse_tags(name)
}

fn tag(text: &str, kind: TagKind) -> (String, TagKind) {
    (text.to_string(), kind)
}

#[test]
fn tags_of_a_typical_model_name() {
    assert_eq!(
        tags("llama-3.1-8b-instruct-q8_0-128k.gguf"),
        vec![
            tag("llama", TagKind::Other),
            tag("3.1", TagKind::Number),
            tag("8b", TagKind::ParamSize),
            tag("instruct", TagKind::Training),
            tag("q8_0", TagKind::Quantization),
            tag("128k", TagKind::Context),
        ]
    );
}

#[test]
fn tags_keep_their_case_and_take_the_first_rule_that_holds() {
    // `q4_k_m` ends in `m` and holds a digit: the parameter-size rule is tried first.
    assert_eq!(
        tags("Qwen2.5-7B-Instruct-Q4_K_M.gguf"),
        vec![
            tag("Qwen2.5", TagKind::Other),
            tag("7B", TagKind::ParamSize),
            tag("Instruct", TagKind::Training),
            tag("Q4_K_M", TagKind::ParamSize),
        ]
    );
}

#[test]
fn tags_of_precision_adapter_and_architecture() {
    assert_eq!(
        tags("mamba-2.8b-BF16-lora-F16-IQ3_XS.gguf"),
        vec![
            tag("mamba", TagKind::Architecture),
            tag("2.8b", TagKind::ParamSize),
            tag("BF16", TagKind::Precision),
            tag("lora", TagKind::Adapter),
            tag("F16", TagKind::Other),
            tag("IQ3_XS", TagKind::Quantization),
        ]
    );
}

#[test]
fn tags_skip_blank_parts_and_trim() {
    assert_eq!(
        tags(" a - -b .gguf"),
        vec![tag("a", TagKind::Other), tag("b", TagKind::Other)]
    );
    assert_eq!(tags(""), vec![]);
    assert_eq!(tags("---.gguf"), vec![]);
}

#[test]
fn tags_strip_only_a_lowercase_suffix() {
    assert_eq!(tags("a.GGUF"), vec![tag("a.GGUF", TagKind::Other)]);
    assert_eq!(tags("x-64.gguf"), vec![tag("x", TagKind::Other), tag("64", TagKind::Number)]);
}

#[test]
fn tag_kinds_in_rule_order() {
    assert_eq!(classify_tag("DPO", "dpo"), TagKind::Training);
    assert_eq!(classify_tag("Long", "long"), TagKind::Context);
    assert_eq!(classify_tag("32k", "32k"), TagKind::Context);
    assert_eq!(classify_tag("1.2.3", "1.2.3"), TagKind::Number);
    assert_eq!(classify_tag("delta", "delta"), TagKind::Adapter);
    assert_eq!(classify_tag("decoder", "decoder"), TagKind::Architecture);
    assert_eq!(classify_tag("fp8", "fp8"), TagKind::Precision);
    assert_eq!(classify_tag("gemma", "gemma"), TagKind::Other);
}

#[test]
fn name_predicates() {
    assert!(is_param_size("70b"));
    assert!(is_param_size("350m"));
    assert!(!is_param_size("b"));
    assert!(!is_param_size("7k"));
    assert!(is_quantization("q4_0"));
    assert!(is_quantization("iq2_xxs"));
    assert!(!is_quantization("iq"));
    assert!(!is_quantization("qwen"));
    assert!(is_training_method("chat"));
    assert!(is_training_method("grpo"));
    assert!(!is_training_method("base"));
    assert!(is_context_length("8k"));
    assert!(is_context_length("128"));
    assert!(is_context_length("longctx"));
    assert!(!is_context_length("k"));
    assert!(!is_context_length("256"));
    assert!(is_mmproj_file("mmproj-model-f16.gguf"));
    assert!(is_mmproj_file("vision-proj.gguf"));
    assert!(is_mmproj_file("clip.gguf"));
    assert!(!is_mmproj_file("proj.gguf"));
    assert!(is_dflash_file("qwen-dflash.gguf"));
    assert!(!is_dflash_file("qwen.gguf"));
}

fn strings(v: &[&str]) -> Vec<String> {
    v.iter().map(|s| s.to_string()).collect()
}

#[test]
fn directory_scan_sorts_files_into_three_lists() {
    let names = strings(&[
        "b-7B.gguf",
        "readme.txt",
        "A-mmproj-f16.gguf",
        "a.GGUF",
        "draft-dflash.gguf",
        "clip-vision.gguf",
        "B-2.gguf",
    ]);
    let listing = scan_model_files(&names);
    let main: Vec<(usize, &str)> =
        listing.main_files.iter().map(|f| (f.entry, f.name.as_str())).collect();
    assert_eq!(main, vec![(3, "a.GGUF"), (6, "B-2.gguf"), (0, "b-7B.gguf")]);
    let mmproj: Vec<usize> = listing.mmproj_files.iter().map(|f| f.entry).collect();
    assert_eq!(mmproj, vec![2, 5]);
    let dflash: Vec<usize> = listing.dflash_files.iter().map(|f| f.entry).collect();
    assert_eq!(dflash, vec![4]);
    assert_eq!(
        listing.main_files[2].tags,
        vec![tag("b", TagKind::Other), tag("7B", TagKind::ParamSize)]
    );
}

#[test]
fn directory_scan_keeps_equal_names_in_listing_order() {
    let names = strings(&["X.gguf", "x.gguf", "w.gguf"]);
    let listing = scan_model_files(&names);
    let main: Vec<usize> = listing.main_files.iter().map(|f| f.entry).collect();
    assert_eq!(main, vec![2, 0, 1]);
}

#[test]
fn directory_scan_of_nothing() {
    let listing = scan_model_files(&Vec::new());
    assert!(listing.main_files.is_empty());
    assert!(listing.mmproj_files.is_empty());
    assert!(listing.dflash_files.is_empty());
}

#[test]
fn model_directory_prefers_models_over_model() {
    assert_eq!(pick_model_dir(&strings(&["src", "Model", "MODELS"])), Some(2));
    assert_eq!(pick_model_dir(&strings(&["model", "data"])), Some(0));
    assert_eq!(pick_model_dir(&strings(&["Models2", "x"])), None);
    assert_eq!(pick_model_dir(&Vec::new()), None);
}

#[test]
fn ascii_case_insensitive_equality() {
    assert!(eq_ignore_ascii_case("MoDeLs", "models"));
    assert!(!eq_ignore_ascii_case("model", "models"));
    assert!(!eq_ignore_ascii_case("Ä", "ä"));
}

#[test]
fn browser_rescans_only_on_a_change() {
    let mut b = ModelBrowserState::new();
    assert!(!b.sync("", Some(1)));
    assert!(b.sync("/models", Some(5)));
    let listing = scan_model_files(&strings(&["m-7b.gguf", "m-mmproj.gguf"]));
    b.store("/models", Some(5), listing);
    assert!(!b.sync("/models", Some(5)));
    assert_eq!(b.files(ModelKind::Main).len(), 1);
    assert_eq!(b.files(ModelKind::Mmproj).len(), 1);
    assert_eq!(b.files(ModelKind::Dflash).len(), 0);
    assert!(b.sync("/models", Some(6)));
    assert!(b.sync("/models", None));
    assert!(b.sync("/other", Some(5)));
    assert!(!b.sync("", Some(5)));
    assert!(b.cached_dir.is_empty());
    assert_eq!(b.files(ModelKind::Main).len(), 0);
}

#[test]
fn browser_invalidate_forgets_everything() {
    let mut b = ModelBrowserState::new();
    b.store("/d", Some(1), scan_model_files(&strings(&["a.gguf"])));
    b.invalidate();
    assert!(b.cached_dir.is_empty());
    assert_eq!(b.cached_modified, None);
    assert!(b.sync("/d", Some(1)));
}

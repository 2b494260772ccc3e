use llama_launcher::settings::{
    default_batch_size, default_context, default_flash_attn, default_kv_cache_ratio,
    default_max_log_lines, default_session_timeout, default_spec_draft_n_max,
    default_spec_draft_p_min, default_spec_draft_p_split, default_spec_type, default_ubatch_size,
    exe_file_name, find_exe_in_dir, find_exe_recursive, from_raw_or_k, is_rpc_binary_name, is_server_binary_name,
    trimmed, AppSettings, DirListing, ExeLocation, GpuLayersMode, GpuLayersRepr, HostOs,
    ParamsExport, Preset, SettingsManager, SubdirListing,
};

#[test]
fn gpu_layers_argument() {
    assert_eq!(GpuLayersMode::Auto.to_arg(), "auto");
    assert_eq!(GpuLayersMode::All.to_arg(), "999");
    assert_eq!(GpuLayersMode::Manual(0).to_arg(), "0");
    assert_eq!(GpuLayersMode::Manual(35).to_arg(), "35");
}

#[test]
fn gpu_layers_read_from_text() {
    assert_eq!(GpuLayersMode::from_text("auto"), Some(GpuLayersMode::Auto));
    assert_eq!(GpuLayersMode::from_text("  AUTO "), Some(GpuLayersMode::Auto));
    assert_eq!(GpuLayersMode::from_text("All"), Some(GpuLayersMode::All));
    assert_eq!(GpuLayersMode::from_text("999"), Some(GpuLayersMode::All));
    assert_eq!(GpuLayersMode::from_text("42"), Some(GpuLayersMode::Manual(42)));
    assert_eq!(GpuLayersMode::from_text("+7"), Some(GpuLayersMode::Manual(7)));
    assert_eq!(GpuLayersMode::from_text("many"), None);
    assert_eq!(GpuLayersMode::from_text("-1"), None);
    assert_eq!(GpuLayersMode::from_text(""), None);
}

#[test]
fn gpu_layers_written_form_round_trips() {
    for m in [GpuLayersMode::Auto, GpuLayersMode::All, GpuLayersMode::Manual(12)] {
        assert_eq!(GpuLayersMode::from_repr(&m.to_repr()), Some(m));
    }
    assert_eq!(GpuLayersMode::Auto.to_repr(), GpuLayersRepr::Text("auto".to_string()));
    assert_eq!(GpuLayersMode::All.to_repr(), GpuLayersRepr::Text("all".to_string()));
    assert_eq!(GpuLayersMode::Manual(3).to_repr(), GpuLayersRepr::Number(3));
    assert_eq!(GpuLayersMode::from_number(999), GpuLayersMode::Manual(999));
}

#[test]
fn gpu_layers_argument_reads_back() {
    for m in [GpuLayersMode::Auto, GpuLayersMode::All, GpuLayersMode::Manual(80)] {
        assert_eq!(GpuLayersMode::from_text(&m.to_arg()), Some(m));
    }
    // A manual count of 999 is written as the argument for all layers.
    assert_eq!(GpuLayersMode::from_text(&GpuLayersMode::Manual(999).to_arg()), Some(GpuLayersMode::All));
}

#[test]
fn trimmed_drops_outer_white_space() {
    assert_eq!(trimmed("  a b \t\n"), "a b");
    assert_eq!(trimmed("\u{3000}x\u{a0}"), "x");
    assert_eq!(trimmed("   "), "");
}

#[test]
fn sizes_in_units_of_1024() {
    assert_eq!(from_raw_or_k(4096), 4);
    assert_eq!(from_raw_or_k(2048), 2);
    assert_eq!(from_raw_or_k(1536), 2);
    assert_eq!(from_raw_or_k(1025), 2);
    assert_eq!(from_raw_or_k(1024), 1);
    assert_eq!(from_raw_or_k(200), 1);
    assert_eq!(from_raw_or_k(128), 1);
    assert_eq!(from_raw_or_k(usize::MAX), usize::MAX / 1024 + 1);
    assert_eq!(from_raw_or_k(127), 127);
    assert_eq!(from_raw_or_k(8), 8);
    assert_eq!(from_raw_or_k(0), 1);
}

#[test]
fn default_values() {
    assert_eq!(default_flash_attn(), "auto");
    assert_eq!(default_spec_type(), "none");
    assert_eq!(default_session_timeout(), 600);
    assert_eq!(default_max_log_lines(), 100);
    assert_eq!(default_context(), 4);
    assert_eq!(default_batch_size(), 2);
    assert_eq!(default_spec_draft_n_max(), 16);
    assert_eq!(f32::from_bits(default_ubatch_size()), 0.5);
    assert_eq!(f32::from_bits(default_spec_draft_p_min()), 0.75);
    assert_eq!(f32::from_bits(default_spec_draft_p_split()), 0.10);
    assert_eq!(f32::from_bits(default_kv_cache_ratio()), 0.95);
}

#[test]
fn default_settings() {
    let s = AppSettings::default();
    assert_eq!(s.host, "127.0.0.1");
    assert_eq!(s.port, 8080);
    assert_eq!(s.context, 4);
    assert_eq!(s.gpu_layers_mode, GpuLayersMode::All);
    assert!(s.presets.is_empty());
    assert_eq!(s.max_log_lines, 100);
    assert!(!s.log_to_file);
    let p = Preset::default();
    assert_eq!(p.port, 8080);
    assert_eq!(f32::from_bits(p.temperature), 0.8);
    assert_eq!(p.cache_type_k, "f16");
}

#[test]
fn binary_names_per_system() {
    assert_eq!(exe_file_name("llama-server", HostOs::Windows), "llama-server.exe");
    assert_eq!(exe_file_name("llama-server", HostOs::Other), "llama-server");
    assert!(is_server_binary_name("llama-server.exe", HostOs::Windows));
    assert!(!is_server_binary_name("llama-server", HostOs::Windows));
    assert!(is_server_binary_name("llama-server", HostOs::Other));
    assert!(!is_server_binary_name("Llama-server", HostOs::Other));
    assert!(is_rpc_binary_name("rpc-server", HostOs::Other));
    assert!(is_rpc_binary_name("rpc-server.exe", HostOs::Windows));
    assert!(!is_rpc_binary_name("llama-server", HostOs::Other));
}

fn named(name: &str) -> AppSettings {
    let mut s = AppSettings::default();
    s.new_preset_name = name.to_string();
    s
}

#[test]
fn saving_a_preset_records_the_settings() {
    let mut s = named("  fast  ");
    s.port = 9000;
    s.context = 16;
    s.save_preset();
    assert_eq!(s.presets.len(), 1);
    assert_eq!(s.presets[0].name, "fast");
    assert_eq!(s.presets[0].port, 9000);
    assert_eq!(s.presets[0].context, 16);
    assert!(s.new_preset_name.is_empty());
}

#[test]
fn saving_under_an_existing_name_replaces_it() {
    let mut s = named("a");
    s.save_preset();
    s.new_preset_name = "b".to_string();
    s.save_preset();
    s.port = 1234;
    s.new_preset_name = "a".to_string();
    s.save_preset();
    assert_eq!(s.presets.len(), 2);
    assert_eq!(s.presets[0].name, "a");
    assert_eq!(s.presets[0].port, 1234);
    assert_eq!(s.presets[1].name, "b");
    assert_eq!(s.presets[1].port, 8080);
}

#[test]
fn a_blank_preset_name_saves_nothing() {
    let mut s = named(" \t ");
    s.save_preset();
    assert!(s.presets.is_empty());
    assert_eq!(s.new_preset_name, " \t ");
}

#[test]
fn loading_a_preset_applies_it() {
    let mut s = named("p");
    s.port = 7000;
    s.model_path = "/m/a.gguf".to_string();
    s.save_preset();
    s.port = 1;
    s.model_path = "/m/b.gguf".to_string();
    assert!(!s.load_preset(0));
    assert_eq!(s.port, 7000);
    // The model is not part of a preset.
    assert_eq!(s.model_path, "/m/b.gguf");
    assert!(!s.load_preset(5));
    assert_eq!(s.port, 7000);
}

#[test]
fn loading_the_auto_start_preset_asks_for_a_start() {
    let mut s = named("p");
    s.save_preset();
    s.set_auto_start_preset(0, true);
    assert_eq!(s.auto_start_preset_name.as_deref(), Some("p"));
    assert!(s.load_preset(0));
    s.set_auto_start_preset(0, false);
    assert_eq!(s.auto_start_preset_name, None);
    assert!(!s.load_preset(0));
}

#[test]
fn auto_start_preset_is_applied_at_start_up() {
    let mut s = named("boot");
    s.port = 4242;
    s.save_preset();
    s.set_auto_start_preset(0, true);
    s.port = 1;
    assert!(s.apply_auto_start_preset());
    assert_eq!(s.port, 4242);

    let mut t = AppSettings::default();
    assert!(!t.apply_auto_start_preset());
    t.auto_start_preset_name = Some("gone".to_string());
    t.port = 5;
    assert!(t.apply_auto_start_preset());
    assert_eq!(t.port, 5);
}

#[test]
fn deleting_a_preset_abandons_its_rename() {
    let mut s = named("a");
    s.save_preset();
    s.new_preset_name = "b".to_string();
    s.save_preset();
    s.begin_rename(1);
    assert_eq!(s.rename_preset_index, Some(1));
    assert_eq!(s.rename_preset_new_name, "b");
    s.delete_preset(1);
    assert_eq!(s.presets.len(), 1);
    assert_eq!(s.rename_preset_index, None);
    assert!(s.rename_preset_new_name.is_empty());
    s.delete_preset(3);
    assert_eq!(s.presets.len(), 1);
}

#[test]
fn renaming_a_preset() {
    let mut s = named("old");
    s.save_preset();
    s.begin_rename(0);
    s.rename_preset_new_name = "  new ".to_string();
    s.confirm_rename();
    assert_eq!(s.presets[0].name, "new");
    assert_eq!(s.rename_preset_index, None);

    s.begin_rename(0);
    s.rename_preset_new_name = "   ".to_string();
    s.confirm_rename();
    assert_eq!(s.presets[0].name, "new");
    assert_eq!(s.rename_preset_index, None);

    s.begin_rename(0);
    s.rename_preset_new_name = "other".to_string();
    s.cancel_rename();
    assert_eq!(s.presets[0].name, "new");
    assert_eq!(s.rename_preset_index, None);
    assert!(s.rename_preset_new_name.is_empty());
}

#[test]
fn preset_snapshot_and_apply_round_trip() {
    let mut s = AppSettings::default();
    s.top_k = -1;
    s.rpc_endpoints = "10.0.0.2:50052".to_string();
    let p = Preset::from_settings(&s, "x".to_string());
    let mut t = AppSettings::default();
    t.server_path = "/bin/llama-server".to_string();
    p.duplicate().apply_to(&mut t);
    assert_eq!(t.top_k, -1);
    assert_eq!(t.rpc_endpoints, "10.0.0.2:50052");
    assert_eq!(t.server_path, "/bin/llama-server");
    let q = Preset::from_settings(&t, "x".to_string());
    assert_eq!(q.top_k, p.top_k);
    assert_eq!(q.rpc_endpoints, p.rpc_endpoints);
}

#[test]
fn exported_parameters_round_trip() {
    let mut s = AppSettings::default();
    s.context = 32;
    s.temperature = 0.2f32.to_bits();
    s.gpu_layers_mode = GpuLayersMode::Manual(20);
    s.tensor_split = "3,1".to_string();
    let e = ParamsExport::from_settings(&s);
    assert_eq!(e.context, 32);
    let mut t = AppSettings::default();
    t.port = 9999;
    e.apply_to(&mut t);
    assert_eq!(t.context, 32);
    assert_eq!(f32::from_bits(t.temperature), 0.2);
    assert_eq!(t.gpu_layers_mode, GpuLayersMode::Manual(20));
    assert_eq!(t.tensor_split, "3,1");
    // Only the exported parameters are imported.
    assert_eq!(t.port, 9999);
}

#[test]
fn actual_sizes_are_in_tokens() {
    let s = AppSettings::default();
    assert_eq!(s.context_actual(), 4096);
    assert_eq!(s.batch_size_actual(), 2048);
}

fn sub(name: &str, entries: &[&str]) -> SubdirListing {
    SubdirListing {
        name: name.to_string(),
        entries: entries.iter().map(|e| e.to_string()).collect(),
    }
}

#[test]
fn executable_in_the_directory_itself_comes_first() {
    let listing = DirListing {
        entries: vec!["llama-server".to_string()],
        subdirs: Some(vec![sub("llama-b1", &["llama-server"])]),
    };
    assert_eq!(
        find_exe_recursive(&listing, "llama-server", "llama", HostOs::Other),
        Some(ExeLocation { subdir: None, file_name: "llama-server".to_string() })
    );
}

#[test]
fn executable_in_matching_subdirectories_by_name_order() {
    let listing = DirListing {
        entries: vec!["launcher".to_string()],
        subdirs: Some(vec![
            sub("models", &["llama-server.exe"]),
            sub("llama-b600", &["llama-server.exe"]),
            sub("Llama-b500", &["llama-server.exe"]),
            sub("llama-a", &["rpc-server.exe"]),
        ]),
    };
    let m = SettingsManager::with_config_dir("/opt/launcher".to_string());
    assert_eq!(
        m.auto_detect_server_path(&listing, HostOs::Windows),
        Some(ExeLocation {
            subdir: Some("Llama-b500".to_string()),
            file_name: "llama-server.exe".to_string(),
        })
    );
    assert_eq!(
        m.auto_detect_rpc_path(&listing, HostOs::Windows),
        Some(ExeLocation {
            subdir: Some("llama-a".to_string()),
            file_name: "rpc-server.exe".to_string(),
        })
    );
    assert_eq!(m.auto_detect_server_path(&listing, HostOs::Other), None);
}

#[test]
fn executable_not_found_without_subdirectories() {
    let listing = DirListing { entries: vec![], subdirs: None };
    assert_eq!(find_exe_recursive(&listing, "llama-server", "llama", HostOs::Other), None);
    let empty = DirListing { entries: vec![], subdirs: Some(vec![]) };
    assert_eq!(find_exe_recursive(&empty, "llama-server", "llama", HostOs::Other), None);
}

#[test]
fn executable_in_one_directory() {
    let entries = vec!["llama-server.exe".to_string(), "ggml.dll".to_string()];
    assert_eq!(
        find_exe_in_dir(&entries, "llama-server", HostOs::Windows),
        Some("llama-server.exe".to_string())
    );
    assert_eq!(find_exe_in_dir(&entries, "llama-server", HostOs::Other), None);
    assert_eq!(find_exe_in_dir(&entries, "rpc-server", HostOs::Windows), None);
}

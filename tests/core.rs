use lingcode::candidate::{Candidate, Candidates};
use lingcode::error::LingCodeError;
use lingcode::resource_loader::ResourceLoader;
use lingcode::segment::Segment;
use lingcode::types::{KeyModifiers, SchemeType};
use lingcode::VERSION;
use std::path::PathBuf;

#[test]
fn test_candidate_builder() {
    let c = Candidate::new("中".to_string())
        .with_comment("zhong".to_string())
        .with_weight(100);
    assert_eq!(c.text, "中");
    assert_eq!(c.weight, 100);
}

#[test]
fn test_candidates_collection() {
    let mut candidates = Candidates::new();
    candidates.add(Candidate::new("中".to_string()));
    candidates.add(Candidate::new("众".to_string()));
    assert_eq!(candidates.len(), 2);
    assert_eq!(candidates.get(0).unwrap().text, "中");
}

#[test]
fn test_error_display() {
    let err = LingCodeError::InputError("test".to_string());
    assert_eq!(err.to_string(), "Input error: test");
}

#[test]
fn test_version() {
    assert!(!VERSION.is_empty());
}

#[test]
fn test_resource_loader_paths() {
    let loader = ResourceLoader::new("/path/to/resources");
    assert_eq!(PathBuf::from(loader.schemas_dir()), PathBuf::from("/path/to/resources/schemas"));
    assert_eq!(PathBuf::from(loader.dicts_dir()), PathBuf::from("/path/to/resources/dicts"));
    assert_eq!(PathBuf::from(loader.opencc_dir()), PathBuf::from("/path/to/resources/opencc"));
}

#[test]
fn test_segment_creation() {
    let seg = Segment::new("zhong".to_string());
    assert_eq!(seg.input, "zhong");
    assert_eq!(seg.confirmed, "");
}

#[test]
fn test_segment_navigation() {
    let mut seg = Segment::new("zhong".to_string());
    seg.candidates.add(Candidate::new("中".to_string()));
    seg.candidates.add(Candidate::new("众".to_string()));
    assert_eq!(seg.selected_index, 0);
    seg.next_candidate();
    assert_eq!(seg.selected_index, 1);
    seg.prev_candidate();
    assert_eq!(seg.selected_index, 0);
}

#[test]
fn test_scheme_display() {
    assert_eq!(SchemeType::PinyinSimplified.to_string(), "pinyin_simp");
}

#[test]
fn test_key_modifiers() {
    let mods = KeyModifiers::new().with_ctrl().with_shift();
    assert!(mods.ctrl && mods.shift);
}

#[test]
fn test_module_loads() {
    assert!(true);
}

#[test]
fn commit_without_candidates_keeps_raw_input() {
    let mut seg = Segment::new("xyz".to_string());
    seg.commit();
    assert_eq!(seg.confirmed, "xyz");
}

#[test]
fn next_stops_at_last_candidate() {
    let mut seg = Segment::new("a".to_string());
    seg.candidates.add(Candidate::new("啊".to_string()));
    seg.candidates.add(Candidate::new("阿".to_string()));
    for _ in 0..5 {
        seg.next_candidate();
    }
    assert_eq!(seg.selected_index, 1);
    seg.prev_candidate();
    seg.prev_candidate();
    assert_eq!(seg.selected_index, 0);
}

#[test]
fn schema_file_names() {
    let loader = ResourceLoader::new("/r/");
    assert_eq!(loader.schemas_dir(), "/r/schemas");
    assert_eq!(loader.schema_file("luna"), "/r/schemas/luna.schema.yaml");
    assert_eq!(ResourceLoader::schema_name_of("luna.schema.yaml"), Some("luna".to_string()));
    assert_eq!(ResourceLoader::schema_name_of("luna.dict.yaml"), None);
    assert_eq!(ResourceLoader::dict_name_of("x.dict.yaml.dict.yaml"), Some("x".to_string()));
}

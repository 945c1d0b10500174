use reedcms::cli::layout_commands::{
    created_message, css_content, default_meta_records, default_text_records, init_layout,
    layout_dir, layout_file, parse_layout_config, parse_routes, registry_record, route_records,
    template_content, validate_layout_name, TemplateVariant,
};
use reedcms::string_map::StringMap;

#[test]
fn test_template_variant_from_str() {
    assert_eq!(
        TemplateVariant::from_str("mouse").unwrap(),
        TemplateVariant::Mouse
    );
    assert_eq!(
        TemplateVariant::from_str("touch").unwrap(),
        TemplateVariant::Touch
    );
    assert_eq!(
        TemplateVariant::from_str("reader").unwrap(),
        TemplateVariant::Reader
    );
    assert!(TemplateVariant::from_str("invalid").is_err());
}

#[test]
fn test_template_variant_as_str() {
    assert_eq!(TemplateVariant::Mouse.as_str(), "mouse");
    assert_eq!(TemplateVariant::Touch.as_str(), "touch");
    assert_eq!(TemplateVariant::Reader.as_str(), "reader");
}

#[test]
fn test_validate_layout_name_success() {
    assert!(validate_layout_name("knowledge").is_ok());
    assert!(validate_layout_name("blog-detail").is_ok());
    assert!(validate_layout_name("my_layout").is_ok());
}

#[test]
fn test_validate_layout_name_too_short() {
    assert!(validate_layout_name("ab").is_err());
}

#[test]
fn test_validate_layout_name_too_long() {
    assert!(validate_layout_name("a".repeat(33).as_str()).is_err());
}

#[test]
fn test_validate_layout_name_invalid_start() {
    assert!(validate_layout_name("123layout").is_err());
    assert!(validate_layout_name("-layout").is_err());
}

#[test]
fn test_validate_layout_name_invalid_chars() {
    assert!(validate_layout_name("layout@name").is_err());
    assert!(validate_layout_name("layout name").is_err());
    assert!(validate_layout_name("layout.name").is_err());
}

#[test]
fn test_validate_layout_name_reserved() {
    assert!(validate_layout_name("admin").is_err());
    assert!(validate_layout_name("system").is_err());
    assert!(validate_layout_name("api").is_err());
}

#[test]
fn test_init_layout_no_args() {
    let args = vec![];
    let flags = StringMap::new();
    let result = init_layout(&args, &flags, &Vec::new());
    assert!(result.is_err());
}

// Own tests

#[test]
fn variant_names_ignore_letter_case() {
    assert_eq!(TemplateVariant::from_str("MOUSE").unwrap(), TemplateVariant::Mouse);
    assert_eq!(TemplateVariant::from_str("Reader").unwrap(), TemplateVariant::Reader);
}

#[test]
fn layout_names_at_the_length_limits() {
    assert!(validate_layout_name("abc").is_ok());
    assert!(validate_layout_name("a".repeat(32).as_str()).is_ok());
    assert!(validate_layout_name("debug").is_err());
    assert!(validate_layout_name("test").is_err());
}

#[test]
fn init_layout_minimal_config_and_message() {
    let args = vec!["testlayout1".to_string()];
    let flags = StringMap::new();
    let config = init_layout(&args, &flags, &Vec::new()).unwrap();
    assert_eq!(config.variants.len(), 3);
    assert_eq!(config.languages, vec!["de".to_string(), "en".to_string()]);
    assert!(config.parent.is_none());
    let response = created_message(&args, &config);
    assert!(response.data.contains("✓ Created 1 layout"));
    assert!(response.data.contains("testlayout1"));
    assert!(response.data.contains("mouse, touch, reader"));
}

#[test]
fn init_layout_with_languages_and_variants() {
    let args = vec!["testlayout2".to_string()];
    let mut flags = StringMap::new();
    flags.insert("languages".to_string(), "de,en,fr".to_string());
    flags.insert("variants".to_string(), "mouse,touch".to_string());
    let config = init_layout(&args, &flags, &Vec::new()).unwrap();
    let response = created_message(&args, &config);
    assert!(response.data.contains("de, en, fr"));
    assert!(response.data.contains("mouse, touch"));
    assert!(!response.data.contains("reader"));
}

#[test]
fn init_layout_multiple_and_duplicate() {
    let args = vec![
        "testlayout6".to_string(),
        "testlayout7".to_string(),
        "testlayout8".to_string(),
    ];
    let flags = StringMap::new();
    let config = init_layout(&args, &flags, &Vec::new()).unwrap();
    assert!(created_message(&args, &config).data.contains("✓ Created 3 layouts"));

    let existing = vec!["testlayout7".to_string()];
    assert!(init_layout(&args, &flags, &existing).is_err());
}

#[test]
fn init_layout_bad_flags_are_refused() {
    let args = vec!["testlayout10".to_string()];
    let mut flags = StringMap::new();
    flags.insert("variants".to_string(), "mouse,invalid".to_string());
    assert!(init_layout(&args, &flags, &Vec::new()).is_err());

    let mut flags = StringMap::new();
    flags.insert("routes".to_string(), "de-wissen".to_string());
    assert!(init_layout(&args, &flags, &Vec::new()).is_err());
}

#[test]
fn routes_parse_into_pairs() {
    let routes = parse_routes("de:wissen,en:knowledge").unwrap();
    assert_eq!(routes.len(), 2);
    assert_eq!(routes.get("de"), Some(&"wissen".to_string()));
    assert_eq!(routes.get("en"), Some(&"knowledge".to_string()));
    assert!(parse_routes("de-wissen").is_err());
}

#[test]
fn layout_config_with_routes_and_parent() {
    let mut flags = StringMap::new();
    flags.insert("languages".to_string(), "de,en".to_string());
    flags.insert("routes".to_string(), "de:wissen,en:knowledge".to_string());
    flags.insert("parent".to_string(), "blog".to_string());
    let config = parse_layout_config(&flags).unwrap();
    assert_eq!(config.parent, Some("blog".to_string()));
    assert_eq!(config.routes.len(), 2);

    let records = route_records("knowledge", &config);
    assert_eq!(records.len(), 2);
    assert_eq!(records[0].key, "knowledge@de");
    assert_eq!(records[0].value, "wissen");
    assert_eq!(records[0].description, Some("de route for knowledge layout".to_string()));
}

#[test]
fn default_routes_use_the_layout_name() {
    let flags = StringMap::new();
    let config = parse_layout_config(&flags).unwrap();
    let records = route_records("blog", &config);
    assert_eq!(records.len(), 2);
    assert_eq!(records[1].key, "blog@en");
    assert_eq!(records[1].value, "blog");
}

#[test]
fn registry_text_and_meta_records() {
    let flags = StringMap::new();
    let config = parse_layout_config(&flags).unwrap();
    let record = registry_record("blog", &config, 1700000000);
    assert_eq!(record.key, "blog");
    assert_eq!(record.value, "mouse,touch,reader|de,en||1700000000|true");
    assert_eq!(record.description, Some("Layout: blog".to_string()));

    let texts = default_text_records("blog", &vec!["en".to_string()]);
    assert_eq!(texts.len(), 4);
    assert_eq!(texts[0].key, "blog.title@en");
    assert_eq!(texts[0].value, "blog Title");

    let meta = default_meta_records("blog");
    assert_eq!(meta[0].key, "blog.cache.ttl");
    assert_eq!(meta[0].value, "3600");
    assert_eq!(meta[1].key, "blog.cache.enabled");
}

#[test]
fn generated_file_contents() {
    assert_eq!(layout_dir("blog"), "templates/layouts/blog");
    assert_eq!(
        layout_file("blog", TemplateVariant::Mouse, "jinja"),
        "templates/layouts/blog/blog.mouse.jinja"
    );
    let template = template_content("testlayout13", TemplateVariant::Mouse);
    assert!(template.contains("<!DOCTYPE html>"));
    assert!(template.contains("testlayout13.title"));
    assert!(template.contains("testlayout13.heading"));
    assert!(template.contains("Copyright 2025 Vivian Voss"));

    let css = css_content("testlayout14", TemplateVariant::Mouse);
    assert!(css.contains("/* Layout: testlayout14 */"));
    assert!(css.contains("/* Variant: mouse */"));
    assert!(css.contains("body.mouse"));
    assert!(css.contains("Copyright 2025 Vivian Voss"));
}

use scrapstation::config::extraction::{ExtractionMethod, KeywordMatch, ListExtractionMethod, MetadataExtractor};
use scrapstation::config::source::{CustomFieldExtractor, FieldSource};
use scrapstation::config::tags::{TagConfig, TagStyle, ValueExtraction};
use scrapstation::config::transformations::{Condition, Transformation, UrlRule};
use scrapstation::dict::Dict;
use scrapstation::engine::download_manager::{
    ensure_unique_path, extract_filename_from_content_disposition, extract_filename_from_url, is_disk_full,
    merge_headers, split_file_name, streaming_io_error, substitute_variables, IoFailure, Platform,
    StreamingDownloadError,
};
use scrapstation::engine::extractor::{
    apply_string_transform, extract_custom_field, extract_list, extract_metadata_field, extract_string,
    format_date, get_source_field, FieldValue,
};
use scrapstation::engine::tags::{check_condition, extract_tag_label, sort_by_priority, GameTag};
use scrapstation::engine::transformer::{apply_single_transform, apply_template, apply_transform_chain, normalize_url};

fn item(pairs: &[(&str, &str)]) -> Dict<String> {
    let mut d = Dict::new();
    for (k, v) in pairs {
        d.insert(k.to_string(), v.to_string());
    }
    d
}

fn t(s: &str) -> String {
    s.to_string()
}

#[test]
fn unique_path_appends_counters() {
    let taken = vec![t("game.zip"), t("game (1).zip")];
    assert_eq!(ensure_unique_path("game.zip", &taken), "game (2).zip");
    assert_eq!(ensure_unique_path("new.zip", &taken), "new.zip");
    assert_eq!(ensure_unique_path("README", &[t("README")]), "README (1)");
    assert_eq!(split_file_name("archive.tar.gz"), (t("archive.tar"), t("gz")));
    assert_eq!(split_file_name(".hidden"), (t(".hidden"), t("")));
}

#[test]
fn content_disposition_forms() {
    assert_eq!(
        extract_filename_from_content_disposition("attachment; filename*=UTF-8''my%20game.zip"),
        Some(t("my game.zip"))
    );
    assert_eq!(
        extract_filename_from_content_disposition("attachment; filename=\"game.rar\""),
        Some(t("game.rar"))
    );
    assert_eq!(extract_filename_from_content_disposition("attachment; filename=game.7z; size=1"), Some(t("game.7z")));
    assert_eq!(extract_filename_from_content_disposition("inline"), None);
}

#[test]
fn filename_from_url_path() {
    assert_eq!(extract_filename_from_url("https://host/files/My%20Game.zip?x=1"), Some(t("My Game.zip")));
    assert_eq!(extract_filename_from_url("https://host/files/"), None);
    assert_eq!(extract_filename_from_url("https://host/download"), None);
}

#[test]
fn disk_full_detection() {
    let full = IoFailure { storage_full: false, raw_os_error: Some(28), text: t("write failed") };
    assert!(is_disk_full(&full, Platform::Unix));
    assert!(!is_disk_full(&full, Platform::Windows));
    let by_text = IoFailure { storage_full: false, raw_os_error: None, text: t("There is NOT enough space on the disk") };
    assert!(is_disk_full(&by_text, Platform::Other));
    let other = IoFailure { storage_full: false, raw_os_error: Some(5), text: t("denied") };
    match streaming_io_error(other, "Write error", Platform::Windows) {
        StreamingDownloadError::Error(m) => assert_eq!(m, "Write error: denied"),
        _ => panic!("expected an error"),
    }
    match streaming_io_error(full, "Write error", Platform::Unix) {
        StreamingDownloadError::Error(m) => assert!(m.starts_with("disk_space: ")),
        _ => panic!("expected an error"),
    }
}

#[test]
fn headers_merge_with_override_winning() {
    let base = Some(item(&[("Accept", "*/*"), ("Cookie", "a=1")]));
    let over = Some(item(&[("Cookie", "b=2")]));
    let m = merge_headers(&base, &over).unwrap();
    assert_eq!(m.get("Cookie"), Some(&t("b=2")));
    assert_eq!(m.get("Accept"), Some(&t("*/*")));
    assert!(merge_headers(&None, &None).is_none());
}

#[test]
fn variables_are_substituted() {
    let vars = item(&[("id", "42"), ("name", "x")]);
    assert_eq!(substitute_variables("https://h/{id}/{name}/{id}?{missing}", &vars), "https://h/42/x/42?{missing}");
}

#[test]
fn url_normalization() {
    assert_eq!(normalize_url("  //cdn.site/a.png ", "https://site", &[]), "https://cdn.site/a.png");
    assert_eq!(normalize_url("/img/a.png", "https://site", &[]), "https://site/img/a.png");
    assert_eq!(
        normalize_url("/img/a.png?x=1#f", "https://site", &[UrlRule::RemoveQueryParams, UrlRule::RemoveFragment]),
        "https://site/img/a.png"
    );
    assert_eq!(normalize_url("relative.png", "https://site", &[]), "relative.png");
}

#[test]
fn single_transforms() {
    let it = item(&[("id", "7")]);
    let run = |v: &str, tr: Transformation| apply_single_transform(t(v), &tr, &it, "https://b");
    assert_eq!(run("  a  ", Transformation::Trim), Ok(t("a")));
    assert_eq!(run("hello", Transformation::Capitalize), Ok(t("Hello")));
    assert_eq!(run("a   b\tc", Transformation::CollapseWhitespace), Ok(t("a b c")));
    assert_eq!(run("abcdef", Transformation::Truncate { max_length: 3, suffix: t("...") }), Ok(t("abc...")));
    assert_eq!(run("<b>x</b>", Transformation::RemoveHtml), Ok(t("x")));
    assert_eq!(run("pre-x", Transformation::StripPrefix { prefix: t("pre-") }), Ok(t("x")));
    assert_eq!(run("x.exe", Transformation::StripSuffix { suffix: t(".exe") }), Ok(t("x")));
    assert_eq!(run("", Transformation::Template { template: t("/g/{id}") }), Ok(t("/g/7")));
    assert_eq!(run("v1.2", Transformation::Extract { pattern: t("v(\\d+)"), group: 1 }), Ok(t("1")));
    assert_eq!(run("a,b,c", Transformation::Split { delimiter: t(","), index: Some(1), join: None }), Ok(t("b")));
    assert_eq!(run("a,b", Transformation::Split { delimiter: t(","), index: None, join: Some(t(" | ")) }), Ok(t("a | b")));
    assert_eq!(run("", Transformation::Default { value: t("n/a") }), Ok(t("n/a")));
    assert_eq!(run("x", Transformation::Replace { pattern: t("("), replacement: t(""), regex: true }).is_err(), true);
    assert_eq!(run("aXbX", Transformation::Replace { pattern: t("X"), replacement: t("-"), regex: false }), Ok(t("a-b-")));
}

#[test]
fn chains_stop_at_errors_and_unsafe_truncation() {
    let it = item(&[]);
    let chain = vec![Transformation::Trim, Transformation::Append { text: t("!") }, Transformation::Prepend { text: t("<") }];
    assert_eq!(apply_transform_chain(t(" hi "), &chain, &it, ""), Some(Ok(t("<hi!"))));
    let bad = vec![Transformation::Truncate { max_length: 1, suffix: t("") }];
    assert_eq!(apply_transform_chain(t("é"), &bad, &it, ""), None);
    assert_eq!(apply_template("{a}-{b}", &item(&[("a", "1"), ("b", "2")])), "1-2");
}

#[test]
fn conditions_on_fields() {
    let it = item(&[("title", "Game [Repack]"), ("size", " ")]);
    assert!(check_condition(&it, &Condition::Contains { field: t("title"), contains: t("Repack") }));
    assert!(!check_condition(&it, &Condition::NotEmpty { field: t("size") }));
    assert!(check_condition(&it, &Condition::Regex { field: t("title"), pattern: t("\\[\\w+\\]") }));
    assert!(!check_condition(&it, &Condition::Regex { field: t("title"), pattern: t("[") }));
    let both = Condition::And {
        conditions: vec![
            Condition::Equals { field: t("title"), equals: t("Game [Repack]") },
            Condition::Or { conditions: vec![Condition::NotEmpty { field: t("missing") }] },
        ],
    };
    assert!(!check_condition(&it, &both));
    assert!(check_condition(&it, &Condition::And { conditions: vec![] }));
    assert!(!check_condition(&it, &Condition::Or { conditions: vec![] }));
}

fn tag(label: &str, priority: i32, value_from: Option<ValueExtraction>) -> TagConfig {
    TagConfig {
        label: t(label),
        condition: None,
        color: None,
        background: None,
        icon: None,
        priority,
        style: Some(TagStyle::Chip),
        value_from,
    }
}

#[test]
fn tag_labels_and_priorities() {
    let it = item(&[("size", "4 GB"), ("lang", "EN")]);
    assert_eq!(extract_tag_label(&it, &tag("Size", 1, None)), "Size");
    let from = tag("x", 1, Some(ValueExtraction::FromField { field: t("size"), prefix: Some(t("~")), suffix: None }));
    assert_eq!(extract_tag_label(&it, &from), "~4 GB");
    let tpl = tag("x", 1, Some(ValueExtraction::Template { template: t("{size}/{lang}"), fields: vec![t("size"), t("lang")] }));
    assert_eq!(extract_tag_label(&it, &tpl), "4 GB/EN");
    let g = |id: &str, p: i32| GameTag {
        id: t(id), label: t(id), color: None, background: None, icon: None, priority: p, style: None,
    };
    let sorted = sort_by_priority(vec![g("a", 1), g("b", 5), g("c", 1), g("d", 3)]);
    let ids: Vec<&str> = sorted.iter().map(|x| x.id.as_str()).collect();
    assert_eq!(ids, vec!["b", "d", "a", "c"]);
}

#[test]
fn string_extraction_methods() {
    let it = item(&[("title", "Game v1.2 by Studio"), ("desc", "Size: 3 GB; Lang: EN")]);
    let pat = ExtractionMethod::Pattern { pattern: t("by "), in_field: Some(t("title")) };
    assert_eq!(extract_string(&it, &pat), Ok(t("Studio")));
    let rx = ExtractionMethod::Regex { pattern: t("v(\\d+)\\.(\\d+)"), in_field: Some(t("title")), group: 2 };
    assert_eq!(extract_string(&it, &rx), Ok(t("2")));
    let bad = ExtractionMethod::Regex { pattern: t("("), in_field: Some(t("title")), group: 0 };
    assert!(extract_string(&it, &bad).unwrap_err().starts_with("Invalid regex '('"));
    let between = ExtractionMethod::Between { start: t("Size: "), end: t(";"), in_field: Some(t("desc")) };
    assert_eq!(extract_string(&it, &between), Ok(t("3 GB")));
    let next = ExtractionMethod::NextWord { after_pattern: t("Lang:"), in_field: Some(t("desc")) };
    assert_eq!(extract_string(&it, &next), Ok(t("EN")));
    assert_eq!(extract_string(&it, &ExtractionMethod::FromField { field: t("nope") }), Ok(t("")));
    assert_eq!(get_source_field(&it, &None), Ok(t("Game v1.2 by Studio Size: 3 GB; Lang: EN")));
}

#[test]
fn list_extraction_methods() {
    let it = item(&[("tags", "rpg, action ,indie"), ("text", "has DLC and Denuvo")]);
    let split = ListExtractionMethod::Split { in_field: t("tags"), delimiter: t(",") };
    assert_eq!(extract_list(&it, &split), Ok(vec![t("rpg"), t("action"), t("indie")]));
    let kw = ListExtractionMethod::Keywords {
        in_field: Some(t("text")),
        keywords: vec![
            KeywordMatch { pattern: t("DLC"), value: t("dlc"), regex: false },
            KeywordMatch { pattern: t("(?i)denuvo"), value: t("drm"), regex: true },
            KeywordMatch { pattern: t("online"), value: t("mp"), regex: false },
        ],
    };
    assert_eq!(extract_list(&it, &kw), Ok(vec![t("dlc"), t("drm")]));
    let rx = ListExtractionMethod::Regex { in_field: Some(t("text")), pattern: t("[A-Z]\\w+") };
    assert_eq!(extract_list(&it, &rx), Ok(vec![t("DLC"), t("Denuvo")]));
}

#[test]
fn string_transforms_and_dates() {
    let it = item(&[]);
    assert_eq!(apply_string_transform(t(" a "), &Transformation::Trim, &it), Ok(t("a")));
    assert_eq!(apply_string_transform(t("a"), &Transformation::Uppercase, &it), Ok(t("a")));
    assert_eq!(format_date("05.03.2024", None, None), Some(Some(t("05 Mar 2024"))));
    assert_eq!(format_date("2024-03-05", Some("%Y-%m-%d"), Some("%d/%m/%Y")), Some(Some(t("05/03/2024"))));
    assert_eq!(format_date("not a date", None, None), Some(None));
}

#[test]
fn metadata_fields() {
    let it = item(&[("title", "Game (2021)")]);
    let b = MetadataExtractor::Boolean {
        condition: Some(Condition::Contains { field: t("title"), contains: t("2021") }),
    };
    match extract_metadata_field(&it, &b) {
        Some(Ok(FieldValue::Value(v))) => assert_eq!(v, Some(t("true"))),
        _ => panic!("boolean extractor"),
    }
    let s = MetadataExtractor::String {
        extraction: Some(ExtractionMethod::Between { start: t("("), end: t(")"), in_field: Some(t("title")) }),
        transformations: None,
        fallback: Some(t("unknown")),
    };
    match extract_metadata_field(&it, &s) {
        Some(Ok(FieldValue::Value(v))) => assert_eq!(v, Some(t("2021"))),
        _ => panic!("string extractor"),
    }
    let l = MetadataExtractor::List { extraction: None, join_with: None };
    match extract_metadata_field(&it, &l) {
        Some(Ok(FieldValue::Value(v))) => assert_eq!(v, None),
        _ => panic!("list extractor"),
    }
}

#[test]
fn custom_fields() {
    let it = item(&[("a", "x"), ("b", "y")]);
    let computed = CustomFieldExtractor {
        source: FieldSource::Computed { template: t("{a}+{b}"), fields: vec![t("a"), t("b")] },
        transformations: Some(vec![Transformation::Default { value: t("none") }]),
        condition: None,
    };
    assert_eq!(extract_custom_field(&it, &computed), Ok(Some(t("x+y"))));
    let guarded = CustomFieldExtractor {
        source: FieldSource::Static(t("s")),
        transformations: None,
        condition: Some(Condition::Equals { field: t("a"), equals: t("z") }),
    };
    assert_eq!(extract_custom_field(&it, &guarded), Ok(None));
    let json = CustomFieldExtractor { source: FieldSource::Json { value: t("[1,2]") }, transformations: None, condition: None };
    assert_eq!(extract_custom_field(&it, &json), Ok(Some(t("[1,2]"))));
}

use scrapstation::api::helpers::build_url;
use scrapstation::config::source::{FieldSelector, JsonPathsConfig, PageSelectors, SourceConfig, SourceType, UrlConfig};
use scrapstation::config::transformations::Transformation;
use scrapstation::dict::Dict;
use scrapstation::engine::html_parser;
use scrapstation::engine::json_parser;
use scrapstation::engine::loader::SourceLoader;
use scrapstation::engine::scraper::UniversalScraper;

fn t(s: &str) -> String {
    s.to_string()
}

fn config(source_type: SourceType) -> SourceConfig {
    SourceConfig {
        name: t("Test"),
        id: t("test"),
        source_type,
        base_url: t("https://site.test"),
        description: None,
        ui: None,
        urls: UrlConfig::default(),
        rate_limit: None,
        selectors: None,
        json_paths: None,
        attributes: None,
        transformations: None,
        metadata_extraction: None,
        custom_fields: None,
        tags: None,
        default_values: None,
        field_mapping: None,
        link_resolution: None,
        setting_sections: None,
        settings: None,
        hosts: None,
        auth: None,
        paths: None,
        extra: Dict::new(),
    }
}

const PAGE: &str = r#"<html><body>
<div class="card"><h2> First </h2><a href="/g/1">go</a><img data-src="/c1.jpg"><span class="t">a</span><span class="t">b</span></div>
<div class="card"><h2>Second</h2><a href="/g/2">go</a><img src="/c2.jpg"></div>
</body></html>"#;

fn selectors() -> Dict<PageSelectors> {
    let mut fields = Dict::new();
    fields.insert(t("title"), FieldSelector::Simple(t("h2")));
    fields.insert(t("link"), FieldSelector::WithAttribute { selector: t("a"), attribute: Some(t("href")), multiple: false });
    fields.insert(t("cover"), FieldSelector::WithAttribute { selector: t("img"), attribute: Some(t("src")), multiple: false });
    fields.insert(t("tags"), FieldSelector::WithAttribute { selector: t("span.t"), attribute: None, multiple: true });
    fields.insert(t("kind"), FieldSelector::Static { value: t("game") });
    let mut d = Dict::new();
    d.insert(t("main_page"), PageSelectors { container: t("div.card"), fields });
    d
}

#[test]
fn html_listing_items() {
    let mut attrs = Dict::new();
    attrs.insert(t("src"), vec![t("data-src"), t("src")]);
    let items = html_parser::parse(PAGE, &selectors(), &Some(attrs), false).unwrap();
    assert_eq!(items.len(), 2);
    assert_eq!(items[0].get("title"), Some(&t("First")));
    assert_eq!(items[0].get("link"), Some(&t("/g/1")));
    assert_eq!(items[0].get("cover"), Some(&t("/c1.jpg")));
    assert_eq!(items[0].get("tags"), Some(&t("a, b")));
    assert_eq!(items[1].get("cover"), Some(&t("/c2.jpg")));
    assert_eq!(items[1].get("tags"), None);
    assert_eq!(items[1].get("kind"), Some(&t("game")));
}

#[test]
fn html_listing_errors() {
    let empty: Dict<PageSelectors> = Dict::new();
    assert_eq!(html_parser::parse(PAGE, &empty, &None, true).unwrap_err(), "No selectors found for this page type");
    let mut bad = Dict::new();
    bad.insert(t("main_page"), PageSelectors { container: t("div[["), fields: Dict::new() });
    assert!(html_parser::parse(PAGE, &bad, &None, false).unwrap_err().starts_with("Invalid container selector: "));
}

#[test]
fn json_listing_items() {
    let mut fields = Dict::new();
    fields.insert(t("title"), t("name"));
    fields.insert(t("year"), t("meta.year"));
    fields.insert(t("first_tag"), t("tags[0]"));
    fields.insert(t("free"), t("free"));
    let cfg = JsonPathsConfig { items: t("data.games"), fields };
    let json = r#"{"data":{"games":[{"name":"A","meta":{"year":2020},"tags":["x","y"],"free":true},{"other":1}]}}"#;
    let items = json_parser::parse(json, &cfg).unwrap();
    assert_eq!(items.len(), 1);
    assert_eq!(items[0].get("title"), Some(&t("A")));
    assert_eq!(items[0].get("year"), Some(&t("2020")));
    assert_eq!(items[0].get("first_tag"), Some(&t("x")));
    assert_eq!(items[0].get("free"), Some(&t("true")));
    assert_eq!(json_parser::parse("[1", &cfg).unwrap_err().starts_with("Invalid JSON: "), true);
    assert_eq!(json_parser::parse("{}", &cfg).unwrap_err(), "Could not find array at path: data.games");
}

#[test]
fn scraper_dispatch_by_source_type() {
    let mut c = config(SourceType::HtmlScraper);
    assert_eq!(UniversalScraper::parse_content(&c, PAGE, false).unwrap_err(), "HTML scraper requires 'selectors' config");
    c.selectors = Some(selectors());
    assert_eq!(UniversalScraper::parse_content(&c, PAGE, false).unwrap().len(), 2);
    let x = config(SourceType::XmlApi);
    assert_eq!(UniversalScraper::parse_content(&x, "", false).unwrap_err(), "Source type XmlApi not yet implemented");
    let j = config(SourceType::GraphqlApi);
    assert_eq!(UniversalScraper::parse_content(&j, "[]", false).unwrap_err(), "JSON API requires 'json_paths' config");
}

#[test]
fn scraper_transforms_every_item() {
    let mut c = config(SourceType::HtmlScraper);
    let mut tr = Dict::new();
    tr.insert(t("title"), vec![Transformation::Uppercase]);
    tr.insert(t("link"), vec![Transformation::UrlNormalize { base_url: None, rules: vec![] }]);
    c.transformations = Some(tr);
    c.selectors = Some(selectors());
    let items = UniversalScraper::parse_content(&c, PAGE, false).unwrap();
    let out = UniversalScraper::transform_items(&items, &c).unwrap().unwrap();
    assert_eq!(out[0].get("title"), Some(&t("FIRST")));
    assert_eq!(out[1].get("link"), Some(&t("https://site.test/g/2")));
    let custom = UniversalScraper::customize_items(&out, &c).unwrap();
    assert_eq!(custom.len(), 2);
}

#[test]
fn listing_page_urls() {
    let mut c = config(SourceType::HtmlScraper);
    assert_eq!(build_url(&c, 1).unwrap_err(), "No main URL in config");
    assert_eq!(build_url(&c, 2).unwrap_err(), "No page URL template in config");
    c.urls.main = Some(t("/games"));
    c.urls.page = Some(t("/games?page={page}&p={page}"));
    assert_eq!(build_url(&c, 1).unwrap(), "https://site.test/games");
    assert_eq!(build_url(&c, 12).unwrap(), "https://site.test/games?page=12&p=12");
}

#[test]
fn sources_directory_choice() {
    let dev = SourceLoader::sources_dir(Some(t("/repo/app")), Some(t("/home/u/.config")), None);
    assert_eq!(dev, "/repo/app/sources");
    let user = SourceLoader::sources_dir(None, Some(t("/home/u/.config")), Some(t("/cwd")));
    assert_eq!(user, "/home/u/.config/ScrapStation/sources");
    let cwd = SourceLoader::sources_dir(None, None, Some(t("/cwd")));
    assert_eq!(cwd, "/cwd/sources");
    assert_eq!(SourceLoader::sources_dir(None, None, None), "sources");
}

#[test]
fn loadable_source_files() {
    assert!(SourceLoader::is_loadable(Some("yaml"), Some("mysource")));
    assert!(!SourceLoader::is_loadable(Some("yaml"), Some("schema")));
    assert!(!SourceLoader::is_loadable(Some("yaml"), Some("example-source")));
    assert!(!SourceLoader::is_loadable(Some("yaml"), Some("_draft")));
    assert!(!SourceLoader::is_loadable(Some("yml"), Some("mysource")));
    assert!(!SourceLoader::is_loadable(None, Some("mysource")));
    assert!(SourceLoader::is_loadable(Some("yaml"), None));
}

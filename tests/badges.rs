use nexus_badges::badge_options::{
    BadgeFormat, BadgePreferences, BadgeStyle, Color, DownloadCount,
};
use nexus_badges::badges::write_badges;
use nexus_badges::json_data::ModDetails;
use nexus_badges::nexus::Aggregate;

const BASE: &str = "https://img.shields.io/badge/dynamic/json?url=https%3A%2F%2Fx.io%2Fraw&query=%24.7.mod_downloads&label=Nexus%20Downloads";

fn colored() -> BadgePreferences {
    let mut p = BadgePreferences::default();
    p.set_style(BadgeStyle::Social);
    p.format = BadgeFormat::GithubHtml;
    p.label_color = Color::from_str("111111").unwrap();
    p.label_color_light_mode = Color::from_str("#eeeeee").unwrap();
    p.color = Color::from_str("00ff00").unwrap();
    p
}

fn sample() -> Aggregate {
    Aggregate {
        entries: vec![ModDetails {
            name: "Seven".to_string(),
            url: "https://www.nexusmods.com/skyrim/mods/7".to_string(),
            uid: 7,
            mod_downloads: 12,
            mod_unique_downloads: 3,
        }],
        totals: ModDetails {
            name: "Sum of all tracked counts".to_string(),
            url: String::new(),
            uid: 0,
            mod_downloads: 12,
            mod_unique_downloads: 3,
        },
    }
}

#[test]
fn plain_dialects_render_exactly() {
    let prefs = BadgePreferences::default();
    let fields = prefs.encoded_fields("https://x.io/raw");
    let q = "$.7.mod_downloads";
    assert_eq!(
        BadgeFormat::Html.write_badge(&fields, q, ""),
        format!("```html\n<img src=\"{BASE}\" alt=\"Nexus Downloads\">\n```\n")
    );
    assert_eq!(
        BadgeFormat::Rst.write_badge(&fields, q, ""),
        format!("```rst\n.. image:: {BASE}\n  :alt: Nexus Downloads\n```\n")
    );
    assert_eq!(
        BadgeFormat::AsciiDoc.write_badge(&fields, q, ""),
        format!("```asciiDoc\nimage:{BASE}[Nexus Downloads]\n```\n")
    );
    assert_eq!(
        BadgeFormat::Markdown.write_badge(&fields, q, ""),
        format!("```markdown\n![Nexus Downloads]({BASE})\n```\n")
    );
}

#[test]
fn link_goes_into_the_url_for_url_dialect() {
    let prefs = BadgePreferences::default();
    let fields = prefs.encoded_fields("https://x.io/raw");
    assert_eq!(
        BadgeFormat::Url.write_badge(&fields, "$.7.mod_downloads", "https://l.io/m"),
        format!("```url\n{BASE}&link=https%3A%2F%2Fl.io%2Fm\n```\n")
    );
}

#[test]
fn github_html_uses_a_light_mode_variant() {
    let prefs = colored();
    let fields = prefs.encoded_fields("https://x.io/raw");
    let prefix = format!("{BASE}&style=social&color=%2300ff00");
    let expected = format!(
        "```gitHub-Html\n[<picture>\n    <source media=\"(prefers-color-scheme: dark)\" srcset=\"{prefix}&labelColor=%23111111\">\n    <img src=\"{prefix}&labelColor=%23eeeeee\" alt=\"Nexus Downloads\">\n</picture>](https://l.io/m)\n```\n"
    );
    assert_eq!(
        BadgeFormat::GithubHtml.write_badge(&fields, "$.7.mod_downloads", "https://l.io/m"),
        expected
    );
}

#[test]
fn flat_style_and_default_colors_are_omitted() {
    let prefs = BadgePreferences::default();
    assert!(prefs.style().is_none());
    let (url, light) = prefs
        .encoded_fields("https://x.io/raw")
        .dynamic_badge_url(true, "$.7.mod_downloads");
    assert_eq!(url, BASE);
    assert!(light.is_none());
}

#[test]
fn rendering_is_deterministic() {
    let a = write_badges(&sample(), "https://x.io/raw", &colored());
    let b = write_badges(&sample(), "https://x.io/raw", &colored());
    assert_eq!(a, b);
}

#[test]
fn counter_kind_changes_only_the_query_field() {
    let total = colored();
    let mut unique = colored();
    unique.count = DownloadCount::Unique;
    let f_total = total.encoded_fields("https://x.io/raw");
    let f_unique = unique.encoded_fields("https://x.io/raw");
    let a = total.format.write_badge(&f_total, "$.7.mod_downloads", "https://l.io/m");
    let b = unique.format.write_badge(&f_unique, "$.7.mod_unique_downloads", "https://l.io/m");
    assert_ne!(a, b);
    assert_eq!(a.replace("mod_downloads", "mod_unique_downloads"), b);
    let doc_a = write_badges(&sample(), "https://x.io/raw", &total);
    let doc_b = write_badges(&sample(), "https://x.io/raw", &unique);
    assert!(doc_b.contains("- Query: $.7.mod_unique_downloads\n"));
    assert_eq!(
        doc_a.replace("mod_downloads", "mod_unique_downloads")
            .replace("Total downloads", "Unique downloads"),
        doc_b
    );
}

#[test]
fn preferences_listing() {
    let text = colored().describe();
    assert_eq!(
        text,
        "Style preferences:\n- Label: Nexus Downloads\n- Count: Total downloads\n- Style: social\n- Format: gitHub-Html\n- Label color: #111111\n- Label color light mode: #eeeeee\n- Color: #00ff00\n"
    );
}

#[test]
fn document_header_and_sections() {
    let doc = write_badges(&sample(), "https://x.io/raw", &BadgePreferences::default());
    assert!(doc.starts_with(
        "# Shields.io Badges via Nexus Badges\nBase template: https://shields.io/badges/dynamic-json-badge\nData source URL: https://x.io/raw\nStyle preferences:\n"
    ));
    let seven = doc.find("## Seven\n").unwrap();
    let totals = doc.find("## Sum of all tracked counts\n").unwrap();
    assert!(seven < totals);
    assert!(doc.ends_with("- Query: $.Totals.mod_downloads\n\n"));
}

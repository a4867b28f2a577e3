use nexus_badges::badge_options::BadgePreferences;
use nexus_badges::badges::write_badges;
use nexus_badges::cli::Mod;
use nexus_badges::error::Error;
use nexus_badges::git::needs_update;
use nexus_badges::json_data::{FileDetails, GistResponse, ModDetails};
use nexus_badges::nexus::{Aggregate, Aggregation};
use nexus_badges::StartupVars;

const SCENARIO_JSON: &str = "{\n  \"1001\": {\n    \"name\": \"Foo\",\n    \"url\": \"https://www.nexusmods.com/skyrim/mods/42\",\n    \"mod_downloads\": \"100\",\n    \"mod_unique_downloads\": \"80\"\n  },\n  \"Totals\": {\n    \"name\": \"Sum of all tracked counts\",\n    \"mod_downloads\": \"100\",\n    \"mod_unique_downloads\": \"80\"\n  }\n}";

fn scenario() -> (Mod, Aggregate) {
    let vars = StartupVars {
        nexus_key: "key".to_string(),
        git_token: String::new(),
        gist_id: "abc".to_string(),
        owner: String::new(),
        repo: String::new(),
    };
    let m = Mod { domain: "skyrim".to_string(), mod_id: 42 };
    let mods = vec![m.clone()];
    let fetched = ModDetails {
        name: "Foo".to_string(),
        url: String::new(),
        uid: 1001,
        mod_downloads: 100,
        mod_unique_downloads: 80,
    };
    let agg = Aggregation::start(&vars, &mods).unwrap().add_result(&m, Ok(fetched)).unwrap();
    (m, agg.finish())
}

fn remote(content: &str) -> GistResponse {
    GistResponse {
        id: "abc".to_string(),
        files: vec![(
            "nexus_badges.json".to_string(),
            FileDetails {
                raw_url: "https://gist.githubusercontent.com/u/abc/raw/0123abcd/nexus_badges.json"
                    .to_string(),
                content: content.to_string(),
            },
        )],
    }
}

#[test]
fn scenario_aggregate_serializes_exactly() {
    let (_, agg) = scenario();
    assert_eq!(agg.to_json(), SCENARIO_JSON);
}

#[test]
fn serializing_twice_is_byte_identical() {
    let (_, a) = scenario();
    let (_, b) = scenario();
    assert_eq!(a.to_json(), a.to_json());
    assert_eq!(a.to_json(), b.to_json());
}

#[test]
fn update_only_when_content_differs() {
    let (_, agg) = scenario();
    let new_content = agg.to_json();
    assert_eq!(needs_update(&remote(SCENARIO_JSON), &new_content).unwrap(), false);
    assert_eq!(needs_update(&remote("{}"), &new_content).unwrap(), true);
}

#[test]
fn scenario_unchanged_remote_still_renders_badges() {
    let (_, agg) = scenario();
    let prev = remote(SCENARIO_JSON);
    assert_eq!(needs_update(&prev, &agg.to_json()).unwrap(), false);
    let url = prev.universal_url().unwrap();
    assert_eq!(url, "https://gist.githubusercontent.com/u/abc/raw");
    let doc = write_badges(&agg, &url, &BadgePreferences::default());
    assert!(doc.contains(
        "[![Nexus Downloads](https://img.shields.io/badge/dynamic/json?url=https%3A%2F%2Fgist.githubusercontent.com%2Fu%2Fabc%2Fraw&query=%24.1001.mod_downloads&label=Nexus%20Downloads)](https://www.nexusmods.com/skyrim/mods/42)"
    ));
    assert!(doc.contains("- Query: $.1001.mod_downloads\n"));
    assert!(doc.contains("- Link: https://www.nexusmods.com/skyrim/mods/42\n"));
    assert!(doc.contains("## Sum of all tracked counts\n"));
    assert!(doc.contains("- Query: $.Totals.mod_downloads\n"));
}

#[test]
fn missing_file_or_raw_segment_is_a_bad_response() {
    let mut prev = remote("x");
    prev.files[0].1.raw_url = "https://example.com/file".to_string();
    assert!(matches!(prev.universal_url(), Err(Error::BadResponse(_))));
    prev.files[0].0 = "other.json".to_string();
    assert!(matches!(prev.content(), Err(Error::BadResponse(_))));
    assert!(matches!(needs_update(&prev, "x"), Err(Error::BadResponse(_))));
}

#[test]
fn json_strings_are_escaped() {
    let (m, _) = scenario();
    let vars = StartupVars {
        nexus_key: "key".to_string(),
        git_token: String::new(),
        gist_id: String::new(),
        owner: String::new(),
        repo: String::new(),
    };
    let fetched = ModDetails {
        name: "Say \"hi\"\n".to_string(),
        url: String::new(),
        uid: 5,
        mod_downloads: 12_345,
        mod_unique_downloads: 1,
    };
    let agg = Aggregation::start(&vars, &vec![m.clone()])
        .unwrap()
        .add_result(&m, Ok(fetched))
        .unwrap()
        .finish();
    let text = agg.to_json();
    assert!(text.contains("\"name\": \"Say \\\"hi\\\"\\n\""));
    assert!(text.contains("\"mod_downloads\": \"12.3k\""));
}

use nexus_badges::cli::Mod;
use nexus_badges::error::Error;
use nexus_badges::json_data::ModDetails;
use nexus_badges::nexus::{aggregate, verify_added, Aggregate, Aggregation, NO_MODS};
use nexus_badges::MISSING_NEXUS_KEY;
use nexus_badges::StartupVars;

fn vars(nexus_key: &str) -> StartupVars {
    StartupVars {
        nexus_key: nexus_key.to_string(),
        git_token: "token".to_string(),
        gist_id: "abc".to_string(),
        owner: String::new(),
        repo: String::new(),
    }
}

fn listed(domain: &str, mod_id: usize) -> Mod {
    Mod { domain: domain.to_string(), mod_id }
}

fn record(name: &str, uid: u64, total: usize, unique: usize) -> ModDetails {
    ModDetails {
        name: name.to_string(),
        url: String::new(),
        uid,
        mod_downloads: total,
        mod_unique_downloads: unique,
    }
}

fn collate(mods: &[Mod], records: Vec<ModDetails>) -> Result<Aggregate, Error> {
    let registry = mods.to_vec();
    let mut agg = Aggregation::start(&vars("key"), &registry)?;
    for (m, r) in mods.iter().zip(records) {
        agg = agg.add_result(m, Ok(r))?;
    }
    Ok(agg.finish())
}

#[test]
fn unique_mods_give_one_entry_each_plus_totals() {
    let mods = vec![listed("skyrim", 1), listed("skyrim", 2), listed("fallout4", 3)];
    let out = collate(
        &mods,
        vec![record("A", 999, 10, 5), record("B", 1001, 20, 7), record("C", 20, 30, 11)],
    )
    .unwrap();
    assert_eq!(out.len(), 4);
    let keys: Vec<u64> = out.entries.iter().map(|e| e.uid).collect();
    assert_eq!(keys, vec![1001, 20, 999]);
    assert_eq!(out.totals.mod_downloads, 60);
    assert_eq!(out.totals.mod_unique_downloads, 23);
    assert_eq!(out.totals.name, "Sum of all tracked counts");
    assert_eq!(out.entries[2].url, "https://www.nexusmods.com/skyrim/mods/1");
}

#[test]
fn duplicate_identity_fails_without_aggregate() {
    let mods = vec![listed("skyrim", 1), listed("skyrimspecialedition", 1)];
    let res = collate(&mods, vec![record("First", 77, 1, 1), record("Second", 77, 2, 2)]);
    match res {
        Err(Error::DuplicateIdentity(name)) => assert_eq!(name, "First"),
        _ => panic!("expected a duplicate identity"),
    }
}

#[test]
fn failed_fetch_ends_collation_with_its_error() {
    let mods = vec![listed("skyrim", 1)];
    let agg = Aggregation::start(&vars("key"), &mods).unwrap();
    let res = agg.add_result(&mods[0], Err(Error::BadResponse("nope".to_string())));
    assert!(matches!(res, Err(Error::BadResponse(body)) if body == "nope"));
}

#[test]
fn missing_key_or_registry_is_reported() {
    let mods = vec![listed("skyrim", 1)];
    assert!(matches!(Aggregation::start(&vars(""), &mods), Err(Error::Missing(_))));
    assert!(matches!(Aggregation::start(&vars("key"), &Vec::new()), Err(Error::Missing(_))));
    assert!(verify_added(&Vec::new()).is_err());
}

#[test]
fn totals_saturate_instead_of_overflowing() {
    let mods = vec![listed("a", 1), listed("b", 2)];
    let out =
        collate(&mods, vec![record("A", 1, usize::MAX, 1), record("B", 2, 5, 1)]).unwrap();
    assert_eq!(out.totals.mod_downloads, usize::MAX);
    assert_eq!(out.totals.mod_unique_downloads, 2);
}

#[test]
fn mod_endpoints() {
    let m = listed("skyrim", 42);
    assert_eq!(m.url(), "https://www.nexusmods.com/skyrim/mods/42");
    assert_eq!(m.get_info_endpoint(), "https://api.nexusmods.com/v1/games/skyrim/mods/42.json");
}

#[test]
fn whole_run_publishes_each_record_and_totals() {
    let mods = vec![listed("skyrim", 1), listed("skyrim", 2)];
    let fetched = vec![
        (mods[1].clone(), Ok(record("B", 1001, 20, 7))),
        (mods[0].clone(), Ok(record("A", 999, 10, 5))),
    ];
    let out = aggregate(&vars("key"), &mods, fetched).unwrap();
    assert_eq!(out.len(), 3);
    assert_eq!(out.entries[0].uid, 1001);
    assert_eq!(out.entries[0].url, "https://www.nexusmods.com/skyrim/mods/2");
    assert_eq!(out.totals.mod_downloads, 30);
    assert_eq!(out.totals.mod_unique_downloads, 12);
}

#[test]
fn whole_run_with_shared_identity_fails() {
    let mods = vec![listed("skyrim", 1), listed("oblivion", 1)];
    let fetched = vec![
        (mods[0].clone(), Ok(record("First", 5, 1, 1))),
        (mods[1].clone(), Ok(record("Second", 5, 1, 1))),
    ];
    match aggregate(&vars("key"), &mods, fetched) {
        Err(Error::DuplicateIdentity(name)) => assert_eq!(name, "First"),
        _ => panic!("expected a duplicate identity"),
    }
}

#[test]
fn whole_run_reports_missing_settings_and_failures() {
    let mods = vec![listed("skyrim", 1)];
    match aggregate(&vars(""), &Vec::new(), Vec::new()) {
        Err(Error::Missing(m)) => assert_eq!(m, MISSING_NEXUS_KEY),
        _ => panic!("expected the missing key"),
    }
    match aggregate(&vars("key"), &Vec::new(), Vec::new()) {
        Err(Error::Missing(m)) => assert_eq!(m, NO_MODS),
        _ => panic!("expected the empty registry"),
    }
    let fetched = vec![(mods[0].clone(), Err(Error::Reqwest("timeout".to_string())))];
    assert!(matches!(aggregate(&vars("key"), &mods, fetched), Err(Error::Reqwest(_))));
}

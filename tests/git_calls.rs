use nexus_badges::cli::{Mod, ModFlags, Workflow};
use nexus_badges::error::Error;
use nexus_badges::git::{
    after_variable_create, after_variable_update, expect_status, gist_create_body, gist_update_body,
    git_header, mods_json, plan_provisioning, repository_cache_endpoint,
    repository_public_key_endpoint, repository_secret_endpoint, repository_variable_endpoint,
    repository_variables_endpoint, secret_body, secret_outcome, variable_body,
    workflow_endpoint_state, Upsert, VariableStep,
};
use nexus_badges::StartupVars;

fn vars() -> StartupVars {
    StartupVars {
        nexus_key: String::new(),
        git_token: "tok".to_string(),
        gist_id: String::new(),
        owner: "me".to_string(),
        repo: "fork".to_string(),
    }
}

#[test]
fn repository_endpoints() {
    let v = vars();
    let base = "https://api.github.com/repos/me/fork/actions/";
    assert_eq!(repository_public_key_endpoint(&v), format!("{base}secrets/public-key"));
    assert_eq!(repository_secret_endpoint(&v, "GIT_TOKEN"), format!("{base}secrets/GIT_TOKEN"));
    assert_eq!(repository_variables_endpoint(&v), format!("{base}variables"));
    assert_eq!(repository_variable_endpoint(&v, "GIST_ID"), format!("{base}variables/GIST_ID"));
    assert_eq!(repository_cache_endpoint(&v, "k1"), format!("{base}caches?key=k1"));
    assert_eq!(
        workflow_endpoint_state(&v, Workflow::Enable),
        format!("{base}workflows/automation.yml/enable")
    );
}

#[test]
fn headers_carry_the_token() {
    let h = git_header(&vars());
    assert_eq!(h.len(), 4);
    assert_eq!(h[2], ("Authorization", "Bearer tok".to_string()));
    assert_eq!(h[3], ("X-GitHub-Api-Version", "2022-11-28".to_string()));
}

#[test]
fn request_bodies() {
    assert_eq!(variable_body("GIST_ID", "a\"b"), "{\"name\":\"GIST_ID\",\"value\":\"a\\\"b\"}");
    assert_eq!(secret_body("c2Vj", "42"), "{\"encrypted_value\":\"c2Vj\",\"key_id\":\"42\"}");
    assert_eq!(
        gist_update_body("x\ny"),
        "{\"files\":{\"nexus_badges.json\":{\"content\":\"x\\ny\"}}}"
    );
    assert_eq!(
        gist_create_body("{}"),
        "{\"description\":\"Private gist to be used as a json endpoint for badge download counters\",\"files\":{\"nexus_badges.json\":{\"content\":\"{}\"}},\"public\":false}"
    );
    let mods = vec![
        Mod { domain: "skyrim".to_string(), mod_id: 42 },
        Mod { domain: "fallout4".to_string(), mod_id: 7 },
    ];
    assert_eq!(
        mods_json(&mods),
        "[{\"domain\":\"skyrim\",\"mod_id\":42},{\"domain\":\"fallout4\",\"mod_id\":7}]"
    );
    assert_eq!(mods_json(&Vec::new()), "[]");
}

#[test]
fn status_outcomes() {
    assert!(expect_status(200, 200, String::new()).is_ok());
    assert!(matches!(expect_status(404, 200, "gone".to_string()), Err(Error::BadResponse(b)) if b == "gone"));
    assert_eq!(secret_outcome(201, String::new()).unwrap(), Upsert::Created);
    assert_eq!(secret_outcome(204, String::new()).unwrap(), Upsert::Updated);
    assert!(secret_outcome(403, String::new()).is_err());
    assert_eq!(after_variable_update(204), VariableStep::Updated);
    assert_eq!(after_variable_update(404), VariableStep::Create);
    assert_eq!(after_variable_create(201, String::new()).unwrap(), Upsert::Created);
    assert!(after_variable_create(422, "bad".to_string()).is_err());
}

#[test]
fn provisioning_fetches_the_key_only_for_secrets() {
    let plan = plan_provisioning(&ModFlags { git_token: false, nexus_key: false, gist_id: true });
    assert!(!plan.fetch_public_key && plan.set_gist_id);
    let plan = plan_provisioning(&ModFlags { git_token: false, nexus_key: true, gist_id: false });
    assert!(plan.fetch_public_key && plan.set_nexus_key && !plan.set_git_token);
}

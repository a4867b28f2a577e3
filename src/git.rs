//! The git platform: the remote document, repository secrets and variables,
//! and the automation workflow.

use vstd::prelude::*;
use crate::cli::{Mod, Workflow};
use crate::encoding::{json_quoted, push_json_str};
use crate::error::Error;
use crate::json_data::{FileDetails, GistResponse};
use crate::text::{dec, push_dec, push_str, same_text};
use crate::StartupVars;

verus! {

pub const GIST_NAME: &'static str = "nexus_badges.json";

/// Index of the first file named `name`.
pub open spec fn first_named(files: Seq<(String, FileDetails)>, name: Seq<char>) -> Option<int> {
    if exists|i: int| 0 <= i < files.len() && #[trigger] files[i].0@ == name {
        let i = choose|i: int|
            0 <= i < files.len() && files[i].0@ == name && forall|j: int|
                0 <= j < i ==> #[trigger] files[j].0@ != name;
        Some(i)
    } else {
        None
    }
}

/// Whether `/raw/` starts at index `i` of `u`.
pub open spec fn raw_at(u: Seq<char>, i: int) -> bool {
    0 <= i && i + 5 <= u.len() && u.subrange(i, i + 5) == "/raw/"@
}

/// Index of the first occurrence of `/raw/` in a URL.
pub open spec fn raw_index(u: Seq<char>) -> Option<int> {
    if exists|i: int| #[trigger] raw_at(u, i) {
        let i = choose|i: int| #[trigger] raw_at(u, i) && forall|j: int| 0 <= j < i ==> !#[trigger] raw_at(u, j);
        Some(i)
    } else {
        None
    }
}

proof fn lemma_least_exists(files: Seq<(String, FileDetails)>, name: Seq<char>, k: int)
    requires
        0 <= k < files.len(),
        files[k].0@ == name,
        forall|j: int| 0 <= j < k ==> #[trigger] files[j].0@ != name,
    ensures
        first_named(files, name) == Some(k),
{
    let i = choose|i: int|
        0 <= i < files.len() && files[i].0@ == name && forall|j: int|
            0 <= j < i ==> #[trigger] files[j].0@ != name;
    assert(i == k) by {
        if i < k {
            assert(files[i].0@ != name);
        } else if i > k {
            assert(files[k].0@ != name);
        }
    }
}

impl GistResponse {
    /// No two files share a name.
    pub open spec fn wf(&self) -> bool {
        forall|i: int, j: int|
            0 <= i < j < self.files@.len() ==> #[trigger] self.files@[i].0@ != #[trigger] self.files@[j].0@
    }

    /// The description of the published file.
    pub fn file_details(&self) -> (r: Result<&FileDetails, Error>)
        ensures
            match first_named(self.files@, GIST_NAME@) {
                Some(i) => r matches Ok(d) && *d == self.files@[i].1,
                None => r matches Err(Error::BadResponse(_)),
            },
            self.wf() ==> forall|k: int|
                0 <= k < self.files@.len() && #[trigger] self.files@[k].0@ == GIST_NAME@ ==> (
                r matches Ok(d) && *d == self.files@[k].1),
    {
        let n = self.files.len();
        let mut i: usize = 0;
        while i < n
            invariant
                n == self.files@.len(),
                i <= n,
                forall|j: int| 0 <= j < i ==> #[trigger] self.files@[j].0@ != GIST_NAME@,
            decreases n - i,
        {
            if same_text(self.files[i].0.as_str(), GIST_NAME) {
                proof {
                    lemma_least_exists(self.files@, GIST_NAME@, i as int);
                    if self.wf() {
                        assert forall|k: int|
                            0 <= k < self.files@.len() && #[trigger] self.files@[k].0@
                                == GIST_NAME@ implies k == i by {
                            if k < i {
                                assert(self.files@[k].0@ != self.files@[i as int].0@);
                            } else if k > i {
                                assert(self.files@[i as int].0@ != self.files@[k].0@);
                            }
                        }
                    }
                }
                return Ok(&self.files[i].1);
            }
            i = i + 1;
        }
        let mut msg = String::from_str(
            "Gist response did not contains details about any file with the name: ",
        );
        push_str(&mut msg, GIST_NAME);
        Err(Error::BadResponse(msg))
    }
}

impl GistResponse {
    /// The stable URL of the published file: its raw URL cut after the
    /// `/raw` segment, so that it does not name a revision.
    pub fn universal_url(&self) -> (r: Result<String, Error>)
        ensures
            match first_named(self.files@, GIST_NAME@) {
                Some(f) => {
                    let u = self.files@[f].1.raw_url@;
                    match raw_index(u) {
                        Some(i) => r matches Ok(t) && t@ == u.subrange(0, i + 4),
                        None => r matches Err(Error::BadResponse(_)),
                    }
                },
                None => r matches Err(Error::BadResponse(_)),
            },
    {
        let entry = match self.file_details() {
            Ok(e) => e,
            Err(e) => {
                return Err(e);
            },
        };
        let u = entry.raw_url.as_str();
        let ghost f = first_named(self.files@, GIST_NAME@)->Some_0;
        assert(first_named(self.files@, GIST_NAME@) is Some);
        let n = u.unicode_len();
        let mut i: usize = 0;
        while n >= 5 && i <= n - 5
            invariant
                n == u@.len(),
                i <= n,
                first_named(self.files@, GIST_NAME@) == Some(f),
                self.files@[f].1.raw_url@ == u@,
                forall|j: int| 0 <= j < i ==> !#[trigger] raw_at(u@, j),
            decreases n - i,
        {
            let window = u.substring_char(i, i + 5);
            if same_text(window, "/raw/") {
                proof {
                    assert(raw_at(u@, i as int));
                    let k = choose|k: int|
                        #[trigger] raw_at(u@, k) && forall|j: int| 0 <= j < k ==> !#[trigger] raw_at(u@, j);
                    assert(k == i) by {
                        if k < i {
                            assert(!raw_at(u@, k));
                        } else if k > i {
                            assert(!raw_at(u@, i as int));
                        }
                    }
                }
                return Ok(String::from_str(u.substring_char(0, i + 4)));
            }
            i = i + 1;
        }
        assert forall|j: int| !#[trigger] raw_at(u@, j) by {
            if 0 <= j < i {
            }
        }
        Err(Error::BadResponse(entry.raw_url.clone()))
    }

    /// The current text of the published file.
    pub fn content(&self) -> (r: Result<&String, Error>)
        ensures
            match first_named(self.files@, GIST_NAME@) {
                Some(f) => r matches Ok(c) && c@ == self.files@[f].1.content@,
                None => r matches Err(Error::BadResponse(_)),
            },
    {
        match self.file_details() {
            Ok(e) => Ok(&e.content),
            Err(e) => Err(e),
        }
    }
}

/// Whether the remote document must be rewritten: only when its current text
/// differs from the newly serialized one.
pub fn needs_update(prev: &GistResponse, new_content: &str) -> (r: Result<bool, Error>)
    ensures
        match first_named(prev.files@, GIST_NAME@) {
            Some(f) => r == Ok::<bool, Error>(prev.files@[f].1.content@ != new_content@),
            None => r matches Err(Error::BadResponse(_)),
        },
{
    match prev.content() {
        Ok(c) => Ok(!same_text(c.as_str(), new_content)),
        Err(e) => Err(e),
    }
}

pub open spec fn repo_base(vars: &StartupVars) -> Seq<char> {
    "https://api.github.com/repos/"@ + vars.owner@ + "/"@ + vars.repo@ + "/actions/"@
}

fn repo_endpoint(vars: &StartupVars, tail: &str) -> (r: String)
    ensures
        r@ == repo_base(vars) + tail@,
{
    let mut s = String::from_str("https://api.github.com/repos/");
    push_str(&mut s, vars.owner.as_str());
    push_str(&mut s, "/");
    push_str(&mut s, vars.repo.as_str());
    push_str(&mut s, "/actions/");
    push_str(&mut s, tail);
    s
}

/// The remote document recorded for this run.
pub fn gist_id_endpoint(vars: &StartupVars) -> (r: String)
    ensures
        r@ == "https://api.github.com/gists/"@ + vars.gist_id@,
{
    let mut s = String::from_str("https://api.github.com/gists/");
    push_str(&mut s, vars.gist_id.as_str());
    s
}

/// Where remote documents are created.
pub fn gist_endpoint() -> (r: String)
    ensures
        r@ == "https://api.github.com/gists"@,
{
    String::from_str("https://api.github.com/gists")
}

pub fn repository_public_key_endpoint(vars: &StartupVars) -> (r: String)
    ensures
        r@ == repo_base(vars) + "secrets/public-key"@,
{
    repo_endpoint(vars, "secrets/public-key")
}

pub fn repository_secret_endpoint(vars: &StartupVars, secret_name: &str) -> (r: String)
    ensures
        r@ == repo_base(vars) + "secrets/"@ + secret_name@,
{
    let mut s = repo_endpoint(vars, "secrets/");
    push_str(&mut s, secret_name);
    s
}

pub fn repository_variables_endpoint(vars: &StartupVars) -> (r: String)
    ensures
        r@ == repo_base(vars) + "variables"@,
{
    repo_endpoint(vars, "variables")
}

pub fn repository_variable_endpoint(vars: &StartupVars, var: &str) -> (r: String)
    ensures
        r@ == repo_base(vars) + "variables/"@ + var@,
{
    let mut s = repo_endpoint(vars, "variables/");
    push_str(&mut s, var);
    s
}

pub fn repository_cache_endpoint(vars: &StartupVars, key: &str) -> (r: String)
    ensures
        r@ == repo_base(vars) + "caches?key="@ + key@,
{
    let mut s = repo_endpoint(vars, "caches?key=");
    push_str(&mut s, key);
    s
}

pub fn workflow_endpoint_state(vars: &StartupVars, state: Workflow) -> (r: String)
    ensures
        r@ == repo_base(vars) + "workflows/automation.yml/"@ + state.name_spec(),
{
    let mut s = repo_endpoint(vars, "workflows/automation.yml/");
    push_str(&mut s, state.name());
    s
}

/// The authorization header value for the git platform.
pub fn git_token_h_key(vars: &StartupVars) -> (r: String)
    ensures
        r@ == "Bearer "@ + vars.git_token@,
{
    let mut s = String::from_str("Bearer ");
    push_str(&mut s, vars.git_token.as_str());
    s
}

/// The headers of every call to the git platform, as name and value.
pub fn git_header(vars: &StartupVars) -> (r: Vec<(&'static str, String)>)
    ensures
        r@.len() == 4,
        r@[0].0@ == "User-Agent"@ && r@[0].1@ == "nexus_badges"@,
        r@[1].0@ == "Accept"@ && r@[1].1@ == "application/vnd.github+json"@,
        r@[2].0@ == "Authorization"@ && r@[2].1@ == "Bearer "@ + vars.git_token@,
        r@[3].0@ == "X-GitHub-Api-Version"@ && r@[3].1@ == "2022-11-28"@,
{
    let mut h = Vec::new();
    h.push(("User-Agent", String::from_str("nexus_badges")));
    h.push(("Accept", String::from_str("application/vnd.github+json")));
    h.push(("Authorization", git_token_h_key(vars)));
    h.push(("X-GitHub-Api-Version", String::from_str("2022-11-28")));
    h
}

pub const OK: u16 = 200;

pub const CREATED: u16 = 201;

/// The status of a successful update or flag change.
pub const UPDATED: u16 = 204;

/// A call succeeded when it answered with the expected status; otherwise its
/// body is kept for diagnosis.
pub fn expect_status(status: u16, expected: u16, body: String) -> (r: Result<(), Error>)
    ensures
        status == expected <==> r is Ok,
        status != expected ==> r == Err::<(), Error>(Error::BadResponse(body)),
{
    if status == expected {
        Ok(())
    } else {
        Err(Error::BadResponse(body))
    }
}

/// How an upsert ended on the remote side.
#[derive(Clone, Copy, Debug, PartialEq, Eq, Structural)]
pub enum Upsert {
    Created,
    Updated,
}

/// The outcome of storing a secret: created and updated both succeed.
pub fn secret_outcome(status: u16, body: String) -> (r: Result<Upsert, Error>)
    ensures
        status == CREATED ==> r == Ok::<Upsert, Error>(Upsert::Created),
        status == UPDATED ==> r == Ok::<Upsert, Error>(Upsert::Updated),
        status != CREATED && status != UPDATED ==> r == Err::<Upsert, Error>(Error::BadResponse(body)),
{
    if status == CREATED {
        Ok(Upsert::Created)
    } else if status == UPDATED {
        Ok(Upsert::Updated)
    } else {
        Err(Error::BadResponse(body))
    }
}

/// The next step of a variable upsert, which tries an update first.
#[derive(Clone, Copy, Debug, PartialEq, Eq, Structural)]
pub enum VariableStep {
    /// The update went through.
    Updated,
    /// The variable must be created instead.
    Create,
}

/// After the update call of a variable upsert: done when the platform
/// reports the update, else the variable is created.
pub fn after_variable_update(status: u16) -> (r: VariableStep)
    ensures
        r == (if status == UPDATED { VariableStep::Updated } else { VariableStep::Create }),
{
    if status == UPDATED {
        VariableStep::Updated
    } else {
        VariableStep::Create
    }
}

/// After the create call of a variable upsert.
pub fn after_variable_create(status: u16, body: String) -> (r: Result<Upsert, Error>)
    ensures
        status == CREATED ==> r == Ok::<Upsert, Error>(Upsert::Created),
        status != CREATED ==> r == Err::<Upsert, Error>(Error::BadResponse(body)),
{
    if status == CREATED {
        Ok(Upsert::Created)
    } else {
        Err(Error::BadResponse(body))
    }
}

/// The calls of a provisioning pass after credentials changed.
#[derive(Clone, Copy, Debug, PartialEq, Eq, Structural)]
pub struct ProvisionPlan {
    /// The repository's public key is fetched once, when a secret is stored.
    pub fetch_public_key: bool,
    pub set_git_token: bool,
    pub set_nexus_key: bool,
    pub set_gist_id: bool,
}

/// Which upserts a provisioning pass makes for the changed settings.
pub fn plan_provisioning(modified: &crate::cli::ModFlags) -> (r: ProvisionPlan)
    ensures
        r.fetch_public_key == (modified.git_token || modified.nexus_key),
        r.set_git_token == modified.git_token,
        r.set_nexus_key == modified.nexus_key,
        r.set_gist_id == modified.gist_id,
{
    ProvisionPlan {
        fetch_public_key: modified.git_token || modified.nexus_key,
        set_git_token: modified.git_token,
        set_nexus_key: modified.nexus_key,
        set_gist_id: modified.gist_id,
    }
}

pub const GIST_DESC: &'static str = "Private gist to be used as a json endpoint for badge download counters";

/// Body of a variable upsert.
pub fn variable_body(name: &str, value: &str) -> (r: String)
    ensures
        r@ == "{\"name\":"@ + json_quoted(name@) + ",\"value\":"@ + json_quoted(value@) + "}"@,
{
    let mut s = String::from_str("{\"name\":");
    push_json_str(&mut s, name);
    push_str(&mut s, ",\"value\":");
    push_json_str(&mut s, value);
    push_str(&mut s, "}");
    s
}

/// Body of a secret upsert.
pub fn secret_body(encrypted_value: &str, key_id: &str) -> (r: String)
    ensures
        r@ == "{\"encrypted_value\":"@ + json_quoted(encrypted_value@) + ",\"key_id\":"@
            + json_quoted(key_id@) + "}"@,
{
    let mut s = String::from_str("{\"encrypted_value\":");
    push_json_str(&mut s, encrypted_value);
    push_str(&mut s, ",\"key_id\":");
    push_json_str(&mut s, key_id);
    push_str(&mut s, "}");
    s
}

pub open spec fn files_json(content: Seq<char>) -> Seq<char> {
    "\"files\":{\"nexus_badges.json\":{\"content\":"@ + json_quoted(content) + "}}"@
}

/// Body of a call that rewrites the published file.
pub fn gist_update_body(content: &str) -> (r: String)
    ensures
        r@ == "{"@ + files_json(content@) + "}"@,
{
    let mut s = String::from_str("{\"files\":{\"nexus_badges.json\":{\"content\":");
    push_json_str(&mut s, content);
    push_str(&mut s, "}}}");
    proof {
        reveal_strlit("{\"files\":{\"nexus_badges.json\":{\"content\":");
        reveal_strlit("\"files\":{\"nexus_badges.json\":{\"content\":");
        reveal_strlit("{");
        reveal_strlit("}}}");
        reveal_strlit("}}");
        reveal_strlit("}");
    }
    assert(s@ =~= "{"@ + files_json(content@) + "}"@);
    s
}

/// Body of the call that creates the private remote document.
pub fn gist_create_body(content: &str) -> (r: String)
    ensures
        r@ == "{\"description\":"@ + json_quoted(GIST_DESC@) + ","@ + files_json(content@)
            + ",\"public\":false}"@,
{
    let mut s = String::from_str("{\"description\":");
    push_json_str(&mut s, GIST_DESC);
    push_str(&mut s, ",\"files\":{\"nexus_badges.json\":{\"content\":");
    push_json_str(&mut s, content);
    push_str(&mut s, "}},\"public\":false}");
    proof {
        reveal_strlit(",\"files\":{\"nexus_badges.json\":{\"content\":");
        reveal_strlit("\"files\":{\"nexus_badges.json\":{\"content\":");
        reveal_strlit(",");
        reveal_strlit("}},\"public\":false}");
        reveal_strlit(",\"public\":false}");
        reveal_strlit("}}");
    }
    assert(s@ =~= "{\"description\":"@ + json_quoted(GIST_DESC@) + ","@ + files_json(content@)
        + ",\"public\":false}"@);
    s
}

pub open spec fn mod_json(m: Mod) -> Seq<char> {
    "{\"domain\":"@ + json_quoted(m.domain@) + ",\"mod_id\":"@ + dec(m.mod_id as nat) + "}"@
}

/// The members of a JSON array of tracked mods, separated by commas.
pub open spec fn mods_members(ms: Seq<Mod>) -> Seq<char>
    decreases ms.len(),
{
    if ms.len() == 0 {
        Seq::empty()
    } else if ms.len() == 1 {
        mod_json(ms[0])
    } else {
        mods_members(ms.drop_last()) + ","@ + mod_json(ms.last())
    }
}

/// The registry as the compact JSON array stored in a repository variable.
pub fn mods_json(mods: &Vec<Mod>) -> (r: String)
    ensures
        r@ == "["@ + mods_members(mods@) + "]"@,
{
    let mut s = String::from_str("[");
    let n = mods.len();
    let mut i: usize = 0;
    while i < n
        invariant
            n == mods@.len(),
            i <= n,
            s@ == "["@ + mods_members(mods@.take(i as int)),
        decreases n - i,
    {
        if i > 0 {
            push_str(&mut s, ",");
        }
        push_str(&mut s, "{\"domain\":");
        push_json_str(&mut s, mods[i].domain.as_str());
        push_str(&mut s, ",\"mod_id\":");
        push_dec(&mut s, mods[i].mod_id as u64);
        push_str(&mut s, "}");
        proof {
            let t = mods@.take(i + 1);
            assert(t.drop_last() =~= mods@.take(i as int));
            assert(t.last() == mods@[i as int]);
            if i == 0 {
                assert(t[0] == mods@[0]);
                assert(mods@.take(0) =~= Seq::<Mod>::empty());
            }
        }
        i = i + 1;
    }
    assert(mods@.take(n as int) =~= mods@);
    push_str(&mut s, "]");
    s
}

} // verus!

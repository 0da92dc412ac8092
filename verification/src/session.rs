//! Session identity and gateway-side admission checks.
//!
//! A session is identified by the pair of project identifier and file
//! path; equality of the pair is session identity. The gateway must
//! reject an upgrade whose required parameters are missing before any
//! hub interaction, and is expected to consult the identity/access
//! decision before admitting the caller.

use vstd::prelude::*;

verus! {

/// Query parameters carried by an upgrade request.
pub struct WsQuery {
    pub token: Option<String>,
    pub project_id: String,
    pub file_path: String,
}

/// Model of a session key: the two identifying components.
#[verifier::ext_equal]
pub ghost struct KeyModel {
    pub project: Seq<char>,
    pub file: Seq<char>,
}

/// Identity of one collaborative session: a project and a file within it.
pub struct SessionKey {
    pub project_id: String,
    pub file_path: String,
}

impl View for SessionKey {
    type V = KeyModel;

    open spec fn view(&self) -> KeyModel {
        KeyModel { project: self.project_id@, file: self.file_path@ }
    }
}

/// Valid keys have both components non-empty.
pub open spec fn key_wf(k: KeyModel) -> bool {
    k.project.len() > 0 && k.file.len() > 0
}

impl SessionKey {
    /// Whether two keys name the same session.
    pub fn same_session(&self, other: &SessionKey) -> (r: bool)
        ensures
            r == (self@ == other@),
    {
        let r = self.project_id == other.project_id && self.file_path == other.file_path;
        proof {
            if r {
                assert(self@ =~= other@);
            }
        }
        r
    }
}

/// Why an upgrade request was turned away before reaching any hub.
#[derive(PartialEq, Eq, Structural, Clone, Copy, Debug)]
pub enum UpgradeError {
    EmptyProjectId,
    EmptyFilePath,
}

/// Admission check on the upgrade parameters: both identifying components
/// must be non-empty. An empty project identifier is reported first. On
/// success the resulting key is exactly the requested pair.
pub fn validate_upgrade(q: &WsQuery) -> (r: Result<SessionKey, UpgradeError>)
    ensures
        q.project_id@.len() == 0 ==> r == Result::<SessionKey, UpgradeError>::Err(
            UpgradeError::EmptyProjectId,
        ),
        q.project_id@.len() > 0 && q.file_path@.len() == 0 ==> r == Result::<
            SessionKey,
            UpgradeError,
        >::Err(UpgradeError::EmptyFilePath),
        q.project_id@.len() > 0 && q.file_path@.len() > 0 ==> r is Ok && r->Ok_0@ == (KeyModel {
            project: q.project_id@,
            file: q.file_path@,
        }) && key_wf(r->Ok_0@),
{
    if q.project_id.as_str().is_empty() {
        return Err(UpgradeError::EmptyProjectId);
    }
    if q.file_path.as_str().is_empty() {
        return Err(UpgradeError::EmptyFilePath);
    }
    let key = SessionKey { project_id: q.project_id.clone(), file_path: q.file_path.clone() };
    proof {
        assert(key@ =~= KeyModel { project: q.project_id@, file: q.file_path@ });
    }
    Ok(key)
}

/// The access decision the gateway owes before completing an upgrade: the
/// caller must have presented a credential that resolved to an identity,
/// and the access query for the named project must have found a row.
pub fn join_allowed(identified: bool, access_rows: i64) -> (r: bool)
    ensures
        r == (identified && access_rows > 0),
{
    identified && access_rows > 0
}

impl SessionKey {
    /// The flat `project:file` form of the key, as used for logging and
    /// for registries keyed by a single string.
    pub fn doc_key(&self) -> (r: String)
        ensures
            r@ == self@.project + seq![':'] + self@.file,
    {
        let mut s = self.project_id.clone();
        s.append(":");
        s.append(self.file_path.as_str());
        proof {
            reveal_strlit(":");
            assert(":"@ =~= seq![':']);
            assert(s@ =~= self@.project + seq![':'] + self@.file);
        }
        s
    }
}

} // verus!

//! Server configuration and its defaults.

use vstd::prelude::*;

verus! {

/// Runtime configuration of the server.
pub struct Config {
    pub port: u16,
    pub database_url: String,
    pub storage_path: String,
    pub jwt_secret: String,
}

impl Config {
    /// Assemble a configuration from the values the environment supplied,
    /// falling back to the documented default for each missing one.
    pub fn with_defaults(
        port: Option<u16>,
        database_url: Option<String>,
        storage_path: Option<String>,
        jwt_secret: Option<String>,
    ) -> (r: Config)
        ensures
            port matches Some(p) ==> r.port == p,
            port is None ==> r.port == 3000,
            database_url matches Some(u) ==> r.database_url@ == u@,
            database_url is None ==> r.database_url@ == "sqlite:./data/openleaf.db?mode=rwc"@,
            storage_path matches Some(u) ==> r.storage_path@ == u@,
            storage_path is None ==> r.storage_path@ == "./data/projects"@,
            jwt_secret matches Some(u) ==> r.jwt_secret@ == u@,
            jwt_secret is None ==> r.jwt_secret@ == "development-secret-change-in-production"@,
    {
        let port = match port {
            Some(p) => p,
            None => 3000,
        };
        let database_url = match database_url {
            Some(u) => u,
            None => "sqlite:./data/openleaf.db?mode=rwc".to_owned(),
        };
        let storage_path = match storage_path {
            Some(u) => u,
            None => "./data/projects".to_owned(),
        };
        let jwt_secret = match jwt_secret {
            Some(u) => u,
            None => "development-secret-change-in-production".to_owned(),
        };
        Config { port, database_url, storage_path, jwt_secret }
    }
}

} // verus!

verus! {

/// The scheme prefix of a file-backed database URL.
pub open spec fn sqlite_scheme() -> Seq<char> {
    seq!['s', 'q', 'l', 'i', 't', 'e', ':']
}

/// The file path inside a `sqlite:` database URL: what follows the scheme,
/// up to the first query marker. A URL of another scheme names no file.
pub fn sqlite_file_of_url(url: &str) -> (r: Option<String>)
    ensures
        url@.len() >= 7 && url@.take(7) == sqlite_scheme() ==> (r matches Some(p) && p@
            == url@.skip(7).take(crate::text::first_index_of(url@.skip(7), '?'))),
        !(url@.len() >= 7 && url@.take(7) == sqlite_scheme()) ==> r is None,
{
    let n = url.unicode_len();
    if n < 7 {
        return None;
    }
    let ok = url.get_char(0) == 's' && url.get_char(1) == 'q' && url.get_char(2) == 'l'
        && url.get_char(3) == 'i' && url.get_char(4) == 't' && url.get_char(5) == 'e'
        && url.get_char(6) == ':';
    if !ok {
        proof {
            if url@.take(7) == sqlite_scheme() {
                assert(url@[0] == 's' && url@[1] == 'q' && url@[2] == 'l' && url@[3] == 'i'
                    && url@[4] == 't' && url@[5] == 'e' && url@[6] == ':') by {
                    assert(forall|k: int| 0 <= k < 7 ==> url@.take(7)[k] == url@[k]);
                }
            }
        }
        return None;
    }
    proof {
        assert(url@.take(7) =~= sqlite_scheme());
    }
    let rest = url.substring_char(7, n);
    let q = crate::text::find_char(rest, '?');
    proof {
        crate::text::lemma_first_index_of(rest@, '?');
        assert(rest@ =~= url@.skip(7));
    }
    let path = rest.substring_char(0, q);
    proof {
        assert(path@ =~= url@.skip(7).take(crate::text::first_index_of(url@.skip(7), '?')));
    }
    Some(path.to_owned())
}

} // verus!

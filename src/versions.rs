use vstd::prelude::*;
use crate::lister::pairs_view;

verus! {

/// What fetching a repository's `package.json` gave.
pub enum FetchOutcome {
    /// The content request failed, with this message.
    RequestFailed(String),
    /// The content items returned, each decoded to text where its transport
    /// encoding could be decoded.
    Items(Vec<Option<String>>),
}

/// Why a repository gave no version.
#[derive(Debug)]
pub enum RepoFailure {
    /// The content request failed, with this message.
    Request(String),
    /// The request returned no content item.
    ContentMissing,
    /// The first content item could not be decoded to text.
    Undecodable,
    /// The decoded text is not a JSON object.
    Unparseable,
    /// The object has no `version` field.
    NoVersion,
}

/// The versions found, and one diagnostic per repository that gave none.
pub struct VersionReport {
    /// Repository name and version, in the order the repositories came.
    pub versions: Vec<(String, String)>,
    /// Repository name and why it gave no version, in the same order.
    pub failures: Vec<(String, RepoFailure)>,
}

/// The fields of the JSON object that `text` holds, in the order the parser
/// hands them out, each with its value as text; `None` where `text` is no
/// JSON object.
pub uninterp spec fn json_object_fields(text: Seq<char>) -> Option<Seq<(Seq<char>, Seq<char>)>>;

pub open spec fn pairs_opt_view(r: Option<Vec<(String, String)>>) -> Option<
    Seq<(Seq<char>, Seq<char>)>,
> {
    match r {
        Some(v) => Some(pairs_view(v@)),
        None => None,
    }
}

/// Relies on serde_json::from_str into a serde_json::Map to parse a JSON
/// object. A string value is handed on as the string it holds; any other
/// value as its JSON text (serde_json::Value's Display).
#[verifier::external_body]
fn parse_json_object(text: &str) -> (r: Option<Vec<(String, String)>>)
    ensures
        pairs_opt_view(r) == json_object_fields(text@),
{
    let map: serde_json::Map<String, serde_json::Value> = match serde_json::from_str(text) {
        Ok(m) => m,
        Err(_) => return None,
    };
    let mut fields = Vec::new();
    for (k, v) in map {
        match v {
            serde_json::Value::String(s) => fields.push((k, s)),
            other => fields.push((k, other.to_string())),
        }
    }
    Some(fields)
}

/// The name of the field that holds a package's version.
pub open spec fn version_key() -> Seq<char> {
    "version"@
}

/// The value of the first field named `key`.
pub open spec fn field_value(fields: Seq<(Seq<char>, Seq<char>)>, key: Seq<char>) -> Option<
    Seq<char>,
>
    decreases fields.len(),
{
    if fields.len() == 0 {
        None
    } else if fields[0].0 == key {
        Some(fields[0].1)
    } else {
        field_value(fields.drop_first(), key)
    }
}

/// The version that a parsed `package.json` gives, or why it gives none.
pub open spec fn version_of_fields(fields: Option<Seq<(Seq<char>, Seq<char>)>>) -> Result<
    Seq<char>,
    RepoFailure,
> {
    match fields {
        None => Err(RepoFailure::Unparseable),
        Some(fs) => match field_value(fs, version_key()) {
            Some(v) => Ok(v),
            None => Err(RepoFailure::NoVersion),
        },
    }
}

/// The version that a fetch gives, or why it gives none.
pub open spec fn outcome_version(o: FetchOutcome) -> Result<Seq<char>, RepoFailure> {
    match o {
        FetchOutcome::RequestFailed(m) => Err(RepoFailure::Request(m)),
        FetchOutcome::Items(items) => if items@.len() == 0 {
            Err(RepoFailure::ContentMissing)
        } else {
            match items@[0] {
                None => Err(RepoFailure::Undecodable),
                Some(text) => version_of_fields(json_object_fields(text@)),
            }
        },
    }
}

pub open spec fn result_view(r: Result<String, RepoFailure>) -> Result<Seq<char>, RepoFailure> {
    match r {
        Ok(s) => Ok(s@),
        Err(e) => Err(e),
    }
}

/// The version held by the fields of a parsed `package.json`: the value of
/// its first `version` field.
pub fn version_from_fields(fields: Vec<(String, String)>) -> (r: Result<String, RepoFailure>)
    ensures
        result_view(r) == version_of_fields(Some(pairs_view(fields@))),
{
    let ghost all = pairs_view(fields@);
    let key = "version".to_owned();
    let mut rest = fields;
    let ghost mut i: int = 0;
    assert(all.subrange(0, all.len() as int) =~= all);
    while rest.len() > 0
        invariant
            0 <= i <= all.len(),
            all == pairs_view(fields@),
            pairs_view(rest@) == all.subrange(i, all.len() as int),
            field_value(all, version_key()) == field_value(all.subrange(i, all.len() as int), version_key()),
            key@ == version_key(),
        decreases rest.len(),
    {
        let (name, value) = rest.remove(0);
        let ghost tail = all.subrange(i, all.len() as int);
        assert(tail[0] == (name@, value@));
        if name == key {
            assert(field_value(tail, version_key()) == Some(value@));
            return Ok(value);
        }
        assert(tail.drop_first() =~= all.subrange(i + 1, all.len() as int));
        proof {
            i = i + 1;
        }
        assert(pairs_view(rest@) =~= all.subrange(i, all.len() as int));
    }
    Err(RepoFailure::NoVersion)
}

/// The version held by a `package.json` text.
pub fn package_version(text: &str) -> (r: Result<String, RepoFailure>)
    ensures
        result_view(r) == version_of_fields(json_object_fields(text@)),
{
    match parse_json_object(text) {
        Some(fields) => version_from_fields(fields),
        None => Err(RepoFailure::Unparseable),
    }
}

/// The version that a repository's fetched `package.json` gives: the first
/// content item, decoded, parsed as a JSON object, its `version` field.
pub fn repository_version(outcome: FetchOutcome) -> (r: Result<String, RepoFailure>)
    ensures
        result_view(r) == outcome_version(outcome),
{
    match outcome {
        FetchOutcome::RequestFailed(m) => Err(RepoFailure::Request(m)),
        FetchOutcome::Items(items) => {
            let mut items = items;
            if items.len() == 0 {
                Err(RepoFailure::ContentMissing)
            } else {
                match items.remove(0) {
                    None => Err(RepoFailure::Undecodable),
                    Some(text) => package_version(text.as_str()),
                }
            }
        },
    }
}


/// The repositories whose versions are looked up by default.
pub fn default_repositories() -> (r: Vec<String>)
    ensures
        r@.len() == 5,
        r@[0]@ == "Scotski"@,
        r@[1]@ == "scraper"@,
        r@[2]@ == "standen-node"@,
        r@[3]@ == "now-github-starter"@,
        r@[4]@ == "movies-front"@,
{
    let mut r: Vec<String> = Vec::new();
    r.push("Scotski".to_owned());
    r.push("scraper".to_owned());
    r.push("standen-node".to_owned());
    r.push("now-github-starter".to_owned());
    r.push("movies-front".to_owned());
    r
}

/// The versions found among the fetched repositories, in order.
pub open spec fn versions_of(fetched: Seq<(String, FetchOutcome)>) -> Seq<(Seq<char>, Seq<char>)>
    decreases fetched.len(),
{
    if fetched.len() == 0 {
        Seq::empty()
    } else {
        let rest = versions_of(fetched.drop_last());
        match outcome_version(fetched.last().1) {
            Ok(v) => rest.push((fetched.last().0@, v)),
            Err(_) => rest,
        }
    }
}

/// The repositories that gave no version, each with the reason, in order.
pub open spec fn failures_of(fetched: Seq<(String, FetchOutcome)>) -> Seq<(Seq<char>, RepoFailure)>
    decreases fetched.len(),
{
    if fetched.len() == 0 {
        Seq::empty()
    } else {
        let rest = failures_of(fetched.drop_last());
        match outcome_version(fetched.last().1) {
            Ok(_) => rest,
            Err(e) => rest.push((fetched.last().0@, e)),
        }
    }
}

pub open spec fn failures_view(fs: Seq<(String, RepoFailure)>) -> Seq<(Seq<char>, RepoFailure)> {
    fs.map_values(|p: (String, RepoFailure)| (p.0@, p.1))
}

/// Gathers the versions of the fetched repositories. A repository whose
/// fetch, decoding, parsing or `version` field fails is left out of the
/// versions and gets a diagnostic instead; this never fails as a whole.
pub fn fetch_packagejson_details(fetched: Vec<(String, FetchOutcome)>) -> (r: VersionReport)
    ensures
        pairs_view(r.versions@) == versions_of(fetched@),
        failures_view(r.failures@) == failures_of(fetched@),
{
    let ghost all = fetched@;
    let mut rest = fetched;
    let mut versions: Vec<(String, String)> = Vec::new();
    let mut failures: Vec<(String, RepoFailure)> = Vec::new();
    let ghost mut i: int = 0;
    assert(all.subrange(0, 0) =~= Seq::<(String, FetchOutcome)>::empty());
    assert(pairs_view(versions@) =~= Seq::<(Seq<char>, Seq<char>)>::empty());
    assert(failures_view(failures@) =~= Seq::<(Seq<char>, RepoFailure)>::empty());
    while rest.len() > 0
        invariant
            0 <= i <= all.len(),
            all == fetched@,
            rest@ == all.subrange(i, all.len() as int),
            pairs_view(versions@) == versions_of(all.subrange(0, i)),
            failures_view(failures@) == failures_of(all.subrange(0, i)),
        decreases rest.len(),
    {
        let (repo, outcome) = rest.remove(0);
        assert((repo, outcome) == all[i]);
        assert(all.subrange(0, i + 1).drop_last() =~= all.subrange(0, i));
        let ghost vs = versions@;
        let ghost fs = failures@;
        match repository_version(outcome) {
            Ok(v) => {
                versions.push((repo, v));
                assert(pairs_view(versions@) =~= pairs_view(vs).push((repo@, v@)));
            },
            Err(e) => {
                failures.push((repo, e));
                assert(failures_view(failures@) =~= failures_view(fs).push((repo@, e)));
            },
        }
        proof {
            i = i + 1;
        }
        assert(rest@ =~= all.subrange(i, all.len() as int));
    }
    assert(all.subrange(0, i) =~= all);
    VersionReport { versions, failures }
}

/// Each fetched repository gives exactly one of a version or a diagnostic.
pub proof fn lemma_each_repository_accounted(fetched: Seq<(String, FetchOutcome)>)
    ensures
        versions_of(fetched).len() + failures_of(fetched).len() == fetched.len(),
    decreases fetched.len(),
{
    if fetched.len() > 0 {
        lemma_each_repository_accounted(fetched.drop_last());
    }
}

} // verus!

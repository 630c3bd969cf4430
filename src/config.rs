use vstd::prelude::*;

verus! {

/// Name of the mirror's directory inside the platform's data directory.
pub const MIRROR_DIR_NAME: &'static str = "gitignore";

/// `name` ends `path`.
pub open spec fn ends_with(path: Seq<char>, name: Seq<char>) -> bool {
    name.len() <= path.len() && path.subrange(path.len() - name.len(), path.len() as int) == name
}

/// A single relative path component: not empty, not `.` or `..`, and free of
/// separators and drive markers.
pub open spec fn is_plain_component(name: Seq<char>) -> bool {
    &&& name.len() > 0
    &&& name != seq!['.']
    &&& name != seq!['.', '.']
    &&& forall|i: int|
        0 <= i < name.len() ==> #[trigger] name[i] != '/' && name[i] != '\\' && name[i] != ':'
}

/// A path that starts with the verbatim prefix `\\?\`, which makes a join
/// normalise the whole path.
pub open spec fn is_verbatim(path: Seq<char>) -> bool {
    path.len() >= 4 && path.subrange(0, 4) == seq!['\\', '\\', '?', '\\']
}

/// `joined` is `base` followed by `name`, with a separator between where one
/// is needed.
pub open spec fn is_join(joined: Seq<char>, base: Seq<char>, name: Seq<char>) -> bool {
    ||| joined == base + name
    ||| joined == base + seq!['/'] + name
    ||| joined == base + seq!['\\'] + name
}

/// Relies on dirs::data_dir: the user's data directory, where the platform has one.
#[verifier::external_body]
fn platform_data_dir() -> (r: Option<String>) {
    dirs::data_dir().map(|p| p.display().to_string())
}

/// Relies on std::path::Path::join: a relative component is appended after
/// the base, with the platform's separator where one is needed; only a
/// verbatim base is normalised first.
#[verifier::external_body]
fn join_path(base: &str, name: &str) -> (r: String)
    requires
        is_plain_component(name@),
    ensures
        ends_with(r@, name@),
        !is_verbatim(base@) ==> is_join(r@, base@, name@),
{
    std::path::Path::new(base).join(name).display().to_string()
}

/// Where the mirror of the template collection lives.
pub struct Config {
    pub gitignore_path: String,
}

impl Config {
    /// The configuration: the mirror lives in the directory `data_dir` (the
    /// platform's data directory, where it has one) under the name
    /// `gitignore`, unless `configured` (the value configured for the path,
    /// empty where none is) names another place. `None` where nothing is
    /// configured and there is no data directory.
    pub fn with_data_dir(data_dir: Option<String>, configured: &str) -> (r: Option<Config>)
        ensures
            configured@.len() > 0 ==> (r matches Some(c) && c.gitignore_path@ == configured@),
            configured@.len() == 0 ==> (r is Some <==> data_dir is Some),
            configured@.len() == 0 ==> (r matches Some(c) ==> ends_with(
                c.gitignore_path@,
                MIRROR_DIR_NAME@,
            )),
            configured@.len() == 0 ==> match data_dir {
                Some(d) => !is_verbatim(d@) ==> (r matches Some(c) && is_join(
                    c.gitignore_path@,
                    d@,
                    MIRROR_DIR_NAME@,
                )),
                None => true,
            },
    {
        proof {
            reveal_strlit("gitignore");
        }
        let default_path = match data_dir {
            Some(dir) => join_path(dir.as_str(), MIRROR_DIR_NAME),
            None => {
                if configured.unicode_len() == 0 {
                    return None;
                }
                String::new()
            },
        };
        let mut config = Config { gitignore_path: default_path };
        config.load(configured);
        Some(config)
    }

    /// The configuration, with the platform's data directory as the default
    /// place of the mirror (see `with_data_dir`).
    pub fn new(configured: &str) -> (r: Option<Config>)
        ensures
            configured@.len() > 0 ==> (r matches Some(c) && c.gitignore_path@ == configured@),
            configured@.len() == 0 ==> (r matches Some(c) ==> ends_with(
                c.gitignore_path@,
                MIRROR_DIR_NAME@,
            )),
    {
        Config::with_data_dir(platform_data_dir(), configured)
    }

    /// Applies the configured path: an empty value leaves the path as it is,
    /// any other replaces it.
    pub fn load(&mut self, configured: &str)
        ensures
            configured@.len() == 0 ==> final(self).gitignore_path@ == old(
                self,
            ).gitignore_path@,
            configured@.len() > 0 ==> final(self).gitignore_path@ == configured@,
    {
        if configured.unicode_len() > 0 {
            self.gitignore_path = String::from_str(configured);
        }
    }
}

} // verus!

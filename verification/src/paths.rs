//! Where the files of a user lie: one directory below the home directory holds them all.
//!
//! The path of a home directory need not be text, so these paths are bytes.
use crate::byte_path::{joined_bytes, lemma_bytes_add, lemma_name_bytes, opt_bytes, path_below};
use crate::text::{chars_of, copy};
use vstd::prelude::*;
use vstd::utf8::{encode_utf8, is_ascii_chars_encode_utf8};

verus! {

/// The name of the configuration directory, unless another was chosen.
pub const DEFAULT_CONFIG_DIR_NAME: &'static str = ".shirl";

/// The name of the configuration directory, once chosen.
pub struct ConfigDir {
    pub chosen: Option<String>,
}

/// A path that could not be told.
#[derive(Clone, Copy, Debug, PartialEq, Eq, Structural)]
pub enum PathError {
    NoHome,
}

impl PathError {
    pub fn message(&self) -> (r: &'static str)
        ensures
            r@ == "cannot determine home directory"@,
    {
        "cannot determine home directory"
    }
}

/// The user's home directory, by `dirs::home_dir`, as the bytes of its path. Nothing is said of
/// the result: it depends on the environment.
#[verifier::external_body]
pub(crate) fn home_dir() -> Option<Vec<u8>> {
    dirs::home_dir().map(|p| p.into_os_string().into_encoded_bytes())
}

/// `name` with a dot in front, unless it has one.
pub open spec fn dotted(name: Seq<char>) -> Seq<char> {
    if name.len() > 0 && name[0] == '.' {
        name
    } else {
        "."@ + name
    }
}

impl ConfigDir {
    /// The directory's name.
    pub open spec fn name(&self) -> Seq<char> {
        match self.chosen {
            Some(n) => n@,
            None => ".shirl"@,
        }
    }

    /// Nothing chosen yet.
    pub fn new() -> (r: ConfigDir)
        ensures
            r.chosen is None,
            r.name() == ".shirl"@,
    {
        ConfigDir { chosen: None }
    }
}

/// `name` with a dot in front, unless it has one.
pub fn with_leading_dot(name: &str) -> (r: String)
    ensures
        r@ == dotted(name@),
{
    let v = chars_of(name);
    if v.len() > 0 && v[0] == '.' {
        copy(name)
    } else {
        let mut r = copy(".");
        r.append(name);
        r
    }
}

/// Chooses the name of the configuration directory, with a dot in front. The first choice
/// counts: later ones are ignored.
pub fn set_config_dir_name(dir: &mut ConfigDir, name: &str)
    ensures
        match old(dir).chosen {
            Some(_) => *final(dir) == *old(dir),
            None => final(dir).name() == dotted(name@) && final(dir).chosen is Some,
        },
{
    if dir.chosen.is_none() {
        dir.chosen = Some(with_leading_dot(name));
    }
}

/// The name of the configuration directory.
pub fn config_dir_name(dir: &ConfigDir) -> (r: &str)
    ensures
        r@ == dir.name(),
{
    match &dir.chosen {
        Some(n) => n.as_str(),
        None => DEFAULT_CONFIG_DIR_NAME,
    }
}

/// A dot is put in front once only.
pub proof fn dotting_twice_is_dotting_once(name: Seq<char>)
    ensures
        dotted(dotted(name)) == dotted(name),
        dotted(name).len() > 0 && dotted(name)[0] == '.',
{
    reveal_strlit(".");
}

/// A path or an error, with the path as a sequence.
pub open spec fn path_bytes(r: Result<Vec<u8>, PathError>) -> Result<Seq<u8>, PathError> {
    match r {
        Ok(p) => Ok(p@),
        Err(e) => Err(e),
    }
}

/// `name` below the home directory `home`. There is no such path without a home directory.
pub open spec fn below_home(home: Option<Seq<u8>>, name: Seq<char>) -> Result<Seq<u8>, PathError> {
    match home {
        Some(h) => Ok(path_below(h, name)),
        None => Err(PathError::NoHome),
    }
}

/// `name` in the configuration directory, which has the name `dir` and lies below `home`.
pub open spec fn in_config_home(home: Option<Seq<u8>>, dir: Seq<char>, name: Seq<char>) -> Result<
    Seq<u8>,
    PathError,
> {
    match home {
        Some(h) => Ok(path_below(path_below(h, dir), name)),
        None => Err(PathError::NoHome),
    }
}

/// `name` below the home directory `home`.
pub fn home_join_in(home: Option<Vec<u8>>, name: &str) -> (r: Result<Vec<u8>, PathError>)
    ensures
        path_bytes(r) == below_home(opt_bytes(home), name@),
{
    match home {
        Some(h) => Ok(joined_bytes(&h, name)),
        None => Err(PathError::NoHome),
    }
}

/// `name` below the user's home directory.
pub fn home_join(name: &str) -> (r: Result<Vec<u8>, PathError>)
    ensures
        exists|home: Option<Seq<u8>>| path_bytes(r) == #[trigger] below_home(home, name@),
{
    let home = home_dir();
    let ghost h = opt_bytes(home);
    let r = home_join_in(home, name);
    assert(path_bytes(r) == below_home(h, name@));
    r
}

/// The configuration directory.
pub fn config_home(dir: &ConfigDir) -> (r: Result<Vec<u8>, PathError>)
    ensures
        exists|home: Option<Seq<u8>>| path_bytes(r) == #[trigger] below_home(home, dir.name()),
{
    home_join(config_dir_name(dir))
}

/// What is called `name` in the configuration directory, below the home directory `home`.
pub fn config_file_under(home: Option<Vec<u8>>, dir: &ConfigDir, name: &str) -> (r: Result<
    Vec<u8>,
    PathError,
>)
    ensures
        path_bytes(r) == in_config_home(opt_bytes(home), dir.name(), name@),
{
    match home_join_in(home, config_dir_name(dir)) {
        Ok(base) => Ok(joined_bytes(&base, name)),
        Err(e) => Err(e),
    }
}

// ---------------------------------------------------------------------------
// Files below the configuration directory
// ---------------------------------------------------------------------------
/// Everything that belongs to sessions.
pub open spec fn sessions_path(base: Seq<u8>) -> Seq<u8> {
    path_below(base, "sessions"@)
}

/// What belongs to one session.
pub open spec fn session_path(base: Seq<u8>, id: Seq<char>) -> Seq<u8> {
    path_below(sessions_path(base), id)
}

/// The database of one session.
pub open spec fn session_db(base: Seq<u8>, id: Seq<char>) -> Seq<u8> {
    path_below(base, "sessions/"@ + id + "/session.db"@)
}

/// The directory of all sessions, below the configuration directory `base`.
pub fn sessions_root_in(base: &Vec<u8>) -> (r: Vec<u8>)
    ensures
        r@ == sessions_path(base@),
{
    joined_bytes(base, "sessions")
}

/// The directory of all sessions, below the home directory `home`.
pub fn sessions_root_under(home: Option<Vec<u8>>, dir: &ConfigDir) -> (r: Result<Vec<u8>, PathError>)
    ensures
        path_bytes(r) == in_config_home(opt_bytes(home), dir.name(), "sessions"@),
{
    config_file_under(home, dir, "sessions")
}

/// The directory of all sessions.
pub fn sessions_root(dir: &ConfigDir) -> (r: Result<Vec<u8>, PathError>)
    ensures
        exists|home: Option<Seq<u8>>|
            path_bytes(r) == #[trigger] in_config_home(home, dir.name(), "sessions"@),
{
    let home = home_dir();
    let ghost h = opt_bytes(home);
    let r = sessions_root_under(home, dir);
    assert(path_bytes(r) == in_config_home(h, dir.name(), "sessions"@));
    r
}

/// The directory of the session `id`, below the configuration directory `base`.
pub fn session_dir_in(base: &Vec<u8>, id: &str) -> (r: Vec<u8>)
    ensures
        r@ == session_path(base@, id@),
{
    let root = sessions_root_in(base);
    joined_bytes(&root, id)
}

/// The directory of the session `id`, below the home directory `home`.
pub open spec fn session_dir_of(home: Option<Seq<u8>>, dir: Seq<char>, id: Seq<char>) -> Result<
    Seq<u8>,
    PathError,
> {
    match home {
        Some(h) => Ok(session_path(path_below(h, dir), id)),
        None => Err(PathError::NoHome),
    }
}

/// The directory of the session `id`, below the home directory `home`.
pub fn session_dir_under(home: Option<Vec<u8>>, dir: &ConfigDir, id: &str) -> (r: Result<
    Vec<u8>,
    PathError,
>)
    ensures
        path_bytes(r) == session_dir_of(opt_bytes(home), dir.name(), id@),
{
    match home_join_in(home, config_dir_name(dir)) {
        Ok(base) => Ok(session_dir_in(&base, id)),
        Err(e) => Err(e),
    }
}

/// The directory of the session `id`.
pub fn session_dir(dir: &ConfigDir, id: &str) -> (r: Result<Vec<u8>, PathError>)
    ensures
        exists|home: Option<Seq<u8>>|
            path_bytes(r) == #[trigger] session_dir_of(home, dir.name(), id@),
{
    let home = home_dir();
    let ghost h = opt_bytes(home);
    let r = session_dir_under(home, dir, id);
    assert(path_bytes(r) == session_dir_of(h, dir.name(), id@));
    r
}

/// The database file of the session `id`, below the configuration directory `base`.
pub fn session_db_path(base: &Vec<u8>, id: &str) -> (r: Vec<u8>)
    ensures
        r@ == session_db(base@, id@),
{
    let mut tail = copy("sessions/");
    tail.append(id);
    tail.append("/session.db");
    joined_bytes(base, tail.as_str())
}

/// The file that holds long-term memory, below the home directory `home`.
pub fn memory_db_path_under(home: Option<Vec<u8>>, dir: &ConfigDir) -> (r: Result<Vec<u8>, PathError>)
    ensures
        path_bytes(r) == in_config_home(opt_bytes(home), dir.name(), "memory.db"@),
{
    config_file_under(home, dir, "memory.db")
}

/// The file that holds long-term memory.
pub fn memory_db_path(dir: &ConfigDir) -> (r: Result<Vec<u8>, PathError>)
    ensures
        exists|home: Option<Seq<u8>>|
            path_bytes(r) == #[trigger] in_config_home(home, dir.name(), "memory.db"@),
{
    let home = home_dir();
    let ghost h = opt_bytes(home);
    let r = memory_db_path_under(home, dir);
    assert(path_bytes(r) == in_config_home(h, dir.name(), "memory.db"@));
    r
}

/// The file that lists the servers of tools, below the home directory `home`.
pub fn mcp_config_path_under(home: Option<Vec<u8>>, dir: &ConfigDir) -> (r: Result<Vec<u8>, PathError>)
    ensures
        path_bytes(r) == in_config_home(opt_bytes(home), dir.name(), "mcp.json"@),
{
    config_file_under(home, dir, "mcp.json")
}

/// The file that lists the servers of tools.
pub fn mcp_config_path(dir: &ConfigDir) -> (r: Result<Vec<u8>, PathError>)
    ensures
        exists|home: Option<Seq<u8>>|
            path_bytes(r) == #[trigger] in_config_home(home, dir.name(), "mcp.json"@),
{
    let home = home_dir();
    let ghost h = opt_bytes(home);
    let r = mcp_config_path_under(home, dir);
    assert(path_bytes(r) == in_config_home(h, dir.name(), "mcp.json"@));
    r
}

/// Whether `id` can name a directory: a name without a separator.
pub open spec fn is_plain_name(id: Seq<char>) -> bool {
    id.len() > 0 && (forall|i: int| 0 <= i < id.len() ==> #[trigger] id[i] != '/')
}

/// The database of a session lies in the directory of that session, under the name
/// `session.db`.
pub proof fn session_databases_lie_in_session_dirs(base: Seq<u8>, id: Seq<char>)
    requires
        is_plain_name(id),
    ensures
        session_db(base, id) == path_below(session_path(base, id), "session.db"@),
{
    reveal_strlit("sessions");
    reveal_strlit("sessions/");
    reveal_strlit("session.db");
    reveal_strlit("/session.db");
    let slash = seq!['/'];
    let folder = encode_utf8("sessions"@);
    let file = encode_utf8("session.db"@);
    let name = encode_utf8(id);
    lemma_name_bytes("sessions"@);
    lemma_name_bytes("session.db"@);
    lemma_name_bytes(id);
    assert(encode_utf8(slash) =~= seq![0x2fu8]) by {
        is_ascii_chars_encode_utf8(slash);
    }
    assert("sessions/"@ =~= "sessions"@ + slash);
    assert("/session.db"@ =~= slash + "session.db"@);
    lemma_bytes_add("sessions"@, slash);
    lemma_bytes_add("sessions/"@, id);
    lemma_bytes_add(slash, "session.db"@);
    lemma_bytes_add("sessions/"@ + id, "/session.db"@);
    let tail = encode_utf8("sessions/"@ + id + "/session.db"@);
    assert(tail =~= folder + seq![0x2fu8] + name + seq![0x2fu8] + file);
    assert(tail[0] == folder[0]);
    let root = sessions_path(base);
    assert(root.last() == folder.last());
    let dir = session_path(base, id);
    assert(dir =~= root.push(0x2f) + name);
    assert(dir.last() == name.last());
    assert(path_below(dir, "session.db"@) =~= dir.push(0x2f) + file);
    assert(session_db(base, id) =~= path_below(dir, "session.db"@));
}

/// Without a home directory no path is told, and with one every path lies below it: what has a
/// name in the configuration directory lies in that directory under that name.
pub proof fn files_lie_below_the_home_directory(home: Seq<u8>, dir: Seq<char>, name: Seq<char>)
    requires
        is_plain_name(dir),
        is_plain_name(name),
        home.len() > 0,
        home.last() != 0x2f,
    ensures
        below_home(None, name) == Err::<Seq<u8>, PathError>(PathError::NoHome),
        in_config_home(None, dir, name) == Err::<Seq<u8>, PathError>(PathError::NoHome),
        session_dir_of(None, dir, name) == Err::<Seq<u8>, PathError>(PathError::NoHome),
        below_home(Some(home), name) == Ok::<Seq<u8>, PathError>(
            home.push(0x2f) + encode_utf8(name),
        ),
        in_config_home(Some(home), dir, name) == Ok::<Seq<u8>, PathError>(
            home.push(0x2f) + encode_utf8(dir) + seq![0x2fu8] + encode_utf8(name),
        ),
        session_dir_of(Some(home), dir, name) == Ok::<Seq<u8>, PathError>(
            home.push(0x2f) + encode_utf8(dir) + seq![0x2fu8] + encode_utf8("sessions"@)
                + seq![0x2fu8] + encode_utf8(name),
        ),
{
    lemma_name_below(home, name);
    lemma_name_below(home, dir);
    let config = path_below(home, dir);
    lemma_name_below(config, name);
    assert(config.push(0x2f) + encode_utf8(name) =~= home.push(0x2f) + encode_utf8(dir)
        + seq![0x2fu8] + encode_utf8(name));
    reveal_strlit("sessions");
    assert(is_plain_name("sessions"@)) by {
        let s = "sessions"@;
        assert(s.len() == 8 && s[0] == 's' && s[1] == 'e' && s[2] == 's' && s[3] == 's' && s[4]
            == 'i' && s[5] == 'o' && s[6] == 'n' && s[7] == 's');
        assert forall|i: int| 0 <= i < s.len() implies #[trigger] s[i] != '/' by {
            assert(i == 0 || i == 1 || i == 2 || i == 3 || i == 4 || i == 5 || i == 6 || i == 7);
        }
    }
    lemma_name_below(config, "sessions"@);
    lemma_name_below(sessions_path(config), name);
    assert(sessions_path(config).push(0x2f) + encode_utf8(name) =~= home.push(0x2f) + encode_utf8(
        dir,
    ) + seq![0x2fu8] + encode_utf8("sessions"@) + seq![0x2fu8] + encode_utf8(name));
}

proof fn lemma_name_below(base: Seq<u8>, name: Seq<char>)
    requires
        is_plain_name(name),
        base.len() > 0,
        base.last() != 0x2f,
    ensures
        path_below(base, name) == base.push(0x2f) + encode_utf8(name),
        path_below(base, name).len() > 0,
        path_below(base, name).last() != 0x2f,
{
    lemma_name_bytes(name);
    let b = encode_utf8(name);
    assert(b[0] != 0x2f);
    assert(b[b.len() - 1] != 0x2f);
    assert(path_below(base, name).last() == b[b.len() - 1]);
}

/// The first name that is chosen for the configuration directory counts, with a dot in front.
pub proof fn the_first_name_counts(dir: &mut ConfigDir, name: &str)
    requires
        call_ensures(set_config_dir_name, (dir, name), ()),
    ensures
        old(dir).chosen is Some ==> final(dir).name() == old(dir).name(),
        old(dir).chosen is None ==> final(dir).name() == dotted(name@) && final(dir).chosen is Some,
{
}

/// Long-term memory and the list of servers each lie in a file of their own in the configuration
/// directory.
pub proof fn kept_files_lie_in_the_configuration_directory(
    home: Vec<u8>,
    dir: ConfigDir,
    memory: Result<Vec<u8>, PathError>,
    servers: Result<Vec<u8>, PathError>,
    sessions: Result<Vec<u8>, PathError>,
    id: &str,
    session: Result<Vec<u8>, PathError>,
)
    requires
        call_ensures(memory_db_path_under, (Some(home), &dir), memory),
        call_ensures(mcp_config_path_under, (Some(home), &dir), servers),
        call_ensures(sessions_root_under, (Some(home), &dir), sessions),
        call_ensures(session_dir_under, (Some(home), &dir, id), session),
    ensures
        memory matches Ok(p) && p@ == path_below(path_below(home@, dir.name()), "memory.db"@),
        servers matches Ok(p) && p@ == path_below(path_below(home@, dir.name()), "mcp.json"@),
        sessions matches Ok(p) && p@ == path_below(path_below(home@, dir.name()), "sessions"@),
        session matches Ok(p) && p@ == path_below((sessions->Ok_0)@, id@),
{
}

} // verus!

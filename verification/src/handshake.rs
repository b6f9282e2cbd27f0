//! Where the launcher and the widget meet: two files in the temporary
//! directory and one executable, each at a fixed place.

use vstd::prelude::*;

verus! {

/// Name of the file through which the widget receives the auth token.
pub const AUTH_TOKEN_FILE: &'static str = "ritual_auth_token.txt";

/// Name of the file in which the widget leaves its refresh trigger.
pub const REFRESH_TRIGGER_FILE: &'static str = "ritual_timer_updated.txt";

/// The widget's executable, relative to the working directory.
pub const WIDGET_PROGRAM: &'static str = "target/release/NativeTimerWidget";

/// The path of the entry `name` in the directory `dir`: the two joined by one
/// `/`, which is left out where `dir` is empty or already ends in one.
pub open spec fn joined(dir: Seq<char>, name: Seq<char>) -> Seq<char> {
    if dir.len() == 0 || dir.last() == '/' {
        dir + name
    } else {
        dir + seq!['/'] + name
    }
}

/// Whether `path` starts at the root of the file system.
pub open spec fn is_absolute(path: Seq<char>) -> bool {
    path.len() > 0 && path[0] == '/'
}

/// The path of the auth-token file for the temporary directory `temp_dir`.
pub open spec fn auth_token_path_of(temp_dir: Seq<char>) -> Seq<char> {
    joined(temp_dir, AUTH_TOKEN_FILE@)
}

/// The path of the refresh-trigger file for the temporary directory `temp_dir`.
pub open spec fn refresh_trigger_path_of(temp_dir: Seq<char>) -> Seq<char> {
    joined(temp_dir, REFRESH_TRIGGER_FILE@)
}

/// An entry of an absolute directory has an absolute path.
pub proof fn lemma_joined_is_absolute(dir: Seq<char>, name: Seq<char>)
    requires
        is_absolute(dir),
    ensures
        is_absolute(joined(dir, name)),
{
}

/// The two files of the handshake lie at different paths, whatever the
/// temporary directory.
pub proof fn lemma_handshake_files_differ(temp_dir: Seq<char>)
    ensures
        auth_token_path_of(temp_dir) != refresh_trigger_path_of(temp_dir),
{
    reveal_strlit("ritual_auth_token.txt");
    reveal_strlit("ritual_timer_updated.txt");
    assert(auth_token_path_of(temp_dir).len() + 3 == refresh_trigger_path_of(temp_dir).len());
}

/// Joins a directory and an entry name into a path.
pub fn join(dir: &str, name: &str) -> (path: String)
    ensures
        path@ == joined(dir@, name@),
{
    let n: usize = dir.unicode_len();
    let mut path = String::from_str(dir);
    if n > 0 && dir.get_char(n - 1) != '/' {
        proof {
            reveal_strlit("/");
        }
        path.append("/");
    }
    path.append(name);
    path
}

/// The path of the auth-token file in `temp_dir`.
pub fn auth_token_path(temp_dir: &str) -> (path: String)
    ensures
        path@ == auth_token_path_of(temp_dir@),
{
    join(temp_dir, AUTH_TOKEN_FILE)
}

/// The path of the refresh-trigger file in `temp_dir`.
pub fn refresh_trigger_path(temp_dir: &str) -> (path: String)
    ensures
        path@ == refresh_trigger_path_of(temp_dir@),
{
    join(temp_dir, REFRESH_TRIGGER_FILE)
}

} // verus!

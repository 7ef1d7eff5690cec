use vstd::prelude::*;
use vstd::string::*;

verus! {

/// `name` inside the directory `dir`.
pub open spec fn joined(dir: Seq<char>, name: Seq<char>) -> Seq<char> {
    dir + "/"@ + name
}

/// The directory that holds a session's uploads and outputs; the session's
/// identifier names it.
pub open spec fn session_dir_of(id: Seq<char>) -> Seq<char> {
    "./gifs/"@ + id
}

/// The archive that bundles a session's outputs, beside its directory.
pub open spec fn archive_path_of(id: Seq<char>) -> Seq<char> {
    session_dir_of(id) + ".zip"@
}

/// The path of `name` inside the directory `dir`.
pub fn join(dir: &String, name: &String) -> (r: String)
    ensures
        r@ == joined(dir@, name@),
{
    let mut r = dir.clone();
    r.append("/");
    r.append(name.as_str());
    r
}

/// The directory of the session `id`. Every component finds a session's files
/// through this function.
pub fn session_dir(id: &String) -> (r: String)
    ensures
        r@ == session_dir_of(id@),
{
    let mut r = String::from_str("./gifs/");
    r.append(id.as_str());
    r
}

/// The path of the archive that bundles the outputs of the session `id`.
pub fn archive_path(id: &String) -> (r: String)
    ensures
        r@ == archive_path_of(id@),
{
    let mut r = session_dir(id);
    r.append(".zip");
    r
}

} // verus!

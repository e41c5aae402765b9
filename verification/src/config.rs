//! Resolution of the knowledge-base root. The surrounding application
//! reads the environment and checks the file system; the decision among
//! the candidates is made here.

use vstd::prelude::*;

verus! {

/// The fixed fallback location the knowledge base is looked for at when
/// no override applies. It is specific to one machine; real callers
/// rely on the override or on the home-directory fallback.
pub fn default_kb_path() -> (r: String)
    ensures
        r@ == "/Users/danraper/DRLibrary/DOCKER2/nkb-ani/neural-knowledge-base"@,
{
    "/Users/danraper/DRLibrary/DOCKER2/nkb-ani/neural-knowledge-base".to_owned()
}

/// Picks the knowledge-base root among the candidates, in order: an
/// environment-supplied path, taken only when it exists on disk; the
/// fixed fallback location, when it exists; the `.nkb-browser`
/// directory under the caller's home, returned whether or not it
/// exists. Fails only when the home directory is unknown and nothing
/// earlier applied.
pub fn get_nkb_path(
    env_path: Option<String>,
    env_path_exists: bool,
    default_exists: bool,
    home_dir: Option<String>,
) -> (r: Result<String, String>)
    ensures
        env_path is Some && env_path_exists ==> r is Ok && r->Ok_0@ == env_path->Some_0@,
        !(env_path is Some && env_path_exists) && default_exists ==> r is Ok && r->Ok_0@
            == "/Users/danraper/DRLibrary/DOCKER2/nkb-ani/neural-knowledge-base"@,
        !(env_path is Some && env_path_exists) && !default_exists && home_dir is Some ==> r is Ok
            && r->Ok_0@ == home_dir->Some_0@ + "/.nkb-browser"@,
        !(env_path is Some && env_path_exists) && !default_exists && home_dir is None ==> r is Err
            && r->Err_0@ == "Could not find home directory"@,
{
    if let Some(p) = env_path {
        if env_path_exists {
            return Ok(p);
        }
    }
    if default_exists {
        return Ok(default_kb_path());
    }
    match home_dir {
        Some(home) => {
            let mut p = home;
            p.append("/.nkb-browser");
            Ok(p)
        },
        None => Err("Could not find home directory".to_owned()),
    }
}

} // verus!

use vstd::prelude::*;

use crate::text::{ascii_lowercase, find_last, last_index_of, lemma_last_index_of, lower_seq, same_text};

verus! {

/// A path without its trailing `/`s.
pub open spec fn trim_slashes(path: Seq<char>) -> Seq<char>
    decreases path.len(),
{
    if path.len() > 0 && path.last() == '/' {
        trim_slashes(path.drop_last())
    } else {
        path
    }
}

/// The last `/`-separated part of a path, trailing `/`s ignored.
pub open spec fn file_name_of(path: Seq<char>) -> Seq<char> {
    let t = trim_slashes(path);
    t.subrange(last_index_of(t, '/') + 1, t.len() as int)
}

/// The length of `path` without its trailing `/`s.
fn trimmed_len(path: &str) -> (r: usize)
    ensures
        r <= path@.len(),
        path@.subrange(0, r as int) == trim_slashes(path@),
{
    let n = path.unicode_len();
    let mut end: usize = n;
    assert(path@.subrange(0, n as int) =~= path@);
    while end > 0 && path.get_char(end - 1) == '/'
        invariant
            end <= n,
            n == path@.len(),
            trim_slashes(path@) == trim_slashes(path@.subrange(0, end as int)),
        decreases end,
    {
        let ghost cur = path@.subrange(0, end as int);
        assert(cur.drop_last() =~= path@.subrange(0, end - 1));
        end = end - 1;
    }
    end
}

/// A path's extension: what follows the last `.` of its file name, where that
/// `.` is not the name's first character; empty where there is none.
/// Separators are `/`; other path normalisation is not done.
pub open spec fn extension_of(path: Seq<char>) -> Seq<char> {
    let name = file_name_of(path);
    let dot = last_index_of(name, '.');
    if dot <= 0 || name == seq!['.', '.'] {
        seq![]
    } else {
        name.subrange(dot + 1, name.len() as int)
    }
}

/// `s` after a double quote, followed by `tail`.
pub open spec fn quoted(s: Seq<char>, tail: Seq<char>) -> Seq<char> {
    "\""@ + s + tail
}

pub open spec fn is_map_path(path: Seq<char>) -> bool {
    lower_seq(extension_of(path)) == "map"@
}

pub open spec fn is_plugin_path(path: Seq<char>) -> bool {
    let ext = lower_seq(extension_of(path));
    ext == "esp"@ || ext == "esm"@ || ext == "omwaddon"@ || ext == "omwgame"@
}

pub open spec fn is_mode(arg: Seq<char>) -> bool {
    arg == "vanilla"@ || arg == "openmw"@ || arg == "librequake"@ || arg == "mw"@ || arg == "lq"@
}

/// The extension of a path, lower-cased; empty where it has none.
pub fn get_extension(path: &str) -> (r: String)
    ensures
        r@ == lower_seq(extension_of(path@)),
{
    let n = trimmed_len(path);
    let trimmed = path.substring_char(0, n);
    proof {
        lemma_last_index_of(trimmed@, '/');
    }
    let start = match find_last(trimmed, '/') {
        Some(i) => i + 1,
        None => 0,
    };
    let name = trimmed.substring_char(start, n);
    assert(name@ == file_name_of(path@));
    let len = name.unicode_len();
    proof {
        lemma_last_index_of(name@, '.');
        reveal_strlit("..");
        reveal_strlit("");
        assert(""@ =~= Seq::<char>::empty());
        assert(lower_seq(Seq::<char>::empty()) =~= Seq::<char>::empty());
    }
    let dots = same_text(name, "..");
    assert(dots == (name@ == seq!['.', '.'])) by {
        assert(".."@ =~= seq!['.', '.']);
    }
    match find_last(name, '.') {
        Some(d) => {
            if d == 0 || dots {
                ascii_lowercase("")
            } else {
                let ext = name.substring_char(d + 1, len);
                ascii_lowercase(ext)
            }
        },
        None => ascii_lowercase(""),
    }
}

/// Accepts a path whose extension is `map`, in any case.
pub fn validate_map_extension(path: &str) -> (r: Result<(), String>)
    ensures
        r is Ok <==> is_map_path(path@),
        r is Err ==> r->Err_0@ == quoted(path@, "\" is not a map file!."@),
{
    let ext = get_extension(path);
    if same_text(ext.as_str(), "map") {
        return Ok(());
    }
    let mut msg = "\"".to_owned();
    msg.append(path);
    msg.append("\" is not a map file!.");
    Err(msg)
}

/// Accepts a path whose extension names a plugin or master file, in any case.
pub fn validate_plugin_extension(path: &str) -> (r: Result<(), String>)
    ensures
        r is Ok <==> is_plugin_path(path@),
        r is Err ==> r->Err_0@ == quoted(path@, "\" is not an Elder Scrolls plugin file!."@),
{
    let ext = get_extension(path);
    let e = ext.as_str();
    if same_text(e, "esp") || same_text(e, "esm") || same_text(e, "omwaddon") || same_text(
        e,
        "omwgame",
    ) {
        return Ok(());
    }
    let mut msg = "\"".to_owned();
    msg.append(path);
    msg.append("\" is not an Elder Scrolls plugin file!.");
    Err(msg)
}

/// Checks the input map argument: `-` passes as it is; any other path must be
/// a map file, and must exist (`exists` says whether it does).
pub fn validate_input_map(arg: &str, exists: bool) -> (r: Result<String, String>)
    ensures
        arg@ == "-"@ ==> r is Ok,
        arg@ != "-"@ ==> (r is Ok <==> is_map_path(arg@) && exists),
        r is Ok ==> r->Ok_0@ == arg@,
        arg@ != "-"@ && !is_map_path(arg@) ==> r is Err && r->Err_0@ == quoted(
            arg@,
            "\" is not a map file!."@,
        ),
        arg@ != "-"@ && is_map_path(arg@) && !exists ==> r is Err && r->Err_0@ == quoted(
            arg@,
            "\" (file does not exist)."@,
        ),
{
    if !same_text(arg, "-") {
        match validate_map_extension(arg) {
            Ok(()) => {},
            Err(e) => {
                return Err(e);
            },
        }
        if !exists {
            let mut msg = "\"".to_owned();
            msg.append(arg);
            msg.append("\" (file does not exist).");
            return Err(msg);
        }
    }
    Ok(arg.to_owned())
}

/// Checks the output plugin argument: `-` passes as it is; any other path
/// must be a plugin or master file.
pub fn validate_input_plugin(arg: &str) -> (r: Result<String, String>)
    ensures
        r is Ok <==> (arg@ == "-"@ || is_plugin_path(arg@)),
        r is Ok ==> r->Ok_0@ == arg@,
        r is Err ==> r->Err_0@ == quoted(arg@, "\" is not an Elder Scrolls plugin file!."@),
{
    if !same_text(arg, "-") {
        match validate_plugin_extension(arg) {
            Ok(()) => {},
            Err(e) => {
                return Err(e);
            },
        }
    }
    Ok(arg.to_owned())
}

/// Accepts one of the known build modes.
pub fn validate_mode(arg: &str) -> (r: Result<String, String>)
    ensures
        r is Ok <==> is_mode(arg@),
        r is Ok ==> r->Ok_0@ == arg@,
        r is Err ==> r->Err_0@ == quoted(arg@, "\" is not a valid mode."@),
{
    if same_text(arg, "vanilla") || same_text(arg, "openmw") || same_text(arg, "librequake")
        || same_text(arg, "mw") || same_text(arg, "lq") {
        return Ok(arg.to_owned());
    }
    let mut msg = "\"".to_owned();
    msg.append(arg);
    msg.append("\" is not a valid mode.");
    Err(msg)
}

/// Checks a game directory from what is known of it on disk: it must exist,
/// be a directory, and hold the main master file.
pub fn check_morrowind_directory(dir_path: &str, exists: bool, is_dir: bool, has_master: bool) -> (r:
    Result<String, String>)
    ensures
        r is Ok <==> exists && is_dir && has_master,
        r is Ok ==> r->Ok_0@ == dir_path@,
        !exists ==> r is Err && r->Err_0@ == "Directory '"@ + dir_path@ + "' does not exist."@,
        exists && !is_dir ==> r is Err && r->Err_0@ == "'"@ + dir_path@
            + "' is not a directory."@,
        exists && is_dir && !has_master ==> r is Err && r->Err_0@ == "'"@ + dir_path@
            + "' does not appear to be a valid Morrowind directory as it does not contain Morrowind.esm."@,
{
    if !exists {
        let mut msg = "Directory '".to_owned();
        msg.append(dir_path);
        msg.append("' does not exist.");
        return Err(msg);
    }
    if !is_dir {
        let mut msg = "'".to_owned();
        msg.append(dir_path);
        msg.append("' is not a directory.");
        return Err(msg);
    }
    if !has_master {
        let mut msg = "'".to_owned();
        msg.append(dir_path);
        msg.append(
            "' does not appear to be a valid Morrowind directory as it does not contain Morrowind.esm.",
        );
        return Err(msg);
    }
    Ok(dir_path.to_owned())
}

/// The work directory and the map's base name: what comes before the last
/// `/`, and what lies between it and the last `.`; `None` where the path has
/// no `/`, no `.`, or its last `.` comes before its last `/`.
pub fn workdir_names(map_name: &str) -> (r: Option<(String, String)>)
    ensures
        r is Some <==> {
            let slash = last_index_of(map_name@, '/');
            let dot = last_index_of(map_name@, '.');
            slash >= 0 && dot > slash
        },
        match r {
            Some((workdir, base)) => {
                let slash = last_index_of(map_name@, '/');
                let dot = last_index_of(map_name@, '.');
                &&& workdir@ == map_name@.subrange(0, slash)
                &&& base@ == map_name@.subrange(slash + 1, dot)
            },
            None => true,
        },
{
    proof {
        lemma_last_index_of(map_name@, '/');
        lemma_last_index_of(map_name@, '.');
    }
    match (find_last(map_name, '/'), find_last(map_name, '.')) {
        (Some(slash), Some(dot)) => {
            if dot <= slash {
                return None;
            }
            let workdir = map_name.substring_char(0, slash).to_owned();
            let base = map_name.substring_char(slash + 1, dot).to_owned();
            Some((workdir, base))
        },
        _ => None,
    }
}

} // verus!

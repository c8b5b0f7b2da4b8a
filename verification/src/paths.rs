//! Where the bot finds its configuration files.
use vstd::prelude::*;
use crate::text::chars_of;

verus! {

/// `dir` joined with `file` as `Path::join` does on Unix: an absolute `file`
/// replaces `dir`; otherwise one `/` separates them unless `dir` is empty or
/// already ends with one.
pub open spec fn joined_path(dir: Seq<char>, file: Seq<char>) -> Seq<char> {
    if file.len() > 0 && file[0] == '/' {
        file
    } else if dir.len() == 0 || dir.last() == '/' {
        dir + file
    } else {
        dir + seq!['/'] + file
    }
}

/// `dir` joined with `file`, with `/` as the separator.
pub fn join_path(dir: &str, file: &str) -> (r: String)
    ensures
        r@ == joined_path(dir@, file@),
{
    let d = chars_of(dir);
    let f = chars_of(file);
    let mut r = String::new();
    if f.len() > 0 && f[0] == '/' {
        r.append(file);
    } else if d.len() == 0 || d[d.len() - 1] == '/' {
        r.append(dir);
        r.append(file);
    } else {
        r.append(dir);
        r.append("/");
        proof {
            reveal_strlit("/");
        }
        r.append(file);
    }
    r
}

/// The directory that holds the `.env` file when `R2D2WM_CONFIG_PATH` is
/// unset.
pub open spec fn default_env_directory() -> Seq<char> {
    "."@
}

/// The path of the `.env` file: `.env` in the value of `R2D2WM_CONFIG_PATH`
/// when it is set, else in the working directory.
pub fn env_file_path(config_dir: Option<&str>) -> (r: String)
    ensures
        r@ == joined_path(
            match config_dir {
                Some(d) => d@,
                None => default_env_directory(),
            },
            ".env"@,
        ),
{
    match config_dir {
        Some(d) => join_path(d, ".env"),
        None => join_path(".", ".env"),
    }
}

} // verus!

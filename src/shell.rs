//! Which file holds the variables: the start-up file of the user's shell.
use vstd::prelude::*;
use crate::entries::text_of;
use crate::error::EnvError;

verus! {

/// The start-up file that a shell reads, by the path of its executable.
pub open spec fn init_file_of(shell: Seq<char>) -> Option<Seq<char>> {
    if shell == "/usr/bin/zsh"@ || shell == "/bin/zsh"@ {
        Some(".zshenv"@)
    } else if shell == "/bin/bash"@ {
        Some(".bashrc"@)
    } else {
        None
    }
}

/// `name` inside the directory `dir`, with one `/` between them.
pub open spec fn join_path(dir: Seq<char>, name: Seq<char>) -> Seq<char> {
    if dir.len() == 0 || dir.last() == '/' {
        dir + name
    } else {
        dir + seq!['/'] + name
    }
}

/// Where the variables are kept, given the values of `HOME` and `SHELL`.
pub open spec fn locate(home: Option<Seq<char>>, shell: Option<Seq<char>>) -> Result<Seq<char>, EnvError> {
    match (home, shell) {
        (None, _) => Err(EnvError::VarError),
        (_, None) => Err(EnvError::VarError),
        (Some(h), Some(s)) => match init_file_of(s) {
            Some(f) => Ok(join_path(h, f)),
            None => Err(EnvError::ShellError),
        },
    }
}

/// Whether `a` and `b` hold the same characters.
pub fn same_text(a: &str, b: &str) -> (r: bool)
    ensures
        r == (a@ == b@),
{
    let n = a.unicode_len();
    if n != b.unicode_len() {
        return false;
    }
    let mut i: usize = 0;
    while i < n
        invariant
            i <= n,
            n == a@.len(),
            n == b@.len(),
            forall|k: int| 0 <= k < i ==> a@[k] == b@[k],
        decreases n - i,
    {
        if a.get_char(i) != b.get_char(i) {
            return false;
        }
        i = i + 1;
    }
    assert(a@ =~= b@);
    true
}

/// The name of the start-up file of the shell whose executable is `shell`:
/// `.zshenv` for `/usr/bin/zsh` and `/bin/zsh`, `.bashrc` for `/bin/bash`.
/// Any other shell is refused with [`EnvError::ShellError`].
pub fn init_file_name(shell: &str) -> (r: Result<String, EnvError>)
    ensures
        r matches Ok(f) ==> init_file_of(shell@) == Some(f@),
        r is Err <==> init_file_of(shell@) is None,
        r matches Err(e) ==> e == EnvError::ShellError,
{
    if same_text(shell, "/usr/bin/zsh") || same_text(shell, "/bin/zsh") {
        Ok(String::from_str(".zshenv"))
    } else if same_text(shell, "/bin/bash") {
        Ok(String::from_str(".bashrc"))
    } else {
        Err(EnvError::ShellError)
    }
}

/// `name` inside the directory `dir`: a `/` is put between them unless `dir`
/// is empty or already ends with one.
pub fn join_dir(dir: &str, name: &str) -> (r: String)
    ensures
        r@ == join_path(dir@, name@),
{
    let n = dir.unicode_len();
    let mut r = String::from_str(dir);
    if n > 0 && dir.get_char(n - 1) != '/' {
        proof {
            reveal_strlit("/");
            assert("/"@ =~= seq!['/']);
        }
        r.append("/");
    }
    r.append(name);
    r
}

/// The path of the file that holds the variables, from the values of `HOME`
/// and `SHELL` (`None` where the variable is not set): `HOME/<start-up file>`.
/// An unset variable gives [`EnvError::VarError`] (`HOME` is looked at first);
/// a shell without a known start-up file gives [`EnvError::ShellError`].
pub fn locate_init_file(home: &Option<String>, shell: &Option<String>) -> (r: Result<String, EnvError>)
    ensures
        r.is_ok() <==> locate(text_of(*home), text_of(*shell)).is_ok(),
        r matches Ok(p) ==> locate(text_of(*home), text_of(*shell)) == Ok::<Seq<char>, EnvError>(p@),
        r matches Err(e) ==> locate(text_of(*home), text_of(*shell)) == Err::<Seq<char>, EnvError>(e),
{
    match home {
        None => Err(EnvError::VarError),
        Some(h) => match shell {
            None => Err(EnvError::VarError),
            Some(s) => match init_file_name(s.as_str()) {
                Ok(f) => Ok(join_dir(h.as_str(), f.as_str())),
                Err(e) => Err(e),
            },
        },
    }
}

} // verus!

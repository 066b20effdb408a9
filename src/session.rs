//! One `get`, `set` or `remove`, as a sequence of requests to the outside world.
//!
//! A [`Session`] decides; its caller performs. Each call hands the caller an
//! [`Action`]; the caller carries it out and reports what happened as an
//! [`Event`], until the action is [`Action::Finish`].
//!
//! A read looks at the process first and at the backing store only when the
//! process does not hold the variable. A write stores the value first and
//! updates the process only once the store has taken it.
use vstd::prelude::*;
use crate::entries::{lookup, lookup_entry, rewrite_entries, rewritten, text_of};
use crate::error::EnvError;
use crate::shell::{locate, locate_init_file};

verus! {

/// Where the variables are kept.
#[derive(Debug, PartialEq, Eq, Clone, Copy, Structural)]
pub enum Backend {
    /// `export KEY=VALUE` lines in the start-up file of the user's shell.
    ShellFile,
    /// String values under the per-user `Environment` registry key.
    Registry,
}

/// What reading a registry value gave.
#[derive(Debug)]
pub enum RegistryRead {
    Found(String),
    /// The value does not exist.
    Missing,
    /// The key could not be opened, or another failure.
    Failed,
}

/// What writing or deleting a registry value gave.
#[derive(Debug, PartialEq, Eq, Clone, Copy, Structural)]
pub enum RegistryWrite {
    Done,
    /// The value to delete did not exist.
    Missing,
    /// The key could not be opened, or another failure.
    Failed,
}

/// What the caller is asked to do next.
#[derive(Debug)]
pub enum Action {
    /// Read the variable `key` of the current process.
    ReadProcessVar(String),
    /// Read the variables `HOME` and `SHELL` of the current process.
    ReadHomeAndShell,
    /// Read the whole file at this path.
    ReadFile(String),
    /// Replace the whole file at this path by this text.
    WriteFile(String, String),
    /// Read the registry value `key`.
    ReadRegistry(String),
    /// Set the registry value `key` to `value`.
    WriteRegistry(String, String),
    /// Delete the registry value `key`.
    DeleteRegistry(String),
    /// Set the variable `key` of the current process to `value`.
    SetProcessVar(String, String),
    /// Unset the variable `key` of the current process.
    RemoveProcessVar(String),
    /// The operation is over, with this result.
    Finish(Result<Option<String>, EnvError>),
}

/// What the caller reports after carrying out an action.
#[derive(Debug)]
pub enum Event {
    /// The value of the process variable, `None` when unset or not Unicode.
    ProcessVar(Option<String>),
    /// The values of `HOME` and `SHELL`, `None` where unset or not Unicode.
    HomeAndShell(Option<String>, Option<String>),
    /// The text of the file, `None` when it could not be read.
    FileRead(Option<String>),
    /// Whether the file was written.
    FileWritten(bool),
    RegistryRead(RegistryRead),
    RegistryWritten(RegistryWrite),
    /// The process variable was set or unset.
    ProcessUpdated,
}

/// How far a session has gone.
#[derive(Debug, PartialEq, Eq, Clone, Copy, Structural)]
pub enum Stage {
    AskProcess,
    Locating,
    Reading,
    Writing,
    Mirroring,
    Done,
}

/// One operation on one variable.
pub struct Session {
    pub backend: Backend,
    pub key: String,
    /// `None` for a read; the value to store for a write (empty: remove).
    pub value: Option<String>,
    /// The file that holds the variables, once located.
    pub path: String,
    pub stage: Stage,
}

/// `s` holds the character `c`.
pub open spec fn holds(s: Seq<char>, c: char) -> bool {
    s.contains(c)
}

/// Whether the process can hold `value` under `key`: the key is not empty and
/// holds neither `=` nor NUL, and the value holds no NUL.
pub open spec fn process_accepts(key: Seq<char>, value: Seq<char>) -> bool {
    key.len() > 0 && !holds(key, '=') && !holds(key, '\0') && !holds(value, '\0')
}

/// A read needs nothing of the process; a write needs it to accept the value.
pub open spec fn write_fits(key: Seq<char>, value: Option<String>) -> bool {
    match value {
        Some(v) => process_accepts(key, v@),
        None => true,
    }
}

/// `a` is the action that updates the process after `value` was stored under `key`.
pub open spec fn mirrors(a: Action, key: Seq<char>, value: Seq<char>) -> bool {
    if value.len() > 0 {
        a matches Action::SetProcessVar(k, v) && k@ == key && v@ == value
    } else {
        a matches Action::RemoveProcessVar(k) && k@ == key
    }
}

/// `a` ends the operation with the error `e`.
pub open spec fn fails_with(a: Action, e: EnvError) -> bool {
    a matches Action::Finish(r) && r == Err::<Option<String>, EnvError>(e)
}

/// `a` ends a read with the value `v`.
pub open spec fn answers(a: Action, v: Option<Seq<char>>) -> bool {
    a matches Action::Finish(r) && r matches Ok(o) && text_of(o) == v
}

/// `a` ends a write successfully.
pub open spec fn succeeds(a: Action) -> bool {
    a matches Action::Finish(r) && r matches Ok(o) && o is None
}

/// Whether `e` answers what a session in stage `stage` waits for.
pub open spec fn expected(backend: Backend, stage: Stage, e: Event) -> bool {
    match stage {
        Stage::AskProcess => e is ProcessVar,
        Stage::Locating => e is HomeAndShell,
        Stage::Reading => if backend == Backend::ShellFile {
            e is FileRead
        } else {
            e is RegistryRead
        },
        Stage::Writing => if backend == Backend::ShellFile {
            e is FileWritten
        } else {
            e is RegistryWritten
        },
        Stage::Mirroring => e is ProcessUpdated,
        Stage::Done => false,
    }
}

/// What a session in the state `before` does on the event `e` that it waits
/// for: the state `after` it moves to and the action `a` it asks for.
pub open spec fn transition(before: Session, e: Event, after: Session, a: Action) -> bool {
    match e {
        // reading: the process first
        Event::ProcessVar(Some(v)) => after.stage == Stage::Done && answers(a, Some(v@)),
        Event::ProcessVar(None) => if before.backend == Backend::ShellFile {
            after.stage == Stage::Locating && a is ReadHomeAndShell
        } else {
            after.stage == Stage::Reading && (a matches Action::ReadRegistry(k) && k@ == before.key@)
        },
        // the shell file: where it is, what it holds, storing the new text
        Event::HomeAndShell(h, s) => match locate(text_of(h), text_of(s)) {
            Err(err) => after.stage == Stage::Done && fails_with(a, err),
            Ok(p) => if write_fits(before.key@, before.value) {
                after.stage == Stage::Reading && after.path@ == p && (a matches Action::ReadFile(f)
                    && f@ == p)
            } else {
                after.stage == Stage::Done && fails_with(a, EnvError::VarError)
            },
        },
        Event::FileRead(None) => after.stage == Stage::Done && fails_with(a, EnvError::IOError),
        Event::FileRead(Some(t)) => match before.value {
            None => after.stage == Stage::Done && answers(a, lookup(t@, before.key@)),
            Some(v) => after.stage == Stage::Writing && (a matches Action::WriteFile(f, u) && f@
                == before.path@ && u@ == rewritten(t@, before.key@, v@)),
        },
        Event::FileWritten(ok) => match before.value {
            Some(v) => if ok {
                after.stage == Stage::Mirroring && mirrors(a, before.key@, v@)
            } else {
                after.stage == Stage::Done && fails_with(a, EnvError::IOError)
            },
            None => after.stage == Stage::Done && fails_with(a, EnvError::IOError),
        },
        // the registry: a missing value reads as unset, and deleting it is no failure
        Event::RegistryRead(r) => after.stage == Stage::Done && match r {
            RegistryRead::Found(v) => answers(a, Some(v@)),
            RegistryRead::Missing => answers(a, None),
            RegistryRead::Failed => fails_with(a, EnvError::IOError),
        },
        Event::RegistryWritten(w) => match before.value {
            Some(v) => if w == RegistryWrite::Done || (w == RegistryWrite::Missing && v@.len() == 0) {
                after.stage == Stage::Mirroring && mirrors(a, before.key@, v@)
            } else {
                after.stage == Stage::Done && fails_with(a, EnvError::IOError)
            },
            None => after.stage == Stage::Done && fails_with(a, EnvError::IOError),
        },
        // the process follows the store
        Event::ProcessUpdated => after.stage == Stage::Done && succeeds(a),
    }
}

/// Whether `s` holds `c`.
fn has_char(s: &str, c: char) -> (r: bool)
    ensures
        r == holds(s@, c),
{
    let n = s.unicode_len();
    let mut i: usize = 0;
    while i < n
        invariant
            i <= n,
            n == s@.len(),
            forall|k: int| 0 <= k < i ==> s@[k] != c,
        decreases n - i,
    {
        if s.get_char(i) == c {
            return true;
        }
        i = i + 1;
    }
    false
}

/// Whether the process can hold `value` under `key`: the key is not empty and
/// holds neither `=` nor NUL, and the value holds no NUL.
pub fn process_can_hold(key: &str, value: &str) -> (r: bool)
    ensures
        r == process_accepts(key@, value@),
{
    key.unicode_len() > 0 && !has_char(key, '=') && !has_char(key, '\0') && !has_char(value, '\0')
}

impl Session {
    /// Starts reading `key`: from the process if it holds it, else from `backend`.
    pub fn get_var(key: &str, backend: Backend) -> (r: (Session, Action))
        ensures
            r.0.backend == backend,
            r.0.key@ == key@,
            r.0.value is None,
            r.0.stage == Stage::AskProcess,
            r.1 matches Action::ReadProcessVar(k) && k@ == key@,
    {
        let s = Session {
            backend,
            key: String::from_str(key),
            value: None,
            path: String::new(),
            stage: Stage::AskProcess,
        };
        (s, Action::ReadProcessVar(String::from_str(key)))
    }

    /// Starts storing `value` under `key` in `backend` and in the process; an
    /// empty `value` removes the variable from both.
    pub fn set_var(key: &str, value: &str, backend: Backend) -> (r: (Session, Action))
        ensures
            r.0.backend == backend,
            r.0.key@ == key@,
            r.0.value matches Some(v) && v@ == value@,
            backend == Backend::ShellFile ==> r.0.stage == Stage::Locating && r.1 is ReadHomeAndShell,
            backend == Backend::Registry && !process_accepts(key@, value@) ==> r.0.stage
                == Stage::Done && fails_with(r.1, EnvError::VarError),
            backend == Backend::Registry && process_accepts(key@, value@) && value@.len() > 0
                ==> r.0.stage == Stage::Writing && (r.1 matches Action::WriteRegistry(k, v) && k@
                == key@ && v@ == value@),
            backend == Backend::Registry && process_accepts(key@, value@) && value@.len() == 0
                ==> r.0.stage == Stage::Writing && (r.1 matches Action::DeleteRegistry(k) && k@
                == key@),
    {
        let mut s = Session {
            backend,
            key: String::from_str(key),
            value: Some(String::from_str(value)),
            path: String::new(),
            stage: Stage::Locating,
        };
        match backend {
            Backend::ShellFile => (s, Action::ReadHomeAndShell),
            Backend::Registry => {
                if !process_can_hold(key, value) {
                    s.stage = Stage::Done;
                    (s, Action::Finish(Err(EnvError::VarError)))
                } else if value.unicode_len() > 0 {
                    s.stage = Stage::Writing;
                    (s, Action::WriteRegistry(String::from_str(key), String::from_str(value)))
                } else {
                    s.stage = Stage::Writing;
                    (s, Action::DeleteRegistry(String::from_str(key)))
                }
            },
        }
    }

    /// Starts removing `key` from `backend` and from the process.
    pub fn remove_var(key: &str, backend: Backend) -> (r: (Session, Action))
        ensures
            r.0.backend == backend,
            r.0.key@ == key@,
            r.0.value matches Some(v) && v@.len() == 0,
            backend == Backend::ShellFile ==> r.0.stage == Stage::Locating && r.1 is ReadHomeAndShell,
            backend == Backend::Registry && !process_accepts(key@, Seq::empty()) ==> r.0.stage
                == Stage::Done && fails_with(r.1, EnvError::VarError),
            backend == Backend::Registry && process_accepts(key@, Seq::empty()) ==> r.0.stage
                == Stage::Writing && (r.1 matches Action::DeleteRegistry(k) && k@ == key@),
    {
        proof {
            reveal_strlit("");
        }
        Session::set_var(key, "", backend)
    }

    /// The action that updates the process once the store took the value.
    fn mirror(&self) -> (a: Action)
        requires
            self.value is Some,
        ensures
            mirrors(a, self.key@, self.value->0@),
    {
        match &self.value {
            Some(v) => if v.as_str().unicode_len() > 0 {
                Action::SetProcessVar(self.key.clone(), v.clone())
            } else {
                Action::RemoveProcessVar(self.key.clone())
            },
            None => Action::Finish(Err(EnvError::IOError)),
        }
    }

    /// Takes the answer to the last action and returns the next action.
    ///
    /// An event that does not answer what the session waits for ends it with
    /// [`EnvError::IOError`].
    pub fn step(&mut self, event: Event) -> (a: Action)
        ensures
            final(self).backend == old(self).backend,
            final(self).key == old(self).key,
            final(self).value == old(self).value,
            !expected(old(self).backend, old(self).stage, event) ==> final(self).stage == Stage::Done
                && fails_with(a, EnvError::IOError),
            expected(old(self).backend, old(self).stage, event) ==> transition(
                *old(self),
                event,
                *final(self),
                a,
            ),
    {
        let old_stage = self.stage;
        self.stage = Stage::Done;
        match (old_stage, event) {
            (Stage::AskProcess, Event::ProcessVar(Some(v))) => Action::Finish(Ok(Some(v))),
            (Stage::AskProcess, Event::ProcessVar(None)) => match self.backend {
                Backend::ShellFile => {
                    self.stage = Stage::Locating;
                    Action::ReadHomeAndShell
                },
                Backend::Registry => {
                    self.stage = Stage::Reading;
                    Action::ReadRegistry(self.key.clone())
                },
            },
            (Stage::Locating, Event::HomeAndShell(h, s)) => match locate_init_file(&h, &s) {
                Err(e) => Action::Finish(Err(e)),
                Ok(p) => {
                    let fits = match &self.value {
                        Some(v) => process_can_hold(self.key.as_str(), v.as_str()),
                        None => true,
                    };
                    if fits {
                        self.stage = Stage::Reading;
                        self.path = p.clone();
                        Action::ReadFile(p)
                    } else {
                        Action::Finish(Err(EnvError::VarError))
                    }
                },
            },
            (Stage::Reading, Event::FileRead(text)) => {
                if self.backend == Backend::Registry {
                    Action::Finish(Err(EnvError::IOError))
                } else {
                    match text {
                        None => Action::Finish(Err(EnvError::IOError)),
                        Some(t) => match &self.value {
                            None => Action::Finish(Ok(lookup_entry(t.as_str(), self.key.as_str()))),
                            Some(v) => {
                                self.stage = Stage::Writing;
                                Action::WriteFile(
                                    self.path.clone(),
                                    rewrite_entries(t.as_str(), self.key.as_str(), v.as_str()),
                                )
                            },
                        },
                    }
                }
            },
            (Stage::Writing, Event::FileWritten(ok)) => {
                if self.backend == Backend::Registry || !ok || self.value.is_none() {
                    Action::Finish(Err(EnvError::IOError))
                } else {
                    self.stage = Stage::Mirroring;
                    self.mirror()
                }
            },
            (Stage::Reading, Event::RegistryRead(answer)) => {
                if self.backend == Backend::ShellFile {
                    Action::Finish(Err(EnvError::IOError))
                } else {
                    match answer {
                        RegistryRead::Found(v) => Action::Finish(Ok(Some(v))),
                        RegistryRead::Missing => Action::Finish(Ok(None)),
                        RegistryRead::Failed => Action::Finish(Err(EnvError::IOError)),
                    }
                }
            },
            (Stage::Writing, Event::RegistryWritten(w)) => {
                if self.backend == Backend::ShellFile {
                    Action::Finish(Err(EnvError::IOError))
                } else {
                    match &self.value {
                        None => Action::Finish(Err(EnvError::IOError)),
                        Some(v) => {
                            let taken = match w {
                                RegistryWrite::Done => true,
                                RegistryWrite::Missing => v.as_str().unicode_len() == 0,
                                RegistryWrite::Failed => false,
                            };
                            if taken {
                                self.stage = Stage::Mirroring;
                                self.mirror()
                            } else {
                                Action::Finish(Err(EnvError::IOError))
                            }
                        },
                    }
                }
            },
            (Stage::Mirroring, Event::ProcessUpdated) => Action::Finish(Ok(None)),
            _ => Action::Finish(Err(EnvError::IOError)),
        }
    }
}

} // verus!

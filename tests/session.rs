use std::collections::HashMap;

use globenv::{Action, Backend, EnvError, Event, RegistryRead, RegistryWrite, Session, Stage};

/// An in-memory stand-in for the process, its shell start-up file and the registry.
struct World {
    process: HashMap<String, String>,
    home: Option<String>,
    shell: Option<String>,
    files: HashMap<String, String>,
    registry: HashMap<String, String>,
    registry_fails: bool,
    writes_fail: bool,
    files_written: usize,
}

impl World {
    fn new() -> World {
        let mut files = HashMap::new();
        files.insert(String::from("/home/user/.bashrc"), String::from("alias ll='ls -l'\n"));
        World {
            process: HashMap::new(),
            home: Some(String::from("/home/user")),
            shell: Some(String::from("/bin/bash")),
            files,
            registry: HashMap::new(),
            registry_fails: false,
            writes_fail: false,
            files_written: 0,
        }
    }

    fn run(&mut self, start: (Session, Action)) -> Result<Option<String>, EnvError> {
        let (mut session, mut action) = start;
        loop {
            let event = match action {
                Action::ReadProcessVar(k) => Event::ProcessVar(self.process.get(&k).cloned()),
                Action::ReadHomeAndShell => Event::HomeAndShell(self.home.clone(), self.shell.clone()),
                Action::ReadFile(p) => Event::FileRead(self.files.get(&p).cloned()),
                Action::WriteFile(p, t) => {
                    if self.writes_fail {
                        Event::FileWritten(false)
                    } else {
                        self.files_written += 1;
                        self.files.insert(p, t);
                        Event::FileWritten(true)
                    }
                }
                Action::ReadRegistry(k) => Event::RegistryRead(if self.registry_fails {
                    RegistryRead::Failed
                } else {
                    match self.registry.get(&k) {
                        Some(v) => RegistryRead::Found(v.clone()),
                        None => RegistryRead::Missing,
                    }
                }),
                Action::WriteRegistry(k, v) => Event::RegistryWritten(if self.registry_fails {
                    RegistryWrite::Failed
                } else {
                    self.registry.insert(k, v);
                    RegistryWrite::Done
                }),
                Action::DeleteRegistry(k) => Event::RegistryWritten(if self.registry_fails {
                    RegistryWrite::Failed
                } else if self.registry.remove(&k).is_some() {
                    RegistryWrite::Done
                } else {
                    RegistryWrite::Missing
                }),
                Action::SetProcessVar(k, v) => {
                    self.process.insert(k, v);
                    Event::ProcessUpdated
                }
                Action::RemoveProcessVar(k) => {
                    self.process.remove(&k);
                    Event::ProcessUpdated
                }
                Action::Finish(r) => return r,
            };
            action = session.step(event);
        }
    }

    fn bashrc(&self) -> String {
        self.files.get("/home/user/.bashrc").cloned().unwrap_or_default()
    }
}

fn test_var() -> &'static str {
    "test"
}

#[test]
fn get_var() {
    let mut w = World::new();
    let r = w.run(Session::get_var(test_var(), Backend::ShellFile)).unwrap();
    println!("{:?}", r.clone().unwrap_or_else(|| String::from("None")));
    assert_eq!(r, None);
}

#[test]
fn set_var() {
    let mut w = World::new();
    w.run(Session::set_var(test_var(), "123", Backend::ShellFile)).unwrap();
    assert_eq!(w.bashrc(), "alias ll='ls -l'\nexport test=123\n");
    assert_eq!(w.process.get("test").map(|s| s.as_str()), Some("123"));
}

#[test]
fn remove_var() {
    let mut w = World::new();
    w.run(Session::remove_var(test_var(), Backend::ShellFile)).unwrap();
    assert_eq!(w.bashrc(), "alias ll='ls -l'\n");
    assert!(w.process.get("test").is_none());
}

#[test]
fn set_get_var() {
    let mut w = World::new();
    w.run(Session::set_var(test_var(), "123", Backend::ShellFile)).unwrap();
    let r = w.run(Session::get_var(test_var(), Backend::ShellFile)).unwrap();
    println!("{:?}", r.clone().unwrap_or_else(|| String::from("None")));
    assert_eq!(r, Some(String::from("123")));
}

#[test]
fn remove_get_var() {
    let mut w = World::new();
    w.run(Session::remove_var(test_var(), Backend::ShellFile)).unwrap();
    let r = w.run(Session::get_var(test_var(), Backend::ShellFile)).unwrap();
    println!("{:?}", r.clone().unwrap_or_else(|| String::from("None")));
    assert_eq!(r, None);
}

#[test]
fn set_set_var() {
    let mut w = World::new();
    w.run(Session::set_var(test_var(), "123", Backend::ShellFile)).unwrap();
    w.run(Session::set_var(test_var(), "456", Backend::ShellFile)).unwrap();
    assert_eq!(w.bashrc(), "alias ll='ls -l'\nexport test=456\n");
}

#[test]
fn set_update_remove_scenario() {
    let mut w = World::new();
    w.run(Session::set_var("test", "123", Backend::ShellFile)).unwrap();
    assert_eq!(w.run(Session::get_var("test", Backend::ShellFile)).unwrap(), Some(String::from("123")));
    w.run(Session::set_var("test", "456", Backend::ShellFile)).unwrap();
    assert_eq!(w.run(Session::get_var("test", Backend::ShellFile)).unwrap(), Some(String::from("456")));
    w.run(Session::set_var("test", "", Backend::ShellFile)).unwrap();
    assert_eq!(w.run(Session::get_var("test", Backend::ShellFile)).unwrap(), None);
    assert_eq!(w.bashrc(), "alias ll='ls -l'\n");
}

#[test]
fn value_survives_a_fresh_process() {
    let mut w = World::new();
    w.run(Session::set_var("EDITOR", "vim", Backend::ShellFile)).unwrap();
    w.process.clear();
    assert_eq!(w.run(Session::get_var("EDITOR", Backend::ShellFile)).unwrap(), Some(String::from("vim")));
}

#[test]
fn process_value_is_read_first() {
    let mut w = World::new();
    w.files.insert(String::from("/home/user/.bashrc"), String::from("export A=file\n"));
    w.process.insert(String::from("A"), String::from("process"));
    assert_eq!(w.run(Session::get_var("A", Backend::ShellFile)).unwrap(), Some(String::from("process")));
}

#[test]
fn remove_twice_succeeds() {
    let mut w = World::new();
    w.run(Session::set_var("A", "1", Backend::ShellFile)).unwrap();
    assert_eq!(w.run(Session::remove_var("A", Backend::ShellFile)), Ok(None));
    assert_eq!(w.run(Session::remove_var("A", Backend::ShellFile)), Ok(None));
    assert_eq!(w.run(Session::get_var("A", Backend::ShellFile)).unwrap(), None);
    assert_eq!(w.bashrc(), "alias ll='ls -l'\n");
}

#[test]
fn other_lines_are_kept() {
    let mut w = World::new();
    w.files.insert(
        String::from("/home/user/.bashrc"),
        String::from("export B=2\n# note\nexport A=1\nexport AB=3"),
    );
    w.run(Session::set_var("A", "9", Backend::ShellFile)).unwrap();
    assert_eq!(w.bashrc(), "export B=2\n# note\nexport AB=3\nexport A=9\n");
    w.process.clear();
    assert_eq!(w.run(Session::get_var("AB", Backend::ShellFile)).unwrap(), Some(String::from("3")));
    assert_eq!(w.run(Session::get_var("B", Backend::ShellFile)).unwrap(), Some(String::from("2")));
}

#[test]
fn unsupported_shell_fails_everywhere() {
    let mut w = World::new();
    w.shell = Some(String::from("/usr/bin/fish"));
    assert_eq!(w.run(Session::get_var("A", Backend::ShellFile)), Err(EnvError::ShellError));
    assert_eq!(w.run(Session::set_var("A", "1", Backend::ShellFile)), Err(EnvError::ShellError));
    assert_eq!(w.run(Session::remove_var("A", Backend::ShellFile)), Err(EnvError::ShellError));
    assert_eq!(w.files_written, 0);
}

#[test]
fn unset_home_or_shell_is_a_var_error() {
    let mut w = World::new();
    w.home = None;
    assert_eq!(w.run(Session::get_var("A", Backend::ShellFile)), Err(EnvError::VarError));
    let mut w = World::new();
    w.shell = None;
    assert_eq!(w.run(Session::set_var("A", "1", Backend::ShellFile)), Err(EnvError::VarError));
}

#[test]
fn zsh_uses_zshenv() {
    let mut w = World::new();
    w.shell = Some(String::from("/bin/zsh"));
    w.files.insert(String::from("/home/user/.zshenv"), String::new());
    w.run(Session::set_var("A", "1", Backend::ShellFile)).unwrap();
    assert_eq!(w.files.get("/home/user/.zshenv").unwrap(), "export A=1\n");
}

#[test]
fn missing_file_is_an_io_error() {
    let mut w = World::new();
    w.files.clear();
    assert_eq!(w.run(Session::get_var("A", Backend::ShellFile)), Err(EnvError::IOError));
    assert_eq!(w.run(Session::set_var("A", "1", Backend::ShellFile)), Err(EnvError::IOError));
}

#[test]
fn failed_write_leaves_process_alone() {
    let mut w = World::new();
    w.writes_fail = true;
    assert_eq!(w.run(Session::set_var("A", "1", Backend::ShellFile)), Err(EnvError::IOError));
    assert!(w.process.get("A").is_none());
}

#[test]
fn key_the_process_cannot_hold_is_a_var_error() {
    let mut w = World::new();
    assert_eq!(w.run(Session::set_var("A=B", "1", Backend::ShellFile)), Err(EnvError::VarError));
    assert_eq!(w.run(Session::set_var("", "1", Backend::ShellFile)), Err(EnvError::VarError));
    assert_eq!(w.run(Session::set_var("A", "x\0y", Backend::Registry)), Err(EnvError::VarError));
    assert_eq!(w.files_written, 0);
}

#[test]
fn registry_round_trip() {
    let mut w = World::new();
    w.run(Session::set_var("A", "1", Backend::Registry)).unwrap();
    assert_eq!(w.registry.get("A").map(|s| s.as_str()), Some("1"));
    w.process.clear();
    assert_eq!(w.run(Session::get_var("A", Backend::Registry)).unwrap(), Some(String::from("1")));
    w.run(Session::set_var("A", "", Backend::Registry)).unwrap();
    assert!(w.registry.get("A").is_none());
    assert_eq!(w.run(Session::get_var("A", Backend::Registry)).unwrap(), None);
}

#[test]
fn registry_remove_of_missing_value_succeeds() {
    let mut w = World::new();
    w.registry.insert(String::from("B"), String::from("2"));
    assert_eq!(w.run(Session::remove_var("A", Backend::Registry)), Ok(None));
    assert_eq!(w.run(Session::remove_var("A", Backend::Registry)), Ok(None));
    assert_eq!(w.registry.get("B").map(|s| s.as_str()), Some("2"));
}

#[test]
fn registry_failure_is_an_io_error() {
    let mut w = World::new();
    w.registry_fails = true;
    assert_eq!(w.run(Session::get_var("A", Backend::Registry)), Err(EnvError::IOError));
    assert_eq!(w.run(Session::set_var("A", "1", Backend::Registry)), Err(EnvError::IOError));
    assert!(w.process.get("A").is_none());
}

#[test]
fn unexpected_event_ends_the_session() {
    let (mut s, _) = Session::get_var("A", Backend::ShellFile);
    match s.step(Event::FileWritten(true)) {
        Action::Finish(r) => assert_eq!(r, Err(EnvError::IOError)),
        other => panic!("unexpected action {:?}", other),
    }
    assert_eq!(s.stage, Stage::Done);
}

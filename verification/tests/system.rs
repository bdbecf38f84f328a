use yafsh::builtins;
use yafsh::builtins::system::{
    cd, env_all, env_append, env_prepend, exec_word, exit_code, expand_tilde, getenv, popd, pushd,
    setenv, unsetenv,
};
use yafsh::host::{Request, Response};
use yafsh::machine::{resume, run, status, Status};
use yafsh::types::{State, Value};

/// A small world in memory that stands in for the system: a few commands
/// known by their paths, a working directory, variables and files.
struct World {
    env: Vec<(String, String)>,
    cwd: String,
    files: Vec<(String, String)>,
    out: String,
    err: String,
}

impl World {
    fn new() -> World {
        World {
            env: vec![
                ("HOME".to_string(), "/home/tester".to_string()),
                ("PATH".to_string(), "/usr/bin:/bin".to_string()),
                ("USER".to_string(), "tester".to_string()),
            ],
            cwd: "/home/tester/work".to_string(),
            files: Vec::new(),
            out: String::new(),
            err: String::new(),
        }
    }

    fn var(&self, name: &str) -> Option<String> {
        self.env.iter().find(|(k, _)| k == name).map(|(_, v)| v.clone())
    }

    fn set_var(&mut self, name: &str, value: &str) {
        self.env.retain(|(k, _)| k != name);
        self.env.push((name.to_string(), value.to_string()));
    }

    fn run(&self, cmd: &str, args: &[String], stdin: &Option<String>) -> Response {
        let input = stdin.clone().unwrap_or_default();
        let (stdout, code) = match cmd {
            "/bin/echo" | "/usr/bin/echo" => (format!("{}\n", args.join(" ")), 0),
            "/bin/true" => (String::new(), 0),
            "/bin/false" => (String::new(), 1),
            "/usr/bin/wc" => (format!("{}\n", input.len()), 0),
            "/bin/cat" => (input, 0),
            "hostname" => ("testhost\n".to_string(), 0),
            "date" => ("12:34\n".to_string(), 0),
            "git" => ("main\n".to_string(), 0),
            _ => return Response::Failed("No such file or directory (os error 2)".to_string()),
        };
        Response::Ran { stdout, code: Some(code) }
    }

    fn perform(&mut self, request: &Request) -> Response {
        match request {
            Request::Print(text) => {
                self.out.push_str(text);
                Response::Done
            }
            Request::PrintErr(text) => {
                self.err.push_str(text);
                Response::Done
            }
            Request::Run { cmd, args, stdin, .. } => self.run(cmd, args, stdin),
            Request::IsExecutable(path) => Response::Flag(matches!(
                path.as_str(),
                "/bin/echo" | "/bin/true" | "/bin/false" | "/usr/bin/wc" | "/bin/cat"
            )),
            Request::CurrentDir => Response::Text(self.cwd.clone()),
            Request::ChangeDir(path) => {
                if path.starts_with('/') && !path.contains("nonexistent") {
                    self.cwd = path.clone();
                    Response::Done
                } else {
                    Response::Failed("No such file or directory (os error 2)".to_string())
                }
            }
            Request::EnvVar(name) => match self.var(name) {
                Some(value) => Response::Text(value),
                None => Response::Missing,
            },
            Request::SetEnv { key, value } => {
                self.set_var(key, value);
                Response::Done
            }
            Request::UnsetEnv(name) => {
                self.env.retain(|(k, _)| k != name);
                Response::Done
            }
            Request::EnvVars => Response::Pairs(self.env.clone()),
            Request::ReadDir(dir) => {
                if dir == "." {
                    Response::Names(vec![
                        "notes.txt".to_string(),
                        "main.rs".to_string(),
                        "lib.rs".to_string(),
                    ])
                } else {
                    Response::Failed("No such file or directory (os error 2)".to_string())
                }
            }
            Request::WriteFile { path, data, append } => {
                let old = self.files.iter().position(|(p, _)| p == path);
                match (old, append) {
                    (Some(i), true) => self.files[i].1.push_str(data),
                    (Some(i), false) => self.files[i].1 = data.clone(),
                    (None, _) => self.files.push((path.clone(), data.clone())),
                }
                Response::Done
            }
        }
    }

    /// Serves the interpreter until it has nothing left to do.
    fn serve(&mut self, state: &mut State, started: Result<(), String>) -> Result<(), String> {
        let mut result = started;
        loop {
            if result.is_err() {
                return result;
            }
            match status(state) {
                Status::Idle => return result,
                Status::Runnable => result = run(state, 100000),
                Status::Waiting => {
                    let response = self.perform(state.request.as_ref().unwrap());
                    result = resume(state, response);
                }
            }
        }
    }
}

/// Runs a word and lets a world of its own serve the interpreter until it
/// is idle.
fn serve(s: &mut State, word: fn(&mut State) -> Result<(), String>) -> Result<(), String> {
    let started = word(s);
    World::new().serve(s, started)
}

fn new_state() -> State {
    let mut s = State::new();
    builtins::register_builtins(&mut s);
    s
}

#[test]
fn test_exec_echo() {
    let mut s = new_state();
    s.stack.push(Value::Str("hello".into()));
    s.stack.push(Value::Str("/bin/echo".into()));
    serve(&mut s, exec_word).unwrap();
    assert_eq!(s.last_exit_code, 0);
    match &s.stack[0] {
        Value::Output(out) => assert_eq!(out.trim(), "hello"),
        other => panic!("expected Output, got {:?}", other),
    }
}

#[test]
fn test_exec_with_stdin() {
    let mut s = new_state();
    s.stack.push(Value::Output("hello world\n".into()));
    s.stack.push(Value::Str("-c".into()));
    s.stack.push(Value::Str("/usr/bin/wc".into()));
    serve(&mut s, exec_word).unwrap();
    assert_eq!(s.last_exit_code, 0);
    // wc -c counts bytes: "hello world\n" = 12
    match &s.stack[0] {
        Value::Output(out) => {
            let n: i64 = out.trim().parse().unwrap();
            assert_eq!(n, 12);
        }
        other => panic!("expected Output, got {:?}", other),
    }
}

#[test]
fn test_exec_not_found() {
    let mut s = new_state();
    s.stack.push(Value::Str("/nonexistent/binary".into()));
    assert!(serve(&mut s, exec_word).is_err());
    assert_eq!(s.last_exit_code, 127);
}

#[test]
fn test_exec_underflow() {
    let mut s = new_state();
    assert!(serve(&mut s, exec_word).is_err());
}

#[test]
fn test_exit_code() {
    let mut s = new_state();
    s.last_exit_code = 42;
    exit_code(&mut s).unwrap();
    assert_eq!(s.stack, vec![Value::Int(42)]);
}

#[test]
fn test_exit_code_after_failure() {
    let mut s = new_state();
    s.stack.push(Value::Str("/bin/false".into()));
    serve(&mut s, exec_word).unwrap();
    s.stack.clear();
    exit_code(&mut s).unwrap();
    assert_eq!(s.stack, vec![Value::Int(1)]);
}

#[test]
fn test_cd_underflow() {
    let mut s = new_state();
    assert!(serve(&mut s, cd).is_err());
}

#[test]
fn test_cd_bad_type() {
    let mut s = new_state();
    s.stack.push(Value::Int(42));
    assert!(serve(&mut s, cd).is_err());
}


#[test]
fn test_exec_depth_limit() {
    let mut s = new_state();
    // Stack: "extra" "hello" then depth=1 then cmd
    s.stack.push(Value::Str("extra".into()));
    s.stack.push(Value::Str("hello".into()));
    s.stack.push(Value::Int(1)); // depth limit: take only 1 arg
    s.stack.push(Value::Str("/bin/echo".into()));
    serve(&mut s, exec_word).unwrap();
    // "extra" should remain on stack, only "hello" consumed
    assert_eq!(s.stack.len(), 2); // remaining "extra" + Output
    assert_eq!(s.stack[0], Value::Str("extra".into()));
    match &s.stack[1] {
        Value::Output(out) => assert_eq!(out.trim(), "hello"),
        other => panic!("expected Output, got {:?}", other),
    }
}

// ===== Environment variable tests =====

#[test]
fn test_getenv_existing() {
    let mut s = new_state();
    // HOME is always set
    s.stack.push(Value::Str("HOME".into()));
    serve(&mut s, getenv).unwrap();
    assert_eq!(s.stack.len(), 1);
    match &s.stack[0] {
        Value::Str(v) => assert!(!v.is_empty()),
        other => panic!("expected Str, got {:?}", other),
    }
}

#[test]
fn test_getenv_nonexistent() {
    let mut s = new_state();
    s.stack.push(Value::Str("YAFSH_TEST_NONEXISTENT_VAR".into()));
    serve(&mut s, getenv).unwrap();
    assert_eq!(s.stack, vec![Value::Str("".into())]);
}

#[test]
fn test_getenv_underflow() {
    let mut s = new_state();
    assert!(serve(&mut s, getenv).is_err());
}

#[test]
fn test_getenv_wrong_type() {
    let mut s = new_state();
    s.stack.push(Value::Int(42));
    assert!(serve(&mut s, getenv).is_err());
}


#[test]
fn test_setenv_underflow() {
    let mut s = new_state();
    s.stack.push(Value::Str("value".into()));
    assert!(serve(&mut s, setenv).is_err());
}


#[test]
fn test_unsetenv_underflow() {
    let mut s = new_state();
    assert!(serve(&mut s, unsetenv).is_err());
}



#[test]
fn test_env_all() {
    let mut s = new_state();
    serve(&mut s, env_all).unwrap();
    // Should push at least one env var
    assert!(!s.stack.is_empty());
    // All entries should be Str and contain '='
    for val in &s.stack {
        match val {
            Value::Str(entry) => assert!(entry.contains('=')),
            other => panic!("expected Str, got {:?}", other),
        }
    }
}

// ===== pushd/popd tests =====


#[test]
fn test_pushd_underflow() {
    let mut s = new_state();
    assert!(serve(&mut s, pushd).is_err());
}

#[test]
fn test_pushd_wrong_type() {
    let mut s = new_state();
    s.stack.push(Value::Int(42));
    assert!(serve(&mut s, pushd).is_err());
}

#[test]
fn test_popd_empty_stack() {
    let mut s = new_state();
    assert!(serve(&mut s, popd).is_err());
}

#[test]
fn test_expand_tilde() {
    let home = World::new().var("HOME").unwrap();
    assert_eq!(expand_tilde("~/foo", Some(&home)), format!("{}/foo", home));
    assert_eq!(expand_tilde("/abs/path", Some(&home)), "/abs/path");
    assert_eq!(expand_tilde("relative", Some(&home)), "relative");
}

#[test]
fn test_setenv_and_getenv() {
    let mut world = World::new();
    let mut s = new_state();
    s.stack.push(Value::Str("test_value_42".into()));
    s.stack.push(Value::Str("YAFSH_TEST_SET".into()));
    let started = setenv(&mut s);
    world.serve(&mut s, started).unwrap();
    assert!(s.stack.is_empty());

    s.stack.push(Value::Str("YAFSH_TEST_SET".into()));
    let started = getenv(&mut s);
    world.serve(&mut s, started).unwrap();
    assert_eq!(s.stack, vec![Value::Str("test_value_42".into())]);
}

#[test]
fn test_unsetenv() {
    let mut world = World::new();
    let mut s = new_state();
    world.set_var("YAFSH_TEST_UNSET", "temp");
    s.stack.push(Value::Str("YAFSH_TEST_UNSET".into()));
    let started = unsetenv(&mut s);
    world.serve(&mut s, started).unwrap();
    assert!(world.var("YAFSH_TEST_UNSET").is_none());
}

#[test]
fn test_env_append() {
    let mut world = World::new();
    let mut s = new_state();
    world.set_var("YAFSH_TEST_APPEND", "a");
    s.stack.push(Value::Str("b".into()));
    s.stack.push(Value::Str("YAFSH_TEST_APPEND".into()));
    let started = env_append(&mut s);
    world.serve(&mut s, started).unwrap();
    assert_eq!(world.var("YAFSH_TEST_APPEND").unwrap(), "a:b");
}

#[test]
fn test_env_prepend() {
    let mut world = World::new();
    let mut s = new_state();
    world.set_var("YAFSH_TEST_PREPEND", "a");
    s.stack.push(Value::Str("b".into()));
    s.stack.push(Value::Str("YAFSH_TEST_PREPEND".into()));
    let started = env_prepend(&mut s);
    world.serve(&mut s, started).unwrap();
    assert_eq!(world.var("YAFSH_TEST_PREPEND").unwrap(), "b:a");
}

#[test]
fn test_pushd_popd_round_trip() {
    let mut world = World::new();
    let mut s = new_state();
    let original = world.cwd.clone();

    s.stack.push(Value::Str("/tmp".into()));
    let started = pushd(&mut s);
    world.serve(&mut s, started).unwrap();
    assert_eq!(world.cwd, "/tmp");
    assert_eq!(s.dir_stack.len(), 1);

    let started = popd(&mut s);
    world.serve(&mut s, started).unwrap();
    assert_eq!(world.cwd, original);
    assert!(s.dir_stack.is_empty());
}

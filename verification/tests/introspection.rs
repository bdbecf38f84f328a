use yafsh::builtins;
use yafsh::builtins::introspection::{
    dollar_basename, dollar_cwd, dollar_exitcode, dollar_gitbranch, dollar_hostname, dollar_in,
    dollar_out, dollar_stack, dollar_time, dollar_username, help, see, words,
};
use yafsh::host::{Request, Response};
use yafsh::machine::{resume, run, status, Status};
use yafsh::types::{State, Value, Word};

/// A small world in memory that stands in for the system: a few commands
/// known by their paths, a working directory, variables and files.
struct World {
    env: Vec<(String, String)>,
    cwd: String,
    files: Vec<(String, String)>,
    out: String,
    err: String,
}

impl World {
    fn new() -> World {
        World {
            env: vec![
                ("HOME".to_string(), "/home/tester".to_string()),
                ("PATH".to_string(), "/usr/bin:/bin".to_string()),
                ("USER".to_string(), "tester".to_string()),
            ],
            cwd: "/home/tester/work".to_string(),
            files: Vec::new(),
            out: String::new(),
            err: String::new(),
        }
    }

    fn var(&self, name: &str) -> Option<String> {
        self.env.iter().find(|(k, _)| k == name).map(|(_, v)| v.clone())
    }

    fn set_var(&mut self, name: &str, value: &str) {
        self.env.retain(|(k, _)| k != name);
        self.env.push((name.to_string(), value.to_string()));
    }

    fn run(&self, cmd: &str, args: &[String], stdin: &Option<String>) -> Response {
        let input = stdin.clone().unwrap_or_default();
        let (stdout, code) = match cmd {
            "/bin/echo" | "/usr/bin/echo" => (format!("{}\n", args.join(" ")), 0),
            "/bin/true" => (String::new(), 0),
            "/bin/false" => (String::new(), 1),
            "/usr/bin/wc" => (format!("{}\n", input.len()), 0),
            "/bin/cat" => (input, 0),
            "hostname" => ("testhost\n".to_string(), 0),
            "date" => ("12:34\n".to_string(), 0),
            "git" => ("main\n".to_string(), 0),
            _ => return Response::Failed("No such file or directory (os error 2)".to_string()),
        };
        Response::Ran { stdout, code: Some(code) }
    }

    fn perform(&mut self, request: &Request) -> Response {
        match request {
            Request::Print(text) => {
                self.out.push_str(text);
                Response::Done
            }
            Request::PrintErr(text) => {
                self.err.push_str(text);
                Response::Done
            }
            Request::Run { cmd, args, stdin, .. } => self.run(cmd, args, stdin),
            Request::IsExecutable(path) => Response::Flag(matches!(
                path.as_str(),
                "/bin/echo" | "/bin/true" | "/bin/false" | "/usr/bin/wc" | "/bin/cat"
            )),
            Request::CurrentDir => Response::Text(self.cwd.clone()),
            Request::ChangeDir(path) => {
                if path.starts_with('/') && !path.contains("nonexistent") {
                    self.cwd = path.clone();
                    Response::Done
                } else {
                    Response::Failed("No such file or directory (os error 2)".to_string())
                }
            }
            Request::EnvVar(name) => match self.var(name) {
                Some(value) => Response::Text(value),
                None => Response::Missing,
            },
            Request::SetEnv { key, value } => {
                self.set_var(key, value);
                Response::Done
            }
            Request::UnsetEnv(name) => {
                self.env.retain(|(k, _)| k != name);
                Response::Done
            }
            Request::EnvVars => Response::Pairs(self.env.clone()),
            Request::ReadDir(dir) => {
                if dir == "." {
                    Response::Names(vec![
                        "notes.txt".to_string(),
                        "main.rs".to_string(),
                        "lib.rs".to_string(),
                    ])
                } else {
                    Response::Failed("No such file or directory (os error 2)".to_string())
                }
            }
            Request::WriteFile { path, data, append } => {
                let old = self.files.iter().position(|(p, _)| p == path);
                match (old, append) {
                    (Some(i), true) => self.files[i].1.push_str(data),
                    (Some(i), false) => self.files[i].1 = data.clone(),
                    (None, _) => self.files.push((path.clone(), data.clone())),
                }
                Response::Done
            }
        }
    }

    /// Serves the interpreter until it has nothing left to do.
    fn serve(&mut self, state: &mut State, started: Result<(), String>) -> Result<(), String> {
        let mut result = started;
        loop {
            if result.is_err() {
                return result;
            }
            match status(state) {
                Status::Idle => return result,
                Status::Runnable => result = run(state, 100000),
                Status::Waiting => {
                    let response = self.perform(state.request.as_ref().unwrap());
                    result = resume(state, response);
                }
            }
        }
    }
}

/// Runs a word and lets a world of its own serve the interpreter until it
/// is idle.
fn serve(s: &mut State, word: fn(&mut State) -> Result<(), String>) -> Result<(), String> {
    let started = word(s);
    World::new().serve(s, started)
}

fn new_state() -> State {
    let mut s = State::new();
    builtins::register_builtins(&mut s);
    s
}

#[test]
fn test_words_runs_without_error() {
    let mut s = new_state();
    serve(&mut s, words).unwrap();
    // Stack should be unmodified
    assert!(s.stack.is_empty());
}

#[test]
fn test_help_runs_without_error() {
    let mut s = new_state();
    serve(&mut s, help).unwrap();
    assert!(s.stack.is_empty());
}

#[test]
fn test_see_builtin_with_doc() {
    let mut s = new_state();
    s.stack.push(Value::Str("dup".into()));
    serve(&mut s, see).unwrap();
    assert!(s.stack.is_empty());
}

#[test]
fn test_see_defined_word() {
    let mut s = new_state();
    s.dict.insert(
        "greet".to_string(),
        Word::Defined(vec!["\"hello\"".to_string()]),
    );
    s.stack.push(Value::Str("greet".into()));
    serve(&mut s, see).unwrap();
    assert!(s.stack.is_empty());
}

#[test]
fn test_see_undefined() {
    let mut s = new_state();
    s.stack.push(Value::Str("nonexistent".into()));
    serve(&mut s, see).unwrap(); // Should not error, just print "not defined"
    assert!(s.stack.is_empty());
}

#[test]
fn test_see_underflow() {
    let mut s = new_state();
    assert!(serve(&mut s, see).is_err());
}

#[test]
fn test_see_wrong_type() {
    let mut s = new_state();
    s.stack.push(Value::Int(42));
    assert!(serve(&mut s, see).is_err());
}

// ===== Prompt helper tests =====

#[test]
fn test_dollar_stack_empty() {
    let mut s = new_state();
    dollar_stack(&mut s).unwrap();
    assert_eq!(s.stack, vec![Value::Str("".into())]);
}

#[test]
fn test_dollar_stack_inputs_only() {
    let mut s = new_state();
    s.stack.push(Value::Int(1));
    s.stack.push(Value::Str("x".into()));
    dollar_stack(&mut s).unwrap();
    // 2 inputs, then the result string
    assert_eq!(s.stack.len(), 3);
    assert_eq!(s.stack[2], Value::Str("[2]".into()));
}

#[test]
fn test_dollar_stack_outputs_only() {
    let mut s = new_state();
    s.stack.push(Value::Output("data".into()));
    dollar_stack(&mut s).unwrap();
    assert_eq!(s.stack.len(), 2);
    assert_eq!(s.stack[1], Value::Str("[:1]".into()));
}

#[test]
fn test_dollar_stack_mixed() {
    let mut s = new_state();
    s.stack.push(Value::Int(1));
    s.stack.push(Value::Output("data".into()));
    dollar_stack(&mut s).unwrap();
    assert_eq!(s.stack.len(), 3);
    assert_eq!(s.stack[2], Value::Str("[1:1]".into()));
}

#[test]
fn test_dollar_in() {
    let mut s = new_state();
    s.stack.push(Value::Int(1));
    s.stack.push(Value::Str("x".into()));
    s.stack.push(Value::Output("data".into()));
    dollar_in(&mut s).unwrap();
    assert_eq!(s.stack.len(), 4);
    assert_eq!(s.stack[3], Value::Int(2));
}

#[test]
fn test_dollar_out() {
    let mut s = new_state();
    s.stack.push(Value::Output("data".into()));
    dollar_out(&mut s).unwrap();
    assert_eq!(s.stack.len(), 2);
    assert_eq!(s.stack[1], Value::Int(1));
}

#[test]
fn test_dollar_cwd() {
    let mut s = new_state();
    serve(&mut s, dollar_cwd).unwrap();
    assert_eq!(s.stack.len(), 1);
    match &s.stack[0] {
        Value::Str(v) => assert!(!v.is_empty()),
        other => panic!("expected Str, got {:?}", other),
    }
}

#[test]
fn test_dollar_basename() {
    let mut s = new_state();
    serve(&mut s, dollar_basename).unwrap();
    assert_eq!(s.stack.len(), 1);
    match &s.stack[0] {
        Value::Str(v) => assert!(!v.is_empty()),
        other => panic!("expected Str, got {:?}", other),
    }
}

#[test]
fn test_dollar_username() {
    let mut s = new_state();
    serve(&mut s, dollar_username).unwrap();
    assert_eq!(s.stack.len(), 1);
    match &s.stack[0] {
        Value::Str(v) => assert!(!v.is_empty()),
        other => panic!("expected Str, got {:?}", other),
    }
}

#[test]
fn test_dollar_exitcode() {
    let mut s = new_state();
    s.last_exit_code = 42;
    dollar_exitcode(&mut s).unwrap();
    assert_eq!(s.stack, vec![Value::Str("42".into())]);
}

#[test]
fn test_dollar_exitcode_zero() {
    let mut s = new_state();
    dollar_exitcode(&mut s).unwrap();
    assert_eq!(s.stack, vec![Value::Str("0".into())]);
}

#[test]
fn test_dollar_gitbranch() {
    let mut s = new_state();
    // Just verify it runs without error (may or may not be in a git repo)
    serve(&mut s, dollar_gitbranch).unwrap();
    assert_eq!(s.stack.len(), 1);
}

#[test]
fn test_dollar_hostname() {
    let mut s = new_state();
    serve(&mut s, dollar_hostname).unwrap();
    assert_eq!(s.stack.len(), 1);
    match &s.stack[0] {
        Value::Str(v) => assert!(!v.is_empty()),
        other => panic!("expected Str, got {:?}", other),
    }
}

#[test]
fn test_dollar_time() {
    let mut s = new_state();
    serve(&mut s, dollar_time).unwrap();
    assert_eq!(s.stack.len(), 1);
    match &s.stack[0] {
        Value::Str(v) => {
            // Should match HH:MM pattern
            assert!(v.contains(':'), "time should contain colon: {}", v);
        }
        other => panic!("expected Str, got {:?}", other),
    }
}

#[test]
fn test_dollar_stack_uses_original_during_prompt_eval() {
    let mut s = new_state();
    // Simulate prompt evaluation: real stack has 3 items
    s.prompt_eval_original_stack = Some(vec![
        Value::Int(1),
        Value::Int(2),
        Value::Output("x".into()),
    ]);
    // Current stack is empty (cleared for prompt eval)
    dollar_stack(&mut s).unwrap();
    assert_eq!(s.stack, vec![Value::Str("[2:1]".into())]);
}

#[test]
fn test_dollar_in_uses_original_during_prompt_eval() {
    let mut s = new_state();
    s.prompt_eval_original_stack = Some(vec![Value::Int(1), Value::Str("x".into())]);
    dollar_in(&mut s).unwrap();
    assert_eq!(s.stack, vec![Value::Int(2)]);
}

#[test]
fn test_dollar_out_uses_original_during_prompt_eval() {
    let mut s = new_state();
    s.prompt_eval_original_stack = Some(vec![Value::Output("data".into())]);
    dollar_out(&mut s).unwrap();
    assert_eq!(s.stack, vec![Value::Int(1)]);
}

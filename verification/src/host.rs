//! The boundary to the outside world.
//!
//! The interpreter never touches the filesystem, the environment or a process.
//! Where a word needs one of them, evaluation stops with a [`Request`] in the
//! state; the host performs it and hands a [`Response`] to
//! [`crate::machine::resume`].

use vstd::prelude::*;

verus! {

/// What the host is asked to do.
#[derive(Debug, PartialEq)]
pub enum Request {
    /// Write the text to standard output.
    Print(String),
    /// Write the text to standard error.
    PrintErr(String),
    /// Run a command with arguments, feeding `stdin` to it if there is one,
    /// and capture its standard output. With `quiet`, its standard error is
    /// captured and dropped instead of being shown.
    Run { cmd: String, args: Vec<String>, stdin: Option<String>, quiet: bool },
    /// Is there an executable file at this path?
    IsExecutable(String),
    /// The current working directory.
    CurrentDir,
    /// Change the current working directory.
    ChangeDir(String),
    /// The value of an environment variable.
    EnvVar(String),
    /// Set an environment variable.
    SetEnv { key: String, value: String },
    /// Remove an environment variable.
    UnsetEnv(String),
    /// All environment variables.
    EnvVars,
    /// The names of the entries of a directory.
    ReadDir(String),
    /// Write `data` to the file at `path`, after what it holds (`append`) or
    /// in place of it.
    WriteFile { path: String, data: String, append: bool },
}

/// The model of a [`Request`].
pub enum RequestModel {
    Print(Seq<char>),
    PrintErr(Seq<char>),
    Run { cmd: Seq<char>, args: Seq<Seq<char>>, stdin: Option<Seq<char>>, quiet: bool },
    IsExecutable(Seq<char>),
    CurrentDir,
    ChangeDir(Seq<char>),
    EnvVar(Seq<char>),
    SetEnv { key: Seq<char>, value: Seq<char> },
    UnsetEnv(Seq<char>),
    EnvVars,
    ReadDir(Seq<char>),
    WriteFile { path: Seq<char>, data: Seq<char>, append: bool },
}

impl DeepView for Request {
    type V = RequestModel;

    open spec fn deep_view(&self) -> RequestModel {
        match self {
            Request::Print(s) => RequestModel::Print(s@),
            Request::PrintErr(s) => RequestModel::PrintErr(s@),
            Request::Run { cmd, args, stdin, quiet } => RequestModel::Run {
                cmd: cmd@,
                args: args.deep_view(),
                stdin: stdin.deep_view(),
                quiet: *quiet,
            },
            Request::IsExecutable(s) => RequestModel::IsExecutable(s@),
            Request::CurrentDir => RequestModel::CurrentDir,
            Request::ChangeDir(s) => RequestModel::ChangeDir(s@),
            Request::EnvVar(s) => RequestModel::EnvVar(s@),
            Request::SetEnv { key, value } => RequestModel::SetEnv { key: key@, value: value@ },
            Request::UnsetEnv(s) => RequestModel::UnsetEnv(s@),
            Request::EnvVars => RequestModel::EnvVars,
            Request::ReadDir(s) => RequestModel::ReadDir(s@),
            Request::WriteFile { path, data, append } => RequestModel::WriteFile {
                path: path@,
                data: data@,
                append: *append,
            },
        }
    }
}

impl View for Request {
    type V = RequestModel;

    open spec fn view(&self) -> RequestModel {
        self.deep_view()
    }
}

/// What the host answers.
#[derive(Debug, PartialEq)]
pub enum Response {
    /// The request was carried out and there is nothing to report.
    Done,
    /// Yes or no.
    Flag(bool),
    /// A text: a variable's value, a directory.
    Text(String),
    /// There is no such thing: the variable is not set.
    Missing,
    /// A list of names.
    Names(Vec<String>),
    /// Variables with their values.
    Pairs(Vec<(String, String)>),
    /// The command ran: what it wrote to standard output, and its exit code
    /// unless a signal ended it.
    Ran { stdout: String, code: Option<i32> },
    /// The system refused; the text is its error message.
    Failed(String),
}

/// The model of a [`Response`].
pub enum ResponseModel {
    Done,
    Flag(bool),
    Text(Seq<char>),
    Missing,
    Names(Seq<Seq<char>>),
    Pairs(Seq<(Seq<char>, Seq<char>)>),
    Ran { stdout: Seq<char>, code: Option<i32> },
    Failed(Seq<char>),
}

impl DeepView for Response {
    type V = ResponseModel;

    open spec fn deep_view(&self) -> ResponseModel {
        match self {
            Response::Done => ResponseModel::Done,
            Response::Flag(b) => ResponseModel::Flag(*b),
            Response::Text(s) => ResponseModel::Text(s@),
            Response::Missing => ResponseModel::Missing,
            Response::Names(v) => ResponseModel::Names(v.deep_view()),
            Response::Pairs(v) => ResponseModel::Pairs(v.deep_view()),
            Response::Ran { stdout, code } => ResponseModel::Ran { stdout: stdout@, code: *code },
            Response::Failed(s) => ResponseModel::Failed(s@),
        }
    }
}

impl View for Response {
    type V = ResponseModel;

    open spec fn view(&self) -> ResponseModel {
        self.deep_view()
    }
}

/// Why a request did not get the answer it was made for: the system's
/// message if it refused, and otherwise that the answer is of the wrong kind.
pub open spec fn why(response: ResponseModel) -> Seq<char> {
    match response {
        ResponseModel::Failed(e) => e,
        _ => "unexpected answer from the host"@,
    }
}

/// The reason that goes with an answer that is not the one asked for.
pub fn reason(response: Response) -> (r: String)
    ensures
        r@ == why(response@),
{
    match response {
        Response::Failed(e) => e,
        _ => "unexpected answer from the host".to_string(),
    }
}

impl Clone for Request {
    fn clone(&self) -> (r: Request)
        ensures
            r@ == self@,
    {
        match self {
            Request::Print(s) => Request::Print(s.clone()),
            Request::PrintErr(s) => Request::PrintErr(s.clone()),
            Request::Run { cmd, args, stdin, quiet } => Request::Run {
                cmd: cmd.clone(),
                args: crate::text::copy_strings(args),
                stdin: match stdin {
                    Some(data) => Some(data.clone()),
                    None => None,
                },
                quiet: *quiet,
            },
            Request::IsExecutable(s) => Request::IsExecutable(s.clone()),
            Request::CurrentDir => Request::CurrentDir,
            Request::ChangeDir(s) => Request::ChangeDir(s.clone()),
            Request::EnvVar(s) => Request::EnvVar(s.clone()),
            Request::SetEnv { key, value } => Request::SetEnv {
                key: key.clone(),
                value: value.clone(),
            },
            Request::UnsetEnv(s) => Request::UnsetEnv(s.clone()),
            Request::EnvVars => Request::EnvVars,
            Request::ReadDir(s) => Request::ReadDir(s.clone()),
            Request::WriteFile { path, data, append } => Request::WriteFile {
                path: path.clone(),
                data: data.clone(),
                append: *append,
            },
        }
    }
}

/// A copy of a list of variables with their values.
pub fn copy_pairs(v: &[(String, String)]) -> (r: Vec<(String, String)>)
    ensures
        r.deep_view() == v.deep_view(),
{
    let mut r: Vec<(String, String)> = Vec::new();
    let mut i: usize = 0;
    while i < v.len()
        invariant
            i <= v.len(),
            r.len() == i,
            forall|k: int| 0 <= k < i ==> r@[k].0@ == v@[k].0@ && r@[k].1@ == v@[k].1@,
        decreases v.len() - i,
    {
        r.push((v[i].0.clone(), v[i].1.clone()));
        i = i + 1;
    }
    assert(r.deep_view() =~= v.deep_view());
    r
}

impl Clone for Response {
    fn clone(&self) -> (r: Response)
        ensures
            r@ == self@,
    {
        match self {
            Response::Done => Response::Done,
            Response::Flag(b) => Response::Flag(*b),
            Response::Text(s) => Response::Text(s.clone()),
            Response::Missing => Response::Missing,
            Response::Names(v) => Response::Names(crate::text::copy_strings(v)),
            Response::Pairs(v) => Response::Pairs(copy_pairs(v)),
            Response::Ran { stdout, code } => Response::Ran { stdout: stdout.clone(), code: *code },
            Response::Failed(s) => Response::Failed(s.clone()),
        }
    }
}

} // verus!

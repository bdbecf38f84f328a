//! The data model of the interpreter: stack values, dictionary words, loop
//! and control-flow records, and the interpreter state that ties them together.
//!
//! Each executable type has a mathematical model (`...Model`) in which strings
//! are `Seq<char>` and vectors are `Seq`. Contracts speak of the models.

use vstd::prelude::*;
use crate::host::{Request, RequestModel};
use crate::machine::{frame_of, Task, TaskModel, Wait, WaitModel};
use crate::text::{format_int, int_text};

verus! {

/// What a word that needs the host reports while an earlier request is
/// still unanswered.
pub open spec fn busy(op: Seq<char>) -> Seq<char> {
    op + ": a request to the host is pending"@
}

/// What a failed operation reports, as seen by contracts.
pub type Outcome = Result<(), Seq<char>>;

/// The model of an executable result.
pub open spec fn outcome(r: Result<(), String>) -> Outcome {
    match r {
        Ok(_) => Ok(()),
        Err(e) => Err(e@),
    }
}

// ---------------------------------------------------------------------------
// Values
// ---------------------------------------------------------------------------

/// Core value types on the stack.
#[derive(Debug, PartialEq)]
pub enum Value {
    /// User input, command arguments
    Str(String),
    /// Integer value
    Int(i64),
    /// Output from a shell command (pipes to the next command as stdin)
    Output(String),
}

/// The model of a [`Value`].
pub enum ValueModel {
    Str(Seq<char>),
    Int(i64),
    Output(Seq<char>),
}

impl DeepView for Value {
    type V = ValueModel;

    open spec fn deep_view(&self) -> ValueModel {
        match self {
            Value::Str(s) => ValueModel::Str(s@),
            Value::Int(n) => ValueModel::Int(*n),
            Value::Output(s) => ValueModel::Output(s@),
        }
    }
}

impl View for Value {
    type V = ValueModel;

    open spec fn view(&self) -> ValueModel {
        self.deep_view()
    }
}

impl ValueModel {
    /// The text that printing the value shows.
    pub open spec fn text(self) -> Seq<char> {
        match self {
            ValueModel::Str(s) => s,
            ValueModel::Int(n) => int_text(n as int),
            ValueModel::Output(s) => s,
        }
    }
}

impl Clone for Value {
    fn clone(&self) -> (r: Value)
        ensures
            r@ == self@,
    {
        match self {
            Value::Str(s) => Value::Str(s.clone()),
            Value::Int(n) => Value::Int(*n),
            Value::Output(s) => Value::Output(s.clone()),
        }
    }
}

impl Value {
    /// The text that printing the value shows: a string or an output as it is,
    /// an integer in decimal.
    pub fn to_string(&self) -> (r: String)
        ensures
            r@ == self@.text(),
    {
        match self {
            Value::Str(s) => s.clone(),
            Value::Int(n) => format_int(*n),
            Value::Output(s) => s.clone(),
        }
    }
}

/// The value stack: the top is the end.
pub type Stack = Vec<Value>;

/// A copy of a list of values.
pub fn copy_values(v: &Vec<Value>) -> (r: Vec<Value>)
    ensures
        r.deep_view() == v.deep_view(),
{
    let mut r: Vec<Value> = Vec::new();
    let mut i: usize = 0;
    while i < v.len()
        invariant
            i <= v.len(),
            r.len() == i,
            forall|k: int| 0 <= k < i ==> r@[k]@ == v@[k]@,
        decreases v.len() - i,
    {
        r.push(v[i].clone());
        i = i + 1;
    }
    assert(r.deep_view() =~= v.deep_view());
    r
}

// ---------------------------------------------------------------------------
// Words
// ---------------------------------------------------------------------------

/// The native operations. Each names one function of `builtins`.
#[derive(Clone, Copy, Debug, PartialEq, Eq, Structural)]
pub enum Builtin {
    Dup,
    Swap,
    Drop,
    Clear,
    Over,
    Rot,
    Dot,
    Type,
    DotS,
    ToOutput,
    ToString,
    WriteFile,
    AppendFile,
    Exec,
    ExitCode,
    Cd,
    Getenv,
    Setenv,
    Unsetenv,
    EnvAppend,
    EnvPrepend,
    Env,
    Pushd,
    Popd,
    Add,
    Sub,
    Mul,
    Div,
    Mod,
    DivMod,
    MulDiv,
    Eq,
    Gt,
    Lt,
    Gte,
    Lte,
    Neq,
    And,
    Or,
    Not,
    Xor,
    Concat,
    CondPrefix,
    CondSuffix,
    CondWrap,
    LoopI,
    LoopJ,
    Words,
    Help,
    See,
    DollarStack,
    DollarIn,
    DollarOut,
    DollarGitbranch,
    DollarCwd,
    DollarBasename,
    DollarHostname,
    DollarUsername,
    DollarExitcode,
    DollarTime,
    Trace,
}

impl DeepView for Builtin {
    type V = Builtin;

    open spec fn deep_view(&self) -> Builtin {
        *self
    }
}

/// Word types in the dictionary.
#[derive(Debug)]
pub enum Word {
    /// Native operation with optional doc string
    Builtin(Builtin, Option<&'static str>),
    /// User-defined word (list of tokens to replay)
    Defined(Vec<String>),
    /// External shell command (cached path)
    ShellCmd(String),
}

/// The model of a [`Word`].
pub enum WordModel {
    Builtin(Builtin, Option<Seq<char>>),
    Defined(Seq<Seq<char>>),
    ShellCmd(Seq<char>),
}

impl DeepView for Word {
    type V = WordModel;

    open spec fn deep_view(&self) -> WordModel {
        match self {
            Word::Builtin(b, doc) => WordModel::Builtin(*b, doc.deep_view()),
            Word::Defined(tokens) => WordModel::Defined(tokens.deep_view()),
            Word::ShellCmd(cmd) => WordModel::ShellCmd(cmd@),
        }
    }
}

impl View for Word {
    type V = WordModel;

    open spec fn view(&self) -> WordModel {
        self.deep_view()
    }
}

impl Clone for Word {
    fn clone(&self) -> (r: Word)
        ensures
            r@ == self@,
    {
        match self {
            Word::Builtin(b, doc) => Word::Builtin(*b, *doc),
            Word::Defined(tokens) => Word::Defined(crate::text::copy_strings(tokens)),
            Word::ShellCmd(cmd) => Word::ShellCmd(cmd.clone()),
        }
    }
}

// ---------------------------------------------------------------------------
// Loop and control-flow records
// ---------------------------------------------------------------------------

/// Loop type during body collection.
#[derive(Clone, Copy, Debug, PartialEq, Eq, Structural)]
pub enum LoopType {
    BeginUntil,
    BeginWhile,
    DoLoop,
    DoPlusLoop,
}

impl DeepView for LoopType {
    type V = LoopType;

    open spec fn deep_view(&self) -> LoopType {
        *self
    }
}

/// Active loop info (for i/j index access).
#[derive(Clone, Copy, Debug, PartialEq, Eq, Structural)]
pub enum LoopInfo {
    DoCountedLoop { start: i64, limit: i64, current: i64 },
    DoPlusCountedLoop { start: i64, limit: i64, current: i64 },
    BeginUntilLoop,
    BeginWhileLoop,
}

/// Control flow target for skipping.
#[derive(Clone, Copy, Debug, PartialEq, Eq, Structural)]
pub enum SkipTarget {
    Else,
    Then,
}

/// Control flow state for if/then/else.
#[derive(Clone, Copy, Debug, PartialEq, Eq, Structural)]
pub enum ControlFlow {
    Normal,
    Skipping { target: SkipTarget, depth: usize },
}

// ---------------------------------------------------------------------------
// Dictionary
// ---------------------------------------------------------------------------

/// The dictionary: a finite map from word names to words. A name occurs at
/// most once; defining it again replaces the earlier word.
pub struct Dict {
    entries: Vec<(String, Word)>,
}

impl Dict {
    #[verifier::type_invariant]
    spec fn distinct_names(self) -> bool {
        forall|i: int, j: int|
            0 <= i < j < self.entries.len() ==> (#[trigger] self.entries[i]).0@ != (
            #[trigger] self.entries[j]).0@
    }

    spec fn holds_at(self, name: Seq<char>, i: int) -> bool {
        0 <= i < self.entries.len() && self.entries[i].0@ == name
    }

    spec fn place(self, name: Seq<char>) -> int {
        choose|i: int| self.holds_at(name, i)
    }

    /// The dictionary as a map from names to words.
    pub closed spec fn view(&self) -> Map<Seq<char>, WordModel> {
        Map::new(
            |name: Seq<char>| exists|i: int| self.holds_at(name, i),
            |name: Seq<char>| self.entries[self.place(name)].1@,
        )
    }

    /// An empty dictionary.
    pub fn new() -> (d: Dict)
        ensures
            d@ == Map::<Seq<char>, WordModel>::empty(),
    {
        let d = Dict { entries: Vec::new() };
        assert(d@ =~= Map::<Seq<char>, WordModel>::empty());
        d
    }

    fn find(&self, name: &str) -> (r: Option<usize>)
        ensures
            match r {
                Some(i) => self.holds_at(name@, i as int) && self@.contains_key(name@)
                    && self@[name@] == self.entries[i as int].1@,
                None => !self@.contains_key(name@) && forall|i: int| !self.holds_at(name@, i),
            },
    {
        proof {
            use_type_invariant(self);
        }
        let mut i: usize = 0;
        while i < self.entries.len()
            invariant
                i <= self.entries.len(),
                self.distinct_names(),
                forall|k: int| 0 <= k < i ==> !self.holds_at(name@, k),
            decreases self.entries.len() - i,
        {
            if crate::text::str_eq(self.entries[i].0.as_str(), name) {
                proof {
                    assert(self.holds_at(name@, i as int));
                    let p = self.place(name@);
                    assert(self.holds_at(name@, p));
                    if p != i {
                        if p < i {
                            assert(self.entries[p].0@ != self.entries[i as int].0@);
                        } else {
                            assert(self.entries[i as int].0@ != self.entries[p].0@);
                        }
                    }
                }
                return Some(i);
            }
            i = i + 1;
        }
        None
    }

    /// True when `name` is defined.
    pub fn contains_key(&self, name: &str) -> (r: bool)
        ensures
            r == self@.contains_key(name@),
    {
        self.find(name).is_some()
    }

    /// The word bound to `name`, if any.
    pub fn get(&self, name: &str) -> (r: Option<&Word>)
        ensures
            match r {
                Some(w) => self@.contains_key(name@) && w@ == self@[name@],
                None => !self@.contains_key(name@),
            },
    {
        match self.find(name) {
            Some(i) => Some(&self.entries[i].1),
            None => None,
        }
    }

    /// Binds `name` to `word`, replacing what the name was bound to before.
    pub fn insert(&mut self, name: String, word: Word)
        ensures
            final(self)@ == old(self)@.insert(name@, word@),
    {
        proof {
            use_type_invariant(&*self);
        }
        let ghost before = *self;
        let ghost key = name@;
        let ghost val = word@;
        let found = self.find(name.as_str());
        let mut taken = Dict { entries: Vec::new() };
        core::mem::swap(self, &mut taken);
        let Dict { entries } = taken;
        let mut entries = entries;
        assert(entries == before.entries);
        match found {
            Some(i) => {
                entries.set(i, (name, word));
            },
            None => {
                entries.push((name, word));
            },
        }
        proof {
            let n = before.entries.len() as int;
            let at = if found is Some { found->0 as int } else { n };
            assert(entries[at].0@ == key && entries[at].1@ == val);
            assert forall|a: int, b: int| 0 <= a < b < entries.len() implies (#[trigger] entries[a]).0@ != (
            #[trigger] entries[b]).0@ by {
                if a != at && b != at {
                    assert(before.entries[a].0@ != before.entries[b].0@);
                } else if a == at {
                    if before.holds_at(key, b) {
                        assert(before.entries[a].0@ != before.entries[b].0@);
                    }
                } else {
                    if a < n && before.holds_at(key, a) {
                        if found is Some {
                            assert(before.entries[a].0@ != before.entries[b].0@);
                        }
                    }
                }
            }
        }
        let after = Dict { entries };
        proof {
            let n = before.entries.len() as int;
            let at = if found is Some { found->0 as int } else { n };
            assert forall|k: Seq<char>| #[trigger]
                after@.contains_key(k) == before@.insert(key, val).contains_key(k) by {
                if after@.contains_key(k) {
                    let j = choose|j: int| after.holds_at(k, j);
                    if j != at {
                        assert(before.holds_at(k, j));
                    }
                }
                if before@.insert(key, val).contains_key(k) {
                    if k == key {
                        assert(after.holds_at(k, at));
                    } else {
                        let j = choose|j: int| before.holds_at(k, j);
                        assert(after.holds_at(k, j));
                    }
                }
            }
            assert forall|k: Seq<char>| #[trigger] after@.contains_key(k) implies after@[k]
                == before@.insert(key, val)[k] by {
                let p = after.place(k);
                assert(after.holds_at(k, p));
                if k == key {
                    if p != at {
                        if p < at {
                            assert(after.entries[p].0@ != after.entries[at].0@);
                        } else {
                            assert(after.entries[at].0@ != after.entries[p].0@);
                        }
                    }
                } else {
                    assert(before.holds_at(k, p));
                    let q = before.place(k);
                    assert(before.holds_at(k, q));
                    if p != q {
                        if p < q {
                            assert(before.entries[p].0@ != before.entries[q].0@);
                        } else {
                            assert(before.entries[q].0@ != before.entries[p].0@);
                        }
                    }
                }
            }
            assert(after@ =~= before@.insert(key, val));
        }
        *self = after;
    }

    /// The number of words defined.
    pub fn len(&self) -> (n: usize)
        ensures
            n == self@.dom().len(),
            self@.dom().finite(),
    {
        proof {
            use_type_invariant(self);
            self.lemma_names();
        }
        self.entries.len()
    }

    /// The names held at the first `n` places, in order of definition.
    spec fn names_upto(self, n: int) -> Seq<Seq<char>> {
        Seq::new(n as nat, |i: int| self.entries[i].0@)
    }

    proof fn lemma_names(self)
        requires
            self.distinct_names(),
        ensures
            self.names_upto(self.entries.len() as int).no_duplicates(),
            self.names_upto(self.entries.len() as int).to_set() == self@.dom(),
            self@.dom().finite(),
            self@.dom().len() == self.entries.len(),
    {
        let names = self.names_upto(self.entries.len() as int);
        assert forall|i: int, j: int| 0 <= i < names.len() && 0 <= j < names.len() && i != j implies names[i]
            != names[j] by {
            if i < j {
                assert(self.entries[i].0@ != self.entries[j].0@);
            } else {
                assert(self.entries[j].0@ != self.entries[i].0@);
            }
        }
        assert forall|k: Seq<char>| names.to_set().contains(k) == self@.dom().contains(k) by {
            if names.to_set().contains(k) {
                let i = choose|i: int| 0 <= i < names.len() && names[i] == k;
                assert(self.holds_at(k, i));
            }
            if self@.dom().contains(k) {
                let i = choose|i: int| self.holds_at(k, i);
                assert(names[i] == k);
            }
        }
        assert(names.to_set() =~= self@.dom());
        names.unique_seq_to_set();
        vstd::seq_lib::seq_to_set_is_finite(names);
    }

    /// Every name defined, each once, in order of first definition.
    pub fn names(&self) -> (r: Vec<String>)
        ensures
            r.deep_view().no_duplicates(),
            r.deep_view().to_set() == self@.dom(),
    {
        proof {
            use_type_invariant(self);
        }
        let mut r: Vec<String> = Vec::new();
        let mut i: usize = 0;
        while i < self.entries.len()
            invariant
                i <= self.entries.len(),
                r.len() == i,
                forall|k: int| 0 <= k < i ==> r@[k]@ == self.entries[k].0@,
            decreases self.entries.len() - i,
        {
            r.push(self.entries[i].0.clone());
            i = i + 1;
        }
        proof {
            assert(r.deep_view() =~= self.names_upto(self.entries.len() as int));
            self.lemma_names();
        }
        r
    }
}

impl Clone for Dict {
    fn clone(&self) -> (r: Dict)
        ensures
            r@ == self@,
    {
        proof {
            use_type_invariant(self);
        }
        let mut entries: Vec<(String, Word)> = Vec::new();
        let mut i: usize = 0;
        while i < self.entries.len()
            invariant
                i <= self.entries.len(),
                entries.len() == i,
                forall|k: int|
                    0 <= k < i ==> (#[trigger] entries[k]).0@ == self.entries[k].0@ && entries[k].1@
                        == self.entries[k].1@,
            decreases self.entries.len() - i,
        {
            entries.push((self.entries[i].0.clone(), self.entries[i].1.clone()));
            i = i + 1;
        }
        proof {
            assert forall|a: int, b: int| 0 <= a < b < entries.len() implies (#[trigger] entries[a]).0@ != (
            #[trigger] entries[b]).0@ by {
                assert(self.entries[a].0@ != self.entries[b].0@);
            }
        }
        let r = Dict { entries };
        proof {
            assert forall|k: Seq<char>| #[trigger] r@.contains_key(k) == self@.contains_key(k) by {
                if r@.contains_key(k) {
                    let j = choose|j: int| r.holds_at(k, j);
                    assert(self.holds_at(k, j));
                }
                if self@.contains_key(k) {
                    let j = choose|j: int| self.holds_at(k, j);
                    assert(r.holds_at(k, j));
                }
            }
            assert forall|k: Seq<char>| #[trigger] r@.contains_key(k) implies r@[k] == self@[k] by {
                let p = r.place(k);
                assert(r.holds_at(k, p));
                assert(self.holds_at(k, p));
                let q = self.place(k);
                assert(self.holds_at(k, q));
                if p != q {
                    if p < q {
                        assert(self.entries[p].0@ != self.entries[q].0@);
                    } else {
                        assert(self.entries[q].0@ != self.entries[p].0@);
                    }
                }
            }
            assert(r@ =~= self@);
        }
        r
    }
}

// ---------------------------------------------------------------------------
// Interpreter state
// ---------------------------------------------------------------------------

/// The name that `defining` holds between `:` and the token that names the word.
pub open spec fn pending_name() -> Seq<char> {
    "UNNAMED"@
}

/// The full interpreter state.
pub struct State {
    pub stack: Stack,
    pub dict: Dict,
    /// Currently defining a word (name)
    pub defining: Option<String>,
    /// Body of word being defined (accumulated tokens)
    pub def_body: Vec<String>,
    /// Exit code of last shell command
    pub last_exit_code: i32,
    /// Control flow state for if/then/else
    pub control_flow: ControlFlow,
    /// Directory stack for pushd/popd
    pub dir_stack: Vec<String>,
    /// Stack of active loops for i/j index access
    pub loop_stack: Vec<LoopInfo>,
    /// Collecting loop body: (loop_type, body_tokens, nesting_depth)
    pub collecting_loop: Option<(LoopType, Vec<String>, usize)>,
    /// Collecting each body: (output_content, body_tokens)
    pub collecting_each: Option<(String, Vec<String>)>,
    /// Cached result of evaluating the `$prompt` word (custom prompt string)
    pub custom_prompt: Option<String>,
    /// Saved stack during prompt evaluation so $stack/$in/$out see the real stack
    pub prompt_eval_original_stack: Option<Vec<Value>>,
    /// Trace verbosity, 0 (off) to 3
    pub trace: u8,
    /// Number of the last step that was traced on the current line
    pub trace_step: usize,
    /// Work that evaluation still has to do, innermost last
    pub tasks: Vec<Task>,
    /// What the host has to do before evaluation can go on
    pub request: Option<Request>,
}

/// The model of a [`State`].
pub struct StateModel {
    pub stack: Seq<ValueModel>,
    pub dict: Map<Seq<char>, WordModel>,
    pub defining: Option<Seq<char>>,
    pub def_body: Seq<Seq<char>>,
    pub last_exit_code: i32,
    pub control_flow: ControlFlow,
    pub dir_stack: Seq<Seq<char>>,
    pub loop_stack: Seq<LoopInfo>,
    pub collecting_loop: Option<(LoopType, Seq<Seq<char>>, usize)>,
    pub collecting_each: Option<(Seq<char>, Seq<Seq<char>>)>,
    pub custom_prompt: Option<Seq<char>>,
    pub prompt_eval_original_stack: Option<Seq<ValueModel>>,
    pub trace: u8,
    pub trace_step: usize,
    pub tasks: Seq<TaskModel>,
    pub request: Option<RequestModel>,
}

impl View for State {
    type V = StateModel;

    open spec fn view(&self) -> StateModel {
        StateModel {
            stack: self.stack.deep_view(),
            dict: self.dict@,
            defining: self.defining.deep_view(),
            def_body: self.def_body.deep_view(),
            last_exit_code: self.last_exit_code,
            control_flow: self.control_flow,
            dir_stack: self.dir_stack.deep_view(),
            loop_stack: self.loop_stack@,
            collecting_loop: self.collecting_loop.deep_view(),
            collecting_each: self.collecting_each.deep_view(),
            custom_prompt: self.custom_prompt.deep_view(),
            prompt_eval_original_stack: self.prompt_eval_original_stack.deep_view(),
            trace: self.trace,
            trace_step: self.trace_step,
            tasks: self.tasks.deep_view(),
            request: self.request.deep_view(),
        }
    }
}

impl StateModel {
    /// The state at startup: everything empty, nothing pending.
    pub open spec fn initial() -> StateModel {
        StateModel {
            stack: Seq::empty(),
            dict: Map::empty(),
            defining: None,
            def_body: Seq::empty(),
            last_exit_code: 0,
            control_flow: ControlFlow::Normal,
            dir_stack: Seq::empty(),
            loop_stack: Seq::empty(),
            collecting_loop: None,
            collecting_each: None,
            custom_prompt: None,
            prompt_eval_original_stack: None,
            trace: 0,
            trace_step: 0,
            tasks: Seq::empty(),
            request: None,
        }
    }

    /// The same state with another stack.
    pub open spec fn with_stack(self, stack: Seq<ValueModel>) -> StateModel {
        StateModel { stack, ..self }
    }

    /// The state after pushing `v`.
    pub open spec fn push(self, v: ValueModel) -> StateModel {
        self.with_stack(self.stack.push(v))
    }

    /// The state after dropping the top `n` values.
    pub open spec fn drop(self, n: int) -> StateModel {
        self.with_stack(self.stack.take(self.stack.len() - n))
    }

    /// The value `k` places below the top (0 is the top).
    pub open spec fn peek(self, k: int) -> ValueModel {
        self.stack[self.stack.len() - 1 - k]
    }

    /// The state after adding a task on top of the pending work.
    pub open spec fn schedule(self, task: TaskModel) -> StateModel {
        StateModel { tasks: self.tasks.push(task), ..self }
    }

    /// The state after entering a loop body: its frame is the innermost one.
    pub open spec fn enter(self, frame: LoopInfo) -> StateModel {
        StateModel { loop_stack: self.loop_stack.push(frame), ..self }
    }

    /// The state after leaving a loop body: the innermost frame is gone.
    pub open spec fn leave(self) -> StateModel {
        StateModel {
            loop_stack: if self.loop_stack.len() > 0 {
                self.loop_stack.drop_last()
            } else {
                self.loop_stack
            },
            ..self
        }
    }

    /// The state after asking the host for something: the request is pending
    /// and what is to be done with the answer is on top of the pending work.
    pub open spec fn ask(self, request: RequestModel, wait: WaitModel) -> StateModel {
        StateModel {
            request: Some(request),
            tasks: self.tasks.push(TaskModel::Await(wait)),
            ..self
        }
    }

    /// The state after giving up all pending work: no task is left, and
    /// for each loop that was running the innermost frame is gone.
    pub open spec fn abort(self) -> StateModel
        decreases self.tasks.len(),
    {
        if self.tasks.len() == 0 {
            self
        } else {
            let rest = StateModel { tasks: self.tasks.drop_last(), ..self };
            if frame_of(self.tasks.last()) is Some {
                rest.leave().abort()
            } else {
                rest.abort()
            }
        }
    }

    /// No work is pending and nothing is asked of the host.
    pub open spec fn idle(self) -> bool {
        self.tasks.len() == 0 && self.request is None
    }
}

impl Default for State {
    fn default() -> (s: State)
        ensures
            s@ == StateModel::initial(),
    {
        State::new()
    }
}

impl State {
    /// A fresh state: everything empty, nothing pending.
    pub fn new() -> (s: State)
        ensures
            s@ == StateModel::initial(),
    {
        let s = State {
            stack: Vec::new(),
            dict: Dict::new(),
            defining: None,
            def_body: Vec::new(),
            last_exit_code: 0,
            control_flow: ControlFlow::Normal,
            dir_stack: Vec::new(),
            loop_stack: Vec::new(),
            collecting_loop: None,
            collecting_each: None,
            custom_prompt: None,
            prompt_eval_original_stack: None,
            trace: 0,
            trace_step: 0,
            tasks: Vec::new(),
            request: None,
        };
        assert(s@.stack =~= Seq::empty());
        assert(s@.def_body =~= Seq::empty());
        assert(s@.dir_stack =~= Seq::empty());
        assert(s@.tasks =~= Seq::empty());
        s
    }

    /// Pushes a value on the stack.
    pub fn push(&mut self, v: Value)
        ensures
            final(self)@ == old(self)@.push(v@),
    {
        self.stack.push(v);
        assert(self.stack.deep_view() =~= old(self).stack.deep_view().push(v@));
    }

    /// Pops the top of the stack, if there is one.
    pub fn pop(&mut self) -> (r: Option<Value>)
        ensures
            match r {
                Some(v) => old(self)@.stack.len() > 0 && v@ == old(self)@.peek(0) && final(self)@
                    == old(self)@.drop(1),
                None => old(self)@.stack.len() == 0 && final(self)@ == old(self)@,
            },
    {
        let r = self.stack.pop();
        assert(self.stack.deep_view() =~= old(self).stack.deep_view().take(
            old(self).stack.deep_view().len() - 1,
        ) || r is None);
        r
    }

    /// Enters a loop body.
    pub fn enter(&mut self, frame: LoopInfo)
        ensures
            final(self)@ == old(self)@.enter(frame),
    {
        self.loop_stack.push(frame);
    }

    /// Leaves a loop body.
    pub fn leave(&mut self)
        ensures
            final(self)@ == old(self)@.leave(),
    {
        let _ = self.loop_stack.pop();
    }

    /// Adds a task on top of the pending work.
    pub fn schedule(&mut self, task: Task)
        ensures
            final(self)@ == old(self)@.schedule(task@),
    {
        self.tasks.push(task);
        assert(self.tasks.deep_view() =~= old(self).tasks.deep_view().push(task@));
    }

    /// Asks the host for something and notes what to do with the answer.
    pub fn ask(&mut self, request: Request, wait: Wait)
        ensures
            final(self)@ == old(self)@.ask(request@, wait@),
    {
        self.request = Some(request);
        self.tasks.push(Task::Await(wait));
        assert(self.tasks.deep_view() =~= old(self).tasks.deep_view().push(TaskModel::Await(wait@)));
    }

    /// Gives up all pending work, and has the loops that were running
    /// leave their frames.
    pub fn abort(&mut self)
        ensures
            final(self)@ == old(self)@.abort(),
    {
        loop
            invariant
                self@.abort() == old(self)@.abort(),
            ensures
                self@.tasks.len() == 0,
                self@.abort() == old(self)@.abort(),
            decreases self.tasks.len(),
        {
            let ghost before = self@;
            match self.tasks.pop() {
                Some(task) => {
                    assert(self@.tasks =~= before.tasks.drop_last());
                    assert(task@ == before.tasks.last());
                    if task.runs_a_loop() {
                        self.leave();
                    }
                },
                None => {
                    break ;
                },
            }
        }
    }

    /// True when no work is pending and nothing is asked of the host.
    pub fn is_idle(&self) -> (r: bool)
        ensures
            r == self@.idle(),
    {
        self.tasks.len() == 0 && self.request.is_none()
    }
}

} // verus!

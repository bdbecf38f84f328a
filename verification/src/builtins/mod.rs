//! The native words.

pub mod computation;
pub mod introspection;
pub mod io;
pub mod stack;
pub mod system;

use vstd::prelude::*;
use crate::types::{outcome, Builtin, Outcome, State, StateModel, Word, WordModel};

verus! {

/// What each native operation does.
#[verifier::opaque]
pub open spec fn spec_run_builtin(s: StateModel, b: Builtin) -> (StateModel, Outcome) {
    match b {
        Builtin::Dup => stack::spec_dup(s),
        Builtin::Swap => stack::spec_swap(s),
        Builtin::Drop => stack::spec_drop_word(s),
        Builtin::Clear => stack::spec_clear(s),
        Builtin::Over => stack::spec_over(s),
        Builtin::Rot => stack::spec_rot(s),
        Builtin::Exec => system::spec_exec_word(s),
        Builtin::ExitCode => system::spec_exit_code(s),
        Builtin::Add => computation::spec_add(s),
        Builtin::Sub => computation::spec_sub(s),
        Builtin::Mul => computation::spec_mul(s),
        Builtin::Div => computation::spec_div(s),
        Builtin::Mod => computation::spec_mod_op(s),
        Builtin::DivMod => computation::spec_divmod(s),
        Builtin::MulDiv => computation::spec_muldiv(s),
        Builtin::Eq => computation::spec_eq(s),
        Builtin::Gt => computation::spec_gt(s),
        Builtin::Lt => computation::spec_lt(s),
        Builtin::Gte => computation::spec_gte(s),
        Builtin::Lte => computation::spec_lte(s),
        Builtin::Neq => computation::spec_neq(s),
        Builtin::And => computation::spec_bool_and(s),
        Builtin::Or => computation::spec_bool_or(s),
        Builtin::Not => computation::spec_bool_not(s),
        Builtin::Xor => computation::spec_bool_xor(s),
        Builtin::Concat => computation::spec_concat(s),
        Builtin::CondPrefix => computation::spec_cond_prefix(s),
        Builtin::CondSuffix => computation::spec_cond_suffix(s),
        Builtin::CondWrap => computation::spec_cond_wrap(s),
        Builtin::LoopI => computation::spec_loop_i(s),
        Builtin::LoopJ => computation::spec_loop_j(s),
        Builtin::Dot => io::spec_dot(s),
        Builtin::Type => io::spec_type_word(s),
        Builtin::DotS => io::spec_dot_s(s),
        Builtin::ToOutput => io::spec_to_output(s),
        Builtin::ToString => io::spec_to_string_word(s),
        Builtin::WriteFile => io::spec_write_file(s),
        Builtin::AppendFile => io::spec_append_file(s),
        Builtin::Cd => system::spec_cd(s),
        Builtin::Getenv => system::spec_getenv(s),
        Builtin::Setenv => system::spec_setenv(s),
        Builtin::Unsetenv => system::spec_unsetenv(s),
        Builtin::EnvAppend => system::spec_env_append(s),
        Builtin::EnvPrepend => system::spec_env_prepend(s),
        Builtin::Env => system::spec_env_all(s),
        Builtin::Pushd => system::spec_pushd(s),
        Builtin::Popd => system::spec_popd(s),
        Builtin::Words => introspection::spec_words(s),
        Builtin::Help => introspection::spec_help(s),
        Builtin::See => introspection::spec_see(s),
        Builtin::DollarStack => introspection::spec_dollar_stack(s),
        Builtin::DollarIn => introspection::spec_dollar_in(s),
        Builtin::DollarOut => introspection::spec_dollar_out(s),
        Builtin::DollarGitbranch => introspection::spec_dollar_gitbranch(s),
        Builtin::DollarCwd => introspection::spec_dollar_cwd(s),
        Builtin::DollarBasename => introspection::spec_dollar_basename(s),
        Builtin::DollarHostname => introspection::spec_dollar_hostname(s),
        Builtin::DollarUsername => introspection::spec_dollar_username(s),
        Builtin::DollarExitcode => introspection::spec_dollar_exitcode(s),
        Builtin::DollarTime => introspection::spec_dollar_time(s),
        Builtin::Trace => introspection::spec_trace_mode(s),
    }
}

/// Carries out a native operation.
pub fn run_builtin(state: &mut State, b: Builtin) -> (r: Result<(), String>)
    ensures
        (final(state)@, outcome(r)) == spec_run_builtin(old(state)@, b),
{
    reveal(spec_run_builtin);
    match b {
        Builtin::Dup => stack::dup(state),
        Builtin::Swap => stack::swap(state),
        Builtin::Drop => stack::drop_word(state),
        Builtin::Clear => stack::clear(state),
        Builtin::Over => stack::over(state),
        Builtin::Rot => stack::rot(state),
        Builtin::Exec => system::exec_word(state),
        Builtin::ExitCode => system::exit_code(state),
        Builtin::Add => computation::add(state),
        Builtin::Sub => computation::sub(state),
        Builtin::Mul => computation::mul(state),
        Builtin::Div => computation::div(state),
        Builtin::Mod => computation::mod_op(state),
        Builtin::DivMod => computation::divmod(state),
        Builtin::MulDiv => computation::muldiv(state),
        Builtin::Eq => computation::eq(state),
        Builtin::Gt => computation::gt(state),
        Builtin::Lt => computation::lt(state),
        Builtin::Gte => computation::gte(state),
        Builtin::Lte => computation::lte(state),
        Builtin::Neq => computation::neq(state),
        Builtin::And => computation::bool_and(state),
        Builtin::Or => computation::bool_or(state),
        Builtin::Not => computation::bool_not(state),
        Builtin::Xor => computation::bool_xor(state),
        Builtin::Concat => computation::concat(state),
        Builtin::CondPrefix => computation::cond_prefix(state),
        Builtin::CondSuffix => computation::cond_suffix(state),
        Builtin::CondWrap => computation::cond_wrap(state),
        Builtin::LoopI => computation::loop_i(state),
        Builtin::LoopJ => computation::loop_j(state),
        Builtin::Dot => io::dot(state),
        Builtin::Type => io::type_word(state),
        Builtin::DotS => io::dot_s(state),
        Builtin::ToOutput => io::to_output(state),
        Builtin::ToString => io::to_string_word(state),
        Builtin::WriteFile => io::write_file(state),
        Builtin::AppendFile => io::append_file(state),
        Builtin::Cd => system::cd(state),
        Builtin::Getenv => system::getenv(state),
        Builtin::Setenv => system::setenv(state),
        Builtin::Unsetenv => system::unsetenv(state),
        Builtin::EnvAppend => system::env_append(state),
        Builtin::EnvPrepend => system::env_prepend(state),
        Builtin::Env => system::env_all(state),
        Builtin::Pushd => system::pushd(state),
        Builtin::Popd => system::popd(state),
        Builtin::Words => introspection::words(state),
        Builtin::Help => introspection::help(state),
        Builtin::See => introspection::see(state),
        Builtin::DollarStack => introspection::dollar_stack(state),
        Builtin::DollarIn => introspection::dollar_in(state),
        Builtin::DollarOut => introspection::dollar_out(state),
        Builtin::DollarGitbranch => introspection::dollar_gitbranch(state),
        Builtin::DollarCwd => introspection::dollar_cwd(state),
        Builtin::DollarBasename => introspection::dollar_basename(state),
        Builtin::DollarHostname => introspection::dollar_hostname(state),
        Builtin::DollarUsername => introspection::dollar_username(state),
        Builtin::DollarExitcode => introspection::dollar_exitcode(state),
        Builtin::DollarTime => introspection::dollar_time(state),
        Builtin::Trace => introspection::trace_mode(state),
    }
}


/// The name under which a native operation is known.
pub open spec fn spec_name(b: Builtin) -> Seq<char> {
    match b {
        Builtin::Dup => "dup"@,
        Builtin::Swap => "swap"@,
        Builtin::Drop => "drop"@,
        Builtin::Clear => "clear"@,
        Builtin::Over => "over"@,
        Builtin::Rot => "rot"@,
        Builtin::Dot => "."@,
        Builtin::Type => "type"@,
        Builtin::DotS => ".s"@,
        Builtin::ToOutput => ">output"@,
        Builtin::ToString => ">string"@,
        Builtin::WriteFile => ">file"@,
        Builtin::AppendFile => ">>file"@,
        Builtin::Exec => "exec"@,
        Builtin::ExitCode => "?"@,
        Builtin::Cd => "cd"@,
        Builtin::Getenv => "getenv"@,
        Builtin::Setenv => "setenv"@,
        Builtin::Unsetenv => "unsetenv"@,
        Builtin::EnvAppend => "env-append"@,
        Builtin::EnvPrepend => "env-prepend"@,
        Builtin::Env => "env"@,
        Builtin::Pushd => "pushd"@,
        Builtin::Popd => "popd"@,
        Builtin::Add => "+"@,
        Builtin::Sub => "-"@,
        Builtin::Mul => "*"@,
        Builtin::Div => "/"@,
        Builtin::Mod => "mod"@,
        Builtin::DivMod => "/mod"@,
        Builtin::MulDiv => "*/"@,
        Builtin::Eq => "="@,
        Builtin::Gt => ">"@,
        Builtin::Lt => "<"@,
        Builtin::Gte => ">="@,
        Builtin::Lte => "<="@,
        Builtin::Neq => "<>"@,
        Builtin::And => "and"@,
        Builtin::Or => "or"@,
        Builtin::Not => "not"@,
        Builtin::Xor => "xor"@,
        Builtin::Concat => "concat"@,
        Builtin::CondPrefix => "?prefix"@,
        Builtin::CondSuffix => "?suffix"@,
        Builtin::CondWrap => "?wrap"@,
        Builtin::LoopI => "i"@,
        Builtin::LoopJ => "j"@,
        Builtin::Words => "words"@,
        Builtin::Help => "help"@,
        Builtin::See => "see"@,
        Builtin::DollarStack => "$stack"@,
        Builtin::DollarIn => "$in"@,
        Builtin::DollarOut => "$out"@,
        Builtin::DollarGitbranch => "$gitbranch"@,
        Builtin::DollarCwd => "$cwd"@,
        Builtin::DollarBasename => "$basename"@,
        Builtin::DollarHostname => "$hostname"@,
        Builtin::DollarUsername => "$username"@,
        Builtin::DollarExitcode => "$exitcode"@,
        Builtin::DollarTime => "$time"@,
        Builtin::Trace => "trace"@,
    }
}

/// The name under which a native operation is known.
pub fn name(b: Builtin) -> (r: &'static str)
    ensures
        r@ == spec_name(b),
{
    match b {
        Builtin::Dup => "dup",
        Builtin::Swap => "swap",
        Builtin::Drop => "drop",
        Builtin::Clear => "clear",
        Builtin::Over => "over",
        Builtin::Rot => "rot",
        Builtin::Dot => ".",
        Builtin::Type => "type",
        Builtin::DotS => ".s",
        Builtin::ToOutput => ">output",
        Builtin::ToString => ">string",
        Builtin::WriteFile => ">file",
        Builtin::AppendFile => ">>file",
        Builtin::Exec => "exec",
        Builtin::ExitCode => "?",
        Builtin::Cd => "cd",
        Builtin::Getenv => "getenv",
        Builtin::Setenv => "setenv",
        Builtin::Unsetenv => "unsetenv",
        Builtin::EnvAppend => "env-append",
        Builtin::EnvPrepend => "env-prepend",
        Builtin::Env => "env",
        Builtin::Pushd => "pushd",
        Builtin::Popd => "popd",
        Builtin::Add => "+",
        Builtin::Sub => "-",
        Builtin::Mul => "*",
        Builtin::Div => "/",
        Builtin::Mod => "mod",
        Builtin::DivMod => "/mod",
        Builtin::MulDiv => "*/",
        Builtin::Eq => "=",
        Builtin::Gt => ">",
        Builtin::Lt => "<",
        Builtin::Gte => ">=",
        Builtin::Lte => "<=",
        Builtin::Neq => "<>",
        Builtin::And => "and",
        Builtin::Or => "or",
        Builtin::Not => "not",
        Builtin::Xor => "xor",
        Builtin::Concat => "concat",
        Builtin::CondPrefix => "?prefix",
        Builtin::CondSuffix => "?suffix",
        Builtin::CondWrap => "?wrap",
        Builtin::LoopI => "i",
        Builtin::LoopJ => "j",
        Builtin::Words => "words",
        Builtin::Help => "help",
        Builtin::See => "see",
        Builtin::DollarStack => "$stack",
        Builtin::DollarIn => "$in",
        Builtin::DollarOut => "$out",
        Builtin::DollarGitbranch => "$gitbranch",
        Builtin::DollarCwd => "$cwd",
        Builtin::DollarBasename => "$basename",
        Builtin::DollarHostname => "$hostname",
        Builtin::DollarUsername => "$username",
        Builtin::DollarExitcode => "$exitcode",
        Builtin::DollarTime => "$time",
        Builtin::Trace => "trace",
    }
}

/// The doc string of a native operation.
pub open spec fn spec_doc(b: Builtin) -> Seq<char> {
    match b {
        Builtin::Dup => "( a -- a a ) Duplicate top item"@,
        Builtin::Swap => "( a b -- b a ) Swap top two items"@,
        Builtin::Drop => "( a -- ) Remove top item"@,
        Builtin::Clear => "( ... -- ) Clear entire stack"@,
        Builtin::Over => "( a b -- a b a ) Copy second item to top"@,
        Builtin::Rot => "( a b c -- b c a ) Rotate top three items"@,
        Builtin::Dot => "( a -- ) Print and remove top item with newline"@,
        Builtin::Type => "( a -- ) Print and remove top item without newline"@,
        Builtin::DotS => "( -- ) Display entire stack without modifying it"@,
        Builtin::ToOutput => "( string -- output ) Convert Str to Output for piping"@,
        Builtin::ToString => "( output/int -- string ) Convert Output or Int to Str"@,
        Builtin::WriteFile => "( content filename -- ) Write output to file"@,
        Builtin::AppendFile => "( content filename -- ) Append output to file"@,
        Builtin::Exec => "( args... cmd -- output ) Execute shell command"@,
        Builtin::ExitCode => "( -- code ) Push exit code of last command"@,
        Builtin::Cd => "( path -- ) Change directory"@,
        Builtin::Getenv => "( key -- value ) Get environment variable"@,
        Builtin::Setenv => "( value key -- ) Set environment variable"@,
        Builtin::Unsetenv => "( key -- ) Unset environment variable"@,
        Builtin::EnvAppend => "( value key -- ) Append to colon-separated env var"@,
        Builtin::EnvPrepend => "( value key -- ) Prepend to colon-separated env var"@,
        Builtin::Env => "( -- vars... ) Push all environment variables"@,
        Builtin::Pushd => "( path -- ) Push current dir and change to path"@,
        Builtin::Popd => "( -- ) Pop and change to directory from stack"@,
        Builtin::Add => "( a b -- a+b ) Add two numbers"@,
        Builtin::Sub => "( a b -- a-b ) Subtract b from a"@,
        Builtin::Mul => "( a b -- a*b ) Multiply two numbers"@,
        Builtin::Div => "( a b -- a/b ) Divide a by b"@,
        Builtin::Mod => "( a b -- a%b ) Modulo (remainder of a/b)"@,
        Builtin::DivMod => "( a b -- quot rem ) Quotient and remainder"@,
        Builtin::MulDiv => "( a b c -- (a*b)/c ) Multiply then divide"@,
        Builtin::Eq => "( a b -- flag ) Test equality (1 if equal, 0 if not)"@,
        Builtin::Gt => "( a b -- flag ) Test greater than"@,
        Builtin::Lt => "( a b -- flag ) Test less than"@,
        Builtin::Gte => "( a b -- flag ) Test greater or equal"@,
        Builtin::Lte => "( a b -- flag ) Test less or equal"@,
        Builtin::Neq => "( a b -- flag ) Test not equal"@,
        Builtin::And => "( a b -- flag ) Boolean AND"@,
        Builtin::Or => "( a b -- flag ) Boolean OR"@,
        Builtin::Not => "( a -- flag ) Boolean NOT"@,
        Builtin::Xor => "( a b -- flag ) Boolean XOR"@,
        Builtin::Concat => "( a b -- a+b ) Concatenate two strings"@,
        Builtin::CondPrefix => "( str prefix -- result ) Prepend prefix if str is not empty"@,
        Builtin::CondSuffix => "( str suffix -- result ) Append suffix if str is not empty"@,
        Builtin::CondWrap => "( str prefix suffix -- result ) Wrap str if it is not empty"@,
        Builtin::LoopI => "( -- index ) Push current loop index"@,
        Builtin::LoopJ => "( -- index ) Push outer loop index (nested loops)"@,
        Builtin::Words => "List all available words"@,
        Builtin::Help => "Show comprehensive help information"@,
        Builtin::See => "( name -- ) Show word definition or documentation"@,
        Builtin::DollarStack => "( -- str ) Push formatted [n:m] stack indicator"@,
        Builtin::DollarIn => "( -- int ) Push count of input items on the stack"@,
        Builtin::DollarOut => "( -- int ) Push count of output items on the stack"@,
        Builtin::DollarGitbranch => "( -- str ) Push current git branch name"@,
        Builtin::DollarCwd => "( -- str ) Push the current working directory"@,
        Builtin::DollarBasename => "( -- str ) Push the basename of the current working directory"@,
        Builtin::DollarHostname => "( -- str ) Push the system hostname"@,
        Builtin::DollarUsername => "( -- str ) Push the current username"@,
        Builtin::DollarExitcode => "( -- str ) Push the last exit code as a string"@,
        Builtin::DollarTime => "( -- str ) Push current time as HH:MM"@,
        Builtin::Trace => "( level -- ) Set trace verbosity level"@,
    }
}

/// The doc string of a native operation.
pub fn doc(b: Builtin) -> (r: &'static str)
    ensures
        r@ == spec_doc(b),
{
    match b {
        Builtin::Dup => "( a -- a a ) Duplicate top item",
        Builtin::Swap => "( a b -- b a ) Swap top two items",
        Builtin::Drop => "( a -- ) Remove top item",
        Builtin::Clear => "( ... -- ) Clear entire stack",
        Builtin::Over => "( a b -- a b a ) Copy second item to top",
        Builtin::Rot => "( a b c -- b c a ) Rotate top three items",
        Builtin::Dot => "( a -- ) Print and remove top item with newline",
        Builtin::Type => "( a -- ) Print and remove top item without newline",
        Builtin::DotS => "( -- ) Display entire stack without modifying it",
        Builtin::ToOutput => "( string -- output ) Convert Str to Output for piping",
        Builtin::ToString => "( output/int -- string ) Convert Output or Int to Str",
        Builtin::WriteFile => "( content filename -- ) Write output to file",
        Builtin::AppendFile => "( content filename -- ) Append output to file",
        Builtin::Exec => "( args... cmd -- output ) Execute shell command",
        Builtin::ExitCode => "( -- code ) Push exit code of last command",
        Builtin::Cd => "( path -- ) Change directory",
        Builtin::Getenv => "( key -- value ) Get environment variable",
        Builtin::Setenv => "( value key -- ) Set environment variable",
        Builtin::Unsetenv => "( key -- ) Unset environment variable",
        Builtin::EnvAppend => "( value key -- ) Append to colon-separated env var",
        Builtin::EnvPrepend => "( value key -- ) Prepend to colon-separated env var",
        Builtin::Env => "( -- vars... ) Push all environment variables",
        Builtin::Pushd => "( path -- ) Push current dir and change to path",
        Builtin::Popd => "( -- ) Pop and change to directory from stack",
        Builtin::Add => "( a b -- a+b ) Add two numbers",
        Builtin::Sub => "( a b -- a-b ) Subtract b from a",
        Builtin::Mul => "( a b -- a*b ) Multiply two numbers",
        Builtin::Div => "( a b -- a/b ) Divide a by b",
        Builtin::Mod => "( a b -- a%b ) Modulo (remainder of a/b)",
        Builtin::DivMod => "( a b -- quot rem ) Quotient and remainder",
        Builtin::MulDiv => "( a b c -- (a*b)/c ) Multiply then divide",
        Builtin::Eq => "( a b -- flag ) Test equality (1 if equal, 0 if not)",
        Builtin::Gt => "( a b -- flag ) Test greater than",
        Builtin::Lt => "( a b -- flag ) Test less than",
        Builtin::Gte => "( a b -- flag ) Test greater or equal",
        Builtin::Lte => "( a b -- flag ) Test less or equal",
        Builtin::Neq => "( a b -- flag ) Test not equal",
        Builtin::And => "( a b -- flag ) Boolean AND",
        Builtin::Or => "( a b -- flag ) Boolean OR",
        Builtin::Not => "( a -- flag ) Boolean NOT",
        Builtin::Xor => "( a b -- flag ) Boolean XOR",
        Builtin::Concat => "( a b -- a+b ) Concatenate two strings",
        Builtin::CondPrefix => "( str prefix -- result ) Prepend prefix if str is not empty",
        Builtin::CondSuffix => "( str suffix -- result ) Append suffix if str is not empty",
        Builtin::CondWrap => "( str prefix suffix -- result ) Wrap str if it is not empty",
        Builtin::LoopI => "( -- index ) Push current loop index",
        Builtin::LoopJ => "( -- index ) Push outer loop index (nested loops)",
        Builtin::Words => "List all available words",
        Builtin::Help => "Show comprehensive help information",
        Builtin::See => "( name -- ) Show word definition or documentation",
        Builtin::DollarStack => "( -- str ) Push formatted [n:m] stack indicator",
        Builtin::DollarIn => "( -- int ) Push count of input items on the stack",
        Builtin::DollarOut => "( -- int ) Push count of output items on the stack",
        Builtin::DollarGitbranch => "( -- str ) Push current git branch name",
        Builtin::DollarCwd => "( -- str ) Push the current working directory",
        Builtin::DollarBasename => "( -- str ) Push the basename of the current working directory",
        Builtin::DollarHostname => "( -- str ) Push the system hostname",
        Builtin::DollarUsername => "( -- str ) Push the current username",
        Builtin::DollarExitcode => "( -- str ) Push the last exit code as a string",
        Builtin::DollarTime => "( -- str ) Push current time as HH:MM",
        Builtin::Trace => "( level -- ) Set trace verbosity level",
    }
}

/// How many native operations a fresh interpreter knows.
pub const REGISTERED: usize = 61;

/// The native operation that is registered at place `i`.
pub open spec fn spec_registered_at(i: usize) -> Builtin {
    match i {
        0 => Builtin::Dup,
        1 => Builtin::Swap,
        2 => Builtin::Drop,
        3 => Builtin::Clear,
        4 => Builtin::Over,
        5 => Builtin::Rot,
        6 => Builtin::Dot,
        7 => Builtin::Type,
        8 => Builtin::DotS,
        9 => Builtin::ToOutput,
        10 => Builtin::ToString,
        11 => Builtin::WriteFile,
        12 => Builtin::AppendFile,
        13 => Builtin::Exec,
        14 => Builtin::ExitCode,
        15 => Builtin::Cd,
        16 => Builtin::Getenv,
        17 => Builtin::Setenv,
        18 => Builtin::Unsetenv,
        19 => Builtin::EnvAppend,
        20 => Builtin::EnvPrepend,
        21 => Builtin::Env,
        22 => Builtin::Pushd,
        23 => Builtin::Popd,
        24 => Builtin::Add,
        25 => Builtin::Sub,
        26 => Builtin::Mul,
        27 => Builtin::Div,
        28 => Builtin::Mod,
        29 => Builtin::DivMod,
        30 => Builtin::MulDiv,
        31 => Builtin::Eq,
        32 => Builtin::Gt,
        33 => Builtin::Lt,
        34 => Builtin::Gte,
        35 => Builtin::Lte,
        36 => Builtin::Neq,
        37 => Builtin::And,
        38 => Builtin::Or,
        39 => Builtin::Not,
        40 => Builtin::Xor,
        41 => Builtin::Concat,
        42 => Builtin::CondPrefix,
        43 => Builtin::CondSuffix,
        44 => Builtin::CondWrap,
        45 => Builtin::LoopI,
        46 => Builtin::LoopJ,
        47 => Builtin::Words,
        48 => Builtin::Help,
        49 => Builtin::See,
        50 => Builtin::DollarStack,
        51 => Builtin::DollarIn,
        52 => Builtin::DollarOut,
        53 => Builtin::DollarGitbranch,
        54 => Builtin::DollarCwd,
        55 => Builtin::DollarBasename,
        56 => Builtin::DollarHostname,
        57 => Builtin::DollarUsername,
        58 => Builtin::DollarExitcode,
        59 => Builtin::DollarTime,
        _ => Builtin::Trace,
    }
}

fn registered_at(i: usize) -> (b: Builtin)
    ensures
        b == spec_registered_at(i),
{
    match i {
        0 => Builtin::Dup,
        1 => Builtin::Swap,
        2 => Builtin::Drop,
        3 => Builtin::Clear,
        4 => Builtin::Over,
        5 => Builtin::Rot,
        6 => Builtin::Dot,
        7 => Builtin::Type,
        8 => Builtin::DotS,
        9 => Builtin::ToOutput,
        10 => Builtin::ToString,
        11 => Builtin::WriteFile,
        12 => Builtin::AppendFile,
        13 => Builtin::Exec,
        14 => Builtin::ExitCode,
        15 => Builtin::Cd,
        16 => Builtin::Getenv,
        17 => Builtin::Setenv,
        18 => Builtin::Unsetenv,
        19 => Builtin::EnvAppend,
        20 => Builtin::EnvPrepend,
        21 => Builtin::Env,
        22 => Builtin::Pushd,
        23 => Builtin::Popd,
        24 => Builtin::Add,
        25 => Builtin::Sub,
        26 => Builtin::Mul,
        27 => Builtin::Div,
        28 => Builtin::Mod,
        29 => Builtin::DivMod,
        30 => Builtin::MulDiv,
        31 => Builtin::Eq,
        32 => Builtin::Gt,
        33 => Builtin::Lt,
        34 => Builtin::Gte,
        35 => Builtin::Lte,
        36 => Builtin::Neq,
        37 => Builtin::And,
        38 => Builtin::Or,
        39 => Builtin::Not,
        40 => Builtin::Xor,
        41 => Builtin::Concat,
        42 => Builtin::CondPrefix,
        43 => Builtin::CondSuffix,
        44 => Builtin::CondWrap,
        45 => Builtin::LoopI,
        46 => Builtin::LoopJ,
        47 => Builtin::Words,
        48 => Builtin::Help,
        49 => Builtin::See,
        50 => Builtin::DollarStack,
        51 => Builtin::DollarIn,
        52 => Builtin::DollarOut,
        53 => Builtin::DollarGitbranch,
        54 => Builtin::DollarCwd,
        55 => Builtin::DollarBasename,
        56 => Builtin::DollarHostname,
        57 => Builtin::DollarUsername,
        58 => Builtin::DollarExitcode,
        59 => Builtin::DollarTime,
        _ => Builtin::Trace,
    }
}

/// The native operations that a fresh interpreter knows, in the order in
/// which they are registered.
pub open spec fn registered() -> Seq<Builtin> {
    Seq::new(REGISTERED as nat, |i: int| spec_registered_at(i as usize))
}

/// The dictionary after binding each of `words`, in order, under its name,
/// with its doc string.
pub open spec fn with_builtins(dict: Map<Seq<char>, WordModel>, words: Seq<Builtin>) -> Map<
    Seq<char>,
    WordModel,
>
    decreases words.len(),
{
    if words.len() == 0 {
        dict
    } else {
        with_builtins(dict, words.drop_last()).insert(
            spec_name(words.last()),
            WordModel::Builtin(words.last(), Some(spec_doc(words.last()))),
        )
    }
}

/// Register all builtin words into the state dictionary.
pub fn register_builtins(state: &mut State)
    ensures
        final(state)@ == (StateModel {
            dict: with_builtins(old(state)@.dict, registered()),
            ..old(state)@
        }),
{
    let mut i: usize = 0;
    assert(registered().take(0) =~= Seq::<Builtin>::empty());
    while i < REGISTERED
        invariant
            i <= REGISTERED,
            state@ == (StateModel {
                dict: with_builtins(old(state)@.dict, registered().take(i as int)),
                ..old(state)@
            }),
        decreases REGISTERED - i,
    {
        let b = registered_at(i);
        proof {
            assert(registered().take(i + 1).drop_last() =~= registered().take(i as int));
            assert(registered().take(i + 1).last() == b);
        }
        state.dict.insert(name(b).to_string(), Word::Builtin(b, Some(doc(b))));
        i = i + 1;
    }
    assert(registered().take(REGISTERED as int) =~= registered());
}

} // verus!

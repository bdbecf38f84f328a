//! What the line editor and the read-evaluate-print loop take from the
//! library.

use yafsh::builtins;
use yafsh::config::{history_path, rc_path, VERSION};
use yafsh::eval;
use yafsh::highlight::{
    begins_with, complete_words, find_word_at, has_word, highlight, merge_completions,
};
use yafsh::repl::{
    auto_type_output, begin_custom_prompt, build_default_prompt, finish_custom_prompt, rc_commands,
    read_input, Input,
};
use yafsh::trace::{
    same_value, trace_describe_diff, trace_fmt_stack, trace_fmt_value, trace_fmt_value_colored,
    trace_lookup_doc, trace_step_text,
};
use yafsh::types::{State, Value, Word};

fn strings(words: &[&str]) -> Vec<String> {
    words.iter().map(|w| w.to_string()).collect()
}

fn text(s: &str) -> Value {
    Value::Str(s.to_string())
}

fn output(s: &str) -> Value {
    Value::Output(s.to_string())
}

const Y: &str = "\x1b[33m";
const M: &str = "\x1b[35m";
const C: &str = "\x1b[36m";
const G: &str = "\x1b[32m";
const R: &str = "\x1b[0m";

#[test]
fn a_line_is_coloured_token_by_token() {
    let words = strings(&["dup", "greet"]);
    assert_eq!(highlight("", &words), "");
    assert_eq!(highlight("   ", &words), "   ");
    assert_eq!(highlight("plain", &words), "plain");
    assert_eq!(highlight("dup", &words), format!("{G}dup{R}"));
    assert_eq!(highlight("42", &words), format!("{C}42{R}"));
    assert_eq!(highlight("if", &words), format!("{M}if{R}"));
    assert_eq!(highlight("\"hi there\"", &words), format!("{Y}\"hi there\"{R}"));
    assert_eq!(
        highlight(" : greet  \"hé\" -7 nope ; ", &words),
        format!(" {M}:{R} {G}greet{R}  {Y}\"hé\"{R} {C}-7{R} nope {M};{R} ")
    );
    // A quote that is left open is coloured to the end of the line.
    assert_eq!(highlight("x \"open ", &words), format!("x {Y}\"open {R}"));
    assert_eq!(highlight("ab\"c\"d", &words), format!("ab{Y}\"c\"{R}d"));
    // A quoted keyword, number or word is a string.
    assert_eq!(highlight("\"if\" \"1\" \"dup\"", &words), format!("{Y}\"if\"{R} {Y}\"1\"{R} {Y}\"dup\"{R}"));
}

#[test]
fn every_keyword_is_coloured() {
    for keyword in [":", ";", "if", "else", "then", "begin", "until", "while", "repeat", "do", "loop", "+loop", "each", "exit", "quit"] {
        assert_eq!(highlight(keyword, &[].to_vec()), format!("{M}{keyword}{R}"));
    }
    // A keyword comes before a word of the dictionary.
    assert_eq!(highlight("if", &strings(&["if"])), format!("{M}if{R}"));
    // A number comes before a word of the dictionary.
    assert_eq!(highlight("5", &strings(&["5"])), format!("{C}5{R}"));
    assert_eq!(highlight("If", &Vec::new()), "If");
}

#[test]
fn the_word_in_front_of_the_cursor_is_found() {
    assert_eq!(find_word_at("hello wor", 9), (6, "wor".to_string()));
    assert_eq!(find_word_at("hello wor", 7), (6, "w".to_string()));
    assert_eq!(find_word_at("hello wor", 6), (6, "".to_string()));
    assert_eq!(find_word_at("hello wor", 5), (0, "hello".to_string()));
    assert_eq!(find_word_at("hello", 0), (0, "".to_string()));
    assert_eq!(find_word_at("", 0), (0, "".to_string()));
    assert_eq!(find_word_at("a\tb\nc", 5), (4, "c".to_string()));
    assert_eq!(find_word_at("é €x", 7), (3, "€x".to_string()));
    // A no-break space is no whitespace of ASCII.
    assert_eq!(find_word_at("a\u{a0}b", 4), (0, "a\u{a0}b".to_string()));
    // A cursor behind the end is taken at the end.
    assert_eq!(find_word_at("ab cd", 99), (3, "cd".to_string()));
}

#[test]
fn completions_begin_with_what_is_typed() {
    let words = strings(&["swap", "dup", "drop", "do", "dolphin", "Dup"]);
    assert_eq!(complete_words(&words, "d"), strings(&["do", "dolphin", "drop", "dup"]));
    assert_eq!(complete_words(&words, "do"), strings(&["do", "dolphin"]));
    assert_eq!(complete_words(&words, "dup"), strings(&["dup"]));
    assert_eq!(complete_words(&words, "x"), Vec::<String>::new());
    assert_eq!(complete_words(&words, ""), Vec::<String>::new());
    assert!(begins_with("swap", ""));
    assert!(begins_with("swap", "swap"));
    assert!(!begins_with("swap", "swaps"));
    assert!(!begins_with("swap", "w"));
    assert!(has_word(&words, "do"));
    assert!(!has_word(&words, "d"));
}

#[test]
fn words_and_file_names_complete_together() {
    let pair = |a: &str, b: &str| (a.to_string(), b.to_string());
    let files = vec![pair("dir/", "dir/"), pair("doc.txt", "doc.txt ")];
    // Words come first, and everything is offered from where the word starts.
    assert_eq!(
        merge_completions(4, strings(&["do", "drop"]), 6, files.clone()),
        (4, vec![pair("do", "do"), pair("drop", "drop"), pair("dir/", "dir/"), pair("doc.txt", "doc.txt ")])
    );
    // File names alone are offered from where they start.
    assert_eq!(merge_completions(4, Vec::new(), 6, files.clone()), (6, files));
    assert_eq!(merge_completions(4, strings(&["do"]), 6, Vec::new()), (4, vec![pair("do", "do")]));
    assert_eq!(merge_completions(4, Vec::new(), 6, Vec::new()), (4, Vec::new()));
}

#[test]
fn files_are_found_in_the_home_directory() {
    assert_eq!(rc_path(Some("/home/u")), Some("/home/u/.yafshrc".to_string()));
    assert_eq!(history_path(Some("/home/u")), Some("/home/u/.yafsh_history".to_string()));
    assert_eq!(rc_path(Some("/")), Some("/.yafshrc".to_string()));
    assert_eq!(rc_path(Some("")), Some(".yafshrc".to_string()));
    assert_eq!(rc_path(None), None);
    assert_eq!(history_path(None), None);
    assert_eq!(VERSION, "0.4.0");
}

#[test]
fn the_default_prompt_shows_the_stack() {
    let mut s = State::new();
    assert_eq!(build_default_prompt(&s), "yafsh> ");
    s.stack = vec![Value::Int(1), text("a")];
    assert_eq!(build_default_prompt(&s), "yafsh[2]> ");
    s.stack = vec![output("o")];
    assert_eq!(build_default_prompt(&s), "yafsh[:1]> ");
    s.stack.push(Value::Int(1));
    assert_eq!(build_default_prompt(&s), "yafsh[1:1]> ");
}

#[test]
fn a_custom_prompt_is_built_from_the_stack() {
    let mut s = State::new();
    builtins::register_builtins(&mut s);
    s.stack = vec![Value::Int(7), output("o")];
    // Without the word there is no custom prompt.
    assert_eq!(begin_custom_prompt(&mut s), None);
    assert_eq!(s.stack, vec![Value::Int(7), output("o")]);
    eval::eval_line(&mut s, ": $prompt $stack 1 $out ;").unwrap();
    let saved = begin_custom_prompt(&mut s).unwrap();
    assert_eq!(saved, vec![Value::Int(7), output("o")]);
    assert!(s.stack.is_empty());
    assert_eq!(s.prompt_eval_original_stack, Some(vec![Value::Int(7), output("o")]));
    let result = eval::eval_line(&mut s, "$prompt");
    assert_eq!(finish_custom_prompt(&mut s, saved, result.is_ok()), Some("[1:1]11".to_string()));
    assert_eq!(s.stack, vec![Value::Int(7), output("o")]);
    assert_eq!(s.prompt_eval_original_stack, None);
}

#[test]
fn a_custom_prompt_that_fails_gives_none() {
    let mut s = State::new();
    builtins::register_builtins(&mut s);
    s.stack = vec![Value::Int(7)];
    eval::eval_line(&mut s, ": $prompt 1 drop drop ;").unwrap();
    let saved = begin_custom_prompt(&mut s).unwrap();
    let result = eval::eval_line(&mut s, "$prompt");
    assert!(result.is_err());
    assert_eq!(finish_custom_prompt(&mut s, saved, result.is_ok()), None);
    assert_eq!(s.stack, vec![Value::Int(7)]);
    // An empty prompt is a prompt.
    eval::eval_line(&mut s, ": $prompt ;").unwrap();
    let saved = begin_custom_prompt(&mut s).unwrap();
    let result = eval::eval_line(&mut s, "$prompt");
    assert_eq!(finish_custom_prompt(&mut s, saved, result.is_ok()), Some(String::new()));
}

#[test]
fn an_output_on_top_is_shown() {
    let mut s = State::new();
    assert_eq!(auto_type_output(&s), None);
    s.stack = vec![output("below"), text("top")];
    assert_eq!(auto_type_output(&s), None);
    s.stack.push(output("shown\n"));
    assert_eq!(auto_type_output(&s), Some("shown\n".to_string()));
    assert_eq!(s.stack.len(), 3);
}

#[test]
fn input_is_blank_a_request_to_leave_or_text() {
    assert_eq!(read_input(""), Input::Blank);
    assert_eq!(read_input(" \t\n"), Input::Blank);
    assert_eq!(read_input("exit"), Input::Quit);
    assert_eq!(read_input("  quit\n"), Input::Quit);
    assert_eq!(read_input("exit now"), Input::Eval("exit now".to_string()));
    assert_eq!(read_input("Exit"), Input::Eval("Exit".to_string()));
    assert_eq!(read_input(" 1 2 + \n"), Input::Eval("1 2 +".to_string()));
}

#[test]
fn a_startup_file_is_read_without_comments() {
    let contents = "# settings\n\n  : greet \"hi\" . ;  \n\t#: not this\n1 2 +\r\n   \n\"#\" .";
    assert_eq!(
        rc_commands(contents),
        strings(&[": greet \"hi\" . ;", "1 2 +", "\"#\" ."])
    );
    assert_eq!(rc_commands(""), Vec::<String>::new());
    assert_eq!(rc_commands("#\n#\n"), Vec::<String>::new());
}

// ========== Tracing ==========

#[test]
fn values_are_shown_in_a_trace() {
    assert_eq!(trace_fmt_value(&text("a b")), "\"a b\"");
    assert_eq!(trace_fmt_value(&Value::Int(-4)), "-4");
    assert_eq!(trace_fmt_value(&output("short \n")), "<<short>>");
    assert_eq!(trace_fmt_value(&output("")), "<<>>");
    assert_eq!(trace_fmt_value(&output("one\ntwo\n")), "<<output 2 lines>>");
    assert_eq!(trace_fmt_value(&output("\n\n\n")), "<<output 3 lines>>");
    // Thirty bytes are shown whole, more are cut after 27.
    let thirty = "abcdefghijklmnopqrstuvwxyz0123";
    assert_eq!(trace_fmt_value(&output(thirty)), format!("<<{}>>", thirty));
    let longer = format!("{}4", thirty);
    assert_eq!(trace_fmt_value(&output(&longer)), "<<abcdefghijklmnopqrstuvwxyz0...>>");
    // The cut falls on a whole character.
    let wide = "ééééééééééééééé€";
    assert_eq!(wide.len(), 33);
    assert_eq!(trace_fmt_value(&output(wide)), "<<ééééééééééééé...>>");
}

#[test]
fn values_are_shown_in_colour() {
    assert_eq!(trace_fmt_value_colored(&text("a")), format!("{Y}\"a\"{R}"));
    assert_eq!(trace_fmt_value_colored(&Value::Int(5)), format!("{C}5{R}"));
    assert_eq!(trace_fmt_value_colored(&output("x\n")), format!("{M}<<{R}x{M}>>{R}"));
    assert_eq!(trace_fmt_value_colored(&output("x\ny")), format!("{M}<<output 2 lines>>{R}"));
    let longer = "abcdefghijklmnopqrstuvwxyz01234";
    assert_eq!(
        trace_fmt_value_colored(&output(longer)),
        format!("{M}<<{R}abcdefghijklmnopqrstuvwxyz0...{M}>>{R}")
    );
    assert_eq!(trace_fmt_stack(&[]), "\x1b[2m(empty)\x1b[0m");
    assert_eq!(
        trace_fmt_stack(&[Value::Int(1), text("a")]),
        format!("{C}1{R} {Y}\"a\"{R}")
    );
}

#[test]
fn a_step_is_described_by_what_it_popped_and_pushed() {
    let red = "\x1b[31m";
    let one_two = vec![Value::Int(1), Value::Int(2)];
    assert_eq!(trace_describe_diff(&one_two, &one_two), "\x1b[2m(no stack change)\x1b[0m");
    assert_eq!(
        trace_describe_diff(&one_two, &[Value::Int(1), Value::Int(2), text("a")]),
        format!("{G}push{R} \"a\"")
    );
    assert_eq!(trace_describe_diff(&one_two, &[]), format!("{red}pop{R} 2, 1"));
    assert_eq!(
        trace_describe_diff(&one_two, &[Value::Int(1), Value::Int(3), Value::Int(4)]),
        format!("{red}pop{R} 2; {G}push{R} 3, 4")
    );
    assert_eq!(
        trace_describe_diff(&[text("a")], &[output("a")]),
        format!("{red}pop{R} \"a\"; {G}push{R} <<a>>")
    );
    assert!(same_value(&text("a"), &text("a")));
    assert!(!same_value(&text("a"), &output("a")));
    assert!(!same_value(&Value::Int(1), &Value::Int(2)));
    assert!(same_value(&output(""), &output("")));
}

#[test]
fn a_report_grows_with_the_level() {
    let before = vec![Value::Int(1)];
    let after = vec![Value::Int(1), Value::Int(1)];
    let first = format!(
        "  \x1b[2mStep 12\x1b[0m \x1b[1mdup{}{R} \u{2192} {G}push{R} 1\n",
        " ".repeat(13)
    );
    let doc_line = format!("  \x1b[2m{} ( a -- a a ){R}\n", " ".repeat(28));
    let stack_line = format!("  \x1b[2m{} Stack:{R} {C}1{R} {C}1{R}\n", " ".repeat(28));
    let doc = Some("( a -- a a )");
    assert_eq!(trace_step_text(1, 12, "dup", false, &before, &after, doc), first);
    assert_eq!(trace_step_text(0, 12, "dup", false, &before, &after, doc), first);
    assert_eq!(
        trace_step_text(2, 12, "dup", false, &before, &after, doc),
        format!("{first}{stack_line}")
    );
    assert_eq!(
        trace_step_text(3, 12, "dup", false, &before, &after, doc),
        format!("{first}{doc_line}{stack_line}")
    );
    assert_eq!(
        trace_step_text(3, 12, "dup", false, &before, &after, None),
        format!("{first}{stack_line}")
    );
    // A quoted token is shown in its quotes; a long one is not cut.
    assert_eq!(
        trace_step_text(1, 1, "a", true, &[], &[text("a")], None),
        format!(
            "  \x1b[2mStep 1{R} {Y}\"a\"{}{R} \u{2192} {G}push{R} \"a\"\n",
            " ".repeat(12)
        )
    );
    assert_eq!(
        trace_step_text(1, 1, "a-token-of-twenty-chars", false, &[], &[], None),
        format!("  \x1b[2mStep 1{R} \x1b[1ma-token-of-twenty-chars{R} \u{2192} \x1b[2m(no stack change){R}\n")
    );
}

#[test]
fn the_doc_of_a_token_is_looked_up() {
    let mut s = State::new();
    builtins::register_builtins(&mut s);
    s.dict.insert("mine".to_string(), Word::Defined(Vec::new()));
    s.dict.insert("ls".to_string(), Word::ShellCmd("/bin/ls".to_string()));
    assert_eq!(trace_lookup_doc(&s, "dup", false), Some("( a -- a a ) Duplicate top item".to_string()));
    assert_eq!(trace_lookup_doc(&s, "dup", true), None);
    assert_eq!(trace_lookup_doc(&s, "mine", false), Some("(user-defined word)".to_string()));
    assert_eq!(trace_lookup_doc(&s, "ls", false), None);
    assert_eq!(trace_lookup_doc(&s, "nothing", false), None);
}

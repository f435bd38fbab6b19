//! A minimal interactive command interpreter: tokenizing a line, deciding what
//! it asks for, resolving a program name along a search path and wording the
//! replies. Everything that touches the process or the file system is left to
//! the caller, which hands the results back as plain values.

mod command;
mod laws;
mod number;
mod reply;
mod resolve;
mod text;
mod words;

pub use command::{is_builtin, parse_command, Command};
pub use laws::{
    lemma_blank_lines, lemma_builtins_take_precedence, lemma_echo_keeps_text,
    lemma_first_directory_wins,
};
pub use number::{decimal_string, parse_i32};
pub use reply::{
    builtin_message, cd_destination, cd_failure_message, command_not_found_message,
    format_error_message, status_message, type_message, ChildStatus,
};
pub use resolve::{candidate_paths, first_usable, has_exec_bit, join};
pub use text::{chars_of, is_whitespace, string_of};
pub use words::{rest_after_first_word, split_words};

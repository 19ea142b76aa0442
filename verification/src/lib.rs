//! Core of an interactive POSIX-flavored command shell: lexing a raw input
//! line into words, parsing words into a pipeline of simple commands with
//! redirections, dispatching built-ins and external programs, wiring the
//! standard streams of the pipeline stages, and shaping the final result.

mod args;
mod dispatch;
mod finalize;
mod lexer;
mod parser;
mod path_index;
mod plumbing;
mod prompt;
mod result;
mod text;

pub use lexer::LexError;
pub use lexer::process_string;
pub use lexer::tokenize;
pub use lexer::unescape_string;
pub use parser::{RedirectionType, Redirection, ParseError, RedirBinding, SimpleCommand, Pipeline, parse};
pub use args::{Arguments, parse_i32};
pub use path_index::{PathIndex, is_builtin};
pub use result::{CommandOutput, CommandResult, OutputView};
pub use dispatch::{Dispatch, DispatchView, ExecuteArgs, execute, pwd_result, cd_result};
pub use finalize::{StageOutcome, OutcomeView, finalize_executions, spawn_error_result, wait_error_result, capture_error_result};
pub use prompt::Prompt;
pub use plumbing::{RW, RwView, TakenEndpoint, TakenView, StageIo, take_endpoint, wire_pipeline};

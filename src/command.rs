use vstd::prelude::*;
use crate::text::str_equal;

verus! {

/// An intent of the user.
#[derive(Debug)]
pub enum DebuggerCommand {
    Quit,
    Run(Vec<String>),
    Continue,
    Backtrace,
    AddBreakpoint(String),
}

/// A command over the characters of its arguments.
pub enum CommandView {
    Quit,
    Run(Seq<Seq<char>>),
    Continue,
    Backtrace,
    AddBreakpoint(Seq<char>),
}

impl View for DebuggerCommand {
    type V = CommandView;

    open spec fn view(&self) -> CommandView {
        match self {
            DebuggerCommand::Quit => CommandView::Quit,
            DebuggerCommand::Run(args) => CommandView::Run(args@.map_values(|a: String| a@)),
            DebuggerCommand::Continue => CommandView::Continue,
            DebuggerCommand::Backtrace => CommandView::Backtrace,
            DebuggerCommand::AddBreakpoint(a) => CommandView::AddBreakpoint(a@),
        }
    }
}

/// The command that a line split into `words` denotes; `None` when the first
/// word names no command.
pub open spec fn command_of(words: Seq<Seq<char>>) -> Option<CommandView> {
    let w = words[0];
    if w == "q"@ || w == "quit"@ {
        Some(CommandView::Quit)
    } else if w == "r"@ || w == "run"@ {
        Some(CommandView::Run(words.subrange(1, words.len() as int)))
    } else if w == "c"@ || w == "cont"@ || w == "continue"@ {
        Some(CommandView::Continue)
    } else if w == "bt"@ || w == "back"@ || w == "backtrace"@ {
        Some(CommandView::Backtrace)
    } else if w == "break"@ {
        Some(CommandView::AddBreakpoint(words[1]))
    } else {
        None
    }
}

pub open spec fn words_of(tokens: Seq<&str>) -> Seq<Seq<char>> {
    tokens.map_values(|t: &str| t@)
}

impl DebuggerCommand {
    /// Reads a command from the words of an input line. The first word names
    /// the command; `run` takes the rest as the program's arguments and
    /// `break` takes the second word as the breakpoint's address.
    pub fn from_tokens(tokens: &Vec<&str>) -> (r: Option<DebuggerCommand>)
        requires
            tokens@.len() >= 1,
            tokens@[0]@ == "break"@ ==> tokens@.len() >= 2,
        ensures
            r matches Some(c) ==> command_of(words_of(tokens@)) == Some(c@),
            r is None ==> command_of(words_of(tokens@)) is None,
    {
        let ghost words = words_of(tokens@);
        let w = tokens[0];
        assert(words[0] == w@);
        if str_equal(w, "q") || str_equal(w, "quit") {
            Some(DebuggerCommand::Quit)
        } else if str_equal(w, "r") || str_equal(w, "run") {
            let mut args: Vec<String> = Vec::new();
            let mut i: usize = 1;
            while i < tokens.len()
                invariant
                    1 <= i <= tokens@.len(),
                    words == words_of(tokens@),
                    args@.len() == i - 1,
                    forall|k: int| 0 <= k < args@.len() ==> #[trigger] args@[k]@ == words[k + 1],
                decreases tokens@.len() - i,
            {
                let a = tokens[i].to_owned();
                args.push(a);
                assert(words[i as int] == a@);
                i = i + 1;
            }
            assert(args@.map_values(|a: String| a@) =~= words.subrange(1, words.len() as int));
            Some(DebuggerCommand::Run(args))
        } else if str_equal(w, "c") || str_equal(w, "cont") || str_equal(w, "continue") {
            Some(DebuggerCommand::Continue)
        } else if str_equal(w, "bt") || str_equal(w, "back") || str_equal(w, "backtrace") {
            Some(DebuggerCommand::Backtrace)
        } else if str_equal(w, "break") {
            let arg = tokens[1].to_owned();
            assert(words[1] == arg@);
            Some(DebuggerCommand::AddBreakpoint(arg))
        } else {
            None
        }
    }
}

} // verus!

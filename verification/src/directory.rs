//! Parsing the employee-directory commands: `Add {name} to {department}`,
//! `List`, `List {department}`, `Help`, `Exit`.  The command word is
//! matched ignoring ASCII case; words are split on ASCII whitespace.

use crate::text::ascii_lower_seq;
use crate::text::ascii_lowercase;
use crate::text::join_spaced;
use crate::text::join_spaces;
use crate::text::split_words;
use crate::text::split_ws;
use crate::text::str_eq;
use vstd::prelude::*;

verus! {

/// A parsed directory command.
pub enum Command {
    Add { name: String, department: String },
    ListDepartment(String),
    List,
    Help,
    Exit,
    Unknown,
}

/// The mathematical image of a parsed command.
pub enum CommandView {
    Add { name: Seq<char>, department: Seq<char> },
    ListDepartment(Seq<char>),
    List,
    Help,
    Exit,
    Unknown,
}

impl View for Command {
    type V = CommandView;

    open spec fn view(&self) -> CommandView {
        match self {
            Command::Add { name, department } => CommandView::Add {
                name: name@,
                department: department@,
            },
            Command::ListDepartment(d) => CommandView::ListDepartment(d@),
            Command::List => CommandView::List,
            Command::Help => CommandView::Help,
            Command::Exit => CommandView::Exit,
            Command::Unknown => CommandView::Unknown,
        }
    }
}

/// The position of the first occurrence of `target` among `words`, or
/// their number when it does not occur.
pub open spec fn first_index_of(words: Seq<Seq<char>>, target: Seq<char>) -> int
    decreases words.len(),
{
    if words.len() == 0 {
        0
    } else if words[0] == target {
        0
    } else {
        1 + first_index_of(words.drop_first(), target)
    }
}

/// A scan that saw no `target` before `i`, and `target` (or the end) at
/// `i`, found the first occurrence.
proof fn lemma_first_index_of(words: Seq<Seq<char>>, target: Seq<char>, i: int)
    requires
        0 <= i <= words.len(),
        forall|k: int| 0 <= k < i ==> words[k] != target,
        i < words.len() ==> words[i] == target,
    ensures
        first_index_of(words, target) == i,
    decreases words.len(),
{
    if words.len() > 0 && i > 0 {
        lemma_first_index_of(words.drop_first(), target, i - 1);
    }
}

/// What a given input line parses to.
pub open spec fn parse_command_spec(input: Seq<char>) -> CommandView {
    let words = split_ws(input);
    if words.len() == 0 {
        CommandView::Unknown
    } else {
        let head = ascii_lower_seq(words[0]);
        if head == "add"@ {
            let to_pos = first_index_of(words, "to"@);
            if to_pos < words.len() {
                CommandView::Add {
                    name: join_spaced(words.subrange(1, to_pos)),
                    department: join_spaced(words.subrange(to_pos + 1, words.len() as int)),
                }
            } else {
                CommandView::Unknown
            }
        } else if head == "list"@ {
            if words.len() > 1 {
                CommandView::ListDepartment(join_spaced(words.subrange(1, words.len() as int)))
            } else {
                CommandView::List
            }
        } else if head == "help"@ {
            CommandView::Help
        } else if head == "exit"@ || head == "quit"@ {
            CommandView::Exit
        } else {
            CommandView::Unknown
        }
    }
}

/// Parses one input line into a command.
pub fn parse_command(input: &str) -> (r: Command)
    ensures
        r@ == parse_command_spec(input@),
{
    let words = split_words(input);
    if words.len() == 0 {
        return Command::Unknown;
    }
    proof {
        assert(words.deep_view()[0] == words@[0]@);
    }
    let head = ascii_lowercase(words[0].as_str());

    if str_eq(head.as_str(), "add") {
        let mut to_pos: usize = 0;
        while to_pos < words.len() && !str_eq(words[to_pos].as_str(), "to")
            invariant
                0 <= to_pos <= words@.len(),
                forall|k: int| 0 <= k < to_pos ==> words.deep_view()[k] != "to"@,
            decreases words@.len() - to_pos,
        {
            proof {
                assert(words.deep_view()[to_pos as int] == words@[to_pos as int]@);
            }
            to_pos = to_pos + 1;
        }
        proof {
            if to_pos < words@.len() {
                assert(words.deep_view()[to_pos as int] == words@[to_pos as int]@);
            }
            lemma_first_index_of(words.deep_view(), "to"@, to_pos as int);
        }
        if to_pos < words.len() {
            proof {
                if to_pos == 0 {
                    reveal_strlit("to");
                    reveal_strlit("add");
                    assert(words.deep_view()[0] == "to"@);
                    assert(head@ == ascii_lower_seq("to"@));
                    assert(head@.len() == 2 && "add"@.len() == 3);
                    assert(false);
                }
            }
            let name = join_spaces(&words, 1, to_pos);
            let department = join_spaces(&words, to_pos + 1, words.len());
            Command::Add { name, department }
        } else {
            Command::Unknown
        }
    } else if str_eq(head.as_str(), "list") {
        if words.len() > 1 {
            Command::ListDepartment(join_spaces(&words, 1, words.len()))
        } else {
            Command::List
        }
    } else if str_eq(head.as_str(), "help") {
        Command::Help
    } else if str_eq(head.as_str(), "exit") || str_eq(head.as_str(), "quit") {
        Command::Exit
    } else {
        Command::Unknown
    }
}

} // verus!

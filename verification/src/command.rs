//! The commands of the interactive prompt.
use vstd::prelude::*;
use crate::text::{split_whitespace, split_ws, str_eq, views};

verus! {

/// A command line of the prompt, read as its whitespace-separated words.
#[derive(Debug, PartialEq)]
pub enum Command {
    /// a line with no words
    Empty,
    /// `exit`: leave the prompt
    Exit,
    /// `load FILE`: compile and open a source file
    Load(String),
    /// `load` with no file
    LoadNothing,
    /// `inspect`: show what the loaded library exports
    Inspect,
    /// `call FUNC ARGS...`: call an exported function
    Call { func: String, args: Vec<String> },
    /// `call` with no function name
    CallNothing,
    /// `unload`: close the loaded library
    Unload,
    /// any other first word
    Unknown,
}

/// The command that a line's words `w` make.
pub open spec fn command_matches(w: Seq<Seq<char>>, c: Command) -> bool {
    if w.len() == 0 {
        c is Empty
    } else if w[0] == "exit"@ {
        c is Exit
    } else if w[0] == "load"@ {
        if w.len() > 1 {
            c matches Command::Load(f) && f@ == w[1]
        } else {
            c is LoadNothing
        }
    } else if w[0] == "inspect"@ {
        c is Inspect
    } else if w[0] == "call"@ {
        if w.len() > 1 {
            c matches Command::Call { func, args } && func@ == w[1] && views(args@) == w.skip(2)
        } else {
            c is CallNothing
        }
    } else if w[0] == "unload"@ {
        c is Unload
    } else {
        c is Unknown
    }
}

/// A line whose first word is `call` and that names a function makes a call
/// of that function carrying every later word, in order, as its arguments,
/// however many there are.
pub proof fn law_call_carries_every_argument(line: Seq<char>, c: Command)
    requires
        command_matches(split_ws(line), c),
        split_ws(line).len() > 1,
        split_ws(line)[0] == "call"@,
    ensures
        c matches Command::Call { func, args } && func@ == split_ws(line)[1] && args@.len() + 2
            == split_ws(line).len() && forall|i: int|
            0 <= i < args@.len() ==> #[trigger] args@[i]@ == split_ws(line)[i + 2],
{
    reveal_strlit("call");
    reveal_strlit("exit");
    reveal_strlit("load");
    reveal_strlit("inspect");
    assert("call"@[0] != "exit"@[0]);
    assert("call"@[0] != "load"@[0]);
    assert("call"@.len() != "inspect"@.len());
    if let Command::Call { func, args } = c {
        let w = split_ws(line);
        assert(views(args@) == w.skip(2));
        assert forall|i: int| 0 <= i < args@.len() implies #[trigger] args@[i]@ == w[i + 2] by {
            assert(views(args@)[i] == args@[i]@);
        }
    }
}

/// The first word picks the command, and only the first word: `exit`,
/// `inspect` and `unload` ignore any later words, and `load` takes the second
/// word as the file and ignores the rest.
pub proof fn law_first_word_picks_the_command(line: Seq<char>, c: Command)
    requires
        command_matches(split_ws(line), c),
    ensures
        split_ws(line).len() == 0 <==> c is Empty,
        split_ws(line).len() > 0 && split_ws(line)[0] == "exit"@ ==> c is Exit,
        split_ws(line).len() > 0 && split_ws(line)[0] == "inspect"@ ==> c is Inspect,
        split_ws(line).len() > 0 && split_ws(line)[0] == "unload"@ ==> c is Unload,
        split_ws(line).len() > 1 && split_ws(line)[0] == "load"@ ==> (c matches Command::Load(f)
            && f@ == split_ws(line)[1]),
        split_ws(line).len() == 1 && split_ws(line)[0] == "load"@ ==> c is LoadNothing,
        split_ws(line).len() == 1 && split_ws(line)[0] == "call"@ ==> c is CallNothing,
{
    reveal_strlit("call");
    reveal_strlit("exit");
    reveal_strlit("load");
    reveal_strlit("inspect");
    reveal_strlit("unload");
    assert("exit"@[0] != "load"@[0]);
    assert("exit"@[0] != "call"@[0]);
    assert("load"@[0] != "call"@[0]);
    assert("inspect"@.len() != "exit"@.len());
    assert("inspect"@.len() != "unload"@.len());
    assert("unload"@.len() != "exit"@.len());
    assert("inspect"@.len() != "load"@.len());
    assert("unload"@.len() != "load"@.len());
    assert("inspect"@.len() != "call"@.len());
    assert("unload"@.len() != "call"@.len());
}

/// Reads a command line.
pub fn parse_command(line: &str) -> (r: Command)
    ensures
        command_matches(split_ws(line@), r),
{
    let words = split_whitespace(line);
    let ghost w = views(words@);
    if words.len() == 0 {
        return Command::Empty;
    }
    assert(w[0] == words@[0]@);
    let first = words[0].as_str();
    if str_eq(first, "exit") {
        Command::Exit
    } else if str_eq(first, "load") {
        if words.len() > 1 {
            assert(w[1] == words@[1]@);
            Command::Load(words[1].clone())
        } else {
            Command::LoadNothing
        }
    } else if str_eq(first, "inspect") {
        Command::Inspect
    } else if str_eq(first, "call") {
        if words.len() > 1 {
            assert(w[1] == words@[1]@);
            let mut args: Vec<String> = Vec::new();
            let mut i: usize = 2;
            while i < words.len()
                invariant
                    2 <= i <= words@.len(),
                    w == views(words@),
                    views(args@) == w.subrange(2, i as int),
                decreases words@.len() - i,
            {
                let ghost prev = args@;
                args.push(words[i].clone());
                assert(views(args@) =~= views(prev).push(words@[i as int]@));
                assert(w.subrange(2, i + 1) =~= w.subrange(2, i as int).push(w[i as int]));
                i = i + 1;
            }
            assert(w.skip(2) =~= w.subrange(2, words@.len() as int));
            Command::Call { func: words[1].clone(), args }
        } else {
            Command::CallNothing
        }
    } else if str_eq(first, "unload") {
        Command::Unload
    } else {
        Command::Unknown
    }
}

} // verus!

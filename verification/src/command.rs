//! The supervisor's command language: a line of words, the first naming the
//! command (in any letter case), the second the executable, the rest the
//! arguments.
use vstd::prelude::*;

use crate::text::{
    is_word, join_words, lemma_split_join, split_words, views, word_at, words, words_after,
};

verus! {

/// A supervisor command.
#[derive(Debug, Clone, Copy, PartialEq, Eq, Structural)]
pub enum Command {
    Up,
    Down,
    Info,
    Send,
    Receive,
    ReceiveErr,
    Restart,
    Unknown,
}

/// A parsed, valid command line.
pub struct CommandInfo {
    pub cmd: Command,
    pub exec_name: String,
    pub args: Vec<String>,
}

impl View for CommandInfo {
    type V = (Command, Seq<char>, Seq<Seq<char>>);

    open spec fn view(&self) -> Self::V {
        (self.cmd, self.exec_name@, views(self.args@))
    }
}

/// ASCII upper-case letters to lower case; every other character unchanged.
pub open spec fn fold_case(c: char) -> char {
    if 'A' <= c && c <= 'Z' {
        ((c as u32) + 32) as char
    } else {
        c
    }
}

/// A word with its ASCII letters in lower case.
pub open spec fn folded(w: Seq<char>) -> Seq<char> {
    w.map_values(|c: char| fold_case(c))
}

/// The command that a command word names, its letter case ignored. Only
/// ASCII letters are folded: no other character lower-cases to a letter of
/// a keyword, so folding the whole of Unicode would name the same command.
pub open spec fn command_named(word: Seq<char>) -> Command {
    let w = folded(word);
    if w == "up"@ {
        Command::Up
    } else if w == "down"@ {
        Command::Down
    } else if w == "info"@ {
        Command::Info
    } else if w == "send"@ {
        Command::Send
    } else if w == "receive"@ {
        Command::Receive
    } else if w == "error"@ {
        Command::ReceiveErr
    } else if w == "restart"@ {
        Command::Restart
    } else {
        Command::Unknown
    }
}

/// Whether a command takes the given executable name and number of arguments.
pub open spec fn valid_use(cmd: Command, exec_name: Seq<char>, n_args: nat) -> bool {
    match cmd {
        Command::Up => n_args == 0 && exec_name.len() > 0,
        Command::Down => n_args == 0 && exec_name.len() > 0,
        Command::Info => n_args == 0,
        Command::Send => n_args > 0 && exec_name.len() > 0,
        Command::Receive => n_args == 0 && exec_name.len() > 0,
        Command::ReceiveErr => n_args == 0 && exec_name.len() > 0,
        Command::Restart => n_args == 0 && exec_name.len() > 0,
        Command::Unknown => false,
    }
}

/// The usage line shown for a command that was used wrongly.
pub open spec fn usage_text(cmd: Command) -> Seq<char> {
    match cmd {
        Command::Up => "Usage: up exec_name"@,
        Command::Down => "Usage: down exec_name"@,
        Command::Info => "Usage: info [exec_name]"@,
        Command::Send => "Usage: send exec_name text"@,
        Command::Receive => "Usage: receive exec_name"@,
        Command::ReceiveErr => "Usage: error exec_name"@,
        Command::Restart => "Usage: restart exec_name"@,
        Command::Unknown => "Error: unknown command"@,
    }
}

/// What a line means: the parsed command when its use is valid, otherwise
/// the command whose usage is to be shown.
pub open spec fn parse_spec(line: Seq<char>) -> Result<(Command, Seq<char>, Seq<Seq<char>>), Command> {
    let ws = words(line);
    let cmd = command_named(word_at(ws, 0));
    let name = word_at(ws, 1);
    let args = words_after(ws, 2);
    if valid_use(cmd, name, args.len()) {
        Ok((cmd, name, args))
    } else {
        Err(cmd)
    }
}

fn fold_char(c: char) -> (r: char)
    ensures
        r == fold_case(c),
{
    if 'A' <= c && c <= 'Z' {
        ((c as u8) + 32) as char
    } else {
        c
    }
}

/// The command that `word` names.
pub fn command_of(word: &str) -> (cmd: Command)
    ensures
        cmd == command_named(word@),
{
    broadcast use vstd::string::group_string_axioms;

    let mut lower = String::new();
    for c in it: word.chars()
        invariant
            it.seq() == word@,
            lower@ == folded(word@.take(it.index() as int)),
    {
        let ghost i = it.index() as int;
        crate::text::push_char(&mut lower, fold_char(c));
        proof {
            assert(folded(word@.take(i + 1)) =~= folded(word@.take(i)).push(fold_case(c)));
        }
    }
    proof {
        assert(word@.take(word@.len() as int) == word@);
    }
    if lower == "up".to_owned() {
        Command::Up
    } else if lower == "down".to_owned() {
        Command::Down
    } else if lower == "info".to_owned() {
        Command::Info
    } else if lower == "send".to_owned() {
        Command::Send
    } else if lower == "receive".to_owned() {
        Command::Receive
    } else if lower == "error".to_owned() {
        Command::ReceiveErr
    } else if lower == "restart".to_owned() {
        Command::Restart
    } else {
        Command::Unknown
    }
}

impl Command {
    /// Whether this command may be given the executable name and arguments.
    pub fn check_validity(&self, exec_name: &str, args: &[String]) -> (r: bool)
        ensures
            r == valid_use(*self, exec_name@, args@.len()),
            r ==> *self != Command::Unknown,
            r && *self != Command::Info ==> exec_name@.len() > 0,
            r ==> (*self == Command::Send <==> args@.len() > 0),
    {
        match self {
            Command::Up => args.len() == 0 && !exec_name.is_empty(),
            Command::Down => args.len() == 0 && !exec_name.is_empty(),
            Command::Info => args.len() == 0,
            Command::Send => args.len() != 0 && !exec_name.is_empty(),
            Command::Receive => args.len() == 0 && !exec_name.is_empty(),
            Command::ReceiveErr => args.len() == 0 && !exec_name.is_empty(),
            Command::Restart => args.len() == 0 && !exec_name.is_empty(),
            Command::Unknown => false,
        }
    }

    /// The usage line for this command.
    pub fn get_usage(&self) -> (s: String)
        ensures
            s@ == usage_text(*self),
    {
        match self {
            Command::Up => "Usage: up exec_name".to_owned(),
            Command::Down => "Usage: down exec_name".to_owned(),
            Command::Info => "Usage: info [exec_name]".to_owned(),
            Command::Send => "Usage: send exec_name text".to_owned(),
            Command::Receive => "Usage: receive exec_name".to_owned(),
            Command::ReceiveErr => "Usage: error exec_name".to_owned(),
            Command::Restart => "Usage: restart exec_name".to_owned(),
            Command::Unknown => "Error: unknown command".to_owned(),
        }
    }
}

/// Parses a command line. On a valid use it returns the command, the
/// executable name and the arguments; otherwise the command (possibly
/// `Unknown`) whose usage line the caller shows.
pub fn parse_command(line: &str) -> (res: Result<CommandInfo, Command>)
    ensures
        match (res, parse_spec(line@)) {
            (Ok(info), Ok(parts)) => info@ == parts,
            (Err(c), Err(d)) => c == d,
            _ => false,
        },
        res matches Ok(info) ==> info.cmd != Command::Unknown,
        res matches Ok(info) ==> (info.cmd != Command::Info ==> info.exec_name@.len() > 0),
        res matches Ok(info) ==> (info.cmd == Command::Send <==> info.args@.len() > 0),
{
    let ws = split_words(line);
    let ghost wv = words(line@);
    let first = if ws.len() > 0 {
        ws[0].clone()
    } else {
        String::new()
    };
    let cmd = command_of(first.as_str());
    let exec_name = if ws.len() > 1 {
        ws[1].clone()
    } else {
        String::new()
    };
    let mut args: Vec<String> = Vec::new();
    let n = ws.len();
    let mut i: usize = 2;
    while i < n
        invariant
            2 <= i,
            n == ws@.len(),
            views(ws@) == wv,
            n >= 2 ==> i <= n,
            i <= n ==> views(args@) == wv.subrange(2, i as int),
            n < 2 ==> args@.len() == 0,
        decreases n - i,
    {
        let ghost before = args@;
        args.push(ws[i].clone());
        proof {
            assert(views(args@) =~= views(before).push(wv[i as int]));
            assert(wv.subrange(2, i + 1) =~= wv.subrange(2, i as int).push(wv[i as int]));
        }
        i = i + 1;
    }
    proof {
        assert(first@ == word_at(wv, 0));
        assert(exec_name@ == word_at(wv, 1));
        if n >= 2 {
            assert(wv.subrange(2, n as int) =~= words_after(wv, 2));
        } else {
            assert(views(args@) =~= words_after(wv, 2));
        }
    }
    if cmd.check_validity(exec_name.as_str(), args.as_slice()) {
        Ok(CommandInfo { cmd, exec_name, args })
    } else {
        Err(cmd)
    }
}

/// The lower-case word that names a command (none names `Unknown`).
pub open spec fn keyword(cmd: Command) -> Seq<char> {
    match cmd {
        Command::Up => "up"@,
        Command::Down => "down"@,
        Command::Info => "info"@,
        Command::Send => "send"@,
        Command::Receive => "receive"@,
        Command::ReceiveErr => "error"@,
        Command::Restart => "restart"@,
        Command::Unknown => Seq::<char>::empty(),
    }
}

/// A command line written out: the keyword, the executable name when there
/// is one, and the arguments, separated by single spaces.
pub open spec fn command_line(cmd: Command, exec_name: Seq<char>, args: Seq<Seq<char>>) -> Seq<char> {
    let name_part = if exec_name.len() > 0 {
        seq![exec_name]
    } else {
        Seq::<Seq<char>>::empty()
    };
    join_words(seq![keyword(cmd)] + name_part + args)
}

/// Facts about the keywords: each is a word, already in lower case, and
/// no two commands share one.
proof fn lemma_keywords(cmd: Command)
    requires
        cmd != Command::Unknown,
    ensures
        is_word(keyword(cmd)),
        folded(keyword(cmd)) == keyword(cmd),
        command_named(keyword(cmd)) == cmd,
{
    broadcast use vstd::string::group_string_axioms;

    reveal_strlit("up");
    reveal_strlit("down");
    reveal_strlit("info");
    reveal_strlit("send");
    reveal_strlit("receive");
    reveal_strlit("error");
    reveal_strlit("restart");
    let k = keyword(cmd);
    assert(folded(k) =~= k);
    assert forall|i: int| 0 <= i < k.len() implies !crate::text::is_ws(#[trigger] k[i]) by {}
    assert("up"@.len() == 2);
    assert("down"@.len() == 4);
    assert("up"@ != "down"@ && "up"@ != "info"@ && "up"@ != "send"@);
    assert("down"@[0] != "info"@[0] && "down"@[0] != "send"@[0] && "info"@[0] != "send"@[0]);
    assert("receive"@[2] != "restart"@[2]);
    assert("error"@ != "up"@ && "error"@ != "down"@ && "error"@ != "receive"@);
    match cmd {
        Command::Up => {},
        Command::Down => {
            assert(k != "up"@);
        },
        Command::Info => {
            assert(k != "up"@ && k != "down"@);
        },
        Command::Send => {
            assert(k != "up"@ && k != "down"@ && k != "info"@);
        },
        Command::Receive => {
            assert(k.len() == 7);
        },
        Command::ReceiveErr => {
            assert(k.len() == 5);
        },
        Command::Restart => {
            assert(k.len() == 7);
            assert(k != "receive"@);
        },
        Command::Unknown => {},
    }
}

/// Command words are read without regard to ASCII letter case: any word
/// whose lower-case form is a command's keyword names that command.
pub proof fn lemma_command_case_insensitive(cmd: Command, w: Seq<char>)
    requires
        cmd != Command::Unknown,
        folded(w) == keyword(cmd),
    ensures
        command_named(w) == cmd,
{
    lemma_keywords(cmd);
}

/// Writing a valid command as a line and parsing that line gives the
/// command back, with its executable name and arguments.
pub proof fn lemma_parse_command_line(cmd: Command, exec_name: Seq<char>, args: Seq<Seq<char>>)
    requires
        cmd != Command::Unknown,
        valid_use(cmd, exec_name, args.len()),
        exec_name.len() > 0 ==> is_word(exec_name),
        forall|i: int| 0 <= i < args.len() ==> is_word(#[trigger] args[i]),
    ensures
        parse_spec(command_line(cmd, exec_name, args)) == Ok::<_, Command>((cmd, exec_name, args)),
{
    lemma_keywords(cmd);
    let name_part = if exec_name.len() > 0 {
        seq![exec_name]
    } else {
        Seq::<Seq<char>>::empty()
    };
    let parts = seq![keyword(cmd)] + name_part + args;
    assert forall|i: int| 0 <= i < parts.len() implies is_word(#[trigger] parts[i]) by {
        if i == 0 {
        } else if i < 1 + name_part.len() {
            assert(parts[i] == exec_name);
        } else {
            assert(parts[i] == args[i - 1 - name_part.len()]);
        }
    }
    lemma_split_join(parts);
    assert(word_at(parts, 0) == keyword(cmd));
    assert(word_at(parts, 1) == exec_name);
    assert(words_after(parts, 2) =~= args);
}

/// The words that follow the keyword in a command's usage line.
spec fn usage_tail(cmd: Command) -> Seq<Seq<char>> {
    match cmd {
        Command::Info => seq!["[exec_name]"@],
        Command::Send => seq!["exec_name"@, "text"@],
        _ => seq!["exec_name"@],
    }
}

/// A usage line reads `Usage:`, the command's keyword, then its operands;
/// so its second word names the command, and a line that starts with that
/// word and fits the usage parses as the command.
pub proof fn lemma_usage_names_command(cmd: Command)
    requires
        cmd != Command::Unknown,
    ensures
        usage_text(cmd).take(7) == "Usage: "@,
        words(usage_text(cmd)).len() >= 2,
        words(usage_text(cmd))[1] == keyword(cmd),
        command_named(words(usage_text(cmd))[1]) == cmd,
        forall|exec_name: Seq<char>, args: Seq<Seq<char>>|
            valid_use(cmd, exec_name, args.len()) && (exec_name.len() > 0 ==> is_word(exec_name))
                && (forall|i: int| 0 <= i < args.len() ==> is_word(#[trigger] args[i]))
                ==> #[trigger] parse_spec(command_line(cmd, exec_name, args)) == Ok::<
                _,
                Command,
            >((cmd, exec_name, args)),
{
    broadcast use vstd::string::group_string_axioms;

    reveal_strlit("Usage: ");
    reveal_strlit("Usage:");
    reveal_strlit("exec_name");
    reveal_strlit("[exec_name]");
    reveal_strlit("text");
    reveal_strlit("Usage: up exec_name");
    reveal_strlit("Usage: down exec_name");
    reveal_strlit("Usage: info [exec_name]");
    reveal_strlit("Usage: send exec_name text");
    reveal_strlit("Usage: receive exec_name");
    reveal_strlit("Usage: error exec_name");
    reveal_strlit("Usage: restart exec_name");
    lemma_keywords(cmd);
    let parts = seq!["Usage:"@, keyword(cmd)] + usage_tail(cmd);
    assert forall|i: int| 0 <= i < parts.len() implies is_word(#[trigger] parts[i]) by {
        if i >= 2 {
            let w = parts[i];
            assert forall|j: int| 0 <= j < w.len() implies !crate::text::is_ws(#[trigger] w[j]) by {}
        } else if i == 0 {
            let w = parts[i];
            assert forall|j: int| 0 <= j < w.len() implies !crate::text::is_ws(#[trigger] w[j]) by {}
        }
    }
    let sp = seq![' '];
    assert(join_words(parts) =~= {
        let front = "Usage:"@ + sp + keyword(cmd) + sp + "exec_name"@;
        match cmd {
            Command::Info => "Usage:"@ + sp + keyword(cmd) + sp + "[exec_name]"@,
            Command::Send => front + sp + "text"@,
            _ => front,
        }
    }) by {
        let p1 = seq!["Usage:"@];
        let p2 = p1.push(keyword(cmd));
        assert(join_words(p1) == "Usage:"@);
        assert(p2.drop_last() =~= p1);
        assert(join_words(p2) == "Usage:"@ + sp + keyword(cmd));
        let p3 = p2.push(usage_tail(cmd)[0]);
        assert(p3.drop_last() =~= p2);
        assert(join_words(p3) == join_words(p2) + sp + usage_tail(cmd)[0]);
        if cmd == Command::Send {
            assert(parts =~= p3.push("text"@));
            assert(parts.drop_last() =~= p3);
        } else {
            assert(parts =~= p3);
        }
    }
    match cmd {
        Command::Up => {
            reveal_strlit("up");
            assert("up"@.len() == 2);
            assert(usage_text(cmd).len() == 19);
            assert(join_words(parts).len() == 19);
            assert(usage_text(cmd) =~= join_words(parts));
        },
        Command::Down => {
            reveal_strlit("down");
            assert("down"@.len() == 4);
            assert(usage_text(cmd).len() == 21);
            assert(join_words(parts).len() == 21);
            assert(usage_text(cmd) =~= join_words(parts));
        },
        Command::Info => {
            reveal_strlit("info");
            assert("info"@.len() == 4);
            assert(usage_text(cmd).len() == 23);
            assert(join_words(parts).len() == 23);
            assert(usage_text(cmd) =~= join_words(parts));
        },
        Command::Send => {
            reveal_strlit("send");
            assert("send"@.len() == 4);
            assert(usage_text(cmd).len() == 26);
            assert(join_words(parts).len() == 26);
            assert(usage_text(cmd) =~= join_words(parts));
        },
        Command::Receive => {
            reveal_strlit("receive");
            assert("receive"@.len() == 7);
            assert(usage_text(cmd).len() == 24);
            assert(join_words(parts).len() == 24);
            assert(usage_text(cmd) =~= join_words(parts));
        },
        Command::ReceiveErr => {
            reveal_strlit("error");
            assert("error"@.len() == 5);
            assert(usage_text(cmd).len() == 22);
            assert(join_words(parts).len() == 22);
            assert(usage_text(cmd) =~= join_words(parts));
        },
        Command::Restart => {
            reveal_strlit("restart");
            assert("restart"@.len() == 7);
            assert(usage_text(cmd).len() == 24);
            assert(join_words(parts).len() == 24);
            assert(usage_text(cmd) =~= join_words(parts));
        },
        Command::Unknown => {},
    }
    lemma_split_join(parts);
    assert(usage_text(cmd).take(7) =~= "Usage: "@);
    assert forall|exec_name: Seq<char>, args: Seq<Seq<char>>|
        valid_use(cmd, exec_name, args.len()) && (exec_name.len() > 0 ==> is_word(exec_name))
            && (forall|i: int| 0 <= i < args.len() ==> is_word(#[trigger] args[i]))
            implies #[trigger] parse_spec(command_line(cmd, exec_name, args)) == Ok::<
            _,
            Command,
        >((cmd, exec_name, args)) by {
        lemma_parse_command_line(cmd, exec_name, args);
    }
}

/// A line is accepted only as a valid use of a known command: every
/// command but `info` names an executable, `send` has text to send and the
/// others take none; the command, name and arguments are the line's first,
/// second and further words. A known command other than `info` written
/// alone is refused with that command, so its usage line is shown.
pub proof fn lemma_parse_accepts_valid_uses(line: Seq<char>)
    ensures
        match parse_spec(line) {
            Ok((cmd, name, args)) => {
                &&& cmd != Command::Unknown
                &&& cmd != Command::Info ==> name.len() > 0
                &&& cmd == Command::Send <==> args.len() > 0
                &&& cmd == command_named(word_at(words(line), 0))
                &&& name == word_at(words(line), 1)
                &&& args == words_after(words(line), 2)
            },
            Err(cmd) => cmd == command_named(word_at(words(line), 0)),
        },
        words(line).len() <= 1 && command_named(word_at(words(line), 0)) != Command::Info
            ==> parse_spec(line) == Err::<(Command, Seq<char>, Seq<Seq<char>>), Command>(
            command_named(word_at(words(line), 0)),
        ),
{
}

} // verus!

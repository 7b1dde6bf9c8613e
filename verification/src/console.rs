//! The server console: the chat and command history, and what a typed line
//! means.

use vstd::prelude::*;
use vstd::string::{StrSliceExecFns, StringExecFns};
use crate::text::{decimal_digits, decimal_string, is_whitespace, unicode_white_space};

verus! {

/// The console's history, newest line first.
pub struct ChatHistory {
    pub data: Vec<String>,
}

impl Default for ChatHistory {
    fn default() -> (r: Self)
        ensures
            r.data@.len() == 0,
    {
        ChatHistory { data: Vec::new() }
    }
}

pub open spec fn views(v: Seq<String>) -> Seq<Seq<char>> {
    v.map_values(|s: String| s@)
}

/// A history cut down to its newest `h` lines.
pub open spec fn trimmed(d: Seq<String>, h: int) -> Seq<String> {
    if d.len() > h {
        d.take(h)
    } else {
        d
    }
}

impl ChatHistory {
    /// Puts a line at the top of the history.
    pub fn log(&mut self, text: String)
        ensures
            final(self).data@ == seq![text] + old(self).data@,
    {
        self.data.insert(0, text);
        assert(self.data@ =~= seq![text] + old(self).data@);
    }

    /// Drops the oldest lines until at most `history_size` are left.
    pub fn trim(&mut self, history_size: usize)
        ensures
            final(self).data@ == trimmed(old(self).data@, history_size as int),
    {
        let ghost orig = self.data@;
        let ghost h = history_size as int;
        if self.data.len() > history_size {
            assert(orig =~= orig.take(h) + orig.skip(orig.len() - (orig.len() - h)));
        }
        while self.data.len() > history_size
            invariant
                orig == old(self).data@,
                h == history_size,
                orig.len() <= h ==> self.data@ == orig,
                orig.len() > h ==> h <= self.data@.len() <= orig.len(),
                orig.len() > h ==> self.data@ == orig.take(h) + orig.skip(
                    orig.len() - (self.data@.len() - h),
                ),
            decreases self.data.len(),
        {
            let ghost before = self.data@;
            self.data.remove(history_size);
            assert(self.data@ =~= orig.take(h) + orig.skip(orig.len() - (self.data@.len() - h)));
        }
        proof {
            if orig.len() > h {
                assert(self.data@ =~= orig.take(h));
            }
        }
    }
}

/// What a console line asks the server to do besides logging.
#[derive(Clone, Copy, Debug, PartialEq, Eq, Structural)]
pub enum CommandAction {
    Nothing,
    SpawnBot,
    ListBots,
}

/// The lines a console line logs, oldest first, and what it asks for.
pub struct CommandOutcome {
    pub lines: Vec<String>,
    pub action: CommandAction,
}

pub open spec fn spawn_usage() -> Seq<char> {
    "/spawn [thing: asteroid/...] [chunk x: int] [chunk y: int]"@
}

/// The words of `s` from position `i` on, given the words found before
/// (`acc`) and where the word in progress started (`start`, -1 when between
/// words): `split_whitespace`, read left to right.
pub open spec fn words_from(s: Seq<char>, i: int, start: int, acc: Seq<Seq<char>>) -> Seq<Seq<char>>
    decreases s.len() - i,
{
    if i >= s.len() {
        if start >= 0 {
            acc.push(s.subrange(start, s.len() as int))
        } else {
            acc
        }
    } else if unicode_white_space(s[i]) {
        words_from(s, i + 1, -1, if start >= 0 { acc.push(s.subrange(start, i)) } else { acc })
    } else {
        words_from(s, i + 1, if start >= 0 { start } else { i }, acc)
    }
}

/// The whitespace-separated words of `s`.
pub open spec fn words(s: Seq<char>) -> Seq<Seq<char>> {
    words_from(s, 0, -1, Seq::empty())
}

pub open spec fn all_spaces(s: Seq<char>) -> bool {
    forall|i: int| 0 <= i < s.len() ==> s[i] == ' '
}

pub open spec fn lines_and(lines: Seq<Seq<char>>, action: CommandAction) -> (Seq<Seq<char>>, CommandAction) {
    (lines, action)
}

/// What the console line `cmd` logs and asks for. Blank lines do nothing;
/// lines that do not start with '/' are chat and are logged as they are;
/// commands are echoed, then answered.
pub open spec fn command_meaning(cmd: Seq<char>) -> (Seq<Seq<char>>, CommandAction) {
    if all_spaces(cmd) {
        lines_and(Seq::empty(), CommandAction::Nothing)
    } else if cmd[0] != '/' {
        lines_and(seq![cmd], CommandAction::Nothing)
    } else {
        let echo = "> "@ + cmd;
        let w = words(cmd.drop_first());
        if w.len() == 0 {
            lines_and(seq![echo, "< There is no command body!"@], CommandAction::Nothing)
        } else if w[0] == "help"@ {
            lines_and(seq![echo, "< help command executed!"@], CommandAction::Nothing)
        } else if w[0] == "bot"@ {
            if w.len() < 2 {
                lines_and(seq![echo, "< spawn/list/despawn"@], CommandAction::Nothing)
            } else if w[1] == "spawn"@ {
                lines_and(seq![echo], CommandAction::SpawnBot)
            } else if w[1] == "list"@ {
                lines_and(seq![echo], CommandAction::ListBots)
            } else {
                lines_and(seq![echo], CommandAction::Nothing)
            }
        } else if w[0] == "set"@ {
            lines_and(seq![echo, "< There is nothing to set!"@], CommandAction::Nothing)
        } else if w[0] == "spawn"@ {
            if w.len() < 2 {
                lines_and(seq![echo, "< Using: "@ + spawn_usage()], CommandAction::Nothing)
            } else if w[1] == "asteroid"@ {
                lines_and(seq![echo], CommandAction::Nothing)
            } else {
                lines_and(
                    seq![echo, "< Unknown thing: "@ + w[1] + " \n  Using: "@ + spawn_usage()],
                    CommandAction::Nothing,
                )
            }
        } else if w[0] == "kill"@ {
            lines_and(seq![echo, "< kill command executed!"@], CommandAction::Nothing)
        } else if w[0] == "kick"@ {
            lines_and(seq![echo, "< kick command executed!"@], CommandAction::Nothing)
        } else if w[0] == "say"@ {
            lines_and(seq![echo, "< say command executed!"@], CommandAction::Nothing)
        } else {
            lines_and(seq![echo, "< Unknown command: "@ + w[0]], CommandAction::Nothing)
        }
    }
}

/// The whitespace-separated words of `s` (`split_whitespace`).
pub fn split_whitespace(s: &str) -> (r: Vec<String>)
    ensures
        views(r@) == words(s@),
{
    let n = s.unicode_len();
    let mut out: Vec<String> = Vec::new();
    let mut start: Option<usize> = None;
    let mut i: usize = 0;
    assert(views(out@) =~= Seq::<Seq<char>>::empty());
    while i < n
        invariant
            i <= n,
            n == s@.len(),
            match start {
                Some(st) => st < i,
                None => true,
            },
            words(s@) == words_from(
                s@,
                i as int,
                match start {
                    Some(st) => st as int,
                    None => -1,
                },
                views(out@),
            ),
        decreases n - i,
    {
        let c = s.get_char(i);
        if is_whitespace(c) {
            match start {
                Some(st) => {
                    let w = String::from_str(s.substring_char(st, i));
                    proof {
                        assert(views(out@.push(w)) =~= views(out@).push(s@.subrange(st as int, i as int)));
                    }
                    out.push(w);
                },
                None => {},
            }
            start = None;
        } else {
            if start.is_none() {
                start = Some(i);
            }
        }
        i = i + 1;
    }
    match start {
        Some(st) => {
            let w = String::from_str(s.substring_char(st, n));
            proof {
                assert(views(out@.push(w)) =~= views(out@).push(s@.subrange(st as int, n as int)));
            }
            out.push(w);
        },
        None => {},
    }
    out
}

fn is_all_spaces(s: &str) -> (r: bool)
    ensures
        r == all_spaces(s@),
{
    let n = s.unicode_len();
    let mut i: usize = 0;
    while i < n
        invariant
            i <= n,
            n == s@.len(),
            forall|j: int| 0 <= j < i ==> s@[j] == ' ',
        decreases n - i,
    {
        if s.get_char(i) != ' ' {
            return false;
        }
        i = i + 1;
    }
    true
}

fn text(s: &str) -> (r: String)
    ensures
        r@ == s@,
{
    String::from_str(s)
}

fn same(a: &String, b: &str) -> (r: bool)
    ensures
        r == (a@ == b@),
{
    let b = String::from_str(b);
    *a == b
}

/// What the console line `command` logs (oldest line first) and asks the
/// server to do (the decisions of `command_executer`).
pub fn interpret_command(command: &str) -> (r: CommandOutcome)
    ensures
        (views(r.lines@), r.action) == command_meaning(command@),
{
    let mut lines: Vec<String> = Vec::new();
    if is_all_spaces(command) {
        assert(views(lines@) =~= Seq::empty());
        return CommandOutcome { lines, action: CommandAction::Nothing };
    }
    let n = command.unicode_len();
    if command.get_char(0) != '/' {
        lines.push(text(command));
        assert(views(lines@) =~= seq![command@]);
        return CommandOutcome { lines, action: CommandAction::Nothing };
    }
    let echo = text("> ").concat(command);
    lines.push(echo);
    let body = command.substring_char(1, n);
    assert(body@ =~= command@.drop_first());
    let w = split_whitespace(body);
    let mut action = CommandAction::Nothing;
    if w.len() == 0 {
        lines.push(text("< There is no command body!"));
    } else {
        proof {
            assert(views(w@)[0] == w@[0]@);
        }
        let head = &w[0];
        if same(head, "help") {
            lines.push(text("< help command executed!"));
        } else if same(head, "bot") {
            if w.len() < 2 {
                lines.push(text("< spawn/list/despawn"));
            } else {
                proof {
                    assert(views(w@)[1] == w@[1]@);
                }
                if same(&w[1], "spawn") {
                    action = CommandAction::SpawnBot;
                } else if same(&w[1], "list") {
                    action = CommandAction::ListBots;
                }
            }
        } else if same(head, "set") {
            lines.push(text("< There is nothing to set!"));
        } else if same(head, "spawn") {
            if w.len() < 2 {
                lines.push(text("< Using: ").concat(
                    "/spawn [thing: asteroid/...] [chunk x: int] [chunk y: int]",
                ));
            } else {
                proof {
                    assert(views(w@)[1] == w@[1]@);
                }
                if same(&w[1], "asteroid") {
                } else {
                    lines.push(
                        text("< Unknown thing: ").concat(w[1].as_str()).concat(
                            " \n  Using: ",
                        ).concat("/spawn [thing: asteroid/...] [chunk x: int] [chunk y: int]"),
                    );
                }
            }
        } else if same(head, "kill") {
            lines.push(text("< kill command executed!"));
        } else if same(head, "kick") {
            lines.push(text("< kick command executed!"));
        } else if same(head, "say") {
            lines.push(text("< say command executed!"));
        } else {
            lines.push(text("< Unknown command: ").concat(head.as_str()));
        }
    }
    let r = CommandOutcome { lines, action };
    assert((views(r.lines@), r.action) =~= command_meaning(command@));
    r
}

/// The lines the console logs for "/bot list", oldest first, given the
/// bots' client ids.
pub fn bot_list_lines(ids: &Vec<u64>) -> (r: Vec<String>)
    ensures
        views(r@) == if ids@.len() > 0 {
            seq!["List of bot ids:"@] + ids@.map_values(|id: u64| "   "@ + decimal_digits(id as nat))
        } else {
            seq!["There is no bots"@]
        },
{
    let mut out: Vec<String> = Vec::new();
    if ids.len() > 0 {
        out.push(text("List of bot ids:"));
        let mut i: usize = 0;
        while i < ids.len()
            invariant
                i <= ids.len(),
                views(out@) == seq!["List of bot ids:"@] + ids@.take(i as int).map_values(
                    |id: u64| "   "@ + decimal_digits(id as nat),
                ),
            decreases ids.len() - i,
        {
            let digits = decimal_string(ids[i]);
            let line = text("   ").concat(digits.as_str());
            let ghost before = out@;
            out.push(line);
            assert(views(out@) =~= views(before).push(line@));
            assert(ids@.take(i + 1).map_values(|id: u64| "   "@ + decimal_digits(id as nat))
                =~= ids@.take(i as int).map_values(|id: u64| "   "@ + decimal_digits(id as nat)).push(
                "   "@ + decimal_digits(ids@[i as int] as nat),
            ));
            assert(views(out@) =~= seq!["List of bot ids:"@] + ids@.take(i + 1).map_values(
                |id: u64| "   "@ + decimal_digits(id as nat),
            ));
            i = i + 1;
        }
        assert(ids@.take(i as int) =~= ids@);
    } else {
        out.push(text("There is no bots"));
        assert(views(out@) =~= seq!["There is no bots"@]);
    }
    out
}

/// A line just entered shows at the top of the history, and after trimming
/// the history holds at most its size in lines: all of them while they fit.
pub proof fn law_entered_line_on_top(d: Seq<String>, text: String, h: int)
    requires
        h >= 1,
    ensures
        trimmed(seq![text] + d, h)[0] == text,
        trimmed(seq![text] + d, h).len() == if d.len() + 1 > h { h } else { d.len() + 1int },
        forall|i: int| 1 <= i < trimmed(seq![text] + d, h).len() ==> #[trigger] trimmed(seq![text] + d, h)[i] == d[i - 1],
{
}

/// Every command, blank lines aside, is echoed as "> " and the line before
/// anything else is logged; every other line is logged as it was typed.
pub proof fn law_commands_are_echoed(cmd: Seq<char>)
    requires
        !all_spaces(cmd),
    ensures
        command_meaning(cmd).0.len() >= 1,
        cmd[0] == '/' ==> command_meaning(cmd).0[0] == "> "@ + cmd,
        cmd[0] != '/' ==> command_meaning(cmd).0 == seq![cmd] && command_meaning(cmd).1
            == CommandAction::Nothing,
{
}

} // verus!

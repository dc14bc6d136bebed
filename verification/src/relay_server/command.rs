//! The commands that a local connection sends to the server.

use crate::relay_server::params::{Params, Scaled};
use crate::relay_server::store::{accounts_list, set_clear, set_list};
use crate::relay_server::usage::{is_table, usage_rows, Entry, UsageRow};
use crate::relay_server::{ListKind, RelayServer, ServerView};
use crate::text::{
    being, decimal, digits, fields, is_word, lemma_fields_of_words, lemma_pieces_of_plain, number,
    parse_number, pieces_at, split_fields, split_on, texts,
};
use vstd::prelude::*;

verus! {

/// A command.
pub enum Command {
    /// Show the commands.
    Help,
    /// Put addresses on a list.
    Add(ListKind, Vec<String>),
    /// Take addresses off a list.
    Remove(ListKind, Vec<String>),
    /// Take every address off a list.
    Clear(ListKind),
    /// Tell whether an address is on a list.
    Contains(ListKind, String),
    /// Show a list.
    Show(ListKind),
    /// Set a parameter to the number that a text stands for.
    SetScaled(Scaled, String),
    /// Show a parameter.
    ShowScaled(Scaled),
    /// Set the start check, in seconds.
    SetStartCheck(u64),
    /// Show the start check.
    ShowStartCheck,
    /// Show the table of usage.
    Usage,
    /// Nothing that the server knows.
    Nothing,
}

/// A command, as mathematics.
pub enum CommandView {
    Help,
    Add(ListKind, Seq<Seq<char>>),
    Remove(ListKind, Seq<Seq<char>>),
    Clear(ListKind),
    Contains(ListKind, Seq<char>),
    Show(ListKind),
    SetScaled(Scaled, Seq<char>),
    ShowScaled(Scaled),
    SetStartCheck(u64),
    ShowStartCheck,
    Usage,
    Nothing,
}

impl View for Command {
    type V = CommandView;

    open spec fn view(&self) -> CommandView {
        match *self {
            Command::Help => CommandView::Help,
            Command::Add(list, ips) => CommandView::Add(list, texts(ips@)),
            Command::Remove(list, ips) => CommandView::Remove(list, texts(ips@)),
            Command::Clear(list) => CommandView::Clear(list),
            Command::Contains(list, ip) => CommandView::Contains(list, ip@),
            Command::Show(list) => CommandView::Show(list),
            Command::SetScaled(which, text) => CommandView::SetScaled(which, text@),
            Command::ShowScaled(which) => CommandView::ShowScaled(which),
            Command::SetStartCheck(seconds) => CommandView::SetStartCheck(seconds),
            Command::ShowStartCheck => CommandView::ShowStartCheck,
            Command::Usage => CommandView::Usage,
            Command::Nothing => CommandView::Nothing,
        }
    }
}

/// What comes of a command: a reply, or what the reply still waits for.
pub enum Step {
    /// The reply is this text.
    Reply(String),
    /// The parameter is to be set to the number that the text stands for.
    ReadScaled(Scaled, String),
    /// The reply is the parameter's value, written as a decimal fraction.
    WriteScaled(Scaled, u64),
    /// The reply is this table, with the megabytes of each row.
    WriteUsage(Vec<UsageRow>),
}

/// Whether `name` is one of the two names of a command.
pub open spec fn named(name: Seq<char>, long: Seq<char>, short: Seq<char>) -> bool {
    name == long || name == short
}

/// Putting the addresses of the argument, which `|` keeps apart, on a list.
pub open spec fn add_of(list: ListKind, arg: Option<Seq<char>>) -> CommandView {
    match arg {
        Some(ips) => CommandView::Add(list, pieces_at(ips, '|')),
        None => CommandView::Nothing,
    }
}

/// Taking the addresses of the argument, or with `all` every address, off a list.
pub open spec fn remove_of(list: ListKind, arg: Option<Seq<char>>) -> CommandView {
    match arg {
        Some(ips) => if ips == "all"@ {
            CommandView::Clear(list)
        } else {
            CommandView::Remove(list, pieces_at(ips, '|'))
        },
        None => CommandView::Nothing,
    }
}

/// Asking for the address of the argument, or without one for the whole list.
pub open spec fn show_of(list: ListKind, arg: Option<Seq<char>>) -> CommandView {
    match arg {
        Some(ip) => CommandView::Contains(list, ip),
        None => CommandView::Show(list),
    }
}

/// Setting a parameter to the argument, or without one asking for it.
pub open spec fn scaled_of(which: Scaled, arg: Option<Seq<char>>) -> CommandView {
    match arg {
        Some(text) => CommandView::SetScaled(which, text),
        None => CommandView::ShowScaled(which),
    }
}

/// Setting the start check to the argument, a number above zero, or without one asking for it.
pub open spec fn start_check_of(arg: Option<Seq<char>>) -> CommandView {
    match arg {
        Some(text) => match number(text, u64::MAX as nat) {
            Ok(v) => if v > 0 {
                CommandView::SetStartCheck(v as u64)
            } else {
                CommandView::Nothing
            },
            Err(_) => CommandView::Nothing,
        },
        None => CommandView::ShowStartCheck,
    }
}

/// The command that the fields of a line stand for: the first is its name, the second its
/// argument, and the others do not count.
pub open spec fn command_of(line: Seq<Seq<char>>) -> CommandView {
    if line.len() == 0 {
        CommandView::Nothing
    } else {
        let name = line[0];
        let arg = if line.len() > 1 {
            Some(line[1])
        } else {
            None
        };
        if name == "h"@ {
            CommandView::Help
        } else if named(name, "blacklist-add"@, "ba"@) {
            add_of(ListKind::Blacklist, arg)
        } else if named(name, "blacklist-remove"@, "br"@) {
            remove_of(ListKind::Blacklist, arg)
        } else if named(name, "blacklist"@, "b"@) {
            show_of(ListKind::Blacklist, arg)
        } else if named(name, "blocklist-add"@, "Ba"@) {
            add_of(ListKind::Blocklist, arg)
        } else if named(name, "blocklist-remove"@, "Br"@) {
            remove_of(ListKind::Blocklist, arg)
        } else if named(name, "blocklist"@, "B"@) {
            show_of(ListKind::Blocklist, arg)
        } else if named(name, "downgrade-threshold"@, "dt"@) {
            scaled_of(Scaled::DowngradeThreshold, arg)
        } else if named(name, "downgrade-start-check"@, "t"@) {
            start_check_of(arg)
        } else if named(name, "limit-speed"@, "ls"@) {
            scaled_of(Scaled::LimitSpeed, arg)
        } else if named(name, "total-bandwidth"@, "tb"@) {
            scaled_of(Scaled::TotalBandwidth, arg)
        } else if named(name, "single-bandwidth"@, "sb"@) {
            scaled_of(Scaled::SingleBandwidth, arg)
        } else if named(name, "usage"@, "u"@) {
            CommandView::Usage
        } else {
            CommandView::Nothing
        }
    }
}

fn is_named(name: &str, long: &str, short: &str) -> (yes: bool)
    ensures
        yes == named(name@, long@, short@),
{
    name.eq(long) || name.eq(short)
}

fn add_command(list: ListKind, arg: Option<&str>) -> (c: Command)
    ensures
        c@ == add_of(list, (match arg { Some(a) => Some(a@), None => None })),
{
    match arg {
        Some(ips) => Command::Add(list, split_on(ips, '|')),
        None => Command::Nothing,
    }
}

fn remove_command(list: ListKind, arg: Option<&str>) -> (c: Command)
    ensures
        c@ == remove_of(list, (match arg { Some(a) => Some(a@), None => None })),
{
    match arg {
        Some(ips) => if ips.eq("all") {
            Command::Clear(list)
        } else {
            Command::Remove(list, split_on(ips, '|'))
        },
        None => Command::Nothing,
    }
}

fn show_command(list: ListKind, arg: Option<&str>) -> (c: Command)
    ensures
        c@ == show_of(list, (match arg { Some(a) => Some(a@), None => None })),
{
    match arg {
        Some(ip) => Command::Contains(list, ip.to_owned()),
        None => Command::Show(list),
    }
}

fn scaled_command(which: Scaled, arg: Option<&str>) -> (c: Command)
    ensures
        c@ == scaled_of(which, (match arg { Some(a) => Some(a@), None => None })),
{
    match arg {
        Some(text) => Command::SetScaled(which, text.to_owned()),
        None => Command::ShowScaled(which),
    }
}

fn start_check_command(arg: Option<&str>) -> (c: Command)
    ensures
        c@ == start_check_of((match arg { Some(a) => Some(a@), None => None })),
{
    match arg {
        Some(text) => match parse_number(text, u64::MAX) {
            Ok(v) => if v > 0 {
                Command::SetStartCheck(v)
            } else {
                Command::Nothing
            },
            Err(_) => Command::Nothing,
        },
        None => Command::ShowStartCheck,
    }
}

/// Reads a command.
pub fn parse_command(cmd: &str) -> (c: Command)
    ensures
        c@ == command_of(fields(cmd@)),
{
    let line = split_fields(cmd);
    if line.len() == 0 {
        return Command::Nothing;
    }
    assert(texts(line@)[0] == line[0]@);
    let name = line[0].as_str();
    let arg: Option<&str> = if line.len() > 1 {
        assert(texts(line@)[1] == line[1]@);
        Some(line[1].as_str())
    } else {
        None
    };
    if name.eq("h") {
        Command::Help
    } else if is_named(name, "blacklist-add", "ba") {
        add_command(ListKind::Blacklist, arg)
    } else if is_named(name, "blacklist-remove", "br") {
        remove_command(ListKind::Blacklist, arg)
    } else if is_named(name, "blacklist", "b") {
        show_command(ListKind::Blacklist, arg)
    } else if is_named(name, "blocklist-add", "Ba") {
        add_command(ListKind::Blocklist, arg)
    } else if is_named(name, "blocklist-remove", "Br") {
        remove_command(ListKind::Blocklist, arg)
    } else if is_named(name, "blocklist", "B") {
        show_command(ListKind::Blocklist, arg)
    } else if is_named(name, "downgrade-threshold", "dt") {
        scaled_command(Scaled::DowngradeThreshold, arg)
    } else if is_named(name, "downgrade-start-check", "t") {
        start_check_command(arg)
    } else if is_named(name, "limit-speed", "ls") {
        scaled_command(Scaled::LimitSpeed, arg)
    } else if is_named(name, "total-bandwidth", "tb") {
        scaled_command(Scaled::TotalBandwidth, arg)
    } else if is_named(name, "single-bandwidth", "sb") {
        scaled_command(Scaled::SingleBandwidth, arg)
    } else if is_named(name, "usage", "u") {
        Command::Usage
    } else {
        Command::Nothing
    }
}

/// The reply that shows the commands.
pub open spec fn help_text() -> Seq<char> {
    "blacklist-add(ba) <ip>\n\
blacklist-remove(br) <ip>\n\
blacklist(b) <ip>\n\
blocklist-add(Ba) <ip>\n\
blocklist-remove(Br) <ip>\n\
blocklist(B) <ip>\n\
downgrade-threshold(dt) [value]\n\
downgrade-start-check(t) [value(second)]\n\
limit-speed(ls) [value(Mb/s)]\n\
total-bandwidth(tb) [value(Mb/s)]\n\
single-bandwidth(sb) [value(Mb/s)]\n\
usage(u)\n"@
}

/// The texts, each on a line of its own.
pub open spec fn lines_text(items: Seq<Seq<char>>) -> Seq<char>
    decreases items.len(),
{
    if items.len() == 0 {
        Seq::<char>::empty()
    } else {
        lines_text(items.drop_last()) + items.last() + "\n"@
    }
}

/// `order` holds each member of `set` once.
pub open spec fn enumerates(order: Seq<Seq<char>>, set: Set<Seq<char>>) -> bool {
    order.no_duplicates() && order.to_set() == set
}

/// `entries` holds each account of `usage` once.
pub open spec fn enumerates_accounts(
    entries: Seq<Entry>,
    usage: Map<Seq<char>, (u64, u64, u64, u64)>,
) -> bool {
    &&& enumerates(entries.map_values(|e: Entry| e.0@), usage.dom())
    &&& forall|i: int| 0 <= i < entries.len() ==> usage[(#[trigger] entries[i]).0@] == entries[i].1
}

/// Whether a command can be carried out: the start check must be held in milliseconds.
pub open spec fn in_range(c: CommandView) -> bool {
    c matches CommandView::SetStartCheck(seconds) ==> seconds * 1000 <= u64::MAX
}

/// The state after a command.
pub open spec fn after_command(v: ServerView, c: CommandView) -> ServerView {
    match c {
        CommandView::Add(list, ips) => v.with_list(list, v.list(list).union(ips.to_set())),
        CommandView::Remove(list, ips) => v.with_list(list, v.list(list).difference(ips.to_set())),
        CommandView::Clear(list) => v.with_list(list, Set::empty()),
        CommandView::SetStartCheck(seconds) => ServerView {
            params: Params { downgrade_start_check: (seconds * 1000) as u64, ..v.params },
            ..v
        },
        _ => v,
    }
}

/// `step` is what may come of a command in a state. The members of a list come in any order, and
/// so do sessions with equally many bits.
pub open spec fn step_of(v: ServerView, c: CommandView, step: Step) -> bool {
    match c {
        CommandView::Help => step matches Step::Reply(text) && text@ == help_text(),
        CommandView::Contains(list, ip) => step matches Step::Reply(text) && text@ == (if v.list(
            list,
        ).contains(ip) {
            "true\n"@
        } else {
            "false\n"@
        }),
        CommandView::Show(list) => step matches Step::Reply(text) && exists|order: Seq<Seq<char>>|
            #[trigger] enumerates(order, v.list(list)) && text@ == lines_text(order),
        CommandView::SetScaled(which, arg) => step matches Step::ReadScaled(w, text) && w == which
            && text@ == arg,
        CommandView::ShowScaled(which) => step == Step::WriteScaled(
            which,
            v.params.spec_get(which),
        ),
        CommandView::ShowStartCheck => step matches Step::Reply(text) && text@ == digits(
            (v.params.downgrade_start_check / 1000) as nat,
        ) + "s\n"@,
        CommandView::Usage => step matches Step::WriteUsage(rows) && exists|entries: Seq<Entry>|
            #[trigger] enumerates_accounts(entries, v.usage) && is_table(entries, rows@),
        _ => step matches Step::Reply(text) && text@ == Seq::<char>::empty(),
    }
}

/// The reply that shows a list, given its members in some order.
pub fn list_reply(items: &Vec<String>) -> (out: String)
    ensures
        out@ == lines_text(texts(items@)),
{
    let ghost all = texts(items@);
    let mut out = String::new();
    for i in 0..items.len()
        invariant
            all == texts(items@),
            out@ == lines_text(all.take(i as int)),
    {
        out.append(items[i].as_str());
        out.append("\n");
        proof {
            assert(all.take(i as int + 1).drop_last() == all.take(i as int));
            assert(all.take(i as int + 1).last() == items[i as int]@);
        }
    }
    assert(all.take(all.len() as int) == all);
    out
}

/// The reply that shows a parameter, given its value as a decimal fraction.
pub fn scaled_reply(which: Scaled, text: &str) -> (out: String)
    ensures
        out@ == text@ + (if which == Scaled::DowngradeThreshold {
            "\n"@
        } else {
            "Mb/s\n"@
        }),
{
    let mut out = text.to_owned();
    match which {
        Scaled::DowngradeThreshold => {
            out.append("\n");
        },
        _ => {
            out.append("Mb/s\n");
        },
    }
    out
}

impl Command {
    /// Whether the command can be carried out.
    pub fn fits(&self) -> (yes: bool)
        ensures
            yes == in_range(self@),
    {
        match self {
            Command::SetStartCheck(seconds) => *seconds <= u64::MAX / 1000,
            _ => true,
        }
    }
}

impl RelayServer {
    /// Carries a command out.
    pub fn run_command(&mut self, c: &Command) -> (step: Step)
        requires
            in_range(c@),
        ensures
            final(self)@ == after_command(old(self)@, c@),
            step_of(old(self)@, c@, step),
    {
        match c {
            Command::Help => Step::Reply(
                "blacklist-add(ba) <ip>\n\
blacklist-remove(br) <ip>\n\
blacklist(b) <ip>\n\
blocklist-add(Ba) <ip>\n\
blocklist-remove(Br) <ip>\n\
blocklist(B) <ip>\n\
downgrade-threshold(dt) [value]\n\
downgrade-start-check(t) [value(second)]\n\
limit-speed(ls) [value(Mb/s)]\n\
total-bandwidth(tb) [value(Mb/s)]\n\
single-bandwidth(sb) [value(Mb/s)]\n\
usage(u)\n".to_owned(),
            ),
            Command::Add(list, ips) => {
                self.add_all(*list, ips);
                Step::Reply(String::new())
            },
            Command::Remove(list, ips) => {
                self.remove_all(*list, ips);
                Step::Reply(String::new())
            },
            Command::Clear(list) => {
                match *list {
                    ListKind::Blacklist => set_clear(&mut self.blacklist),
                    ListKind::Blocklist => set_clear(&mut self.blocklist),
                }
                Step::Reply(String::new())
            },
            Command::Contains(list, ip) => {
                if self.is_listed(*list, ip.as_str()) {
                    Step::Reply("true\n".to_owned())
                } else {
                    Step::Reply("false\n".to_owned())
                }
            },
            Command::Show(list) => {
                let items = match *list {
                    ListKind::Blacklist => set_list(&self.blacklist),
                    ListKind::Blocklist => set_list(&self.blocklist),
                };
                assert(enumerates(texts(items@), self@.list(*list)));
                Step::Reply(list_reply(&items))
            },
            Command::SetScaled(which, text) => Step::ReadScaled(*which, text.clone()),
            Command::ShowScaled(which) => Step::WriteScaled(*which, self.params.get(*which)),
            Command::SetStartCheck(seconds) => {
                self.params.downgrade_start_check = *seconds * 1000;
                Step::Reply(String::new())
            },
            Command::ShowStartCheck => {
                let mut text = decimal(self.params.downgrade_start_check / 1000);
                text.append("s\n");
                Step::Reply(text)
            },
            Command::Usage => {
                let entries = accounts_list(&self.usage);
                assert(enumerates_accounts(entries@, self@.usage));
                Step::WriteUsage(usage_rows(&entries))
            },
            Command::Nothing => Step::Reply(String::new()),
        }
    }

    /// Reads a command and carries it out.
    pub fn check_cmd(&mut self, cmd: &str) -> (step: Step)
        requires
            in_range(command_of(fields(cmd@))),
        ensures
            final(self)@ == after_command(old(self)@, command_of(fields(cmd@))),
            step_of(old(self)@, command_of(fields(cmd@)), step),
    {
        let c = parse_command(cmd);
        self.run_command(&c)
    }

    /// Sets a parameter to the number that a command's text was found to stand for, in units of
    /// the parameter; a text that stands for no number above zero changes nothing. Gives the
    /// limit for all sessions together where it is to be changed.
    pub fn set_scaled(&mut self, which: Scaled, value: Option<u64>) -> (limit: Option<u64>)
        ensures
            final(self)@ == (match value {
                Some(v) => ServerView {
                    params: old(self)@.params.spec_set(which, v),
                    ..old(self)@
                },
                None => old(self)@,
            }),
            limit == (if which == Scaled::TotalBandwidth {
                value
            } else {
                None
            }),
    {
        match value {
            Some(v) => {
                self.params.set(which, v);
                match which {
                    Scaled::TotalBandwidth => Some(v),
                    _ => None,
                }
            },
            None => None,
        }
    }
}

/// An address that a command put on a list is on it, and one that a command took off is not; the
/// other addresses, the other list and the rest of the state stay as they are.
pub proof fn lemma_list_commands(v: ServerView, list: ListKind, ips: Seq<Seq<char>>, ip: Seq<char>)
    ensures
        ({
            let added = after_command(v, CommandView::Add(list, ips));
            let removed = after_command(v, CommandView::Remove(list, ips));
            let cleared = after_command(v, CommandView::Clear(list));
            &&& added.list(list).contains(ip) == (ips.contains(ip) || v.list(list).contains(ip))
            &&& removed.list(list).contains(ip) == (v.list(list).contains(ip) && !ips.contains(ip))
            &&& !cleared.list(list).contains(ip)
            &&& added == v.with_list(list, added.list(list))
            &&& removed == v.with_list(list, removed.list(list))
            &&& cleared == v.with_list(list, cleared.list(list))
        }),
{
}

/// Asked for an address, the server answers by the last command that named it: that it is on the
/// list after it was put there, and that it is not after it was taken off.
pub proof fn lemma_lists_answer(
    v: ServerView,
    list: ListKind,
    ips: Seq<Seq<char>>,
    ip: Seq<char>,
    step: Step,
)
    requires
        ips.contains(ip),
    ensures
        step_of(
            after_command(v, CommandView::Add(list, ips)),
            CommandView::Contains(list, ip),
            step,
        ) ==> (step matches Step::Reply(text) && text@ == "true\n"@),
        step_of(
            after_command(v, CommandView::Remove(list, ips)),
            CommandView::Contains(list, ip),
            step,
        ) ==> (step matches Step::Reply(text) && text@ == "false\n"@),
        step_of(after_command(v, CommandView::Clear(list)), CommandView::Contains(list, ip), step)
            ==> (step matches Step::Reply(text) && text@ == "false\n"@),
{
    lemma_list_commands(v, list, ips, ip);
}

/// Asked for the start check, the server shows the seconds that it was last set to.
pub proof fn lemma_start_check_reads_back(v: ServerView, seconds: u64, step: Step)
    requires
        in_range(CommandView::SetStartCheck(seconds)),
        step_of(
            after_command(v, CommandView::SetStartCheck(seconds)),
            CommandView::ShowStartCheck,
            step,
        ),
    ensures
        step matches Step::Reply(text) && text@ == digits(seconds as nat) + "s\n"@,
{
}

/// Asked for a scaled parameter, the server shows the value that it was last set to.
pub proof fn lemma_scaled_reads_back(v: ServerView, which: Scaled, value: u64, step: Step)
    requires
        step_of(
            (ServerView { params: v.params.spec_set(which, value), ..v }),
            CommandView::ShowScaled(which),
            step,
        ),
    ensures
        step == Step::WriteScaled(which, value),
{
}

/// The short names of the commands for the lists do what they stand for, for each address of one
/// word.
pub proof fn lemma_short_names(ip: Seq<char>)
    requires
        is_word(ip),
        !ip.contains('|'),
        ip != "all"@,
    ensures
        command_of(fields("ba"@.push(' ') + ip)) == CommandView::Add(
            ListKind::Blacklist,
            seq![ip],
        ),
        command_of(fields("br"@.push(' ') + ip)) == CommandView::Remove(
            ListKind::Blacklist,
            seq![ip],
        ),
        command_of(fields("b"@.push(' ') + ip)) == CommandView::Contains(ListKind::Blacklist, ip),
        command_of(fields("Ba"@.push(' ') + ip)) == CommandView::Add(
            ListKind::Blocklist,
            seq![ip],
        ),
        command_of(fields("Br"@.push(' ') + ip)) == CommandView::Remove(
            ListKind::Blocklist,
            seq![ip],
        ),
        command_of(fields("B"@.push(' ') + ip)) == CommandView::Contains(ListKind::Blocklist, ip),
{
    reveal_strlit("h");
    reveal_strlit("blacklist-add");
    reveal_strlit("ba");
    reveal_strlit("blacklist-remove");
    reveal_strlit("br");
    reveal_strlit("blacklist");
    reveal_strlit("b");
    reveal_strlit("blocklist-add");
    reveal_strlit("Ba");
    reveal_strlit("blocklist-remove");
    reveal_strlit("Br");
    reveal_strlit("blocklist");
    reveal_strlit("B");
    assert forall|i: int| 0 <= i < ip.len() implies !being('|')(#[trigger] ip[i]) by {
        assert(ip.contains(ip[i]));
    }
    lemma_pieces_of_plain(ip, being('|'));
    lemma_fields_of_words("ba"@, ip);
    lemma_fields_of_words("br"@, ip);
    lemma_fields_of_words("b"@, ip);
    lemma_fields_of_words("Ba"@, ip);
    lemma_fields_of_words("Br"@, ip);
    lemma_fields_of_words("B"@, ip);
    assert("ba"@[1] == 'a' && "br"@[1] == 'r' && "ba"@[0] == 'b');
    assert("Ba"@[1] == 'a' && "Br"@[1] == 'r' && "Ba"@[0] == 'B' && "Br"@[0] == 'B');
    assert("b"@[0] == 'b' && "B"@[0] == 'B' && "h"@[0] == 'h');
}

/// Taking addresses off a list that a command had just put there leaves the list as it was,
/// if none of them was on it.
pub proof fn lemma_remove_undoes_add(v: ServerView, list: ListKind, ips: Seq<Seq<char>>)
    requires
        forall|ip: Seq<char>| #[trigger] ips.contains(ip) ==> !v.list(list).contains(ip),
    ensures
        after_command(after_command(v, CommandView::Add(list, ips)), CommandView::Remove(list, ips))
            == v,
{
    let added = v.list(list).union(ips.to_set());
    assert(added.difference(ips.to_set()) =~= v.list(list)) by {
        assert forall|ip: Seq<char>| #[trigger] added.difference(ips.to_set()).contains(ip)
            == v.list(list).contains(ip) by {
            assert(ips.to_set().contains(ip) == ips.contains(ip));
        }
    }
}

/// Only putting addresses on a list, taking them off and setting the start check change the
/// server; a command that asks leaves it as it is.
pub proof fn lemma_questions_change_nothing(v: ServerView, c: CommandView)
    requires
        !(c is Add || c is Remove || c is Clear || c is SetStartCheck),
    ensures
        after_command(v, c) == v,
{
}

} // verus!

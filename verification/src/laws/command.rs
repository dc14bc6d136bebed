//! Laws of commands and of the two lists.

use crate::laws::usage::{lemma_rows_differ, lemma_rows_of_entries, tells};
use crate::relay_server::command::{
    after_command, enumerates, enumerates_accounts, help_text, lines_text, list_reply,
    parse_command, scaled_reply, step_of, Command, Step,
};
use crate::relay_server::params::{Params, Scaled};
use crate::relay_server::usage::{is_table, Entry, UsageRow};
use crate::relay_server::{ListKind, RelayServer, ServerView};
use crate::text::{
    digits, parse_number, split_fields, split_first_fields, split_on, texts, NumberError,
};
use vstd::prelude::*;

verus! {

proof fn lemma_names()
    ensures
        "h"@.len() == 1 && "h"@[0] == 'h',
        "b"@.len() == 1 && "b"@[0] == 'b',
        "B"@.len() == 1 && "B"@[0] == 'B',
        "t"@.len() == 1 && "t"@[0] == 't',
        "u"@.len() == 1 && "u"@[0] == 'u',
        "ba"@.len() == 2 && "ba"@[0] == 'b' && "ba"@[1] == 'a',
        "br"@.len() == 2 && "br"@[0] == 'b' && "br"@[1] == 'r',
        "Ba"@.len() == 2 && "Ba"@[0] == 'B' && "Ba"@[1] == 'a',
        "Br"@.len() == 2 && "Br"@[0] == 'B' && "Br"@[1] == 'r',
        "dt"@.len() == 2 && "dt"@[0] == 'd' && "dt"@[1] == 't',
        "ls"@.len() == 2 && "ls"@[0] == 'l' && "ls"@[1] == 's',
        "tb"@.len() == 2 && "tb"@[0] == 't' && "tb"@[1] == 'b',
        "sb"@.len() == 2 && "sb"@[0] == 's' && "sb"@[1] == 'b',
        "usage"@.len() == 5,
        "blacklist"@.len() == 9 && "blacklist"@[2] == 'a',
        "blocklist"@.len() == 9 && "blocklist"@[2] == 'o',
        "limit-speed"@.len() == 11,
        "blacklist-add"@.len() == 13 && "blacklist-add"@[2] == 'a',
        "blocklist-add"@.len() == 13 && "blocklist-add"@[2] == 'o',
        "total-bandwidth"@.len() == 15,
        "blacklist-remove"@.len() == 16 && "blacklist-remove"@[2] == 'a',
        "blocklist-remove"@.len() == 16 && "blocklist-remove"@[2] == 'o',
        "single-bandwidth"@.len() == 16 && "single-bandwidth"@[2] == 'n',
        "downgrade-threshold"@.len() == 19,
        "downgrade-start-check"@.len() == 21,
{
    reveal_strlit("h");
    reveal_strlit("b");
    reveal_strlit("B");
    reveal_strlit("t");
    reveal_strlit("u");
    reveal_strlit("ba");
    reveal_strlit("br");
    reveal_strlit("Ba");
    reveal_strlit("Br");
    reveal_strlit("dt");
    reveal_strlit("ls");
    reveal_strlit("tb");
    reveal_strlit("sb");
    reveal_strlit("usage");
    reveal_strlit("blacklist");
    reveal_strlit("blocklist");
    reveal_strlit("limit-speed");
    reveal_strlit("blacklist-add");
    reveal_strlit("blocklist-add");
    reveal_strlit("total-bandwidth");
    reveal_strlit("blacklist-remove");
    reveal_strlit("blocklist-remove");
    reveal_strlit("single-bandwidth");
    reveal_strlit("downgrade-threshold");
    reveal_strlit("downgrade-start-check");
}

/// A command for a list with an argument puts the addresses between the bars on the list that it
/// names, takes them off it, with `all` takes all off it, or asks for the address. What follows
/// the argument does not matter.
pub proof fn lemma_list_commands_with_an_argument(
    cmd: &str,
    line: Vec<String>,
    arg: &str,
    ips: Vec<String>,
    c: Command,
)
    requires
        call_ensures(split_fields, (cmd,), line),
        line@.len() > 1,
        arg@ == line@[1]@,
        call_ensures(split_on, (arg, '|'), ips),
        call_ensures(parse_command, (cmd,), c),
    ensures
        line@[0]@ == "blacklist-add"@ || line@[0]@ == "ba"@ ==> (c matches Command::Add(
            ListKind::Blacklist,
            got,
        ) && texts(got@) == texts(ips@)),
        line@[0]@ == "blocklist-add"@ || line@[0]@ == "Ba"@ ==> (c matches Command::Add(
            ListKind::Blocklist,
            got,
        ) && texts(got@) == texts(ips@)),
        (line@[0]@ == "blacklist-remove"@ || line@[0]@ == "br"@) && arg@ != "all"@ ==> (
        c matches Command::Remove(ListKind::Blacklist, got) && texts(got@) == texts(ips@)),
        (line@[0]@ == "blocklist-remove"@ || line@[0]@ == "Br"@) && arg@ != "all"@ ==> (
        c matches Command::Remove(ListKind::Blocklist, got) && texts(got@) == texts(ips@)),
        (line@[0]@ == "blacklist-remove"@ || line@[0]@ == "br"@) && arg@ == "all"@ ==> c
            == Command::Clear(ListKind::Blacklist),
        (line@[0]@ == "blocklist-remove"@ || line@[0]@ == "Br"@) && arg@ == "all"@ ==> c
            == Command::Clear(ListKind::Blocklist),
        line@[0]@ == "blacklist"@ || line@[0]@ == "b"@ ==> (c matches Command::Contains(
            ListKind::Blacklist,
            ip,
        ) && ip@ == arg@),
        line@[0]@ == "blocklist"@ || line@[0]@ == "B"@ ==> (c matches Command::Contains(
            ListKind::Blocklist,
            ip,
        ) && ip@ == arg@),
{
    lemma_names();
    assert(texts(line@)[0] == line@[0]@ && texts(line@)[1] == line@[1]@);
    assert(texts(line@).len() == line@.len());
}

/// A command for a parameter with an argument sets the parameter that it names to the argument;
/// the start check is set to a number above zero and to nothing else.
pub proof fn lemma_parameter_commands_with_an_argument(
    cmd: &str,
    line: Vec<String>,
    arg: &str,
    read: Result<u64, NumberError>,
    c: Command,
)
    requires
        call_ensures(split_fields, (cmd,), line),
        line@.len() > 1,
        arg@ == line@[1]@,
        call_ensures(parse_number, (arg, u64::MAX), read),
        call_ensures(parse_command, (cmd,), c),
    ensures
        line@[0]@ == "downgrade-threshold"@ || line@[0]@ == "dt"@ ==> (
        c matches Command::SetScaled(Scaled::DowngradeThreshold, text) && text@ == line@[1]@),
        line@[0]@ == "limit-speed"@ || line@[0]@ == "ls"@ ==> (c matches Command::SetScaled(
            Scaled::LimitSpeed,
            text,
        ) && text@ == line@[1]@),
        line@[0]@ == "total-bandwidth"@ || line@[0]@ == "tb"@ ==> (c matches Command::SetScaled(
            Scaled::TotalBandwidth,
            text,
        ) && text@ == line@[1]@),
        line@[0]@ == "single-bandwidth"@ || line@[0]@ == "sb"@ ==> (c matches Command::SetScaled(
            Scaled::SingleBandwidth,
            text,
        ) && text@ == line@[1]@),
        line@[0]@ == "downgrade-start-check"@ || line@[0]@ == "t"@ ==> match read {
            Ok(seconds) => if seconds > 0 {
                c == Command::SetStartCheck(seconds)
            } else {
                c == Command::Nothing
            },
            Err(_) => c == Command::Nothing,
        },
{
    lemma_names();
    assert(texts(line@)[0] == line@[0]@ && texts(line@)[1] == line@[1]@);
    assert(texts(line@).len() == line@.len());
}

/// A command without an argument asks for the whole list or for the parameter; it puts nothing on
/// a list and takes nothing off.
pub proof fn lemma_commands_without_an_argument(cmd: &str, line: Vec<String>, c: Command)
    requires
        call_ensures(split_fields, (cmd,), line),
        line@.len() == 1,
        call_ensures(parse_command, (cmd,), c),
    ensures
        line@[0]@ == "blacklist-add"@ || line@[0]@ == "ba"@ || line@[0]@ == "blocklist-add"@
            || line@[0]@ == "Ba"@ || line@[0]@ == "blacklist-remove"@ || line@[0]@ == "br"@
            || line@[0]@ == "blocklist-remove"@ || line@[0]@ == "Br"@ ==> c == Command::Nothing,
        line@[0]@ == "blacklist"@ || line@[0]@ == "b"@ ==> c == Command::Show(ListKind::Blacklist),
        line@[0]@ == "blocklist"@ || line@[0]@ == "B"@ ==> c == Command::Show(ListKind::Blocklist),
        line@[0]@ == "downgrade-threshold"@ || line@[0]@ == "dt"@ ==> c == Command::ShowScaled(
            Scaled::DowngradeThreshold,
        ),
        line@[0]@ == "limit-speed"@ || line@[0]@ == "ls"@ ==> c == Command::ShowScaled(
            Scaled::LimitSpeed,
        ),
        line@[0]@ == "total-bandwidth"@ || line@[0]@ == "tb"@ ==> c == Command::ShowScaled(
            Scaled::TotalBandwidth,
        ),
        line@[0]@ == "single-bandwidth"@ || line@[0]@ == "sb"@ ==> c == Command::ShowScaled(
            Scaled::SingleBandwidth,
        ),
        line@[0]@ == "downgrade-start-check"@ || line@[0]@ == "t"@ ==> c
            == Command::ShowStartCheck,
{
    lemma_names();
    assert(texts(line@)[0] == line@[0]@);
    assert(texts(line@).len() == line@.len());
}

/// The help and the table of usage are asked for by their names, whatever follows, and what has no
/// name that the server knows is nothing.
pub proof fn lemma_other_commands(cmd: &str, line: Vec<String>, c: Command)
    requires
        call_ensures(split_fields, (cmd,), line),
        call_ensures(parse_command, (cmd,), c),
    ensures
        line@.len() == 0 ==> c == Command::Nothing,
        line@.len() > 0 ==> {
            let name = line@[0]@;
            &&& c is Help <==> name == "h"@
            &&& c is Usage <==> name == "usage"@ || name == "u"@
            &&& c is Add ==> name == "blacklist-add"@ || name == "ba"@ || name == "blocklist-add"@
                || name == "Ba"@
            &&& c is Remove || c is Clear ==> name == "blacklist-remove"@ || name == "br"@ || name
                == "blocklist-remove"@ || name == "Br"@
            &&& c is Contains || c is Show ==> name == "blacklist"@ || name == "b"@ || name
                == "blocklist"@ || name == "B"@
            &&& c is SetScaled || c is ShowScaled ==> name == "downgrade-threshold"@ || name
                == "dt"@ || name == "limit-speed"@ || name == "ls"@ || name == "total-bandwidth"@
                || name == "tb"@ || name == "single-bandwidth"@ || name == "sb"@
            &&& c is SetStartCheck || c is ShowStartCheck ==> name == "downgrade-start-check"@
                || name == "t"@
        },
{
    lemma_names();
    assert(texts(line@).len() == line@.len());
    if line@.len() > 0 {
        assert(texts(line@)[0] == line@[0]@);
    }
}

/// Whether the addresses on a list are those that were on it, with others put there.
pub open spec fn grown(after: Set<Seq<char>>, before: Set<Seq<char>>, ips: Seq<Seq<char>>) -> bool {
    forall|ip: Seq<char>| #[trigger]
        after.contains(ip) <==> before.contains(ip) || exists|i: int|
            0 <= i < ips.len() && #[trigger] ips[i] == ip
}

/// Whether the addresses on a list are those that were on it, without others.
pub open spec fn shrunk(
    after: Set<Seq<char>>,
    before: Set<Seq<char>>,
    ips: Seq<Seq<char>>,
) -> bool {
    forall|ip: Seq<char>| #[trigger]
        after.contains(ip) <==> before.contains(ip) && !(exists|i: int|
            0 <= i < ips.len() && #[trigger] ips[i] == ip)
}

/// The addresses on one of the two lists.
pub open spec fn on_list(v: ServerView, list: ListKind) -> Set<Seq<char>> {
    if list == ListKind::Blacklist {
        v.blacklist
    } else {
        v.blocklist
    }
}

/// Whether nothing has changed but the addresses on one of the two lists.
pub open spec fn only_list(before: ServerView, after: ServerView, list: ListKind) -> bool {
    if list == ListKind::Blacklist {
        after == (ServerView { blacklist: after.blacklist, ..before })
    } else {
        after == (ServerView { blocklist: after.blocklist, ..before })
    }
}

/// Whether a step is a reply in these words.
pub open spec fn replies(step: Step, words: Seq<char>) -> bool {
    step matches Step::Reply(text) && text@ == words
}

/// Whether a command was carried out. Addresses are put on a list or taken off it, and nothing else
/// changes; setting the start check changes that alone, and no other command changes anything. A
/// question is answered by what the server holds.
pub open spec fn carried_out(
    c: Command,
    before: ServerView,
    after: ServerView,
    step: Step,
) -> bool {
    let nothing = Seq::<char>::empty();
    match c {
        Command::Add(list, ips) => {
            &&& grown(on_list(after, list), on_list(before, list), texts(ips@))
            &&& only_list(before, after, list)
            &&& replies(step, nothing)
        },
        Command::Remove(list, ips) => {
            &&& shrunk(on_list(after, list), on_list(before, list), texts(ips@))
            &&& only_list(before, after, list)
            &&& replies(step, nothing)
        },
        Command::Clear(list) => {
            &&& on_list(after, list).is_empty()
            &&& only_list(before, after, list)
            &&& replies(step, nothing)
        },
        Command::Contains(list, ip) => {
            &&& after == before
            &&& on_list(before, list).contains(ip@) ==> replies(step, "true\n"@)
            &&& !on_list(before, list).contains(ip@) ==> replies(step, "false\n"@)
        },
        Command::Show(list) => {
            &&& after == before
            &&& step matches Step::Reply(text)
            &&& exists|order: Seq<Seq<char>>|
                {
                    &&& text@ == #[trigger] lines_text(order)
                    &&& order.no_duplicates()
                    &&& forall|ip: Seq<char>|
                        order.contains(ip) == #[trigger] on_list(before, list).contains(ip)
                }
        },
        Command::SetScaled(which, arg) => {
            &&& after == before
            &&& step matches Step::ReadScaled(parameter, text)
            &&& parameter == which && text@ == arg@
        },
        Command::ShowScaled(which) => {
            let params = before.params;
            &&& after == before
            &&& which == Scaled::DowngradeThreshold ==> step == Step::WriteScaled(
                which,
                params.downgrade_threshold_100,
            )
            &&& which == Scaled::LimitSpeed ==> step == Step::WriteScaled(which, params.limit_speed)
            &&& which == Scaled::TotalBandwidth ==> step == Step::WriteScaled(
                which,
                params.total_bandwidth,
            )
            &&& which == Scaled::SingleBandwidth ==> step == Step::WriteScaled(
                which,
                params.single_bandwidth,
            )
        },
        Command::SetStartCheck(seconds) => {
            &&& seconds * 1000 <= u64::MAX ==> after.params.downgrade_start_check == seconds * 1000
            &&& after == (ServerView {
                params: Params {
                    downgrade_start_check: after.params.downgrade_start_check,
                    ..before.params
                },
                ..before
            })
            &&& replies(step, nothing)
        },
        Command::ShowStartCheck => {
            &&& after == before
            &&& exists|seconds: nat|
                {
                    &&& replies(step, #[trigger] digits(seconds) + "s\n"@)
                    &&& seconds * 1000 <= before.params.downgrade_start_check < (seconds + 1)
                        * 1000
                }
        },
        Command::Usage => {
            &&& after == before
            &&& step matches Step::WriteUsage(rows)
            &&& forall|id: Seq<char>| #[trigger]
                before.usage.contains_key(id) && before.usage[id].0 > 0 ==> exists|row: UsageRow|
                    {
                        &&& #[trigger] rows@.contains(row)
                        &&& row.ip@ == id
                        &&& tells(row, (row.ip, before.usage[id]))
                    }
            &&& forall|row: UsageRow| #[trigger]
                rows@.contains(row) ==> before.usage.contains_key(row.ip@)
                    && before.usage[row.ip@].0 > 0 && tells(row, (row.ip, before.usage[row.ip@]))
            &&& forall|i: int, j: int|
                0 <= i < j < rows@.len() ==> (#[trigger] rows@[i]).bits >= (
                #[trigger] rows@[j]).bits && rows@[i].ip@ != rows@[j].ip@
        },
        Command::Help => after == before && replies(step, help_text()),
        Command::Nothing => after == before && replies(step, nothing),
    }
}

proof fn lemma_sets(ips: Seq<Seq<char>>, before: Set<Seq<char>>)
    ensures
        grown(before.union(ips.to_set()), before, ips),
        shrunk(before.difference(ips.to_set()), before, ips),
{
    let (more, less) = (before.union(ips.to_set()), before.difference(ips.to_set()));
    assert forall|ip: Seq<char>| ips.to_set().contains(ip) <==> exists|i: int|
        0 <= i < ips.len() && #[trigger] ips[i] == ip by {
        assert(ips.to_set().contains(ip) == ips.contains(ip));
    }
    assert forall|ip: Seq<char>| #[trigger] more.contains(ip) <==> before.contains(ip) || exists|
        i: int,
    | 0 <= i < ips.len() && #[trigger] ips[i] == ip by {
        assert(ips.to_set().contains(ip) <==> exists|i: int|
            0 <= i < ips.len() && #[trigger] ips[i] == ip);
    }
    assert forall|ip: Seq<char>| #[trigger] less.contains(ip) <==> before.contains(ip) && !(exists|
        i: int,
    | 0 <= i < ips.len() && #[trigger] ips[i] == ip) by {
        assert(ips.to_set().contains(ip) <==> exists|i: int|
            0 <= i < ips.len() && #[trigger] ips[i] == ip);
    }
}

proof fn lemma_listed(order: Seq<Seq<char>>, set: Set<Seq<char>>)
    requires
        enumerates(order, set),
    ensures
        forall|ip: Seq<char>| order.contains(ip) == #[trigger] set.contains(ip),
{
    assert forall|ip: Seq<char>| order.contains(ip) == #[trigger] set.contains(ip) by {
        assert(order.to_set().contains(ip) == order.contains(ip));
    }
}

proof fn lemma_usage_is_told(
    usage: Map<Seq<char>, (u64, u64, u64, u64)>,
    entries: Seq<Entry>,
    rows: Seq<UsageRow>,
)
    requires
        enumerates_accounts(entries, usage),
        is_table(entries, rows),
    ensures
        forall|id: Seq<char>| #[trigger]
            usage.contains_key(id) && usage[id].0 > 0 ==> exists|row: UsageRow|
                {
                    &&& #[trigger] rows.contains(row)
                    &&& row.ip@ == id
                    &&& tells(row, (row.ip, usage[id]))
                },
        forall|row: UsageRow| #[trigger]
            rows.contains(row) ==> usage.contains_key(row.ip@) && usage[row.ip@].0 > 0 && tells(
                row,
                (row.ip, usage[row.ip@]),
            ),
        forall|i: int, j: int|
            0 <= i < j < rows.len() ==> (#[trigger] rows[i]).bits >= (#[trigger] rows[j]).bits
                && rows[i].ip@ != rows[j].ip@,
{
    lemma_rows_of_entries(entries, rows);
    let names = entries.map_values(|e: Entry| e.0@);
    assert forall|i: int, j: int| 0 <= i < j < rows.len() implies (#[trigger] rows[i]).bits >= (
    #[trigger] rows[j]).bits && rows[i].ip@ != rows[j].ip@ by {
        assert forall|a: int, b: int| 0 <= a < b < entries.len() implies (
        #[trigger] entries[a]).0@ != (#[trigger] entries[b]).0@ by {
            assert(names[a] != names[b]);
        }
        lemma_rows_differ(entries, rows, i, j);
    }
    assert forall|id: Seq<char>| #[trigger]
        usage.contains_key(id) && usage[id].0 > 0 implies exists|row: UsageRow|
        {
            &&& #[trigger] rows.contains(row)
            &&& row.ip@ == id
            &&& tells(row, (row.ip, usage[id]))
        } by {
        assert(names.to_set().contains(id));
        assert(names.contains(id));
        let i = choose|i: int| 0 <= i < names.len() && names[i] == id;
        let e = entries[i];
        assert(e.0@ == id && usage[e.0@] == e.1);
        assert(entries.contains(e));
        let row = choose|row: UsageRow| #[trigger] rows.contains(row) && tells(row, e);
        assert(rows.contains(row) && row.ip@ == id && tells(row, (row.ip, usage[id])));
    }
    assert forall|row: UsageRow| #[trigger] rows.contains(row) implies usage.contains_key(row.ip@)
        && usage[row.ip@].0 > 0 && tells(row, (row.ip, usage[row.ip@])) by {
        let e = choose|e: Entry| #[trigger] entries.contains(e) && e.1.0 > 0 && tells(row, e);
        let i = choose|i: int| 0 <= i < entries.len() && entries[i] == e;
        assert(names[i] == e.0@);
        assert(names.contains(e.0@));
        assert(names.to_set().contains(e.0@));
        assert(usage[entries[i].0@] == entries[i].1);
    }
}

/// A command is carried out as what it is, whether it was read before or is read from its line.
pub proof fn lemma_commands_are_carried_out(c: &Command, cmd: &str)
    ensures
        forall|server: &mut RelayServer, step: Step| #[trigger]
            call_ensures(RelayServer::run_command, (server, c), step) ==> carried_out(
                *c,
                server@,
                final(server)@,
                step,
            ),
        forall|server: &mut RelayServer, read: Command, step: Step|
            #[trigger] call_ensures(parse_command, (cmd,), read) && #[trigger] call_ensures(
                RelayServer::check_cmd,
                (server, cmd),
                step,
            ) ==> carried_out(read, server@, final(server)@, step),
{
    assert forall|server: &mut RelayServer, step: Step| #[trigger]
        call_ensures(RelayServer::run_command, (server, c), step) implies carried_out(
        *c,
        server@,
        final(server)@,
        step,
    ) by {
        lemma_carried_out(*c, server@, final(server)@, step);
    }
    assert forall|server: &mut RelayServer, read: Command, step: Step|
        #[trigger] call_ensures(parse_command, (cmd,), read) && #[trigger] call_ensures(
            RelayServer::check_cmd,
            (server, cmd),
            step,
        ) implies carried_out(read, server@, final(server)@, step) by {
        lemma_carried_out(read, server@, final(server)@, step);
    }
}

proof fn lemma_carried_out(c: Command, before: ServerView, after: ServerView, step: Step)
    requires
        after == after_command(before, c@),
        step_of(before, c@, step),
    ensures
        carried_out(c, before, after, step),
{
    match c {
        Command::Add(list, ips) => {
            lemma_sets(texts(ips@), on_list(before, list));
        },
        Command::Remove(list, ips) => {
            lemma_sets(texts(ips@), on_list(before, list));
        },
        Command::Show(list) => {
            let set = on_list(before, list);
            let order = choose|order: Seq<Seq<char>>| #[trigger]
                enumerates(order, set) && step->Reply_0@ == lines_text(order);
            assert(enumerates(order, set) && step->Reply_0@ == lines_text(order));
            lemma_listed(order, set);
        },
        Command::ShowStartCheck => {
            let seconds = (before.params.downgrade_start_check / 1000) as nat;
            assert(replies(step, digits(seconds) + "s\n"@));
        },
        Command::Usage => {
            let rows = step->WriteUsage_0@;
            let entries = choose|entries: Seq<Entry>| #[trigger]
                enumerates_accounts(entries, before.usage) && is_table(entries, rows);
            lemma_usage_is_told(before.usage, entries, rows);
        },
        _ => {},
    }
}

/// Setting the start check fits unless its seconds cannot be held in milliseconds; every other
/// command does. What fits can be carried out.
pub proof fn lemma_what_fits(c: &Command, yes: bool)
    requires
        call_ensures(Command::fits, (c,), yes),
    ensures
        yes == !(*c matches Command::SetStartCheck(seconds) && seconds * 1000 > u64::MAX),
        yes ==> forall|server: &mut RelayServer| #[trigger]
            call_requires(RelayServer::run_command, (server, c)),
{
}

/// A list is shown line by line.
pub proof fn lemma_lines(
    items: &Vec<String>,
    more: &Vec<String>,
    item: String,
    out: String,
    out_more: String,
)
    requires
        more@ == items@.push(item),
        call_ensures(list_reply, (items,), out),
        call_ensures(list_reply, (more,), out_more),
    ensures
        items@.len() == 0 ==> out@.len() == 0,
        out_more@ == (out@ + item@).push('\n'),
{
    reveal_strlit("\n");
    assert(texts(more@).drop_last() =~= texts(items@));
    assert(texts(more@).last() == item@);
    assert(out@ + item@ + "\n"@ =~= (out@ + item@).push('\n'));
}

/// A parameter is shown with its unit, which the threshold has none of.
pub proof fn lemma_parameters_are_shown(which: Scaled, text: &str, out: String)
    requires
        call_ensures(scaled_reply, (which, text), out),
    ensures
        which == Scaled::DowngradeThreshold ==> out@ == text@ + "\n"@,
        which != Scaled::DowngradeThreshold ==> out@ == text@ + "Mb/s\n"@,
{
}

/// The first field of each line of a file is put on the list that it is for, and nothing else
/// changes.
pub proof fn lemma_files_are_loaded(list: ListKind, contents: &str, ips: Vec<String>)
    requires
        call_ensures(split_first_fields, (contents,), ips),
    ensures
        forall|server: &mut RelayServer, done: ()| #[trigger]
            call_ensures(RelayServer::load_list, (server, list, contents), done) ==> {
                &&& grown(on_list(final(server)@, list), on_list(server@, list), texts(ips@))
                &&& only_list(server@, final(server)@, list)
            },
{
    assert forall|server: &mut RelayServer, done: ()| #[trigger]
        call_ensures(RelayServer::load_list, (server, list, contents), done) implies {
        &&& grown(on_list(final(server)@, list), on_list(server@, list), texts(ips@))
        &&& only_list(server@, final(server)@, list)
    } by {
        lemma_sets(texts(ips@), on_list(server@, list));
    }
}

/// An address is listed if it is on the list that is asked for.
pub proof fn lemma_listed_addresses(server: &RelayServer, list: ListKind, ip: &str, yes: bool)
    requires
        call_ensures(RelayServer::is_listed, (server, list, ip), yes),
    ensures
        list == ListKind::Blacklist ==> yes == server@.blacklist.contains(ip@),
        list == ListKind::Blocklist ==> yes == server@.blocklist.contains(ip@),
{
}

} // verus!

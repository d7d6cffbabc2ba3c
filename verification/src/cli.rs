//! The command line: monitoring, and trying out the notify entries.

use vstd::prelude::*;

use crate::config::NotifyConfig;
use crate::notify;
use crate::text;

verus! {

/// What the command line asks for.
#[derive(Debug, Clone, PartialEq, Eq)]
pub enum Command {
    /// No argument: monitor the services.
    Monitor,
    /// `test-notify [--only <type>]`: send a message through every notify entry, or
    /// through those of one type.
    TestNotify { only: Option<String> },
}

/// What a command line asks for, or what is wrong with it: `Ok(None)` is to monitor,
/// `Ok(Some(only))` to try the notify entries out.
pub open spec fn command_of(args: Seq<Seq<char>>) -> Result<Option<Option<Seq<char>>>, Seq<char>> {
    if args.len() == 0 {
        Ok(None)
    } else if args[0] != "test-notify"@ {
        Err(unknown_argument(args[0]))
    } else {
        match only_of(args.skip(1)) {
            Ok(only) => Ok(Some(only)),
            Err(message) => Err(message),
        }
    }
}

/// The type that the arguments after `test-notify` select, if they select one: nothing, or
/// `--only` and the type. What comes after the type is not looked at.
pub open spec fn only_of(args: Seq<Seq<char>>) -> Result<Option<Seq<char>>, Seq<char>> {
    if args.len() == 0 {
        Ok(None)
    } else if args[0] != "--only"@ {
        Err(unknown_argument(args[0]))
    } else if args.len() == 1 {
        Err("--only requires a value"@)
    } else {
        Ok(Some(args[1]))
    }
}

pub open spec fn unknown_argument(arg: Seq<char>) -> Seq<char> {
    "unknown argument \""@ + arg + "\""@
}

/// A text that may be absent.
pub open spec fn optional_text(text: Option<String>) -> Option<Seq<char>> {
    match text {
        Some(text) => Some(text@),
        None => None,
    }
}

fn unknown_argument_text(arg: &str) -> (r: String)
    ensures
        r@ == unknown_argument(arg@),
{
    "unknown argument \"".to_string().concat(arg).concat("\"")
}

/// Reads the arguments from the one at `start` on as those that follow `test-notify`.
fn parse_only_from(args: &[String], start: usize) -> (r: Result<Option<String>, String>)
    requires
        start <= args@.len(),
    ensures
        match only_of(text::texts(args@).skip(start as int)) {
            Ok(only) => r matches Ok(kind) && optional_text(kind) == only,
            Err(message) => r matches Err(error) && error@ == message,
        },
{
    if start == args.len() {
        return Ok(None);
    }
    if !text::same_text(args[start].as_str(), "--only") {
        return Err(unknown_argument_text(args[start].as_str()));
    }
    if start + 1 == args.len() {
        return Err("--only requires a value".to_string());
    }
    Ok(Some(args[start + 1].clone()))
}

/// Reads the arguments that follow `test-notify`: nothing, or `--only <type>`.
pub fn parse_only_arg(args: &[String]) -> (r: Result<Option<String>, String>)
    ensures
        match only_of(text::texts(args@)) {
            Ok(only) => r matches Ok(kind) && optional_text(kind) == only,
            Err(message) => r matches Err(error) && error@ == message,
        },
{
    proof {
        assert(text::texts(args@).skip(0) == text::texts(args@));
    }
    parse_only_from(args, 0)
}

/// Reads the command line, without the name of the program.
pub fn parse_args(args: &[String]) -> (r: Result<Command, String>)
    ensures
        match command_of(text::texts(args@)) {
            Ok(None) => r == Ok::<Command, String>(Command::Monitor),
            Ok(Some(only)) => r matches Ok(Command::TestNotify { only: kind }) && optional_text(
                kind,
            ) == only,
            Err(message) => r matches Err(error) && error@ == message,
        },
{
    if args.len() == 0 {
        return Ok(Command::Monitor);
    }
    if !text::same_text(args[0].as_str(), "test-notify") {
        return Err(unknown_argument_text(args[0].as_str()));
    }
    match parse_only_from(args, 1) {
        Ok(only) => Ok(Command::TestNotify { only }),
        Err(message) => Err(message),
    }
}

/// Whether an entry is of the selected type; every entry is where none is selected.
pub open spec fn is_selected(entry: NotifyConfig, only: Option<Seq<char>>) -> bool {
    only matches Some(kind) ==> kind == entry.kind_spec()
}

/// The entries of the selected type, in order.
pub open spec fn selected(entries: Seq<NotifyConfig>, only: Option<Seq<char>>) -> Seq<NotifyConfig>
    decreases entries.len(),
{
    if entries.len() == 0 {
        seq![]
    } else if is_selected(entries.last(), only) {
        selected(entries.drop_last(), only).push(entries.last())
    } else {
        selected(entries.drop_last(), only)
    }
}

/// What a list of references refers to.
pub open spec fn referred(list: Seq<&NotifyConfig>) -> Seq<NotifyConfig> {
    Seq::new(list.len(), |i: int| *list[i])
}

/// What is said where there is no entry to try out.
pub open spec fn nothing_selected(only: Option<Seq<char>>) -> Seq<char> {
    match only {
        Some(kind) => "no notify entry configured with type \""@ + kind + "\""@,
        None => "no notify entries configured"@,
    }
}

/// The entries to try out; it is an error if there are none.
pub fn select_entries<'a>(entries: &'a [NotifyConfig], only: &Option<String>) -> (r: Result<
    Vec<&'a NotifyConfig>,
    String,
>)
    ensures
        ({
            let chosen = selected(entries@, optional_text(*only));
            if chosen.len() == 0 {
                r matches Err(message) && message@ == nothing_selected(optional_text(*only))
            } else {
                r matches Ok(list) && referred(list@) == chosen
            }
        }),
{
    let mut out: Vec<&'a NotifyConfig> = Vec::new();
    for i in 0..entries.len()
        invariant
            referred(out@) == selected(entries@.take(i as int), optional_text(*only)),
    {
        let ghost before = out@;
        proof {
            assert(entries@.take(i + 1).drop_last() == entries@.take(i as int));
        }
        let wanted = match only {
            Some(kind) => text::same_text(kind.as_str(), entries[i].kind()),
            None => true,
        };
        if wanted {
            out.push(&entries[i]);
            proof {
                assert(referred(out@) == referred(before).push(entries@[i as int]));
            }
        }
    }
    proof {
        assert(entries@.take(entries@.len() as int) == entries@);
        assert(referred(out@).len() == out@.len());
    }
    if out.len() > 0 {
        return Ok(out);
    }
    match only {
        Some(kind) => Err(
            "no notify entry configured with type \"".to_string().concat(kind.as_str()).concat(
                "\"",
            ),
        ),
        None => Err("no notify entries configured".to_string()),
    }
}

/// What is said of an entry that was tried out.
pub fn report_line(entry: &NotifyConfig, delivered: bool) -> (r: String)
    ensures
        r@ == entry.kind_spec() + " ("@ + notify::recipient_spec(*entry) + "): "@ + if delivered {
            "sent"@
        } else {
            "FAILED"@
        },
{
    entry.kind().to_string().concat(" (").concat(notify::recipient(entry)).concat("): ").concat(
        if delivered {
            "sent"
        } else {
            "FAILED"
        },
    )
}

/// Whether nothing in a list is false.
pub open spec fn all_true(list: Seq<bool>) -> bool {
    forall|i: int| 0 <= i < list.len() ==> #[trigger] list[i]
}

/// The exit code after trying entries out: zero exactly when every message came through.
pub fn exit_code(delivered: &[bool]) -> (r: i32)
    ensures
        r == if all_true(delivered@) {
            0
        } else {
            1i32
        },
{
    for i in 0..delivered.len()
        invariant
            forall|k: int| 0 <= k < i ==> #[trigger] delivered@[k],
    {
        if !delivered[i] {
            return 1;
        }
    }
    0
}

/// An entry is tried out exactly when it is configured and of the selected type.
pub proof fn law_selected_are_those_of_the_type(
    entries: Seq<NotifyConfig>,
    only: Option<Seq<char>>,
    entry: NotifyConfig,
)
    ensures
        selected(entries, only).contains(entry) <==> entries.contains(entry) && is_selected(
            entry,
            only,
        ),
    decreases entries.len(),
{
    if entries.len() > 0 {
        let rest = entries.drop_last();
        law_selected_are_those_of_the_type(rest, only, entry);
        assert(entries == rest.push(entries.last()));
        if selected(rest, only).contains(entry) {
            let k = choose|k: int|
                0 <= k < selected(rest, only).len() && selected(rest, only)[k] == entry;
            assert(selected(entries, only)[k] == entry);
        }
        if rest.contains(entry) {
            let k = choose|k: int| 0 <= k < rest.len() && rest[k] == entry;
            assert(entries[k] == entry);
        }
        if entries.contains(entry) && !rest.contains(entry) {
            let k = choose|k: int| 0 <= k < entries.len() && entries[k] == entry;
            if k < rest.len() {
                assert(rest[k] == entry);
            }
            if is_selected(entry, only) {
                assert(selected(entries, only).last() == entry);
            }
        }
        if selected(entries, only).contains(entry) && !selected(rest, only).contains(entry) {
            let k = choose|k: int|
                0 <= k < selected(entries, only).len() && selected(entries, only)[k] == entry;
            if k < selected(rest, only).len() {
                assert(selected(rest, only)[k] == entry);
            }
            assert(entries[entries.len() - 1] == entry);
        }
    }
}

/// The arguments after `test-notify` are none, or `--only` and a type, which is taken as it
/// stands.
pub proof fn law_only_argument(args: &[String], r: Result<Option<String>, String>)
    requires
        call_ensures(parse_only_arg, (args,), r),
    ensures
        args@.len() == 0 ==> r == Ok::<Option<String>, String>(None),
        args@.len() > 0 && args@[0]@ != "--only"@ ==> r is Err && r->Err_0@ == "unknown argument \""@
            + args@[0]@ + "\""@,
        args@.len() == 1 && args@[0]@ == "--only"@ ==> r is Err && r->Err_0@
            == "--only requires a value"@,
        args@.len() > 1 && args@[0]@ == "--only"@ ==> r is Ok && r->Ok_0 is Some && r->Ok_0->0@
            == args@[1]@,
{
    if args@.len() > 0 {
        assert(text::texts(args@)[0] == args@[0]@);
    }
    if args@.len() > 1 {
        assert(text::texts(args@)[1] == args@[1]@);
    }
}

/// No argument is to monitor; `test-notify` is to try the notify entries out, and reads the
/// arguments behind it as they are read alone; anything else is refused, and quoted.
pub proof fn law_arguments(
    args: &[String],
    r: Result<Command, String>,
    rest: &[String],
    only: Result<Option<String>, String>,
)
    requires
        call_ensures(parse_args, (args,), r),
        args@.len() > 0 ==> rest@ == args@.skip(1),
        call_ensures(parse_only_arg, (rest,), only),
    ensures
        args@.len() == 0 ==> r == Ok::<Command, String>(Command::Monitor),
        args@.len() > 0 && args@[0]@ != "test-notify"@ ==> r is Err && r->Err_0@
            == "unknown argument \""@ + args@[0]@ + "\""@,
        args@.len() > 0 && args@[0]@ == "test-notify"@ ==> match only {
            Err(message) => r is Err && r->Err_0@ == message@,
            Ok(None) => r == Ok::<Command, String>(Command::TestNotify { only: None }),
            Ok(Some(kind)) => r matches Ok(Command::TestNotify { only: Some(other) }) && other@
                == kind@,
        },
{
    if args@.len() > 0 {
        assert(text::texts(args@)[0] == args@[0]@);
        assert(text::texts(rest@) == text::texts(args@).skip(1));
    }
}

/// What is tried out are all the entries of the selected type, all entries where none is
/// selected, and none else, in order: there are positions, rising, of just those entries,
/// and the list refers to what stands there. Where there is none, that is said, with the
/// type.
pub proof fn law_selection(
    entries: &[NotifyConfig],
    only: &Option<String>,
    r: Result<Vec<&NotifyConfig>, String>,
)
    requires
        call_ensures(select_entries, (entries, only), r),
    ensures
        r is Err <==> !exists|i: int|
            0 <= i < entries@.len() && is_of_type(#[trigger] entries@[i], *only),
        r matches Err(message) ==> message@ == match *only {
            Some(kind) => "no notify entry configured with type \""@ + kind@ + "\""@,
            None => "no notify entries configured"@,
        },
        r matches Ok(list) ==> exists|at: Seq<int>| #[trigger]
            are_positions_of_the_type(entries@, *only, referred(list@), at),
        r matches Ok(list) ==> forall|k: int|
            0 <= k < list@.len() ==> #[trigger] referred(list@)[k] == *list@[k],
{
    let chosen = selected(entries@, optional_text(*only));
    lemma_selected_in_order(entries@, *only);
    let at = choose|at: Seq<int>| #[trigger]
        are_positions_of_the_type(entries@, *only, chosen, at);
    if chosen.len() > 0 {
        assert(is_of_type(entries@[at[0]], *only));
    } else {
        assert forall|i: int| 0 <= i < entries@.len() implies !is_of_type(
            #[trigger] entries@[i],
            *only,
        ) by {
            if is_of_type(entries@[i], *only) {
                assert(at.contains(i));
            }
        }
    }
}

/// Whether an entry is of a type, by the type's name; every entry is where there is none.
pub open spec fn is_of_type(entry: NotifyConfig, only: Option<String>) -> bool {
    match only {
        None => true,
        Some(kind) => match entry {
            NotifyConfig::Ntfy(_) => kind@ == "ntfy"@,
            NotifyConfig::Telegram(_) => kind@ == "telegram"@,
            NotifyConfig::Pushover(_) => kind@ == "pushover"@,
        },
    }
}

/// Whether `at` are the positions, rising, of all entries of a type, and `chosen` are the
/// entries that stand there.
pub open spec fn are_positions_of_the_type(
    entries: Seq<NotifyConfig>,
    only: Option<String>,
    chosen: Seq<NotifyConfig>,
    at: Seq<int>,
) -> bool {
    &&& at.len() == chosen.len()
    &&& forall|k: int|
        0 <= k < at.len() ==> 0 <= #[trigger] at[k] < entries.len() && entries[at[k]] == chosen[k]
            && is_of_type(entries[at[k]], only)
    &&& forall|k: int, l: int| 0 <= k < l < at.len() ==> #[trigger] at[k] < #[trigger] at[l]
    &&& forall|i: int|
        0 <= i < entries.len() && is_of_type(#[trigger] entries[i], only) ==> at.contains(i)
}

proof fn lemma_selected_in_order(entries: Seq<NotifyConfig>, only: Option<String>)
    ensures
        exists|at: Seq<int>| #[trigger]
            are_positions_of_the_type(
                entries,
                only,
                selected(entries, optional_text(only)),
                at,
            ),
    decreases entries.len(),
{
    let chosen = selected(entries, optional_text(only));
    if entries.len() == 0 {
        assert(are_positions_of_the_type(entries, only, chosen, seq![]));
    } else {
        let rest = entries.drop_last();
        let n = entries.len() - 1;
        lemma_selected_in_order(rest, only);
        let at = choose|at: Seq<int>| #[trigger]
            are_positions_of_the_type(rest, only, selected(rest, optional_text(only)), at);
        let next = if is_of_type(entries[n], only) {
            at.push(n)
        } else {
            at
        };
        assert forall|i: int|
            0 <= i < entries.len() && is_of_type(#[trigger] entries[i], only) implies next.contains(
            i,
        ) by {
            if i < n {
                assert(rest[i] == entries[i]);
                let k = choose|k: int| 0 <= k < at.len() && at[k] == i;
                assert(next[k] == i);
            } else {
                assert(next[at.len() as int] == n);
            }
        }
        assert(are_positions_of_the_type(entries, only, chosen, next));
    }
}

/// A report gives the type, whom it reached in brackets, and how it went.
pub proof fn law_report(
    entry: &NotifyConfig,
    delivered: bool,
    r: String,
    kind: &'static str,
    to: &str,
)
    requires
        call_ensures(report_line, (entry, delivered), r),
        call_ensures(NotifyConfig::kind, (entry,), kind),
        call_ensures(notify::recipient, (entry,), to),
    ensures
        delivered ==> r@ == kind@ + " ("@ + to@ + "): "@ + "sent"@,
        !delivered ==> r@ == kind@ + " ("@ + to@ + "): "@ + "FAILED"@,
{
}

/// The exit code is one where a message did not come through, wherever it stands, and zero
/// where none is missing.
pub proof fn law_exit_code(delivered: &[bool], r: i32)
    requires
        call_ensures(exit_code, (delivered,), r),
    ensures
        r == 0 || r == 1,
        r == 1 <==> exists|i: int| 0 <= i < delivered@.len() && !#[trigger] delivered@[i],
{
    assert(r == 1 <==> !all_true(delivered@));
}

} // verus!

//! Command lines, what their outcomes mean, and programs of them.

use crate::activation::ServiceVerb;
use crate::error::{ManagerError, ManagerErrorView};
use crate::ports::CommandOutput;
use crate::text;
use vstd::prelude::*;

verus! {

/// A program and its arguments.
#[derive(Debug)]
pub struct CommandLine {
    pub program: String,
    pub args: Vec<String>,
}

/// The mathematical value of a [`CommandLine`].
#[verifier::ext_equal]
pub struct CommandLineView {
    pub program: Seq<char>,
    pub args: Seq<Seq<char>>,
}

impl View for CommandLine {
    type V = CommandLineView;

    open spec fn view(&self) -> CommandLineView {
        CommandLineView {
            program: self.program@,
            args: text::texts(self.args@),
        }
    }
}

impl Clone for CommandLine {
    fn clone(&self) -> (r: Self)
        ensures
            r@ == self@,
    {
        CommandLine {
            program: self.program.clone(),
            args: text::copy_texts(&self.args),
        }
    }
}

/// Something to run. `Run` fails if the program does. `Unless` runs the second
/// program only if the first fails, `When` only if it succeeds. `Refuse` fails
/// as an invalid configuration with this text.
#[derive(Debug)]
pub enum CommandEffect {
    Run(CommandLine),
    Unless { test: CommandLine, run: CommandLine },
    When { test: CommandLine, run: CommandLine },
    Refuse(String),
}

/// The mathematical value of a [`CommandEffect`].
#[verifier::ext_equal]
pub enum CommandEffectView {
    Run(CommandLineView),
    Unless { test: CommandLineView, run: CommandLineView },
    When { test: CommandLineView, run: CommandLineView },
    Refuse(Seq<char>),
}

impl View for CommandEffect {
    type V = CommandEffectView;

    open spec fn view(&self) -> CommandEffectView {
        match *self {
            CommandEffect::Run(a) => CommandEffectView::Run(a@),
            CommandEffect::Unless { test, run } => CommandEffectView::Unless { test: test@, run: run@ },
            CommandEffect::When { test, run } => CommandEffectView::When { test: test@, run: run@ },
            CommandEffect::Refuse(a) => CommandEffectView::Refuse(a@),
        }
    }
}

/// A command line of these words.
pub open spec fn line(program: Seq<char>, args: Seq<Seq<char>>) -> CommandLineView {
    CommandLineView { program, args }
}

/// A command line of these words.
pub fn command(program: &str, args: Vec<String>) -> (r: CommandLine)
    ensures
        r@ == line(program@, text::texts(args@)),
{
    CommandLine { program: text::owned(program), args }
}

/// The error of a program that failed.
pub open spec fn failed_command(program: Seq<char>, stderr: Seq<char>) -> ManagerErrorView {
    ManagerErrorView::Other(program + " failed: "@ + text::trimmed(stderr))
}

/// The error of a program that failed.
pub fn command_error(program: &str, stderr: &str) -> (r: ManagerError)
    ensures
        r@ == failed_command(program@, stderr@),
{
    ManagerError::Other(text::concat3(program, " failed: ", text::trim(stderr).as_str()))
}

/// What a program that had to succeed printed.
pub fn checked_output(program: &str, output: &CommandOutput) -> (r: Result<String, ManagerError>)
    ensures
        match r {
            Ok(s) => output@.status == 0 && s@ == output@.stdout,
            Err(e) => output@.status != 0 && e@ == failed_command(program@, output@.stderr),
        },
{
    if output.status == 0 {
        Ok(output.stdout.clone())
    } else {
        Err(command_error(program, output.stderr.as_str()))
    }
}

/// What a service tool printed; its error is its own text.
pub fn service_output(output: &CommandOutput) -> (r: Result<String, ManagerError>)
    ensures
        match r {
            Ok(s) => output@.status == 0 && s@ == output@.stdout,
            Err(e) => output@.status != 0 && e@ == ManagerErrorView::Other(output@.stderr),
        },
{
    if output.status == 0 {
        Ok(output.stdout.clone())
    } else {
        Err(ManagerError::Other(output.stderr.clone()))
    }
}

/// The field at a place of a colon-separated record.
pub open spec fn record_field(record: Seq<char>, place: int) -> Option<Seq<char>> {
    let parts = text::fields(text::trimmed(record), ':');
    if 0 <= place < parts.len() {
        Some(parts[place])
    } else {
        None
    }
}

/// The field at a place of a colon-separated record.
pub fn field_of(record: &str, place: usize) -> (r: Option<String>)
    ensures
        text::opt_text(r) == record_field(record@, place as int),
{
    let parts = text::split_char(text::trim(record).as_str(), ':');
    assert(text::texts(parts@).len() == parts@.len());
    if place < parts.len() {
        assert(text::texts(parts@)[place as int] == parts@[place as int]@);
        Some(parts[place].clone())
    } else {
        None
    }
}

/// The number that a text is, where it fits 32 bits.
pub open spec fn number32(s: Seq<char>) -> Option<nat> {
    text::parsed_unsigned(s, u32::MAX as nat)
}

/// The number that a text is, where it fits 32 bits.
pub fn parse_u32(s: &str) -> (r: Option<u32>)
    ensures
        match r {
            Some(n) => number32(s@) == Some(n as nat),
            None => number32(s@) is None,
        },
{
    match text::parse_unsigned(s, 4294967295) {
        Some(n) => Some(n as u32),
        None => None,
    }
}

/// The number in a record's field.
pub open spec fn record_number(record: Seq<char>, place: int) -> Option<nat> {
    match record_field(record, place) {
        Some(s) => number32(s),
        None => None,
    }
}

fn number_of(record: &str, place: usize) -> (r: Option<u32>)
    ensures
        match r {
            Some(n) => record_number(record@, place as int) == Some(n as nat),
            None => record_number(record@, place as int) is None,
        },
{
    match field_of(record, place) {
        Some(s) => parse_u32(s.as_str()),
        None => None,
    }
}

/// The ID that a program printed.
pub fn numeric_id(program: &str, output: &CommandOutput) -> (r: Result<u32, ManagerError>)
    ensures
        match r {
            Ok(n) => output@.status == 0 && number32(text::trimmed(output@.stdout)) == Some(n as nat),
            Err(e) => if output@.status != 0 {
                e@ == failed_command(program@, output@.stderr)
            } else {
                number32(text::trimmed(output@.stdout)) is None && e@ == ManagerErrorView::Other(
                    program@ + " returned a non-numeric ID"@,
                )
            },
        },
{
    if output.status != 0 {
        return Err(command_error(program, output.stderr.as_str()));
    }
    match parse_u32(text::trim(output.stdout.as_str()).as_str()) {
        Some(n) => Ok(n),
        None => Err(ManagerError::Other(text::concat(program, " returned a non-numeric ID"))),
    }
}

/// The ID of a group by its record.
pub fn group_id(group: &str, output: &CommandOutput) -> (r: Result<u32, ManagerError>)
    ensures
        match r {
            Ok(n) => output@.status == 0 && record_number(output@.stdout, 2) == Some(n as nat),
            Err(e) => if output@.status != 0 {
                e@ == failed_command("getent"@, output@.stderr)
            } else {
                record_number(output@.stdout, 2) is None && e@ == ManagerErrorView::Other(
                    "unable to resolve "@ + group@ + " GID"@,
                )
            },
        },
{
    if output.status != 0 {
        return Err(command_error("getent", output.stderr.as_str()));
    }
    match number_of(output.stdout.as_str(), 2) {
        Some(n) => Ok(n),
        None => Err(ManagerError::Other(text::concat3("unable to resolve ", group, " GID"))),
    }
}

/// The ID of the group whose packets are routed, by its record.
pub fn tun_group_id(output: &CommandOutput) -> (r: Result<u32, ManagerError>)
    ensures
        match r {
            Ok(n) => output@.status == 0 && record_number(output@.stdout, 2) == Some(n as nat),
            Err(e) => (output@.status != 0 || record_number(output@.stdout, 2) is None) && e@
                == ManagerErrorView::Other("unable to resolve xray-tun GID"@),
        },
{
    if output.status == 0 {
        match number_of(output.stdout.as_str(), 2) {
            Some(n) => {
                return Ok(n);
            },
            None => {},
        }
    }
    Err(ManagerError::Other(text::owned("unable to resolve xray-tun GID")))
}

/// The numbers that words are, unless one is none.
pub open spec fn numbers(list: Seq<Seq<char>>) -> Option<Seq<nat>>
    decreases list.len(),
{
    if list.len() == 0 {
        Some(Seq::empty())
    } else {
        match (numbers(list.drop_last()), number32(list.last())) {
            (Some(v), Some(n)) => Some(v.push(n)),
            _ => None,
        }
    }
}

/// Numbers in their mathematical form.
pub open spec fn naturals(v: Seq<u32>) -> Seq<nat> {
    v.map_values(|n: u32| n as nat)
}

proof fn lemma_no_numbers(list: Seq<Seq<char>>, i: int)
    requires
        0 <= i < list.len(),
        number32(list[i]) is None,
    ensures
        numbers(list) is None,
    decreases list.len(),
{
    if i < list.len() - 1 {
        assert(list.drop_last()[i] == list[i]);
        lemma_no_numbers(list.drop_last(), i);
    }
}

/// The IDs of the groups that a program printed.
pub fn numeric_groups(output: &CommandOutput) -> (r: Result<Vec<u32>, ManagerError>)
    ensures
        match r {
            Ok(v) => output@.status == 0 && numbers(text::words(output@.stdout)) == Some(naturals(v@)),
            Err(e) => if output@.status != 0 {
                e@ == failed_command("id"@, output@.stderr)
            } else {
                numbers(text::words(output@.stdout)) is None && e@ == ManagerErrorView::Other(
                    "id returned a non-numeric group ID"@,
                )
            },
        },
{
    if output.status != 0 {
        return Err(command_error("id", output.stderr.as_str()));
    }
    let parts = text::split_whitespace(output.stdout.as_str());
    let ghost all = text::words(output@.stdout);
    let mut r: Vec<u32> = Vec::new();
    let mut i: usize = 0;
    assert(all.take(0) =~= Seq::<Seq<char>>::empty());
    assert(naturals(r@) =~= Seq::<nat>::empty());
    while i < parts.len()
        invariant
            i <= parts@.len(),
            output@.status == 0,
            all == text::words(output@.stdout),
            text::texts(parts@) == all,
            numbers(all.take(i as int)) == Some(naturals(r@)),
        decreases parts@.len() - i,
    {
        proof {
            assert(all[i as int] == parts@[i as int]@);
            assert(all.take(i + 1).drop_last() =~= all.take(i as int));
            assert(all.take(i + 1).last() == all[i as int]);
        }
        match parse_u32(parts[i].as_str()) {
            Some(n) => {
                assert(naturals(r@.push(n)) =~= naturals(r@).push(n as nat));
                r.push(n);
            },
            None => {
                proof {
                    lemma_no_numbers(all, i as int);
                }
                return Err(ManagerError::Other(text::owned("id returned a non-numeric group ID")));
            },
        }
        i += 1;
    }
    assert(all.take(all.len() as int) =~= all);
    Ok(r)
}

/// The home directory in a user's record.
pub open spec fn record_home(record: Seq<char>) -> Option<Seq<char>> {
    match record_field(record, 5) {
        Some(s) => if s.len() > 0 && s[0] == '/' {
            Some(s)
        } else {
            None
        },
        None => None,
    }
}

/// The home directory of a user by their record.
pub fn user_home(user: &str, output: &CommandOutput) -> (r: Result<String, ManagerError>)
    ensures
        match r {
            Ok(s) => output@.status == 0 && record_home(output@.stdout) == Some(s@),
            Err(e) => if output@.status != 0 {
                e@ == failed_command("getent"@, output@.stderr)
            } else {
                record_home(output@.stdout) is None && e@ == ManagerErrorView::Other(
                    "unable to resolve home for "@ + user@,
                )
            },
        },
{
    if output.status != 0 {
        return Err(command_error("getent", output.stderr.as_str()));
    }
    match field_of(output.stdout.as_str(), 5) {
        Some(s) => if text::starts_with_char(s.as_str(), '/') {
            return Ok(s);
        },
        None => {},
    }
    Err(ManagerError::Other(text::concat("unable to resolve home for ", user)))
}

/// What is done with a service, as a word.
pub open spec fn verb_word(verb: ServiceVerb) -> Seq<char> {
    match verb {
        ServiceVerb::Enable => "enable"@,
        ServiceVerb::Disable => "disable"@,
        ServiceVerb::Start => "start"@,
        ServiceVerb::Stop => "stop"@,
        ServiceVerb::Restart => "restart"@,
    }
}

/// The commands of system services.
#[derive(Debug, Clone, Copy)]
pub struct SystemdServiceManager;

impl SystemdServiceManager {
    /// The command that does something with a service.
    pub fn command(&self, verb: ServiceVerb, service: &str) -> (r: CommandLine)
        ensures
            r@ == line("systemctl"@, seq![verb_word(verb), service@]),
    {
        let word = match verb {
            ServiceVerb::Enable => "enable",
            ServiceVerb::Disable => "disable",
            ServiceVerb::Start => "start",
            ServiceVerb::Stop => "stop",
            ServiceVerb::Restart => "restart",
        };
        let args = text::own_all(vec![word, service]);
        assert(text::texts(args@) =~= seq![verb_word(verb), service@]);
        command("systemctl", args)
    }

    /// The command that succeeds if a service is active.
    pub fn is_active(&self, service: &str) -> (r: CommandLine)
        ensures
            r@ == line("systemctl"@, seq!["is-active"@, "--quiet"@, service@]),
    {
        let args = text::own_all(vec!["is-active", "--quiet", service]);
        assert(text::texts(args@) =~= seq!["is-active"@, "--quiet"@, service@]);
        command("systemctl", args)
    }

    /// The command that shows the last lines of a service's log.
    pub fn logs(&self, service: &str, count: usize) -> (r: CommandLine)
        ensures
            r@ == line(
                "journalctl"@,
                seq!["-u"@, service@, "-n"@, text::decimal(count as nat), "--no-pager"@],
            ),
    {
        let number = text::decimal_of(count as u64);
        let args = text::own_all(vec!["-u", service, "-n", number.as_str(), "--no-pager"]);
        assert(text::texts(args@) =~= seq!["-u"@, service@, "-n"@, text::decimal(count as nat), "--no-pager"@]);
        command("journalctl", args)
    }
}

} // verus!

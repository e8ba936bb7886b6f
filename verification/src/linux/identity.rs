//! System users and groups.

use crate::error::{ManagerError, ManagerErrorView};
use crate::linux::commands::{CommandEffect, CommandEffectView, CommandLine, CommandLineView};
use crate::program::{Policy, Program, ProgramView, Step, StepView};
use crate::linux::commands;
use crate::program;
use crate::text;
use vstd::prelude::*;

verus! {

/// A character of a user or group name.
pub open spec fn name_char(c: char) -> bool {
    ('a' <= c <= 'z') || ('A' <= c <= 'Z') || ('0' <= c <= '9') || c == '-' || c == '_'
}

/// A user or group name.
pub open spec fn is_identity(s: Seq<char>) -> bool {
    s.len() > 0 && forall|i: int| 0 <= i < s.len() ==> name_char(#[trigger] s[i])
}

fn identity_ok(s: &str) -> (r: bool)
    ensures
        r == is_identity(s@),
{
    let v = text::chars_of(s);
    let mut i: usize = 0;
    while i < v.len()
        invariant
            i <= v@.len(),
            v@ == s@,
            forall|j: int| 0 <= j < i ==> name_char(#[trigger] v@[j]),
        decreases v@.len() - i,
    {
        let c = v[i];
        if !(('a' <= c && c <= 'z') || ('A' <= c && c <= 'Z') || ('0' <= c && c <= '9') || c == '-'
            || c == '_') {
            assert(!name_char(s@[i as int]));
            return false;
        }
        i += 1;
    }
    v.len() > 0
}

/// Checks a user or group name.
pub fn validate_identity(value: &str) -> (r: Result<(), ManagerError>)
    ensures
        match r {
            Ok(_) => is_identity(value@),
            Err(e) => !is_identity(value@) && e@ == ManagerErrorView::InvalidConfig(
                "invalid Linux user or group name"@,
            ),
        },
{
    if identity_ok(value) {
        Ok(())
    } else {
        Err(ManagerError::InvalidConfig(text::owned("invalid Linux user or group name")))
    }
}

/// Checks the name of the user who called.
pub fn validate_login_name(value: &str) -> (r: Result<(), ManagerError>)
    ensures
        match r {
            Ok(_) => is_identity(value@),
            Err(e) => !is_identity(value@) && e@ == ManagerErrorView::InvalidConfig(
                "invalid invoking Linux user name"@,
            ),
        },
{
    if identity_ok(value) {
        Ok(())
    } else {
        Err(ManagerError::InvalidConfig(text::owned("invalid invoking Linux user name")))
    }
}

/// The groups that a user gets: those asked for, or one of their own name.
pub open spec fn wanted_groups(user: Seq<char>, groups: Seq<Seq<char>>) -> Seq<Seq<char>> {
    if groups.len() == 0 {
        seq![user]
    } else {
        groups
    }
}

/// A refusal of a name.
pub open spec fn refuse_name() -> StepView<CommandEffectView> {
    program::step(CommandEffectView::Refuse("invalid Linux user or group name"@), Policy::Fail)
}

/// Making sure that a group is there.
pub open spec fn ensure_group(group: Seq<char>) -> StepView<CommandEffectView> {
    program::step(
        CommandEffectView::Unless {
            test: commands::line("getent"@, seq!["group"@, group]),
            run: commands::line("groupadd"@, seq!["--system"@, group]),
        },
        Policy::Fail,
    )
}

/// The groups in order, up to the first with an invalid name.
pub open spec fn group_steps(groups: Seq<Seq<char>>) -> Seq<StepView<CommandEffectView>>
    decreases groups.len(),
{
    if groups.len() == 0 {
        Seq::empty()
    } else if !is_identity(groups[0]) {
        seq![refuse_name()]
    } else {
        seq![ensure_group(groups[0])] + group_steps(groups.drop_first())
    }
}

/// The user, with the first group as their own and the others besides.
pub open spec fn user_steps(user: Seq<char>, groups: Seq<Seq<char>>) -> Seq<
    StepView<CommandEffectView>,
> {
    let make = program::step(
        CommandEffectView::Unless {
            test: commands::line("id"@, seq!["--user"@, user]),
            run: commands::line(
                "useradd"@,
                seq![
                    "--system"@,
                    "--no-create-home"@,
                    "--shell"@,
                    "/usr/bin/nologin"@,
                    "--gid"@,
                    groups[0],
                    user,
                ],
            ),
        },
        Policy::Fail,
    );
    if groups.len() > 1 {
        seq![
            make,
            program::step(
                CommandEffectView::Run(
                    commands::line(
                        "usermod"@,
                        seq!["--append"@, "--groups"@, text::joined(groups.skip(1), ","@), user],
                    ),
                ),
                Policy::Fail,
            ),
        ]
    } else {
        seq![make]
    }
}

pub open spec fn all_identities(groups: Seq<Seq<char>>) -> bool {
    forall|i: int| 0 <= i < groups.len() ==> is_identity(#[trigger] groups[i])
}

/// What makes sure that a system user and their groups are there.
pub open spec fn identity_steps(user: Seq<char>, groups: Seq<Seq<char>>) -> Seq<
    StepView<CommandEffectView>,
> {
    let wanted = wanted_groups(user, groups);
    if !is_identity(user) {
        seq![refuse_name()]
    } else if all_identities(wanted) {
        group_steps(wanted) + user_steps(user, wanted)
    } else {
        group_steps(wanted)
    }
}

fn refuse() -> (r: CommandEffect)
    ensures
        r@ == refuse_name().effect,
{
    CommandEffect::Refuse(text::owned("invalid Linux user or group name"))
}

fn push_groups(main: &mut Vec<Step<CommandEffect>>, groups: &Vec<String>) -> (r: bool)
    ensures
        program::step_views(final(main)@) == program::step_views(old(main)@) + group_steps(text::texts(groups@)),
        r == all_identities(text::texts(groups@)),
{
    let ghost before = program::step_views(main@);
    let ghost all = text::texts(groups@);
    let mut i: usize = 0;
    assert(all.skip(0) =~= all);
    assert(before + group_steps(all) =~= program::step_views(main@) + group_steps(all.skip(0)));
    while i < groups.len()
        invariant
            i <= groups@.len(),
            all == text::texts(groups@),
            before == program::step_views(old(main)@),
            forall|j: int| 0 <= j < i ==> is_identity(#[trigger] all[j]),
            before + group_steps(all) == program::step_views(main@) + group_steps(all.skip(i as int)),
        decreases groups@.len() - i,
    {
        let group = groups[i].as_str();
        let ghost rest = all.skip(i as int);
        let ghost so_far = program::step_views(main@);
        proof {
            assert(all[i as int] == group@);
            assert(rest[0] == group@);
            assert(rest.drop_first() =~= all.skip(i + 1));
        }
        if !identity_ok(group) {
            program::push_step(main, refuse(), Policy::Fail);
            assert(program::step_views(main@) =~= so_far + group_steps(rest));
            return false;
        }
        let probe = text::own_all(vec!["group", group]);
        assert(text::texts(probe@) =~= seq!["group"@, group@]);
        let add = text::own_all(vec!["--system", group]);
        assert(text::texts(add@) =~= seq!["--system"@, group@]);
        program::push_step(
            main,
            CommandEffect::Unless {
                test: commands::command("getent", probe),
                run: commands::command("groupadd", add),
            },
            Policy::Fail,
        );
        assert(program::step_views(main@) + group_steps(all.skip(i + 1)) =~= so_far + (seq![
            ensure_group(group@),
        ] + group_steps(rest.drop_first())));
        i += 1;
    }
    assert(all.skip(all.len() as int).len() == 0);
    assert(program::step_views(main@) =~= before + group_steps(all));
    true
}

fn push_user(main: &mut Vec<Step<CommandEffect>>, user: &str, groups: &Vec<String>)
    requires
        groups@.len() > 0,
    ensures
        program::step_views(final(main)@) == program::step_views(old(main)@) + user_steps(user@, text::texts(groups@)),
{
    let ghost before = program::step_views(main@);
    let ghost all = text::texts(groups@);
    assert(all[0] == groups@[0]@);
    let probe = text::own_all(vec!["--user", user]);
    assert(text::texts(probe@) =~= seq!["--user"@, user@]);
    let add = text::own_all(
        vec![
            "--system",
            "--no-create-home",
            "--shell",
            "/usr/bin/nologin",
            "--gid",
            groups[0].as_str(),
            user,
        ],
    );
    assert(text::texts(add@) =~= seq![
        "--system"@,
        "--no-create-home"@,
        "--shell"@,
        "/usr/bin/nologin"@,
        "--gid"@,
        all[0],
        user@,
    ]);
    program::push_step(
        main,
        CommandEffect::Unless { test: commands::command("id", probe), run: commands::command("useradd", add) },
        Policy::Fail,
    );
    if groups.len() > 1 {
        let mut others: Vec<String> = Vec::new();
        let mut i: usize = 1;
        assert(text::texts(others@) =~= all.subrange(1, 1));
        while i < groups.len()
            invariant
                1 <= i <= groups@.len(),
                all == text::texts(groups@),
                text::texts(others@) == all.subrange(1, i as int),
            decreases groups@.len() - i,
        {
            let copy = groups[i].clone();
            proof {
                text::lemma_texts_push(others@, copy);
                assert(all.subrange(1, i + 1) =~= all.subrange(1, i as int).push(all[i as int]));
                assert(all[i as int] == copy@);
            }
            others.push(copy);
            i += 1;
        }
        assert(all.subrange(1, all.len() as int) =~= all.skip(1));
        let list = text::join(&others, ",");
        let change = text::own_all(vec!["--append", "--groups", list.as_str(), user]);
        assert(text::texts(change@) =~= seq!["--append"@, "--groups"@, text::joined(all.skip(1), ","@), user@]);
        program::push_step(main, CommandEffect::Run(commands::command("usermod", change)), Policy::Fail);
    }
    assert(program::step_views(main@) =~= before + user_steps(user@, all));
}

/// Adds accounts and changes owners.
#[derive(Debug, Clone, Copy)]
pub struct LinuxIdentityManager;

impl LinuxIdentityManager {
    /// The program that makes sure that a system user and their groups are there.
    pub fn ensure_system_identity(&self, user: &str, groups: &Vec<String>) -> (r: Program<CommandEffect>)
        ensures
            r@ == (ProgramView {
                main: identity_steps(user@, text::texts(groups@)),
                undos: Seq::empty(),
            }),
            r.wf(),
    {
        let mut main: Vec<Step<CommandEffect>> = program::no_steps();
        let ghost want = identity_steps(user@, text::texts(groups@));
        let ghost wanted_all = wanted_groups(user@, text::texts(groups@));
        assert(text::texts(groups@).len() == groups@.len());
        if !identity_ok(user) {
            program::push_step(&mut main, refuse(), Policy::Fail);
        } else {
            let wanted = if groups.len() == 0 {
                vec![text::owned(user)]
            } else {
                text::copy_texts(groups)
            };
            assert(text::texts(wanted@) =~= wanted_all);
            let valid = push_groups(&mut main, &wanted);
            if valid {
                assert(wanted_all.len() == wanted@.len());
                push_user(&mut main, user, &wanted);
            }
        }
        assert(program::step_views(main@) =~= want);
        let undos: Vec<Vec<Step<CommandEffect>>> = Vec::new();
        let r = Program { main, undos };
        proof {
            assert(program::undo_views(undos@) =~= Seq::empty());
            lemma_identity_steps_fail(user@, text::texts(groups@));
            assert(program::refers_inside(r@)) by {
                assert forall|i: int| 0 <= i < r@.main.len() implies match (
                #[trigger] r@.main[i]).policy {
                    Policy::Undo(k) => k < r@.undos.len(),
                    _ => true,
                } by {
                    assert(want[i].policy == Policy::Fail);
                }
            }
            program::lemma_refers_inside(r);
        }
        r
    }

    /// The command that changes the owner of an absolute path.
    pub fn set_ownership(&self, path: &str, user: &str, group: &str, recursive: bool) -> (r: Result<
        CommandLine,
        ManagerError,
    >)
        ensures
            match r {
                Ok(c) => ownership(path@, user@, group@, recursive) == Ok::<
                    CommandLineView,
                    Seq<char>,
                >(c@),
                Err(e) => ownership(path@, user@, group@, recursive) matches Err(m) && e@
                    == ManagerErrorView::InvalidConfig(m),
            },
    {
        if !identity_ok(user) || !identity_ok(group) {
            return Err(ManagerError::InvalidConfig(text::owned("invalid Linux user or group name")));
        }
        if !text::starts_with(path, "/") {
            return Err(ManagerError::InvalidConfig(text::owned("ownership target must be absolute")));
        }
        let both = text::concat3(user, ":", group);
        let args = if recursive {
            text::own_all(vec!["-R", both.as_str(), path])
        } else {
            text::own_all(vec![both.as_str(), path])
        };
        proof {
            let target = seq![user@ + ":"@ + group@, path@];
            let want = if recursive {
                seq!["-R"@] + target
            } else {
                target
            };
            assert(text::texts(args@) =~= want);
        }
        Ok(commands::command("chown", args))
    }
}

proof fn lemma_group_steps_fail(groups: Seq<Seq<char>>)
    ensures
        forall|i: int|
            0 <= i < group_steps(groups).len() ==> (#[trigger] group_steps(groups)[i]).policy
                == Policy::Fail,
    decreases groups.len(),
{
    if groups.len() > 0 && is_identity(groups[0]) {
        let rest = group_steps(groups.drop_first());
        lemma_group_steps_fail(groups.drop_first());
        assert forall|i: int| 0 <= i < group_steps(groups).len() implies (
        #[trigger] group_steps(groups)[i]).policy == Policy::Fail by {
            if i > 0 {
                assert(group_steps(groups)[i] == rest[i - 1]);
            }
        }
    }
}

proof fn lemma_identity_steps_fail(user: Seq<char>, groups: Seq<Seq<char>>)
    ensures
        forall|i: int|
            0 <= i < identity_steps(user, groups).len() ==> (#[trigger] identity_steps(
                user,
                groups,
            )[i]).policy == Policy::Fail,
{
    let wanted = wanted_groups(user, groups);
    lemma_group_steps_fail(wanted);
    let g = group_steps(wanted);
    let u = user_steps(user, wanted);
    assert forall|i: int| 0 <= i < identity_steps(user, groups).len() implies (
    #[trigger] identity_steps(user, groups)[i]).policy == Policy::Fail by {
        if is_identity(user) {
            if i < g.len() {
                assert(identity_steps(user, groups)[i] == g[i]);
            } else {
                assert(identity_steps(user, groups)[i] == u[i - g.len()]);
            }
        }
    }
}

/// No account is made unless every name is valid.
pub proof fn law_invalid_name_makes_no_user(user: Seq<char>, groups: Seq<Seq<char>>, i: int)
    requires
        !is_identity(user) || !all_identities(wanted_groups(user, groups)),
        0 <= i < identity_steps(user, groups).len(),
    ensures
        match identity_steps(user, groups)[i].effect {
            CommandEffectView::Unless { test, run } => run.program == "groupadd"@,
            CommandEffectView::Refuse(_) => i == identity_steps(user, groups).len() - 1,
            _ => false,
        },
{
    if is_identity(user) {
        lemma_only_groups(wanted_groups(user, groups), i);
    }
}

proof fn lemma_only_groups(groups: Seq<Seq<char>>, i: int)
    requires
        0 <= i < group_steps(groups).len(),
    ensures
        match group_steps(groups)[i].effect {
            CommandEffectView::Unless { test, run } => run.program == "groupadd"@,
            CommandEffectView::Refuse(_) => i == group_steps(groups).len() - 1,
            _ => false,
        },
    decreases groups.len(),
{
    if is_identity(groups[0]) && i > 0 {
        lemma_only_groups(groups.drop_first(), i - 1);
    }
}

/// The command that changes the owner of a path.
pub open spec fn ownership(
    path: Seq<char>,
    user: Seq<char>,
    group: Seq<char>,
    recursive: bool,
) -> Result<CommandLineView, Seq<char>> {
    if !is_identity(user) || !is_identity(group) {
        Err("invalid Linux user or group name"@)
    } else if !text::has_prefix(path, "/"@) {
        Err("ownership target must be absolute"@)
    } else {
        let target = seq![user + ":"@ + group, path];
        Ok(
            commands::line(
                "chown"@,
                if recursive {
                    seq!["-R"@] + target
                } else {
                    target
                },
            ),
        )
    }
}

/// What is known of the user who called.
#[derive(Debug)]
pub enum Caller {
    Known(Option<String>),
    /// The account with this ID is to be looked up.
    Lookup(u32),
}

/// Whether a variable names a user other than the administrator.
pub open spec fn named_caller(user: Option<Seq<char>>) -> Option<Seq<char>> {
    match user {
        Some(u) => if u.len() > 0 && u != "root"@ {
            Some(u)
        } else {
            None
        },
        None => None,
    }
}

/// The ID in a variable, other than that of the administrator.
pub open spec fn numbered_caller(uid: Option<Seq<char>>) -> Option<nat> {
    match uid {
        Some(s) => match commands::number32(s) {
            Some(n) => if n != 0 {
                Some(n)
            } else {
                None
            },
            None => None,
        },
        None => None,
    }
}

/// Who called, by the variables that `sudo` sets: by name, else by ID.
pub fn invoking_user(user: &Option<String>, uid: &Option<String>) -> (r: Result<
    Caller,
    ManagerError,
>)
    ensures
        match named_caller(text::opt_text(*user)) {
            Some(u) => if is_identity(u) {
                r matches Ok(Caller::Known(Some(name))) && name@ == u
            } else {
                r matches Err(e) && e@ == ManagerErrorView::InvalidConfig(
                    "invalid invoking Linux user name"@,
                )
            },
            None => match numbered_caller(text::opt_text(*uid)) {
                Some(n) => r matches Ok(Caller::Lookup(id)) && id == n,
                None => r matches Ok(Caller::Known(None)),
            },
        },
{
    match user {
        Some(name) => if name.as_str().unicode_len() > 0 && !text::same(name.as_str(), "root") {
            return match validate_login_name(name.as_str()) {
                Ok(_) => Ok(Caller::Known(Some(name.clone()))),
                Err(e) => Err(e),
            };
        },
        None => {},
    }
    match uid {
        Some(s) => match commands::parse_u32(s.as_str()) {
            Some(n) => if n != 0 {
                return Ok(Caller::Lookup(n));
            },
            None => {},
        },
        None => {},
    }
    Ok(Caller::Known(None))
}

/// The name of a looked-up account: it must be there, agree with the group
/// that `sudo` names, and be well formed.
pub fn account_name(uid: u32, account: &Option<(String, u32)>, gid: &Option<String>) -> (r: Result<
    String,
    ManagerError,
>)
    ensures
        match *account {
            None => r matches Err(e) && e@ == ManagerErrorView::Other(
                "SUDO_UID "@ + text::decimal(uid as nat) + " has no local account"@,
            ),
            Some((name, group)) => if text::opt_text(*gid) matches Some(g) && commands::number32(g) != Some(
                group as nat,
            ) {
                r matches Err(e) && e@ == ManagerErrorView::Other(
                    "SUDO_UID and SUDO_GID identify different accounts"@,
                )
            } else if is_identity(name@) {
                r matches Ok(n) && n@ == name@
            } else {
                r matches Err(e) && e@ == ManagerErrorView::InvalidConfig(
                    "invalid invoking Linux user name"@,
                )
            },
        },
{
    let (name, group) = match account {
        None => {
            return Err(
                ManagerError::Other(
                    text::concat3("SUDO_UID ", text::decimal_of(uid as u64).as_str(), " has no local account"),
                ),
            );
        },
        Some(pair) => (&pair.0, pair.1),
    };
    match gid {
        Some(g) => {
            let agrees = match commands::parse_u32(g.as_str()) {
                Some(n) => n == group,
                None => false,
            };
            if !agrees {
                return Err(
                    ManagerError::Other(
                        text::owned("SUDO_UID and SUDO_GID identify different accounts"),
                    ),
                );
            }
        },
        None => {},
    }
    match validate_login_name(name.as_str()) {
        Ok(_) => Ok(name.clone()),
        Err(e) => Err(e),
    }
}

} // verus!

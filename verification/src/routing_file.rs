//! Replacing the routing file: the new file is applied, and taken back where
//! it cannot be.

use crate::ports;
use crate::program::{Policy, Program, ProgramView, Step};
use crate::program;
use crate::text;
use vstd::prelude::*;

verus! {

/// What is done to replace the routing file.
#[derive(Debug)]
pub enum RoutingEffect {
    /// Write the file with this mode.
    Write { path: String, bytes: Vec<u8>, mode: u32 },
    /// Find the selected node among the stored ones, where one is selected.
    FindSelected,
    /// Apply the configuration with the node that was found.
    Apply,
    /// Remove the file, which is below the root.
    Remove { path: String, root: String },
}

/// The mathematical value of a [`RoutingEffect`].
#[verifier::ext_equal]
pub enum RoutingEffectView {
    Write { path: Seq<char>, bytes: Seq<u8>, mode: u32 },
    FindSelected,
    Apply,
    Remove { path: Seq<char>, root: Seq<char> },
}

impl View for RoutingEffect {
    type V = RoutingEffectView;

    open spec fn view(&self) -> RoutingEffectView {
        match self {
            RoutingEffect::Write { path, bytes, mode } => RoutingEffectView::Write {
                path: path@,
                bytes: bytes@,
                mode: *mode,
            },
            RoutingEffect::FindSelected => RoutingEffectView::FindSelected,
            RoutingEffect::Apply => RoutingEffectView::Apply,
            RoutingEffect::Remove { path, root } => RoutingEffectView::Remove {
                path: path@,
                root: root@,
            },
        }
    }
}

/// Where the routing file is.
pub open spec fn routing_path(windows: bool, config_dir: Seq<char>) -> Seq<char> {
    ports::path_join(windows, config_dir, "routing.toml"@)
}

/// Where the routing file is.
pub fn routing_file(windows: bool, config_dir: &str) -> (r: String)
    ensures
        r@ == routing_path(windows, config_dir@),
{
    ports::join_path(windows, config_dir, "routing.toml")
}

/// What brings the earlier file back: it is written again, or where there was
/// none, the new one is removed.
pub open spec fn take_back(
    windows: bool,
    config_dir: Seq<char>,
    previous: Option<Seq<u8>>,
) -> RoutingEffectView {
    match previous {
        Some(bytes) => RoutingEffectView::Write {
            path: routing_path(windows, config_dir),
            bytes,
            mode: 0o640,
        },
        None => RoutingEffectView::Remove { path: routing_path(windows, config_dir), root: config_dir },
    }
}

/// The program that replaces the routing file and applies it. A file that
/// cannot be applied is taken back.
pub open spec fn replacement(
    windows: bool,
    config_dir: Seq<char>,
    bytes: Seq<u8>,
    previous: Option<Seq<u8>>,
) -> ProgramView<RoutingEffectView> {
    ProgramView {
        main: seq![
            program::step(
                RoutingEffectView::Write { path: routing_path(windows, config_dir), bytes, mode: 0o640 },
                Policy::Fail,
            ),
            program::step(RoutingEffectView::FindSelected, Policy::Fail),
            program::step(RoutingEffectView::Apply, Policy::Undo(0)),
        ],
        undos: seq![seq![program::step(take_back(windows, config_dir, previous), Policy::Fail)]],
    }
}

pub open spec fn opt_bytes(o: Option<Vec<u8>>) -> Option<Seq<u8>> {
    match o {
        Some(v) => Some(v@),
        None => None,
    }
}

/// The program that replaces the routing file, which held `previous`, by one
/// that holds the bytes, and applies it.
pub fn replace_routing(windows: bool, config_dir: &str, bytes: Vec<u8>, previous: Option<Vec<u8>>) -> (r: Program<
    RoutingEffect,
>)
    ensures
        r@ == replacement(windows, config_dir@, bytes@, opt_bytes(previous)),
        r.wf(),
{
    let ghost want = replacement(windows, config_dir@, bytes@, opt_bytes(previous));
    let mut main: Vec<Step<RoutingEffect>> = program::no_steps();
    program::push_step(
        &mut main,
        RoutingEffect::Write { path: routing_file(windows, config_dir), bytes, mode: 0o640 },
        Policy::Fail,
    );
    program::push_step(&mut main, RoutingEffect::FindSelected, Policy::Fail);
    program::push_step(&mut main, RoutingEffect::Apply, Policy::Undo(0));
    let back = match previous {
        Some(bytes) => RoutingEffect::Write { path: routing_file(windows, config_dir), bytes, mode: 0o640 },
        None => RoutingEffect::Remove {
            path: routing_file(windows, config_dir),
            root: text::owned(config_dir),
        },
    };
    let mut undo: Vec<Step<RoutingEffect>> = program::no_steps();
    program::push_step(&mut undo, back, Policy::Fail);
    assert(program::step_views(main@) =~= want.main);
    assert(program::step_views(undo@) =~= want.undos[0]);
    let undos: Vec<Vec<Step<RoutingEffect>>> = vec![undo];
    assert(program::undo_views(undos@) =~= want.undos);
    let r = Program { main, undos };
    proof {
        assert(program::refers_inside(r@));
        program::lemma_refers_inside(r);
    }
    r
}

/// What a successful effect makes of the routing file.
pub open spec fn written(file: Option<Seq<u8>>, e: RoutingEffectView) -> Option<Seq<u8>> {
    match e {
        RoutingEffectView::Write { bytes, .. } => Some(bytes),
        RoutingEffectView::Remove { .. } => None,
        _ => file,
    }
}

pub open spec fn writing() -> spec_fn(Option<Seq<u8>>, RoutingEffectView) -> Option<Seq<u8>> {
    |file: Option<Seq<u8>>, e: RoutingEffectView| written(file, e)
}

/// A routing file that cannot be applied is not left in place: the file is
/// what it was, and where there was none, there is none.
pub proof fn law_unapplied_routing_is_taken_back(
    windows: bool,
    config_dir: Seq<char>,
    bytes: Seq<u8>,
    previous: Option<Seq<u8>>,
    i: int,
)
    requires
        0 <= i < replacement(windows, config_dir, bytes, previous).main.len(),
        replacement(windows, config_dir, bytes, previous).main[i].effect is Apply,
    ensures
        program::world_of_failure(
            replacement(windows, config_dir, bytes, previous),
            writing(),
            i,
            previous,
        ) == previous,
{
    reveal_with_fuel(program::world_after, 2);
}

/// A routing file that was applied is in place.
pub proof fn law_applied_routing_is_in_place(
    windows: bool,
    config_dir: Seq<char>,
    bytes: Seq<u8>,
    previous: Option<Seq<u8>>,
)
    ensures
        program::world_after(
            replacement(windows, config_dir, bytes, previous).main,
            writing(),
            previous,
        ) == Some(bytes),
{
    let m = replacement(windows, config_dir, bytes, previous).main;
    reveal_with_fuel(program::world_after, 4);
    assert(m.drop_last().drop_last().drop_last().len() == 0);
    assert(m.drop_last().drop_last().last() == m[0]);
    assert(m.drop_last().last() == m[1]);
}

} // verus!

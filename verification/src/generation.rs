//! Making a new configuration generation current.

use crate::events::{ManagerEvent, ManagerEventView};
use crate::ports::{XrayTestRequest, XrayTestRequestView};
use crate::program::{Policy, Program, ProgramView, Step, StepView};
use crate::ports;
use crate::program;
use crate::text;
use vstd::prelude::*;

verus! {

/// Something to perform outside.
#[derive(Debug)]
pub enum GenerationEffect {
    CreateDir { path: String },
    Write { path: String, bytes: Vec<u8>, mode: u32 },
    Emit(ManagerEvent),
    TestConfig(XrayTestRequest),
    Switch { current: String, previous: String, target: String },
}

/// The mathematical value of a [`GenerationEffect`].
#[verifier::ext_equal]
pub enum GenerationEffectView {
    CreateDir { path: Seq<char> },
    Write { path: Seq<char>, bytes: Seq<u8>, mode: u32 },
    Emit(ManagerEventView),
    TestConfig(XrayTestRequestView),
    Switch { current: Seq<char>, previous: Seq<char>, target: Seq<char> },
}

impl View for GenerationEffect {
    type V = GenerationEffectView;

    open spec fn view(&self) -> GenerationEffectView {
        match *self {
            GenerationEffect::CreateDir { path } => GenerationEffectView::CreateDir { path: path@ },
            GenerationEffect::Write { path, bytes, mode } => GenerationEffectView::Write { path: path@, bytes: bytes@, mode },
            GenerationEffect::Emit(a) => GenerationEffectView::Emit(a@),
            GenerationEffect::TestConfig(a) => GenerationEffectView::TestConfig(a@),
            GenerationEffect::Switch { current, previous, target } => GenerationEffectView::Switch { current: current@, previous: previous@, target: target@ },
        }
    }
}
/// Where generations are, which pointers name them, and what a new one is tested with.
#[derive(Debug)]
pub struct GenerationRequest {
    pub generations: String,
    pub current: String,
    pub previous: String,
    pub executable: String,
    pub assets: String,
    /// Whether they are paths of Windows.
    pub windows: bool,
}

/// The mathematical value of a [`GenerationRequest`].
#[verifier::ext_equal]
pub struct GenerationRequestView {
    pub generations: Seq<char>,
    pub current: Seq<char>,
    pub previous: Seq<char>,
    pub executable: Seq<char>,
    pub assets: Seq<char>,
    pub windows: bool,
}

impl View for GenerationRequest {
    type V = GenerationRequestView;

    open spec fn view(&self) -> GenerationRequestView {
        GenerationRequestView {
            generations: self.generations@,
            current: self.current@,
            previous: self.previous@,
            executable: self.executable@,
            assets: self.assets@,
            windows: self.windows,
        }
    }
}

/// Makes configuration generations, each under a name of its own.
#[derive(Debug)]
pub struct GenerationService<F, X, C, E> {
    pub filesystem: F,
    pub xray: X,
    pub clock: C,
    pub events: E,
    /// How many generations were begun, modulo 2^64.
    pub counter: u64,
}

/// The file list of a generation.
pub open spec fn named_bytes(files: Seq<(String, Vec<u8>)>) -> Seq<(Seq<char>, Seq<u8>)> {
    files.map_values(|f: (String, Vec<u8>)| (f.0@, f.1@))
}

/// The directory of the generation that is made at a time as the one of this number.
pub open spec fn candidate_dir(r: GenerationRequestView, time: i64, number: u64) -> Seq<char> {
    ports::path_join(r.windows, r.generations, text::signed_decimal(time as int) + "-"@ + text::decimal(number as nat))
}

pub open spec fn write_steps(windows: bool, conf: Seq<char>, files: Seq<(Seq<char>, Seq<u8>)>) -> Seq<
    StepView<GenerationEffectView>,
> {
    files.map_values(
        |f: (Seq<char>, Seq<u8>)|
            program::step(
                GenerationEffectView::Write { path: ports::path_join(windows, conf, f.0), bytes: f.1, mode: 0o640 },
                Policy::Fail,
            ),
    )
}

/// Testing the generation and making it current.
pub open spec fn adopt_steps(r: GenerationRequestView, candidate: Seq<char>) -> Seq<
    StepView<GenerationEffectView>,
> {
    seq![
        program::step(
            GenerationEffectView::Emit(ManagerEventView::ConfigValidationStarted),
            Policy::Ignore,
        ),
        program::step(
            GenerationEffectView::TestConfig(
                XrayTestRequestView {
                    executable: r.executable,
                    config_dir: ports::path_join(r.windows, candidate, "conf.d"@),
                    asset_dir: r.assets,
                },
            ),
            Policy::Fail,
        ),
        program::step(
            GenerationEffectView::Emit(ManagerEventView::ConfigValidationSucceeded),
            Policy::Ignore,
        ),
        program::step(
            GenerationEffectView::Switch {
                current: r.current,
                previous: r.previous,
                target: candidate,
            },
            Policy::Fail,
        ),
    ]
}

/// The program that writes, tests and adopts a generation.
pub open spec fn generation_program(
    r: GenerationRequestView,
    candidate: Seq<char>,
    files: Seq<(Seq<char>, Seq<u8>)>,
) -> ProgramView<GenerationEffectView> {
    let conf = ports::path_join(r.windows, candidate, "conf.d"@);
    ProgramView {
        main: seq![program::step(GenerationEffectView::CreateDir { path: conf }, Policy::Fail)]
            + write_steps(r.windows, conf, files) + adopt_steps(r, candidate),
        undos: Seq::empty(),
    }
}

fn push_writes(
    main: &mut Vec<Step<GenerationEffect>>,
    windows: bool,
    conf: &str,
    files: &Vec<(String, Vec<u8>)>,
)
    ensures
        program::step_views(final(main)@) == program::step_views(old(main)@) + write_steps(
            windows,
            conf@,
            named_bytes(files@),
        ),
{
    let ghost before = program::step_views(main@);
    let ghost all = write_steps(windows, conf@, named_bytes(files@));
    let mut i: usize = 0;
    assert(before + all.take(0) =~= before);
    while i < files.len()
        invariant
            i <= files@.len(),
            all == write_steps(windows, conf@, named_bytes(files@)),
            program::step_views(main@) == before + all.take(i as int),
        decreases files@.len() - i,
    {
        program::push_step(
            main,
            GenerationEffect::Write {
                path: ports::join_path(windows, conf, files[i].0.as_str()),
                bytes: text::copy_bytes(&files[i].1),
                mode: 0o640,
            },
            Policy::Fail,
        );
        assert(before + all.take(i + 1) =~= (before + all.take(i as int)).push(all[i as int]));
        i += 1;
    }
    assert(all.take(all.len() as int) =~= all);
}

impl<F, X, C, E> GenerationService<F, X, C, E> {
    /// A service that has made no generation.
    pub fn new(filesystem: F, xray: X, clock: C, events: E) -> (r: Self)
        ensures
            r.filesystem == filesystem,
            r.xray == xray,
            r.clock == clock,
            r.events == events,
            r.counter == 0,
    {
        GenerationService { filesystem, xray, clock, events, counter: 0 }
    }

    /// Begins a generation of these files at the time `time`: its directory and
    /// the program that writes it, tests it and makes it current.
    pub fn apply(
        &mut self,
        request: &GenerationRequest,
        time: i64,
        files: &Vec<(String, Vec<u8>)>,
    ) -> (r: (String, Program<GenerationEffect>))
        ensures
            r.0@ == candidate_dir(request@, time, old(self).counter),
            r.1@ == generation_program(request@, r.0@, named_bytes(files@)),
            r.1.wf(),
            final(self).counter == (if old(self).counter == u64::MAX {
                0
            } else {
                old(self).counter + 1
            }),
            final(self).filesystem == old(self).filesystem,
            final(self).xray == old(self).xray,
            final(self).clock == old(self).clock,
            final(self).events == old(self).events,
    {
        let mut name = text::signed_decimal_of(time);
        name.append("-");
        name.append(text::decimal_of(self.counter).as_str());
        self.counter = if self.counter == u64::MAX {
            0
        } else {
            self.counter + 1
        };
        let candidate = ports::join_path(request.windows, request.generations.as_str(), name.as_str());
        let conf = ports::join_path(request.windows, candidate.as_str(), "conf.d");
        let mut main: Vec<Step<GenerationEffect>> = program::no_steps();
        program::push_step(&mut main, GenerationEffect::CreateDir { path: conf.clone() }, Policy::Fail);
        push_writes(&mut main, request.windows, conf.as_str(), files);
        program::push_step(
            &mut main,
            GenerationEffect::Emit(ManagerEvent::ConfigValidationStarted),
            Policy::Ignore,
        );
        program::push_step(
            &mut main,
            GenerationEffect::TestConfig(
                XrayTestRequest {
                    executable: request.executable.clone(),
                    config_dir: conf,
                    asset_dir: request.assets.clone(),
                },
            ),
            Policy::Fail,
        );
        program::push_step(
            &mut main,
            GenerationEffect::Emit(ManagerEvent::ConfigValidationSucceeded),
            Policy::Ignore,
        );
        program::push_step(
            &mut main,
            GenerationEffect::Switch {
                current: request.current.clone(),
                previous: request.previous.clone(),
                target: candidate.clone(),
            },
            Policy::Fail,
        );
        let undos: Vec<Vec<Step<GenerationEffect>>> = Vec::new();
        let program = Program { main, undos };
        proof {
            let files = named_bytes(files@);
            let want = generation_program(request@, candidate@, files);
            assert(program::undo_views(undos@) =~= want.undos);
            assert(program@ =~= want);
            lemma_program_refers_inside(request@, candidate@, files);
            program::lemma_refers_inside(program);
        }
        (candidate, program)
    }
}

proof fn lemma_program_refers_inside(
    r: GenerationRequestView,
    candidate: Seq<char>,
    files: Seq<(Seq<char>, Seq<u8>)>,
)
    ensures
        program::refers_inside(generation_program(r, candidate, files)),
{
    let p = generation_program(r, candidate, files);
    let w = write_steps(r.windows, ports::path_join(r.windows, candidate, "conf.d"@), files);
    let a = adopt_steps(r, candidate);
    assert forall|i: int| 0 <= i < p.main.len() implies match (#[trigger] p.main[i]).policy {
        Policy::Undo(k) => k < p.undos.len(),
        _ => true,
    } by {
        if 1 <= i < 1 + w.len() {
            assert(p.main[i] == w[i - 1]);
        } else if i >= 1 + w.len() {
            assert(p.main[i] == a[i - 1 - w.len()]);
        }
    }
}

/// A generation becomes current only after its test: the switch is the last
/// step, nothing before it changes a pointer, and a failed test ends the program.
pub proof fn law_generation_is_tested_first(
    r: GenerationRequestView,
    candidate: Seq<char>,
    files: Seq<(Seq<char>, Seq<u8>)>,
    i: int,
)
    requires
        0 <= i < generation_program(r, candidate, files).main.len(),
        generation_program(r, candidate, files).main[i].effect is Switch,
    ensures
        i == generation_program(r, candidate, files).main.len() - 1,
        generation_program(r, candidate, files).main[i - 2].effect is TestConfig,
        generation_program(r, candidate, files).main[i - 2].policy == Policy::Fail,
{
    let p = generation_program(r, candidate, files);
    let w = write_steps(r.windows, ports::path_join(r.windows, candidate, "conf.d"@), files);
    let a = adopt_steps(r, candidate);
    if 1 <= i < 1 + w.len() {
        assert(p.main[i] == w[i - 1]);
    } else if i >= 1 + w.len() {
        assert(p.main[i] == a[i - 1 - w.len()]);
        assert(p.main[p.main.len() - 3] == a[1]);
    }
}

/// Two generations that one service begins at the same time, the second right
/// after the first, have different directories.
pub proof fn law_generations_are_apart(
    r: GenerationRequestView,
    time: i64,
    first: u64,
    second: u64,
)
    requires
        first != second,
    ensures
        candidate_dir(r, time, first) != candidate_dir(r, time, second),
{
    let p = text::signed_decimal(time as int) + "-"@;
    let a = p + text::decimal(first as nat);
    let b = p + text::decimal(second as nat);
    text::law_decimal_reads_back(first as nat);
    text::law_decimal_reads_back(second as nat);
    assert(a.skip(p.len() as int) =~= text::decimal(first as nat));
    assert(b.skip(p.len() as int) =~= text::decimal(second as nat));
    text::law_decimal_reads_back(time as nat);
    assert(a[0] != '/' && b[0] != '/') by {
        if time < 0 {
            assert(a[0] == '-' && b[0] == '-');
        } else {
            assert(a[0] == text::decimal(time as nat)[0] && b[0] == text::decimal(time as nat)[0]);
            assert(text::is_digit(text::decimal(time as nat)[0]));
        }
    }
    let base = r.generations;
    let n = candidate_dir(r, time, first).len() - a.len();
    assert(candidate_dir(r, time, first).skip(n) =~= a);
    if candidate_dir(r, time, first) == candidate_dir(r, time, second) {
        let m = candidate_dir(r, time, second).len() - b.len();
        assert(candidate_dir(r, time, second).skip(m) =~= b);
        assert(n == m);
        assert(a == b);
    }
}

} // verus!

//! Choosing a backend for each capability.

use crate::error::{ManagerError, ManagerErrorView};
use crate::ports::{
    BackendDescriptor, BackendDescriptorView, BackendPreferences, BackendPreferencesView,
    BackendProbe, BackendProbeView, BackendSelection, BackendSelectionView, Capability,
    CapabilityMap, CapabilityStatus, CapabilityStatusView, SelectionSource,
};
use crate::ports;
use crate::text;
use vstd::prelude::*;

verus! {

/// A compiled backend and whether it can be used here.
#[derive(Debug)]
pub struct Candidate {
    pub descriptor: BackendDescriptor,
    pub probe: BackendProbe,
}

/// The mathematical value of a [`Candidate`].
#[verifier::ext_equal]
pub struct CandidateView {
    pub descriptor: BackendDescriptorView,
    pub probe: BackendProbeView,
}

impl View for Candidate {
    type V = CandidateView;

    open spec fn view(&self) -> CandidateView {
        CandidateView {
            descriptor: self.descriptor@,
            probe: self.probe@,
        }
    }
}

pub open spec fn candidate_views(v: Seq<Candidate>) -> Seq<CandidateView> {
    v.map_values(|x: Candidate| x@)
}

pub broadcast proof fn lemma_candidate_views_push(v: Seq<Candidate>, x: Candidate)
    ensures
        #[trigger] candidate_views(v.push(x)) == candidate_views(v).push(x@),
{
    assert(candidate_views(v.push(x)) =~= candidate_views(v).push(x@));
}

/// What a probe counts as: a backend with another contract is unavailable.
pub open spec fn judged(d: BackendDescriptorView, p: BackendProbeView) -> BackendProbeView {
    if d.contract_version != 1 {
        BackendProbeView {
            available: false,
            reason: Some(
                "backend contract "@ + text::decimal(d.contract_version as nat)
                    + " is incompatible with required contract 1"@,
            ),
        }
    } else {
        p
    }
}

/// No two candidates have the same ID.
pub open spec fn distinct_ids(c: Seq<CandidateView>) -> bool {
    forall|i: int, j: int|
        0 <= i < j < c.len() ==> (#[trigger] c[i]).descriptor.id != (
        #[trigger] c[j]).descriptor.id
}

/// The candidate at `i` has the ID.
pub open spec fn named_at(c: Seq<CandidateView>, id: Seq<char>, i: int) -> bool {
    0 <= i < c.len() && c[i].descriptor.id == id
}

/// The candidate with an ID.
pub open spec fn named_candidate(c: Seq<CandidateView>, id: Seq<char>) -> Option<CandidateView> {
    if exists|i: int| named_at(c, id, i) {
        Some(c[choose|i: int| named_at(c, id, i)])
    } else {
        None
    }
}

/// Whether a candidate can be chosen for a capability without being asked for:
/// it provides it, and it is available or, failing that, of the right contract.
pub open spec fn eligible(x: CandidateView, c: Capability, available: bool) -> bool {
    &&& x.descriptor.capabilities.contains(c)
    &&& if available {
        x.probe.available
    } else {
        x.descriptor.contract_version == 1
    }
}

/// The candidate at `i` is the eligible one with the least ID.
pub open spec fn least_at(v: Seq<CandidateView>, c: Capability, available: bool, i: int) -> bool {
    &&& 0 <= i < v.len()
    &&& eligible(v[i], c, available)
    &&& forall|j: int|
        0 <= j < v.len() && j != i && eligible(#[trigger] v[j], c, available) ==> text::text_less(
            v[i].descriptor.id,
            v[j].descriptor.id,
        )
}

/// The eligible candidate with the least ID.
pub open spec fn least(v: Seq<CandidateView>, c: Capability, available: bool) -> Option<
    CandidateView,
> {
    if exists|i: int| least_at(v, c, available, i) {
        Some(v[choose|i: int| least_at(v, c, available, i)])
    } else {
        None
    }
}

/// The backend that a map asks for; `auto` asks for none.
pub open spec fn wish(m: Map<Capability, Seq<char>>, c: Capability) -> Option<Seq<char>> {
    if m.contains_key(c) && m[c] != "auto"@ {
        Some(m[c])
    } else {
        None
    }
}

/// The backend that is asked for: on the command line, else in the
/// configuration, else by the installed state.
pub open spec fn explicit_wish(p: BackendPreferencesView, c: Capability) -> Option<
    (SelectionSource, Seq<char>),
> {
    match wish(p.cli, c) {
        Some(id) => Some((SelectionSource::Cli, id)),
        None => match wish(p.config, c) {
            Some(id) => Some((SelectionSource::Config, id)),
            None => match wish(p.installed, c) {
                Some(id) => Some((SelectionSource::InstalledState, id)),
                None => None,
            },
        },
    }
}

/// The refusal of a backend that was asked for.
pub open spec fn wish_error(
    c: Capability,
    x: CandidateView,
    recommendation: Seq<char>,
) -> ManagerErrorView {
    ManagerErrorView::PlatformUnsupported {
        capability: c,
        platform: x.descriptor.platform,
        backend: Some(x.descriptor.id),
        reason: text::text_or(x.probe.reason, "backend '"@ + x.descriptor.id + "' is unavailable"@),
        recommendation: Some(recommendation),
    }
}

/// The backend that is chosen for a capability, and why.
pub open spec fn choice(
    v: Seq<CandidateView>,
    p: BackendPreferencesView,
    c: Capability,
    os: Seq<char>,
) -> Result<Option<(SelectionSource, CandidateView)>, ManagerErrorView> {
    match explicit_wish(p, c) {
        Some((source, id)) => match named_candidate(v, id) {
            None => Err(
                ManagerErrorView::PlatformUnsupported {
                    capability: c,
                    platform: os,
                    backend: Some(id),
                    reason: "requested backend '"@ + id + "' is not compiled in"@,
                    recommendation: Some(
                        "choose a backend listed by doctor for "@ + ports::capability_name(c),
                    ),
                },
            ),
            Some(x) => if !x.descriptor.capabilities.contains(c) {
                Err(wish_error(c, x, "choose a backend that provides "@ + ports::capability_name(c)))
            } else if !x.probe.available && source != SelectionSource::InstalledState {
                Err(
                    wish_error(
                        c,
                        x,
                        "satisfy the backend requirements or choose another backend"@,
                    ),
                )
            } else {
                Ok(Some((source, x)))
            },
        },
        None => Ok(
            match least(v, c, true) {
                Some(x) => Some((SelectionSource::Automatic, x)),
                None => match least(v, c, false) {
                    Some(x) => Some((SelectionSource::Automatic, x)),
                    None => None,
                },
            },
        ),
    }
}

/// What a choice adds to the selections.
pub open spec fn chosen(c: Capability, x: Option<(SelectionSource, CandidateView)>) -> Seq<
    BackendSelectionView,
> {
    match x {
        Some((source, x)) => seq![
            BackendSelectionView { capability: c, backend_id: x.descriptor.id, source },
        ],
        None => Seq::empty(),
    }
}

/// The status that a choice leads to.
pub open spec fn status_of(
    c: Capability,
    x: Option<(SelectionSource, CandidateView)>,
) -> CapabilityStatusView {
    match x {
        Some((_, x)) => CapabilityStatusView {
            capability: c,
            supported: x.probe.available,
            backend_id: Some(x.descriptor.id),
            reason: x.probe.reason,
        },
        None => CapabilityStatusView {
            capability: c,
            supported: false,
            backend_id: None,
            reason: Some("no available backend"@),
        },
    }
}

/// The selections and statuses for the required capabilities in order; the
/// first choice that is refused refuses them all.
pub open spec fn resolution(
    v: Seq<CandidateView>,
    p: BackendPreferencesView,
    required: Seq<Capability>,
    os: Seq<char>,
) -> Result<(Seq<BackendSelectionView>, Seq<CapabilityStatusView>), ManagerErrorView>
    decreases required.len(),
{
    if required.len() == 0 {
        Ok((Seq::empty(), Seq::empty()))
    } else {
        match resolution(v, p, required.drop_last(), os) {
            Err(e) => Err(e),
            Ok((selections, statuses)) => match choice(v, p, required.last(), os) {
                Err(e) => Err(e),
                Ok(x) => Ok(
                    (
                        selections + chosen(required.last(), x),
                        statuses.push(status_of(required.last(), x)),
                    ),
                ),
            },
        }
    }
}

/// The first ID that a candidate has in common with an earlier one.
pub open spec fn repeated_id(v: Seq<CandidateView>) -> Option<Seq<char>>
    decreases v.len(),
{
    if v.len() == 0 {
        None
    } else {
        match repeated_id(v.drop_last()) {
            Some(id) => Some(id),
            None => if named_candidate(v.drop_last(), v.last().descriptor.id) is Some {
                Some(v.last().descriptor.id)
            } else {
                None
            },
        }
    }
}

/// What the candidates come to: two of one ID are refused, whatever is required.
pub open spec fn resolved(
    v: Seq<CandidateView>,
    p: BackendPreferencesView,
    required: Seq<Capability>,
    os: Seq<char>,
) -> Result<(Seq<BackendSelectionView>, Seq<CapabilityStatusView>), ManagerErrorView> {
    match repeated_id(v) {
        Some(id) => Err(ManagerErrorView::Other("duplicate backend ID '"@ + id + "'"@)),
        None => resolution(v, p, required, os),
    }
}

proof fn lemma_repeated(v: Seq<CandidateView>)
    requires
        repeated_id(v) is None,
    ensures
        distinct_ids(v),
    decreases v.len(),
{
    if v.len() > 0 {
        let before = v.drop_last();
        lemma_repeated(before);
        assert forall|i: int, j: int| 0 <= i < j < v.len() implies (
        #[trigger] v[i]).descriptor.id != (#[trigger] v[j]).descriptor.id by {
            assert(before[i] == v[i]);
            if j < before.len() {
                assert(before[j] == v[j]);
            } else if v[i].descriptor.id == v[j].descriptor.id {
                assert(named_at(before, v.last().descriptor.id, i));
            }
        }
    }
}

proof fn lemma_repeated_stays(v: Seq<CandidateView>, n: int)
    requires
        0 <= n <= v.len(),
        repeated_id(v.take(n)) is Some,
    ensures
        repeated_id(v) == repeated_id(v.take(n)),
    decreases v.len() - n,
{
    if n == v.len() {
        assert(v.take(n) =~= v);
    } else {
        assert(v.take(n + 1).drop_last() =~= v.take(n));
        lemma_repeated_stays(v, n + 1);
    }
}

/// The compiled backends.
#[derive(Debug)]
pub struct BackendRegistry {
    candidates: Vec<Candidate>,
}

impl View for BackendRegistry {
    type V = Seq<CandidateView>;

    closed spec fn view(&self) -> Seq<CandidateView> {
        candidate_views(self.candidates@)
    }
}

fn provides(d: &BackendDescriptor, c: Capability) -> (r: bool)
    ensures
        r == d@.capabilities.contains(c),
{
    let mut i: usize = 0;
    while i < d.capabilities.len()
        invariant
            i <= d.capabilities@.len(),
            forall|j: int| 0 <= j < i ==> d.capabilities@[j] != c,
        decreases d.capabilities@.len() - i,
    {
        if d.capabilities[i] == c {
            return true;
        }
        i += 1;
    }
    false
}

fn wished(m: &CapabilityMap, c: Capability) -> (r: Option<&String>)
    ensures
        match r {
            Some(id) => wish(m@, c) == Some(id@),
            None => wish(m@, c) is None,
        },
{
    match m.get(c) {
        Some(id) => if text::same(id.as_str(), "auto") {
            None
        } else {
            Some(id)
        },
        None => None,
    }
}

fn asked(p: &BackendPreferences, c: Capability) -> (r: Option<(SelectionSource, &String)>)
    ensures
        match r {
            Some((source, id)) => explicit_wish(p@, c) == Some((source, id@)),
            None => explicit_wish(p@, c) is None,
        },
{
    match wished(&p.cli, c) {
        Some(id) => Some((SelectionSource::Cli, id)),
        None => match wished(&p.config, c) {
            Some(id) => Some((SelectionSource::Config, id)),
            None => match wished(&p.installed, c) {
                Some(id) => Some((SelectionSource::InstalledState, id)),
                None => None,
            },
        },
    }
}

fn refuse(x: &Candidate, c: Capability, recommendation: String) -> (r: ManagerError)
    ensures
        r@ == wish_error(c, x@, recommendation@),
{
    let fallback = text::concat3("backend '", x.descriptor.id.as_str(), "' is unavailable");
    ManagerError::PlatformUnsupported {
        capability: c,
        platform: x.descriptor.platform.clone(),
        backend: Some(x.descriptor.id.clone()),
        reason: text::unwrap_text(text::copy_opt(&x.probe.reason), fallback.as_str()),
        recommendation: Some(recommendation),
    }
}

proof fn lemma_named(v: Seq<CandidateView>, id: Seq<char>, i: int)
    requires
        distinct_ids(v),
        named_at(v, id, i),
    ensures
        named_candidate(v, id) == Some(v[i]),
{
    let k = choose|k: int| named_at(v, id, k);
    assert(named_at(v, id, k));
    if k < i {
        assert(v[k].descriptor.id != v[i].descriptor.id);
    } else if i < k {
        assert(v[i].descriptor.id != v[k].descriptor.id);
    }
}

proof fn lemma_least(v: Seq<CandidateView>, c: Capability, available: bool, i: int)
    requires
        least_at(v, c, available, i),
    ensures
        least(v, c, available) == Some(v[i]),
{
    let k = choose|k: int| least_at(v, c, available, k);
    assert(least_at(v, c, available, k));
    if k != i {
        assert(eligible(v[k], c, available));
        assert(eligible(v[i], c, available));
        text::law_text_order_transitive(v[i].descriptor.id, v[k].descriptor.id, v[i].descriptor.id);
        text::law_text_order_total(v[i].descriptor.id, v[i].descriptor.id);
    }
}

impl BackendRegistry {
    /// A registry of no backends.
    pub fn new() -> (r: BackendRegistry)
        ensures
            r@ == Seq::<CandidateView>::empty(),
    {
        let r = BackendRegistry { candidates: Vec::new() };
        assert(r@ =~= Seq::<CandidateView>::empty());
        r
    }

    fn position(&self, id: &str) -> (r: Option<usize>)
        ensures
            match r {
                Some(i) => named_at(self@, id@, i as int) && forall|j: int|
                    0 <= j < i ==> !#[trigger] named_at(self@, id@, j),
                None => forall|i: int| !#[trigger] named_at(self@, id@, i),
            },
    {
        let mut i: usize = 0;
        while i < self.candidates.len()
            invariant
                i <= self.candidates@.len(),
                forall|j: int| 0 <= j < i ==> !#[trigger] named_at(self@, id@, j),
            decreases self.candidates@.len() - i,
        {
            assert(self@[i as int] == self.candidates@[i as int]@);
            if text::same(self.candidates[i].descriptor.id.as_str(), id) {
                return Some(i);
            }
            i += 1;
        }
        None
    }

    /// Adds a backend with what its probe found.
    pub fn register(&mut self, descriptor: BackendDescriptor, probe: BackendProbe)
        ensures
            final(self)@ == old(self)@.push(
                CandidateView { descriptor: descriptor@, probe: judged(descriptor@, probe@) },
            ),
    {
        let probe = if descriptor.contract_version != 1 {
            let version = text::decimal_of(descriptor.contract_version as u64);
            BackendProbe {
                available: false,
                reason: Some(
                    text::concat3(
                        "backend contract ",
                        version.as_str(),
                        " is incompatible with required contract 1",
                    ),
                ),
            }
        } else {
            probe
        };
        let candidate = Candidate { descriptor, probe };
        proof {
            lemma_candidate_views_push(self.candidates@, candidate);
        }
        self.candidates.push(candidate);
    }

    fn find_repeated(&self) -> (r: Option<usize>)
        ensures
            match r {
                Some(i) => i < self@.len() && repeated_id(self@) == Some(
                    self@[i as int].descriptor.id,
                ),
                None => repeated_id(self@) is None,
            },
    {
        let ghost v = self@;
        let mut i: usize = 0;
        assert(v.take(0) =~= Seq::<CandidateView>::empty());
        while i < self.candidates.len()
            invariant
                i <= self.candidates@.len(),
                v == self@,
                v.len() == self.candidates@.len(),
                repeated_id(v.take(i as int)) is None,
            decreases self.candidates@.len() - i,
        {
            let id = self.candidates[i].descriptor.id.as_str();
            let first = self.position(id);
            proof {
                let before = v.take(i as int);
                assert(v.take(i + 1).drop_last() =~= before);
                assert(v.take(i + 1).last() == v[i as int]);
                assert(v[i as int] == self.candidates@[i as int]@);
                assert(named_at(v, id@, i as int));
                match first {
                    Some(k) => {
                        if k < i {
                            assert(named_at(before, id@, k as int));
                            lemma_repeated_stays(v, i + 1);
                        } else {
                            assert forall|j: int| !#[trigger] named_at(before, id@, j) by {
                                if 0 <= j < i {
                                    assert(!named_at(v, id@, j));
                                }
                            }
                        }
                    },
                    None => {},
                }
            }
            match first {
                Some(k) => if k < i {
                    return Some(i);
                },
                None => {},
            }
            i += 1;
        }
        assert(v.take(v.len() as int) =~= v);
        None
    }

    /// What the backends say of themselves, in the order in which they were
    /// registered.
    pub fn descriptors(&self) -> (r: Vec<BackendDescriptor>)
        ensures
            r@.map_values(|d: BackendDescriptor| d@) == self@.map_values(
                |x: CandidateView| x.descriptor,
            ),
    {
        let mut r: Vec<BackendDescriptor> = Vec::new();
        let mut i: usize = 0;
        while i < self.candidates.len()
            invariant
                i <= self.candidates@.len(),
                r@.len() == i,
                forall|k: int|
                    0 <= k < i ==> (#[trigger] r@[k])@ == self.candidates@[k].descriptor@,
            decreases self.candidates@.len() - i,
        {
            r.push(self.candidates[i].descriptor.clone());
            i += 1;
        }
        assert(r@.map_values(|d: BackendDescriptor| d@) =~= self@.map_values(
            |x: CandidateView| x.descriptor,
        )) by {
            assert forall|k: int| 0 <= k < r@.len() implies r@[k]@ == (
            #[trigger] self@[k]).descriptor by {
                assert(self@[k] == self.candidates@[k]@);
            }
        }
        r
    }

    fn find_least(&self, c: Capability, available: bool) -> (r: Option<usize>)
        requires
            distinct_ids(self@),
        ensures
            match r {
                Some(i) => i < self@.len() && least(self@, c, available) == Some(self@[i as int]),
                None => least(self@, c, available) is None,
            },
    {
        let ghost v = self@;
        let mut best: Option<usize> = None;
        let mut i: usize = 0;
        while i < self.candidates.len()
            invariant
                i <= self.candidates@.len(),
                v == self@,
                distinct_ids(v),
                v.len() == self.candidates@.len(),
                match best {
                    Some(b) => b < i && eligible(v[b as int], c, available) && forall|j: int|
                        0 <= j < i && j != b && eligible(#[trigger] v[j], c, available)
                            ==> text::text_less(v[b as int].descriptor.id, v[j].descriptor.id),
                    None => forall|j: int| 0 <= j < i ==> !eligible(#[trigger] v[j], c, available),
                },
            decreases self.candidates@.len() - i,
        {
            let x = &self.candidates[i];
            assert(v[i as int] == x@);
            let fits = provides(&x.descriptor, c) && (if available {
                x.probe.available
            } else {
                x.descriptor.contract_version == 1
            });
            assert(fits == eligible(v[i as int], c, available));
            if fits {
                match best {
                    Some(b) => {
                        assert(v[b as int] == self.candidates@[b as int]@);
                        let less = text::is_less(
                            x.descriptor.id.as_str(),
                            self.candidates[b].descriptor.id.as_str(),
                        );
                        proof {
                            let added = v[i as int].descriptor.id;
                            let kept = v[b as int].descriptor.id;
                            assert(v[b as int].descriptor.id != v[i as int].descriptor.id);
                            text::law_text_order_total(added, kept);
                            if less {
                                assert forall|j: int|
                                    0 <= j < i + 1 && j != i && eligible(
                                        #[trigger] v[j],
                                        c,
                                        available,
                                    ) implies text::text_less(added, v[j].descriptor.id) by {
                                    if j != b {
                                        text::law_text_order_transitive(added, kept, v[j].descriptor.id);
                                    }
                                }
                            }
                        }
                        if less {
                            best = Some(i);
                        }
                    },
                    None => {
                        best = Some(i);
                    },
                }
            }
            i += 1;
        }
        proof {
            match best {
                Some(b) => {
                    assert(least_at(v, c, available, b as int));
                    lemma_least(v, c, available, b as int);
                },
                None => {
                    assert forall|k: int| !#[trigger] least_at(v, c, available, k) by {
                        if 0 <= k < v.len() {
                            assert(!eligible(v[k], c, available));
                        }
                    }
                },
            }
        }
        best
    }

    fn choose_backend(&self, p: &BackendPreferences, c: Capability, os: &str) -> (r: Result<
        Option<(SelectionSource, usize)>,
        ManagerError,
    >)
        requires
            distinct_ids(self@),
        ensures
            match r {
                Ok(Some((source, i))) => i < self@.len() && choice(self@, p@, c, os@) == Ok::<
                    Option<(SelectionSource, CandidateView)>,
                    ManagerErrorView,
                >(Some((source, self@[i as int]))),
                Ok(None) => choice(self@, p@, c, os@) == Ok::<
                    Option<(SelectionSource, CandidateView)>,
                    ManagerErrorView,
                >(None),
                Err(e) => choice(self@, p@, c, os@) == Err::<
                    Option<(SelectionSource, CandidateView)>,
                    ManagerErrorView,
                >(e@),
            },
    {
        match asked(p, c) {
            Some((source, id)) => match self.position(id.as_str()) {
                None => {
                    assert(named_candidate(self@, id@) is None);
                    Err(
                        ManagerError::PlatformUnsupported {
                            capability: c,
                            platform: text::owned(os),
                            backend: Some(id.clone()),
                            reason: text::concat3(
                                "requested backend '",
                                id.as_str(),
                                "' is not compiled in",
                            ),
                            recommendation: Some(
                                text::concat("choose a backend listed by doctor for ", c.name()),
                            ),
                        },
                    )
                },
                Some(i) => {
                    proof {
                        lemma_named(self@, id@, i as int);
                        assert(self@[i as int] == self.candidates@[i as int]@);
                    }
                    let x = &self.candidates[i];
                    if !provides(&x.descriptor, c) {
                        Err(refuse(x, c, text::concat("choose a backend that provides ", c.name())))
                    } else if !x.probe.available && source != SelectionSource::InstalledState {
                        Err(
                            refuse(
                                x,
                                c,
                                text::owned("satisfy the backend requirements or choose another backend"),
                            ),
                        )
                    } else {
                        Ok(Some((source, i)))
                    }
                },
            },
            None => match self.find_least(c, true) {
                Some(i) => Ok(Some((SelectionSource::Automatic, i))),
                None => match self.find_least(c, false) {
                    Some(i) => Ok(Some((SelectionSource::Automatic, i))),
                    None => Ok(None),
                },
            },
        }
    }

    /// Chooses a backend for each required capability. What was asked for is
    /// taken or refused; an unavailable one is kept only if the installed state
    /// asks for it. Two backends of one ID are refused. `os` names the operating
    /// system.
    pub fn resolve(&self, preferences: &BackendPreferences, required: &Vec<Capability>, os: &str) -> (r:
        Result<(Vec<BackendSelection>, Vec<CapabilityStatus>), ManagerError>)
        ensures
            match r {
                Ok((selections, statuses)) => resolved(self@, preferences@, required@, os@)
                    == Ok::<
                    (Seq<BackendSelectionView>, Seq<CapabilityStatusView>),
                    ManagerErrorView,
                >((ports::backend_selection_views(selections@), ports::capability_status_views(statuses@))),
                Err(e) => resolved(self@, preferences@, required@, os@) == Err::<
                    (Seq<BackendSelectionView>, Seq<CapabilityStatusView>),
                    ManagerErrorView,
                >(e@),
            },
    {
        match self.find_repeated() {
            Some(i) => {
                let id = self.candidates[i].descriptor.id.as_str();
                assert(self@[i as int] == self.candidates@[i as int]@);
                return Err(ManagerError::Other(text::concat3("duplicate backend ID '", id, "'")));
            },
            None => {},
        }
        proof {
            lemma_repeated(self@);
        }
        let mut selections: Vec<BackendSelection> = Vec::new();
        let mut statuses: Vec<CapabilityStatus> = Vec::new();
        let mut i: usize = 0;
        proof {
            assert(required@.take(0) =~= Seq::<Capability>::empty());
            assert(ports::backend_selection_views(selections@) =~= Seq::empty());
            assert(ports::capability_status_views(statuses@) =~= Seq::empty());
        }
        while i < required.len()
            invariant
                i <= required@.len(),
                distinct_ids(self@),
                repeated_id(self@) is None,
                resolution(self@, preferences@, required@.take(i as int), os@) == Ok::<
                    (Seq<BackendSelectionView>, Seq<CapabilityStatusView>),
                    ManagerErrorView,
                >((ports::backend_selection_views(selections@), ports::capability_status_views(statuses@))),
            decreases required@.len() - i,
        {
            let c: Capability = required[i];
            let ghost before = (
                ports::backend_selection_views(selections@),
                ports::capability_status_views(statuses@),
            );
            proof {
                assert(required@.take(i + 1).drop_last() =~= required@.take(i as int));
                assert(required@.take(i + 1).last() == c);
            }
            match self.choose_backend(preferences, c, os) {
                Err(e) => {
                    proof {
                        lemma_refused(self@, preferences@, required@, os@, i + 1, e@);
                    }
                    return Err(e);
                },
                Ok(Some((source, k))) => {
                    let x = &self.candidates[k];
                    assert(self@[k as int] == x@);
                    let selection = BackendSelection {
                        capability: c,
                        backend_id: x.descriptor.id.clone(),
                        source,
                    };
                    let status = CapabilityStatus {
                        capability: c,
                        supported: x.probe.available,
                        backend_id: Some(x.descriptor.id.clone()),
                        reason: text::copy_opt(&x.probe.reason),
                    };
                    proof {
                        ports::lemma_backend_selection_views_push(selections@, selection);
                        ports::lemma_capability_status_views_push(statuses@, status);
                        assert(before.0.push(selection@) =~= before.0 + chosen(
                            c,
                            Some((source, x@)),
                        ));
                    }
                    selections.push(selection);
                    statuses.push(status);
                },
                Ok(None) => {
                    let status = CapabilityStatus {
                        capability: c,
                        supported: false,
                        backend_id: None,
                        reason: Some(text::owned("no available backend")),
                    };
                    proof {
                        ports::lemma_capability_status_views_push(statuses@, status);
                        assert(before.0 =~= before.0 + chosen(c, None));
                    }
                    statuses.push(status);
                },
            }
            i += 1;
        }
        assert(required@.take(required@.len() as int) =~= required@);
        Ok((selections, statuses))
    }

    /// The first backend that a selection names; one that is not compiled in is refused.
    pub fn instantiate(&self, selection: &BackendSelection, os: &str) -> (r: Result<
        usize,
        ManagerError,
    >)
        ensures
            match r {
                Ok(i) => named_at(self@, selection@.backend_id, i as int) && forall|j: int|
                    0 <= j < i ==> !#[trigger] named_at(self@, selection@.backend_id, j),
                Err(e) => named_candidate(self@, selection@.backend_id) is None && e@
                    == (ManagerErrorView::PlatformUnsupported {
                    capability: selection@.capability,
                    platform: os@,
                    backend: Some(selection@.backend_id),
                    reason: "selected backend '"@ + selection@.backend_id
                        + "' is not compiled in"@,
                    recommendation: Some(
                        "restore the installed backend or select a compiled replacement"@,
                    ),
                }),
            },
    {
        match self.position(selection.backend_id.as_str()) {
            Some(i) => Ok(i),
            None => Err(
                ManagerError::PlatformUnsupported {
                    capability: selection.capability,
                    platform: text::owned(os),
                    backend: Some(selection.backend_id.clone()),
                    reason: text::concat3(
                        "selected backend '",
                        selection.backend_id.as_str(),
                        "' is not compiled in",
                    ),
                    recommendation: Some(
                        text::owned("restore the installed backend or select a compiled replacement"),
                    ),
                },
            ),
        }
    }
}

impl Default for BackendRegistry {
    fn default() -> (r: Self)
        ensures
            r@ == Seq::<CandidateView>::empty(),
    {
        BackendRegistry::new()
    }
}

proof fn lemma_refused(
    v: Seq<CandidateView>,
    p: BackendPreferencesView,
    required: Seq<Capability>,
    os: Seq<char>,
    n: int,
    e: ManagerErrorView,
)
    requires
        0 <= n <= required.len(),
        resolution(v, p, required.take(n), os) == Err::<
            (Seq<BackendSelectionView>, Seq<CapabilityStatusView>),
            ManagerErrorView,
        >(e),
    ensures
        resolution(v, p, required, os) == Err::<
            (Seq<BackendSelectionView>, Seq<CapabilityStatusView>),
            ManagerErrorView,
        >(e),
    decreases required.len() - n,
{
    if n == required.len() {
        assert(required.take(n) =~= required);
    } else {
        assert(required.take(n + 1).drop_last() =~= required.take(n));
        lemma_refused(v, p, required, os, n + 1, e);
    }
}

/// The command line is asked first, then the configuration, then the installed state.
pub proof fn law_preference_order(p: BackendPreferencesView, c: Capability)
    ensures
        wish(p.cli, c) is Some ==> explicit_wish(p, c) == Some(
            (SelectionSource::Cli, wish(p.cli, c)->0),
        ),
        wish(p.cli, c) is None && wish(p.config, c) is Some ==> explicit_wish(p, c) == Some(
            (SelectionSource::Config, wish(p.config, c)->0),
        ),
        wish(p.cli, c) is None && wish(p.config, c) is None && wish(p.installed, c) is Some
            ==> explicit_wish(p, c) == Some(
            (SelectionSource::InstalledState, wish(p.installed, c)->0),
        ),
{
}

/// A backend that was asked for is never replaced by another one.
pub proof fn law_wish_is_kept_or_refused(
    v: Seq<CandidateView>,
    p: BackendPreferencesView,
    c: Capability,
    os: Seq<char>,
)
    requires
        explicit_wish(p, c) is Some,
    ensures
        match choice(v, p, c, os) {
            Ok(x) => x matches Some((source, y)) && explicit_wish(p, c) == Some(
                (source, y.descriptor.id),
            ),
            Err(e) => e is PlatformUnsupported,
        },
{
    let id = (explicit_wish(p, c)->0).1;
    if exists|i: int| named_at(v, id, i) {
        let k = choose|i: int| named_at(v, id, i);
        assert(named_at(v, id, k));
    }
}

/// A backend that only the installed state asks for is kept although it is
/// unavailable, and reported as unsupported.
pub proof fn law_saved_backend_is_kept(
    v: Seq<CandidateView>,
    p: BackendPreferencesView,
    c: Capability,
    os: Seq<char>,
    i: int,
)
    requires
        distinct_ids(v),
        wish(p.cli, c) is None,
        wish(p.config, c) is None,
        wish(p.installed, c) is Some,
        named_at(v, wish(p.installed, c)->0, i),
        v[i].descriptor.capabilities.contains(c),
    ensures
        choice(v, p, c, os) == Ok::<Option<(SelectionSource, CandidateView)>, ManagerErrorView>(
            Some((SelectionSource::InstalledState, v[i])),
        ),
        status_of(c, Some((SelectionSource::InstalledState, v[i]))).supported
            == v[i].probe.available,
{
    lemma_named(v, wish(p.installed, c)->0, i);
}

/// A registry with two backends of one ID is refused as soon as it is asked,
/// whatever is required, by the first ID that comes again.
pub proof fn law_repeated_backend_is_refused(
    v: Seq<CandidateView>,
    p: BackendPreferencesView,
    required: Seq<Capability>,
    os: Seq<char>,
)
    ensures
        distinct_ids(v) ==> resolved(v, p, required, os) == resolution(v, p, required, os),
        !distinct_ids(v) ==> repeated_id(v) is Some && resolved(v, p, required, os) == Err::<
            (Seq<BackendSelectionView>, Seq<CapabilityStatusView>),
            ManagerErrorView,
        >(ManagerErrorView::Other("duplicate backend ID '"@ + repeated_id(v)->0 + "'"@)),
{
    if repeated_id(v) is None {
        lemma_repeated(v);
    } else {
        lemma_repeated_found(v);
    }
}

proof fn lemma_repeated_found(v: Seq<CandidateView>)
    requires
        repeated_id(v) is Some,
    ensures
        !distinct_ids(v),
    decreases v.len(),
{
    let before = v.drop_last();
    if repeated_id(before) is Some {
        lemma_repeated_found(before);
        if distinct_ids(v) {
            assert forall|i: int, j: int| 0 <= i < j < before.len() implies (
            #[trigger] before[i]).descriptor.id != (#[trigger] before[j]).descriptor.id by {
                assert(before[i] == v[i] && before[j] == v[j]);
            }
            assert(distinct_ids(before));
        }
    } else {
        let k = choose|k: int| named_at(before, v.last().descriptor.id, k);
        assert(named_at(before, v.last().descriptor.id, k));
        assert(v[k] == before[k]);
        assert(v[k].descriptor.id == v[v.len() - 1].descriptor.id);
    }
}

/// What is reported and selected after a resolution: one status for each
/// required capability in order, and each selection is of a registered backend
/// that provides what it is selected for.
pub proof fn law_resolution_is_complete(
    v: Seq<CandidateView>,
    p: BackendPreferencesView,
    required: Seq<Capability>,
    os: Seq<char>,
)
    requires
        resolution(v, p, required, os) is Ok,
    ensures
        (resolution(v, p, required, os)->Ok_0).1.len() == required.len(),
        forall|i: int|
            0 <= i < required.len() ==> (#[trigger] (resolution(
                v,
                p,
                required,
                os,
            )->Ok_0).1[i]).capability == required[i],
        forall|i: int|
            0 <= i < (resolution(v, p, required, os)->Ok_0).0.len() ==> selects_provider(
                v,
                #[trigger] (resolution(v, p, required, os)->Ok_0).0[i],
            ),
    decreases required.len(),
{
    if required.len() > 0 {
        law_resolution_is_complete(v, p, required.drop_last(), os);
        let before = resolution(v, p, required.drop_last(), os)->Ok_0;
        let c = required.last();
        let x = choice(v, p, c, os)->Ok_0;
        lemma_choice_provides(v, p, c, os);
        let after = resolution(v, p, required, os)->Ok_0;
        assert forall|i: int| 0 <= i < required.len() implies (
        #[trigger] after.1[i]).capability == required[i] by {
            if i < required.len() - 1 {
                assert(after.1[i] == before.1[i]);
                assert(required[i] == required.drop_last()[i]);
            }
        }
        assert forall|i: int| 0 <= i < after.0.len() implies selects_provider(
            v,
            #[trigger] after.0[i],
        ) by {
            if i < before.0.len() {
                assert(after.0[i] == before.0[i]);
            }
        }
    }
}

/// A selection names a registered backend that provides its capability.
pub open spec fn selects_provider(v: Seq<CandidateView>, s: BackendSelectionView) -> bool {
    exists|i: int|
        #[trigger] named_at(v, s.backend_id, i) && v[i].descriptor.capabilities.contains(
            s.capability,
        )
}

proof fn lemma_choice_provides(
    v: Seq<CandidateView>,
    p: BackendPreferencesView,
    c: Capability,
    os: Seq<char>,
)
    requires
        choice(v, p, c, os) is Ok,
    ensures
        match choice(v, p, c, os)->Ok_0 {
            Some((source, x)) => selects_provider(
                v,
                BackendSelectionView { capability: c, backend_id: x.descriptor.id, source },
            ),
            None => true,
        },
{
    match explicit_wish(p, c) {
        Some((source, id)) => {
            let k = choose|i: int| named_at(v, id, i);
            assert(exists|i: int| named_at(v, id, i));
            lemma_selects(v, c, source, k);
        },
        None => {
            let best = choose|i: int| least_at(v, c, true, i);
            let other = choose|i: int| least_at(v, c, false, i);
            if exists|i: int| least_at(v, c, true, i) {
                lemma_selects(v, c, SelectionSource::Automatic, best);
            } else if exists|i: int| least_at(v, c, false, i) {
                lemma_selects(v, c, SelectionSource::Automatic, other);
            }
        },
    }
}

proof fn lemma_selects(v: Seq<CandidateView>, c: Capability, source: SelectionSource, k: int)
    requires
        0 <= k < v.len(),
        v[k].descriptor.capabilities.contains(c),
    ensures
        selects_provider(
            v,
            BackendSelectionView { capability: c, backend_id: v[k].descriptor.id, source },
        ),
{
    let s = BackendSelectionView { capability: c, backend_id: v[k].descriptor.id, source };
    assert(named_at(v, s.backend_id, k) && v[k].descriptor.capabilities.contains(s.capability));
}

} // verus!

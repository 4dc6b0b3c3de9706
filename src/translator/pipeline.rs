use vstd::prelude::*;

use crate::markdown::segment::{Segment, SegmentView, segments_view};
use vstd::string::StringExecFns;

verus! {

/// How one unit of a run was settled.
pub enum Resolution {
    /// The unit has no text to translate and is returned as it came.
    Passthrough,
    /// The cache held a translation of the unit's text.
    CacheHit(Seq<char>),
    /// The provider translated the unit's text.
    Translated(Seq<char>),
    /// The provider failed; the unit is returned untranslated.
    Failed,
}

/// The unit that a run returns for an input unit settled by `r`.
pub open spec fn resolve(seg: SegmentView, r: Resolution) -> SegmentView {
    match r {
        Resolution::CacheHit(t) => seg.with_text(t),
        Resolution::Translated(t) => seg.with_text(t),
        _ => seg,
    }
}

/// A unit is handed to the cache and the provider only when it is
/// translatable and has a text field.
pub open spec fn needs_translation(seg: SegmentView) -> bool {
    seg.translatable() && seg.text() is Some
}

/// The units that a run returns: each input unit settled by the resolution at
/// its own position.
pub open spec fn assemble(inputs: Seq<SegmentView>, res: Seq<Resolution>) -> Seq<SegmentView>
    recommends
        inputs.len() == res.len(),
{
    Seq::new(inputs.len(), |i: int| resolve(inputs[i], res[i]))
}

/// Every unit comes back of the variant it went in as, and a run returns as
/// many units as it was given, in their order, however its units were settled.
pub proof fn lemma_order_preserved(inputs: Seq<SegmentView>, res: Seq<Resolution>)
    requires
        inputs.len() == res.len(),
    ensures
        assemble(inputs, res).len() == inputs.len(),
        forall|i: int|
            0 <= i < inputs.len() ==> (#[trigger] assemble(inputs, res)[i]).same_kind(inputs[i]),
{
}

/// A unit that is not translatable comes back exactly as it went in.
pub proof fn lemma_passthrough(inputs: Seq<SegmentView>, res: Seq<Resolution>)
    requires
        inputs.len() == res.len(),
        forall|i: int|
            0 <= i < inputs.len() ==> (#[trigger] res[i] == Resolution::Passthrough
                <==> !needs_translation(inputs[i])),
    ensures
        forall|i: int|
            0 <= i < inputs.len() && !inputs[i].translatable() ==> #[trigger] assemble(
                inputs,
                res,
            )[i] == inputs[i],
{
}

/// A failed provider call leaves its own unit untranslated and no other: the
/// other units still take their translations.
pub proof fn lemma_failure_isolated(inputs: Seq<SegmentView>, res: Seq<Resolution>, j: int)
    requires
        inputs.len() == res.len(),
        0 <= j < inputs.len(),
        res[j] == Resolution::Failed,
    ensures
        assemble(inputs, res)[j] == inputs[j],
        forall|i: int|
            0 <= i < inputs.len() && i != j && #[trigger] res[i] is Translated ==> assemble(
                inputs,
                res,
            )[i] == inputs[i].with_text(res[i]->Translated_0),
{
}

/// Where a unit stands in a run.
#[derive(Clone, Copy, PartialEq, Eq, Structural)]
pub enum Phase {
    Waiting,
    InFlight,
    Resolved,
}

/// Number of units whose provider call is under way.
pub open spec fn count_in_flight(s: Seq<Phase>) -> nat
    decreases s.len(),
{
    if s.len() == 0 {
        0
    } else {
        count_in_flight(s.drop_last()) + if s.last() == Phase::InFlight {
            1nat
        } else {
            0nat
        }
    }
}

proof fn lemma_count_update(s: Seq<Phase>, i: int, p: Phase)
    requires
        0 <= i < s.len(),
    ensures
        count_in_flight(s.update(i, p)) + (if s[i] == Phase::InFlight { 1int } else { 0int })
            == count_in_flight(s) + (if p == Phase::InFlight { 1int } else { 0int }),
    decreases s.len(),
{
    let u = s.update(i, p);
    if i == s.len() - 1 {
        assert(u.drop_last() =~= s.drop_last());
    } else {
        assert(u.drop_last() =~= s.drop_last().update(i, p));
        lemma_count_update(s.drop_last(), i, p);
    }
}

proof fn lemma_count_zero(s: Seq<Phase>, i: int)
    requires
        0 <= i < s.len(),
        count_in_flight(s) == 0,
    ensures
        s[i] != Phase::InFlight,
    decreases s.len(),
{
    if i < s.len() - 1 {
        lemma_count_zero(s.drop_last(), i);
    }
}

proof fn lemma_count_bound(s: Seq<Phase>, k: nat)
    requires
        forall|i: int| k <= i < s.len() ==> s[i] != Phase::InFlight,
    ensures
        count_in_flight(s) <= k,
    decreases s.len(),
{
    if s.len() > 0 {
        if s.last() == Phase::InFlight {
            lemma_count_bound(s.drop_last(), (s.len() - 1) as nat);
        } else {
            lemma_count_bound(s.drop_last(), k);
        }
    }
}

/// A request to consult the cache for the unit at `index`, whose text is `text`.
pub struct Probe {
    pub index: usize,
    pub text: String,
}

/// One pending provider call: the unit at `index` and the text to translate.
pub struct Job {
    pub index: usize,
    pub segment: Segment,
    pub source_text: String,
}

/// What the driver of a run does next.
pub enum Step {
    /// Look the unit up in the cache and answer with [`Coordinator::answer_probe`].
    Probe(Probe),
    /// Call the provider for this job and report with [`Coordinator::complete`].
    Dispatch(Job),
    /// Wait for one call under way and report it with [`Coordinator::complete`].
    Wait,
    /// Every unit is settled: collect the result with [`Coordinator::finish`].
    Done,
}

/// The decisions of one translation run over an ordered sequence of units.
///
/// Units are taken in their order. A unit without text to translate is settled
/// at once; for the others the cache is consulted (when it is in use), and on a
/// miss a provider call is dispatched, never more than `capacity` at a time.
/// Calls may complete in any order; every unit has one slot, written once, and
/// the result is read off the slots in their original order.
pub struct Coordinator {
    inputs: Vec<Segment>,
    slots: Vec<Option<Segment>>,
    phases: Vec<Phase>,
    cursor: usize,
    probing: bool,
    missed: bool,
    in_flight: usize,
    capacity: usize,
    use_cache: bool,
    res: Ghost<Seq<Resolution>>,
}

impl Coordinator {
    /// The input units.
    pub closed spec fn inputs(self) -> Seq<SegmentView> {
        segments_view(self.inputs@)
    }

    /// How each unit has been settled; meaningful where [`Self::phase`] is `Resolved`.
    pub closed spec fn resolutions(self) -> Seq<Resolution> {
        self.res@
    }

    pub closed spec fn phase(self, i: int) -> Phase {
        self.phases@[i]
    }

    /// Units before this position have been settled or dispatched.
    pub closed spec fn position(self) -> nat {
        self.cursor as nat
    }

    /// A cache answer is owed for the unit at [`Self::position`].
    pub closed spec fn awaiting_probe(self) -> bool {
        self.probing
    }

    /// The cache missed for the unit at [`Self::position`].
    pub closed spec fn probe_missed(self) -> bool {
        self.missed
    }

    pub closed spec fn calls_in_flight(self) -> nat {
        self.in_flight as nat
    }

    pub closed spec fn capacity(self) -> nat {
        self.capacity as nat
    }

    pub closed spec fn uses_cache(self) -> bool {
        self.use_cache
    }

    /// All units are settled and no call is under way.
    pub open spec fn finished(self) -> bool {
        &&& self.position() == self.inputs().len()
        &&& self.calls_in_flight() == 0
    }

    pub closed spec fn wf(self) -> bool {
        let n = self.inputs@.len();
        &&& self.slots@.len() == n
        &&& self.phases@.len() == n
        &&& self.res@.len() == n
        &&& self.cursor <= n
        &&& 0 < self.capacity
        &&& self.in_flight <= self.capacity
        &&& count_in_flight(self.phases@) == self.in_flight
        &&& (self.probing || self.missed) ==> self.cursor < n && needs_translation(
            self.inputs@[self.cursor as int]@,
        ) && self.use_cache
        &&& !(self.probing && self.missed)
        &&& forall|i: int|
            0 <= i < n ==> (#[trigger] self.phases@[i] == Phase::Waiting <==> i >= self.cursor)
        &&& forall|i: int|
            0 <= i < n ==> (#[trigger] self.slots@[i] is Some <==> self.phases@[i]
                == Phase::Resolved)
        &&& forall|i: int|
            0 <= i < n && self.phases@[i] == Phase::InFlight ==> needs_translation(
                #[trigger] self.inputs@[i]@,
            )
        &&& forall|i: int|
            #![trigger self.slots@[i]]
            0 <= i < n && self.slots@[i] is Some ==> self.slots@[i]->0@ == resolve(
                self.inputs@[i]@,
                self.res@[i],
            ) && (self.res@[i] == Resolution::Passthrough <==> !needs_translation(
                self.inputs@[i]@,
            )) && (self.res@[i] is CacheHit ==> self.use_cache)
    }

    /// Starts a run over `segments`, with at most `capacity` provider calls
    /// in flight, consulting the cache when `use_cache` holds.
    pub fn new(segments: Vec<Segment>, use_cache: bool, capacity: usize) -> (r: Coordinator)
        requires
            capacity > 0,
        ensures
            r.wf(),
            r.inputs() == segments_view(segments@),
            r.calls_in_flight() <= r.capacity(),
            r.position() == 0,
            r.calls_in_flight() == 0,
            r.capacity() == capacity,
            r.uses_cache() == use_cache,
            !r.awaiting_probe(),
            !r.probe_missed(),
    {
        let n = segments.len();
        let mut slots: Vec<Option<Segment>> = Vec::new();
        let mut phases: Vec<Phase> = Vec::new();
        let mut i: usize = 0;
        while i < n
            invariant
                i <= n,
                slots@.len() == i,
                phases@.len() == i,
                forall|j: int| 0 <= j < i ==> slots@[j] is None,
                forall|j: int| 0 <= j < i ==> phases@[j] == Phase::Waiting,
                count_in_flight(phases@) == 0,
            decreases n - i,
        {
            let ghost prev = phases@;
            slots.push(None);
            phases.push(Phase::Waiting);
            assert(phases@.drop_last() =~= prev);
            i += 1;
        }
        Coordinator {
            inputs: segments,
            slots,
            phases,
            cursor: 0,
            probing: false,
            missed: false,
            in_flight: 0,
            capacity,
            use_cache,
            res: Ghost(Seq::new(n as nat, |j: int| Resolution::Passthrough)),
        }
    }

    /// A step keeps the run's units and settings, and every unit settled
    /// before it keeps its phase and resolution.
    pub open spec fn keeps_settled(self, old: Coordinator) -> bool {
        &&& self.inputs() == old.inputs()
        &&& self.capacity() == old.capacity()
        &&& self.uses_cache() == old.uses_cache()
        &&& self.resolutions().len() == old.resolutions().len()
        &&& forall|i: int|
            #![trigger self.phase(i)]
            0 <= i < old.inputs().len() && old.phase(i) == Phase::Resolved ==> self.phase(i)
                == Phase::Resolved && self.resolutions()[i] == old.resolutions()[i]
    }

    closed spec fn keeps_fields(self, old: Coordinator) -> bool {
        &&& self.inputs@ == old.inputs@
        &&& self.capacity == old.capacity
        &&& self.use_cache == old.use_cache
        &&& self.res@.len() == old.res@.len()
        &&& forall|i: int|
            0 <= i < old.phases@.len() && old.phases@[i] == Phase::Resolved ==> #[trigger] self.phases@[i]
                == Phase::Resolved && self.res@[i] == old.res@[i]
    }

    /// Advances the run to its next action. Units without text to translate
    /// are settled on the way, unchanged.
    pub fn next_step(&mut self) -> (r: Step)
        requires
            old(self).wf(),
            !old(self).awaiting_probe(),
        ensures
            final(self).wf(),
            final(self).keeps_settled(*old(self)),
            final(self).calls_in_flight() <= final(self).capacity(),
            old(self).position() <= final(self).position(),
            forall|i: int|
                #![trigger final(self).phase(i)]
                0 <= i < old(self).inputs().len() && old(self).phase(i) == Phase::InFlight
                    ==> final(self).phase(i) == Phase::InFlight,
            forall|i: int|
                #![trigger final(self).resolutions()[i]]
                old(self).position() <= i < final(self).position() && !(r is Dispatch && i + 1
                    == final(self).position()) ==> final(self).phase(i) == Phase::Resolved
                    && final(self).resolutions()[i] == Resolution::Passthrough,
            match r {
                Step::Probe(p) => {
                    &&& final(self).awaiting_probe()
                    &&& !old(self).probe_missed()
                    &&& p.index == final(self).position()
                    &&& p.index < final(self).inputs().len()
                    &&& final(self).inputs()[p.index as int].text() == Some(p.text@)
                    &&& needs_translation(final(self).inputs()[p.index as int])
                    &&& final(self).uses_cache()
                    &&& final(self).calls_in_flight() == old(self).calls_in_flight()
                },
                Step::Dispatch(job) => {
                    &&& !final(self).awaiting_probe()
                    &&& job.index + 1 == final(self).position()
                    &&& final(self).phase(job.index as int) == Phase::InFlight
                    &&& job.segment@ == final(self).inputs()[job.index as int]
                    &&& final(self).inputs()[job.index as int].text() == Some(job.source_text@)
                    &&& needs_translation(job.segment@)
                    &&& (old(self).uses_cache() ==> old(self).probe_missed() && job.index
                        == old(self).position())
                    &&& old(self).calls_in_flight() < old(self).capacity()
                    &&& final(self).calls_in_flight() == old(self).calls_in_flight() + 1
                },
                Step::Wait => {
                    &&& !final(self).awaiting_probe()
                    &&& final(self).calls_in_flight() == old(self).calls_in_flight()
                    &&& 0 < final(self).calls_in_flight()
                    &&& (final(self).calls_in_flight() == final(self).capacity()
                        || final(self).position() == final(self).inputs().len())
                },
                Step::Done => {
                    &&& !final(self).awaiting_probe()
                    &&& final(self).finished()
                },
            },
    {
        let n = self.inputs.len();
        loop
            invariant
                self.wf(),
                old(self).wf(),
                self.keeps_fields(*old(self)),
                !self.probing,
                n == self.inputs@.len(),
                old(self).cursor <= self.cursor,
                self.in_flight == old(self).in_flight,
                forall|i: int|
                    0 <= i < n && old(self).phases@[i] == Phase::InFlight ==> #[trigger] self.phases@[i]
                        == Phase::InFlight,
                forall|i: int|
                    #![trigger self.res@[i]]
                    old(self).cursor <= i < self.cursor ==> self.phases@[i]
                        == Phase::Resolved && self.res@[i] == Resolution::Passthrough,
                self.missed ==> self.cursor == old(self).cursor,
                self.missed == old(self).missed,
            decreases n - self.cursor,
        {
            if self.cursor == n {
                if self.in_flight > 0 {
                    return Step::Wait;
                } else {
                    return Step::Done;
                }
            }
            let i = self.cursor;
            assert(self.phases@[i as int] == Phase::Waiting);
            assert(old(self).phases@[i as int] != Phase::Resolved);
            let translatable = self.inputs[i].is_translatable();
            let text = match self.inputs[i].get_text() {
                Some(t) => Some(String::from_str(t)),
                None => None,
            };
            match text {
                Some(text) if translatable => {
                    if self.use_cache && !self.missed {
                        self.probing = true;
                        return Step::Probe(Probe { index: i, text });
                    }
                    if self.in_flight < self.capacity {
                        let segment = self.inputs[i].clone();
                        proof {
                            lemma_count_update(self.phases@, i as int, Phase::InFlight);
                        }
                        self.phases.set(i, Phase::InFlight);
                        self.in_flight = self.in_flight + 1;
                        self.missed = false;
                        self.cursor = i + 1;
                        return Step::Dispatch(Job { index: i, segment, source_text: text });
                    }
                    return Step::Wait;
                },
                _ => {
                    let segment = self.inputs[i].clone();
                    proof {
                        lemma_count_update(self.phases@, i as int, Phase::Resolved);
                    }
                    self.slots.set(i, Some(segment));
                    self.phases.set(i, Phase::Resolved);
                    self.res = Ghost(self.res@.update(i as int, Resolution::Passthrough));
                    self.cursor = i + 1;
                },
            }
        }
    }

    /// Records the cache's answer for the unit named by the last probe. A hit
    /// settles the unit with the cached text; a miss leaves it for the provider.
    pub fn answer_probe(&mut self, cached: Option<String>)
        requires
            old(self).wf(),
            old(self).awaiting_probe(),
        ensures
            final(self).wf(),
            final(self).keeps_settled(*old(self)),
            final(self).calls_in_flight() <= final(self).capacity(),
            !final(self).awaiting_probe(),
            final(self).calls_in_flight() == old(self).calls_in_flight(),
            forall|i: int|
                #![trigger final(self).phase(i)]
                0 <= i < old(self).inputs().len() && i != old(self).position() ==> final(self).phase(i)
                    == old(self).phase(i),
            match cached {
                Some(t) => {
                    &&& final(self).position() == old(self).position() + 1
                    &&& !final(self).probe_missed()
                    &&& final(self).phase(old(self).position() as int) == Phase::Resolved
                    &&& final(self).resolutions()[old(self).position() as int]
                        == Resolution::CacheHit(t@)
                },
                None => {
                    &&& final(self).position() == old(self).position()
                    &&& final(self).probe_missed()
                },
            },
    {
        let i = self.cursor;
        let n = self.inputs.len();
        assert(i < n);
        self.probing = false;
        match cached {
            Some(t) => {
                assert(self.phases@[i as int] == Phase::Waiting);
                let mut segment = self.inputs[i].clone();
                segment.set_text(t);
                proof {
                    lemma_count_update(self.phases@, i as int, Phase::Resolved);
                }
                self.slots.set(i, Some(segment));
                self.phases.set(i, Phase::Resolved);
                self.res = Ghost(self.res@.update(i as int, Resolution::CacheHit(t@)));
                self.cursor = i + 1;
            },
            None => {
                self.missed = true;
            },
        }
    }

    /// The number of units settled so far: those before the current
    /// position whose provider call is not under way.
    pub fn settled(&self) -> (r: usize)
        requires
            self.wf(),
        ensures
            r == self.position() - self.calls_in_flight(),
    {
        proof {
            lemma_count_bound(self.phases@, self.cursor as nat);
        }
        self.cursor - self.in_flight
    }

    /// Whether the provider call for the unit at `index` is under way.
    pub fn is_in_flight(&self, index: usize) -> (r: bool)
        requires
            self.wf(),
        ensures
            r == (index < self.inputs().len() && self.phase(index as int) == Phase::InFlight),
    {
        index < self.phases.len() && self.phases[index] == Phase::InFlight
    }

    /// Records the outcome of the provider call for the unit at `index`. On
    /// success the unit takes the translation, and when the cache is in use the
    /// pair (source text, translation) to store is returned. On failure the
    /// unit keeps its original text.
    pub fn complete<E>(&mut self, index: usize, outcome: Result<String, E>) -> (store: Option<
        (String, String),
    >)
        requires
            old(self).wf(),
            index < old(self).inputs().len(),
            old(self).phase(index as int) == Phase::InFlight,
        ensures
            final(self).wf(),
            final(self).keeps_settled(*old(self)),
            final(self).calls_in_flight() <= final(self).capacity(),
            final(self).position() == old(self).position(),
            final(self).awaiting_probe() == old(self).awaiting_probe(),
            final(self).probe_missed() == old(self).probe_missed(),
            final(self).calls_in_flight() + 1 == old(self).calls_in_flight(),
            final(self).phase(index as int) == Phase::Resolved,
            forall|i: int|
                #![trigger final(self).phase(i)]
                0 <= i < old(self).inputs().len() && i != index ==> final(self).phase(i)
                    == old(self).phase(i),
            match outcome {
                Ok(t) => final(self).resolutions()[index as int] == Resolution::Translated(t@),
                Err(_) => final(self).resolutions()[index as int] == Resolution::Failed,
            },
            match store {
                Some((source, translation)) => {
                    &&& old(self).uses_cache()
                    &&& outcome matches Ok(t) && translation@ == t@
                    &&& old(self).inputs()[index as int].text() == Some(source@)
                },
                None => !old(self).uses_cache() || outcome is Err,
            },
    {
        proof {
            lemma_count_update(self.phases@, index as int, Phase::Resolved);
        }
        let mut segment = self.inputs[index].clone();
        let store = match outcome {
            Ok(t) => {
                self.res = Ghost(self.res@.update(index as int, Resolution::Translated(t@)));
                let stored = if self.use_cache {
                    let source = match self.inputs[index].get_text() {
                        Some(s) => String::from_str(s),
                        None => String::new(),
                    };
                    Some((source, t.clone()))
                } else {
                    None
                };
                segment.set_text(t);
                stored
            },
            Err(_) => {
                self.res = Ghost(self.res@.update(index as int, Resolution::Failed));
                None
            },
        };
        self.slots.set(index, Some(segment));
        self.phases.set(index, Phase::Resolved);
        self.in_flight = self.in_flight - 1;
        store
    }

    /// The units of a finished run, in their original order.
    pub fn finish(&self) -> (r: Vec<Segment>)
        requires
            self.wf(),
            self.finished(),
        ensures
            segments_view(r@) == assemble(self.inputs(), self.resolutions()),
            forall|i: int|
                0 <= i < self.inputs().len() ==> #[trigger] self.phase(i) == Phase::Resolved,
            forall|i: int|
                0 <= i < self.inputs().len() ==> (#[trigger] self.resolutions()[i]
                    == Resolution::Passthrough <==> !needs_translation(self.inputs()[i])),
    {
        let n = self.slots.len();
        let mut out: Vec<Segment> = Vec::new();
        let mut i: usize = 0;
        while i < n
            invariant
                self.wf(),
                self.finished(),
                n == self.slots@.len(),
                i <= n,
                out@.len() == i,
                forall|j: int|
                    0 <= j < i ==> (#[trigger] out@[j])@ == resolve(
                        self.inputs@[j]@,
                        self.res@[j],
                    ),
            decreases n - i,
        {
            proof {
                if self.phases@[i as int] == Phase::InFlight {
                    lemma_count_zero(self.phases@, i as int);
                }
            }
            match &self.slots[i] {
                Some(s) => out.push(s.clone()),
                None => {},
            }
            i += 1;
        }
        proof {
            assert forall|j: int| 0 <= j < n implies #[trigger] self.phases@[j] == Phase::Resolved by {
                if self.phases@[j] == Phase::InFlight {
                    lemma_count_zero(self.phases@, j);
                }
            }
            assert forall|j: int| 0 <= j < n implies (#[trigger] self.res@[j]
                == Resolution::Passthrough <==> !needs_translation(self.inputs@[j]@)) by {
                assert(self.phases@[j] == Phase::Resolved);
                assert(self.slots@[j] is Some);
            }
        }
        assert(segments_view(out@) =~= assemble(self.inputs(), self.resolutions()));
        out
    }
}

} // verus!

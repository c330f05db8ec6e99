use vstd::prelude::*;

use crate::error::Error;
use crate::language::Language;
use crate::logger::Logger;
use crate::node::Node;
use crate::point::point_le;
use crate::range::Range;
use crate::tree::Tree;

verus! {

/// What the backing engine reported at the end of one parse call. The facade
/// never parses text itself; it normalizes what the engine hands back.
pub enum ParseOutcome {
    /// The parse ran to completion over the whole input.
    Completed { root: Node },
    /// The configured time budget ran out; the engine may still hand back a
    /// usable partial tree.
    TimedOut { partial: Option<Node> },
    /// The external cancellation flag was observed.
    Cancelled,
    /// The engine rejected the edits recorded on the previous tree.
    RejectedEdits,
}

/// Included ranges are acceptable when every span is forwards and the spans
/// come in non-decreasing, non-overlapping start order — the ordering both
/// backends enforce natively. An empty list is always valid and means "the
/// whole input".
pub open spec fn included_ranges_valid(rs: Seq<Range>) -> bool {
    &&& forall|i: int| 0 <= i < rs.len() ==> (#[trigger] rs[i]).wf()
    &&& forall|i: int|
        0 <= i && i + 1 < rs.len() ==> (#[trigger] rs[i]).end_offset <= rs[i + 1].start_offset
            && point_le(rs[i].end_point, rs[i + 1].start_point)
}

/// How a parse call normalizes what the engine reported: a completed or
/// partial tree becomes a `Tree` (the partial one marked incomplete), and the
/// failure conventions collapse into the unified error taxonomy.
pub open spec fn parse_result_spec(outcome: ParseOutcome) -> Result<Tree, Error> {
    match outcome {
        ParseOutcome::Completed { root } => Ok(Tree::new_spec(root, true)),
        ParseOutcome::TimedOut { partial: Some(root) } => Ok(Tree::new_spec(root, false)),
        ParseOutcome::TimedOut { partial: None } => Err(Error::Timeout),
        ParseOutcome::Cancelled => Err(Error::Cancelled),
        ParseOutcome::RejectedEdits => Err(Error::InvalidEdit),
    }
}

/// Orchestrates parsing: holds the grammar, the included ranges, the time
/// budget, the cancellation flag, and the diagnostic sink, and normalizes
/// engine outcomes into the unified contract.
pub struct Parser {
    language: Option<Language>,
    included_ranges: Vec<Range>,
    timeout_micros: Option<u64>,
    cancellation_requested: bool,
    logger: Option<Logger>,
}

impl Parser {
    /// The grammar this parser is configured with, if any.
    pub closed spec fn spec_language(self) -> Option<Language> {
        self.language
    }

    /// The spans parsing is restricted to; empty means the whole input.
    pub closed spec fn spec_included_ranges(self) -> Seq<Range> {
        self.included_ranges@
    }

    /// The advisory time budget, in microseconds, if one is configured.
    pub closed spec fn spec_timeout_micros(self) -> Option<u64> {
        self.timeout_micros
    }

    /// Whether the external cancellation flag is raised.
    pub closed spec fn spec_cancellation_requested(self) -> bool {
        self.cancellation_requested
    }

    /// The diagnostic sink, if one is registered.
    pub closed spec fn spec_logger(self) -> Option<Logger> {
        self.logger
    }

    /// A parser is configured once a grammar has been accepted.
    pub open spec fn configured(self) -> bool {
        self.spec_language() is Some
    }

    /// Which outcomes the engine can report under this configuration: a
    /// timeout only when a time budget was set, and a cancellation only when
    /// the flag was raised.
    pub open spec fn outcome_possible(self, outcome: ParseOutcome) -> bool {
        &&& outcome is TimedOut ==> self.spec_timeout_micros() is Some
        &&& outcome is Cancelled ==> self.spec_cancellation_requested()
    }

    /// Constructs a parser, provided the backend's one-time readiness step
    /// has completed; before that, construction fails deterministically.
    /// The native backend is ready from the start; the sandboxed one becomes
    /// ready when its asynchronous loader finishes.
    pub fn new(backend_ready: bool) -> (r: Result<Parser, Error>)
        ensures
            backend_ready ==> (r matches Ok(p) && !p.configured() && p.spec_included_ranges()
                == Seq::<Range>::empty() && p.spec_timeout_micros() is None
                && !p.spec_cancellation_requested() && p.spec_logger() is None),
            !backend_ready ==> r matches Err(Error::BackendNotReady),
    {
        if backend_ready {
            Ok(
                Parser {
                    language: None,
                    included_ranges: Vec::new(),
                    timeout_micros: None,
                    cancellation_requested: false,
                    logger: None,
                },
            )
        } else {
            Err(Error::BackendNotReady)
        }
    }

    /// Accepts a grammar whose ABI version the backend supports, and rejects
    /// any other. Accepting a grammar resets any previously configured
    /// included ranges; a rejection leaves the parser untouched.
    pub fn set_language(&mut self, language: &Language) -> (r: Result<(), Error>)
        ensures
            language.compatible() ==> (r matches Ok(u) && final(self).spec_language() == Some(
                *language,
            ) && final(self).spec_included_ranges() == Seq::<Range>::empty()),
            !language.compatible() ==> (r matches Err(Error::LanguageMismatch) && *final(self)
                == *old(self)),
            final(self).spec_timeout_micros() == old(self).spec_timeout_micros(),
            final(self).spec_cancellation_requested() == old(self).spec_cancellation_requested(),
            final(self).spec_logger() == old(self).spec_logger(),
    {
        if language.is_compatible() {
            self.language = Some(*language);
            self.included_ranges = Vec::new();
            proof {
                assert(self.included_ranges@ =~= Seq::<Range>::empty());
            }
            Ok(())
        } else {
            Err(Error::LanguageMismatch)
        }
    }

    /// Restricts parsing to the union of the given spans, for
    /// embedded-language parsing. The spans must be forwards and given in
    /// non-decreasing, non-overlapping start order; anything else is rejected
    /// and leaves the parser untouched. An empty list is always valid and
    /// means "the whole input".
    pub fn set_included_ranges(&mut self, ranges: &Vec<Range>) -> (r: Result<(), Error>)
        ensures
            included_ranges_valid(ranges@) ==> (r matches Ok(u) && final(self).spec_included_ranges() == ranges@),
            !included_ranges_valid(ranges@) ==> (r matches Err(Error::InvalidIncludedRanges)
                && *final(self) == *old(self)),
            final(self).spec_language() == old(self).spec_language(),
            final(self).spec_timeout_micros() == old(self).spec_timeout_micros(),
            final(self).spec_cancellation_requested() == old(self).spec_cancellation_requested(),
            final(self).spec_logger() == old(self).spec_logger(),
    {
        let mut i: usize = 0;
        let mut ok: bool = true;
        while i < ranges.len()
            invariant
                self == old(self),
                i <= ranges@.len(),
                ok ==> forall|k: int| 0 <= k < i ==> (#[trigger] ranges@[k]).wf(),
                ok ==> forall|k: int|
                    0 <= k && k + 1 <= i && k + 1 < ranges@.len() ==> (#[trigger] ranges@[k]).end_offset
                        <= ranges@[k + 1].start_offset && point_le(
                        ranges@[k].end_point,
                        ranges@[k + 1].start_point,
                    ),
                !ok ==> !included_ranges_valid(ranges@),
            decreases ranges@.len() - i,
        {
            let rg = &ranges[i];
            if !(rg.start_offset <= rg.end_offset && rg.start_point.le(&rg.end_point)) {
                ok = false;
            }
            if i + 1 < ranges.len() {
                let nx = &ranges[i + 1];
                if !(rg.end_offset <= nx.start_offset && rg.end_point.le(&nx.start_point)) {
                    ok = false;
                }
            }
            i += 1;
        }
        proof {
            if ok {
                assert(included_ranges_valid(ranges@));
            }
        }
        if ok {
            let mut copy: Vec<Range> = Vec::new();
            let mut j: usize = 0;
            while j < ranges.len()
                invariant
                    self == old(self),
                    j <= ranges@.len(),
                    copy@ == ranges@.take(j as int),
                decreases ranges@.len() - j,
            {
                copy.push(ranges[j]);
                proof {
                    assert(copy@ =~= ranges@.take(j as int + 1));
                }
                j += 1;
            }
            proof {
                assert(copy@ =~= ranges@);
            }
            self.included_ranges = copy;
            Ok(())
        } else {
            Err(Error::InvalidIncludedRanges)
        }
    }

    /// Sets or clears the advisory time budget for a parse, in microseconds.
    /// An exceeded budget yields an incomplete tree or a timeout report, not
    /// a crash.
    pub fn set_timeout_micros(&mut self, timeout: Option<u64>)
        ensures
            final(self).spec_timeout_micros() == timeout,
            final(self).spec_language() == old(self).spec_language(),
            final(self).spec_included_ranges() == old(self).spec_included_ranges(),
            final(self).spec_cancellation_requested() == old(self).spec_cancellation_requested(),
            final(self).spec_logger() == old(self).spec_logger(),
    {
        self.timeout_micros = timeout;
    }

    /// Raises or clears the external cancellation flag the native engine
    /// observes cooperatively; the sandboxed one observes it only at call
    /// boundaries.
    pub fn set_cancellation_requested(&mut self, requested: bool)
        ensures
            final(self).spec_cancellation_requested() == requested,
            final(self).spec_language() == old(self).spec_language(),
            final(self).spec_included_ranges() == old(self).spec_included_ranges(),
            final(self).spec_timeout_micros() == old(self).spec_timeout_micros(),
            final(self).spec_logger() == old(self).spec_logger(),
    {
        self.cancellation_requested = requested;
    }

    /// Registers or removes the diagnostic sink invoked during parsing.
    pub fn set_logger(&mut self, logger: Option<Logger>)
        ensures
            final(self).spec_logger() == logger,
            final(self).spec_language() == old(self).spec_language(),
            final(self).spec_included_ranges() == old(self).spec_included_ranges(),
            final(self).spec_timeout_micros() == old(self).spec_timeout_micros(),
            final(self).spec_cancellation_requested() == old(self).spec_cancellation_requested(),
    {
        self.logger = logger;
    }

    /// The grammar this parser is configured with, if any.
    pub fn language(&self) -> (r: Option<Language>)
        ensures
            r == self.spec_language(),
    {
        self.language
    }

    /// The spans parsing is restricted to; empty means the whole input.
    pub fn included_ranges(&self) -> (r: &Vec<Range>)
        ensures
            r@ == self.spec_included_ranges(),
    {
        &self.included_ranges
    }

    /// The advisory time budget, if one is configured.
    pub fn timeout_micros(&self) -> (r: Option<u64>)
        ensures
            r == self.spec_timeout_micros(),
    {
        self.timeout_micros
    }

    /// Normalizes what the engine reported for one parse call. A completed
    /// parse yields a completed tree; a timeout with a partial tree yields
    /// that tree marked incomplete, and one without yields a timeout error;
    /// a cancellation and a rejected edit set yield their own errors. May
    /// only be called on a configured parser, per the parser state machine.
    pub fn parse(&self, outcome: ParseOutcome) -> (r: Result<Tree, Error>)
        requires
            self.configured(),
        ensures
            r == parse_result_spec(outcome),
    {
        match outcome {
            ParseOutcome::Completed { root } => Ok(Tree::new(root, true)),
            ParseOutcome::TimedOut { partial: Some(root) } => Ok(Tree::new(root, false)),
            ParseOutcome::TimedOut { partial: None } => Err(Error::Timeout),
            ParseOutcome::Cancelled => Err(Error::Cancelled),
            ParseOutcome::RejectedEdits => Err(Error::InvalidEdit),
        }
    }
}

/// With no time budget configured and no cancellation requested, a parse is
/// never reported as timed out or cancelled: every outcome the engine can
/// produce under such a configuration normalizes to a completed tree or to an
/// edit rejection.
pub proof fn lemma_parse_no_spurious_abort(p: Parser, outcome: ParseOutcome)
    requires
        p.spec_timeout_micros() is None,
        !p.spec_cancellation_requested(),
        p.outcome_possible(outcome),
    ensures
        !(parse_result_spec(outcome) matches Err(e) && (e is Timeout || e is Cancelled)),
        parse_result_spec(outcome) matches Ok(t) ==> t.spec_completed(),
        outcome matches ParseOutcome::Completed { root } ==> parse_result_spec(outcome)
            == Ok::<Tree, Error>(Tree::new_spec(root, true)),
{
    match outcome {
        ParseOutcome::Completed { root } => crate::tree::lemma_tree_new_spec(root, true),
        ParseOutcome::TimedOut { partial: Some(root) } => crate::tree::lemma_tree_new_spec(
            root,
            false,
        ),
        _ => (),
    }
}

} // verus!

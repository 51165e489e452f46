//! The dispatcher: decides from the global threshold and the directive
//! table whether a record passes, formats it once, and delivers it to
//! every sink in registration order, stopping at the first failure.

use vstd::prelude::*;
use crate::directive::LogDirective;
use crate::directive::directive_level;
use crate::directive::sort_directives;
use crate::directive::sorted_by_name_len;
use crate::directive::spec_passes;
use crate::errors::ConstructionError;
use crate::errors::LogError;
use crate::format::Formatter;
use crate::level::Level;
use crate::level::at_least_as_severe;
use crate::loggers::Sink;

verus! {

/// Index of the first sink configuration that failed to resolve, or
/// the list's length when all resolved.
pub open spec fn first_err(configs: Seq<Result<Sink, ConstructionError>>) -> int
    decreases configs.len(),
{
    if configs.len() == 0 {
        0
    } else if configs.first() is Err {
        0
    } else {
        1 + first_err(configs.drop_first())
    }
}

/// What `first_err` returns: every configuration before it resolved,
/// and the one at it (if any) did not.
pub proof fn lemma_first_err(configs: Seq<Result<Sink, ConstructionError>>)
    ensures
        0 <= first_err(configs) <= configs.len(),
        forall|i: int| 0 <= i < first_err(configs) ==> configs[i] is Ok,
        first_err(configs) < configs.len() ==> configs[first_err(configs)] is Err,
    decreases configs.len(),
{
    if configs.len() > 0 && configs.first() is Ok {
        lemma_first_err(configs.drop_first());
        assert forall|i: int| 0 <= i < first_err(configs) implies configs[i] is Ok by {
            if i > 0 {
                assert(configs.drop_first()[i - 1] == configs[i]);
            }
        }
    }
}

/// The outcome of one fan-out over the sinks, with `k` the number of
/// sinks that accepted the line `m`: every sink before `k` received it,
/// every sink from `k` on is untouched, and the call failed exactly
/// when `k` stopped short of the end, at a sink that could fail.
pub open spec fn delivery_outcome_at(
    pre: Seq<Sink>,
    post: Seq<Sink>,
    m: Seq<char>,
    r: Result<(), LogError>,
    k: int,
) -> bool {
    &&& 0 <= k <= pre.len()
    &&& post.len() == pre.len()
    &&& forall|i: int| 0 <= i < k ==> Sink::delivered(pre[i], #[trigger] post[i], m)
    &&& forall|i: int| 0 <= i < k ==> !(#[trigger] pre[i]).must_reject()
    &&& forall|i: int| k <= i < pre.len() ==> #[trigger] post[i] == pre[i]
    &&& (k == pre.len() ==> r is Ok)
    &&& (k < pre.len() ==> r is Err && !pre[k].must_accept())
    &&& (k < pre.len() && pre[k].must_reject() ==> r == Err::<(), LogError>(LogError::SinkFull))
}

/// The fan-out delivered the line `m` to a prefix of the sinks in
/// order and stopped at the first failure, if any.
pub open spec fn delivery_outcome(
    pre: Seq<Sink>,
    post: Seq<Sink>,
    m: Seq<char>,
    r: Result<(), LogError>,
) -> bool {
    exists|k: int| delivery_outcome_at(pre, post, m, r, k)
}

/// Fan-out completeness: when every sink is sure to accept, one
/// dispatch that passed filtering succeeds and delivers the same line
/// to every sink, in registration order.
pub proof fn lemma_fanout_complete(
    pre: Seq<Sink>,
    post: Seq<Sink>,
    m: Seq<char>,
    r: Result<(), LogError>,
)
    requires
        delivery_outcome(pre, post, m, r),
        forall|i: int| 0 <= i < pre.len() ==> (#[trigger] pre[i]).must_accept(),
    ensures
        r is Ok,
        forall|i: int| 0 <= i < pre.len() ==> Sink::delivered(pre[i], #[trigger] post[i], m),
{
    let k = choose|k: int| delivery_outcome_at(pre, post, m, r, k);
    assert(k == pre.len());
}

/// Failure short-circuit: when the first sink is sure to reject, the
/// dispatch fails and no sink — the first included — is changed.
pub proof fn lemma_first_sink_failure(
    pre: Seq<Sink>,
    post: Seq<Sink>,
    m: Seq<char>,
    r: Result<(), LogError>,
)
    requires
        delivery_outcome(pre, post, m, r),
        pre.len() > 0,
        pre[0].must_reject(),
    ensures
        r == Err::<(), LogError>(LogError::SinkFull),
        post =~= pre,
{
    let k = choose|k: int| delivery_outcome_at(pre, post, m, r, k);
    if k != 0 {
        assert(!pre[0].must_reject());
        assert(false);
    }
    assert forall|i: int| 0 <= i < pre.len() implies post[i] == pre[i] by {}
}

/// Discarding sinks make dispatch idempotent: a fan-out over sinks
/// that all discard succeeds and leaves every sink exactly as it was,
/// so dispatching the same record any number of times has no effect.
pub proof fn lemma_null_sinks_no_effect(
    pre: Seq<Sink>,
    post: Seq<Sink>,
    m: Seq<char>,
    r: Result<(), LogError>,
)
    requires
        delivery_outcome(pre, post, m, r),
        forall|i: int| 0 <= i < pre.len() ==> (#[trigger] pre[i]) is Null,
    ensures
        r is Ok,
        post =~= pre,
{
    let k = choose|k: int| delivery_outcome_at(pre, post, m, r, k);
    assert(k == pre.len());
}

/// The dispatcher: a global severity threshold, a formatter, an
/// ordered directive table, and an ordered collection of sinks.
#[derive(Debug)]
pub struct DispatchLogger<F: Formatter> {
    pub output: Vec<Sink>,
    pub level: Level,
    pub format: F,
    pub directives: Vec<LogDirective>,
}

impl<F: Formatter> DispatchLogger<F> {
    /// The filter decision for one record: the directive found by the
    /// reverse scan decides if one matches the origin, otherwise the
    /// global threshold does.
    pub open spec fn spec_passes_record(&self, origin: Seq<char>, level: Level) -> bool {
        spec_passes(self.directives@, self.level, origin, level)
    }

    /// Build a dispatcher from resolved sink configurations: keep the
    /// sinks in order, or stop at the first configuration that failed
    /// and return its error — no partial dispatcher escapes. The
    /// directive table is sorted ascending by name length.
    #[verifier::loop_isolation(false)]
    pub fn new(
        format: F,
        config_output: Vec<Result<Sink, ConstructionError>>,
        level: Level,
        directives: Vec<LogDirective>,
    ) -> (r: Result<DispatchLogger<F>, ConstructionError>)
        ensures
            ({
                let k = first_err(config_output@);
                &&& k == config_output@.len() ==> (r matches Ok(d) && {
                    &&& d.output@.len() == config_output@.len()
                    &&& forall|i: int|
                        0 <= i < config_output@.len() ==> #[trigger] d.output@[i]
                            == config_output@[i]->Ok_0
                    &&& d.level == level
                    &&& d.format == format
                    &&& sorted_by_name_len(d.directives@)
                    &&& d.directives@.to_multiset() == directives@.to_multiset()
                })
                &&& k < config_output@.len() ==> r == Err::<DispatchLogger<F>, ConstructionError>(
                    config_output@[k]->Err_0,
                )
            }),
    {
        let ghost orig = config_output@;
        proof {
            lemma_first_err(orig);
        }
        let mut cfgs = config_output;
        let mut output: Vec<Sink> = Vec::new();
        while cfgs.len() > 0
            invariant
                output@.len() + cfgs@.len() == orig.len(),
                cfgs@ =~= orig.subrange(output@.len() as int, orig.len() as int),
                forall|i: int| 0 <= i < output@.len() ==> (#[trigger] orig[i]) is Ok,
                forall|i: int| 0 <= i < output@.len() ==> #[trigger] output@[i] == orig[i]->Ok_0,
            decreases cfgs@.len(),
        {
            let ghost p: int = output@.len() as int;
            let c = cfgs.remove(0);
            assert(c == orig[p]);
            match c {
                Ok(s) => {
                    output.push(s);
                    assert(orig[p] is Ok);
                    assert(output@[p] == orig[p]->Ok_0);
                    assert(cfgs@ =~= orig.subrange(output@.len() as int, orig.len() as int));
                },
                Err(e) => {
                    proof {
                        let k = first_err(orig);
                        if k < p {
                            assert(orig[k] is Ok);
                        }
                        if k > p {
                            assert(orig[p] is Ok);
                        }
                        assert(k == p);
                    }
                    return Err(e);
                },
            }
        }
        proof {
            let k = first_err(orig);
            if k < orig.len() {
                assert(orig[k] is Ok);
            }
        }
        let mut directives = directives;
        sort_directives(&mut directives);
        Ok(DispatchLogger { output, level, format, directives })
    }

    /// Cheap global-threshold check, mirroring the dispatch decision's
    /// fallback: lets callers skip building records that cannot pass.
    pub fn enabled(&self, level: &Level) -> (r: bool)
        ensures
            r == at_least_as_severe(*level, self.level),
    {
        level.at_least_as_severe(&self.level)
    }

    /// Dispatch one record. A suppressed record returns success with
    /// nothing changed. A passed record is formatted exactly once and
    /// the text delivered to every sink in registration order; the
    /// first failure is returned at once, later sinks untouched.
    #[verifier::loop_isolation(false)]
    pub fn log(&mut self, msg: &str, level: &Level, origin: &str) -> (r: Result<(), LogError>)
        ensures
            final(self).level == old(self).level,
            final(self).format == old(self).format,
            final(self).directives == old(self).directives,
            !old(self).spec_passes_record(origin@, *level) ==> r is Ok && *final(self) == *old(
                self,
            ),
            old(self).spec_passes_record(origin@, *level) ==> delivery_outcome(
                old(self).output@,
                final(self).output@,
                old(self).format.spec_format(msg@, *level, origin@),
                r,
            ),
    {
        let pass = match directive_level(&self.directives, origin) {
            Some(l) => level.at_least_as_severe(&l),
            None => level.at_least_as_severe(&self.level),
        };
        proof {
            crate::directive::lemma_last_match_index(self.directives@, origin@);
        }
        if !pass {
            return Ok(());
        }
        let new_msg = self.format.format(msg, level, origin);
        let ghost m = new_msg@;
        let ghost pre = self.output@;
        let mut idx: usize = 0;
        while idx < self.output.len()
            invariant
                idx <= pre.len(),
                self.output@.len() == pre.len(),
                self.level == old(self).level,
                self.format == old(self).format,
                self.directives == old(self).directives,
                forall|i: int|
                    0 <= i < idx ==> Sink::delivered(pre[i], #[trigger] self.output@[i], m),
                forall|i: int| 0 <= i < idx ==> !(#[trigger] pre[i]).must_reject(),
                forall|i: int| idx <= i < pre.len() ==> #[trigger] self.output@[i] == pre[i],
            decreases pre.len() - idx,
        {
            let ghost before = self.output@;
            let mut s = self.output.remove(idx);
            let res = s.log(new_msg.as_str(), level, origin);
            self.output.insert(idx, s);
            assert(self.output@ =~= before.update(idx as int, s));
            assert(before[idx as int] == pre[idx as int]);
            match res {
                Ok(()) => {
                    idx = idx + 1;
                },
                Err(e) => {
                    proof {
                        assert(delivery_outcome_at(pre, self.output@, m, Err::<(), LogError>(e), idx as int));
                    }
                    return Err(e);
                },
            }
        }
        assert(delivery_outcome_at(pre, self.output@, m, Ok::<(), LogError>(()), pre.len() as int));
        Ok(())
    }
}

} // verus!

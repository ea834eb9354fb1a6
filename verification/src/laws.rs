//! The run-level guarantees of the relay, proved over the model of whole
//! runs: the admission bound, unlimited mode, order preservation, window
//! reset, and the empty run.

use vstd::prelude::*;

use crate::diag::discard_message;
use crate::limiter::{
    admits, admitted_upto, diags_upto, model_at, next_window, outputs_upto, rolls_over, Config,
    WindowModel,
};

verus! {

/// A well-formed window state: a non-negative admitted count that, when a
/// positive limit is in force, never exceeds it.
pub open spec fn bounded(cfg: Config, w: WindowModel) -> bool {
    &&& 0 <= w.admitted
    &&& cfg.limit > 0 ==> w.admitted <= cfg.limit
}

/// One step of the relay preserves well-formedness of the window state.
pub proof fn lemma_step_bounded(cfg: Config, w: WindowModel, now: int)
    requires
        bounded(cfg, w),
    ensures
        bounded(cfg, next_window(cfg, w, now)),
{
}

/// Every state of a run that starts well-formed is well-formed: with a
/// positive limit, the admitted count never exceeds the limit.
pub proof fn lemma_model_bounded(cfg: Config, w0: WindowModel, times: Seq<int>, i: int)
    requires
        bounded(cfg, w0),
    ensures
        bounded(cfg, model_at(cfg, w0, times, i)),
    decreases i,
{
    if i > 0 {
        lemma_model_bounded(cfg, w0, times, i - 1);
        lemma_step_bounded(cfg, model_at(cfg, w0, times, i - 1), times[i - 1]);
    }
}

/// Over a stretch of a run in which the window never rolls over, the
/// number of lines admitted equals the growth of the admitted count.
pub proof fn lemma_epoch_count(cfg: Config, w0: WindowModel, times: Seq<int>, i: int, j: int)
    requires
        0 <= i <= j <= times.len(),
        forall|k: int|
            i <= k < j ==> !rolls_over(cfg, #[trigger] model_at(cfg, w0, times, k), times[k]),
    ensures
        admitted_upto(cfg, w0, times, j).len() - admitted_upto(cfg, w0, times, i).len()
            == model_at(cfg, w0, times, j).admitted - model_at(cfg, w0, times, i).admitted,
    decreases j - i,
{
    if j > i {
        lemma_epoch_count(cfg, w0, times, i, j - 1);
    }
}

/// Admission bound: with `limit = L > 0`, within any single window epoch —
/// any stretch of a run during which the window never rolls over — the
/// number of lines admitted to output never exceeds L.
pub proof fn lemma_admission_bound(cfg: Config, w0: WindowModel, times: Seq<int>, i: int, j: int)
    requires
        cfg.limit > 0,
        bounded(cfg, w0),
        0 <= i <= j <= times.len(),
        forall|k: int|
            i <= k < j ==> !rolls_over(cfg, #[trigger] model_at(cfg, w0, times, k), times[k]),
    ensures
        admitted_upto(cfg, w0, times, j).len() - admitted_upto(cfg, w0, times, i).len()
            <= cfg.limit,
{
    lemma_model_bounded(cfg, w0, times, i);
    lemma_model_bounded(cfg, w0, times, j);
    lemma_epoch_count(cfg, w0, times, i, j);
}

/// Admission bound over a whole epoch: if the window rolls over at step
/// `i` — beginning a new epoch whose first admitted line is line `i` —
/// and no later step before `j` rolls over, then at most `limit` lines
/// among steps `i..j` are admitted, the opening line included.
pub proof fn lemma_epoch_admission_bound(
    cfg: Config,
    w0: WindowModel,
    times: Seq<int>,
    i: int,
    j: int,
)
    requires
        cfg.limit > 0,
        bounded(cfg, w0),
        0 <= i <= j <= times.len(),
        i < j ==> rolls_over(cfg, model_at(cfg, w0, times, i), times[i]),
        forall|k: int|
            i < k < j ==> !rolls_over(cfg, #[trigger] model_at(cfg, w0, times, k), times[k]),
    ensures
        admitted_upto(cfg, w0, times, j).len() - admitted_upto(cfg, w0, times, i).len()
            <= cfg.limit,
{
    if i < j {
        lemma_epoch_count(cfg, w0, times, i + 1, j);
        lemma_model_bounded(cfg, w0, times, j);
        assert(model_at(cfg, w0, times, i + 1).admitted == 1);
    }
}

/// Unlimited mode: with `limit = 0`, every line of a run is admitted —
/// the output is exactly the input, in order, and no diagnostic record is
/// ever produced.
pub proof fn lemma_unlimited(
    cfg: Config,
    w0: WindowModel,
    times: Seq<int>,
    lines: Seq<Seq<char>>,
    n: int,
)
    requires
        cfg.limit == 0,
        0 <= n <= times.len(),
        lines.len() == times.len(),
    ensures
        admitted_upto(cfg, w0, times, n) == Seq::new(n as nat, |a: int| a),
        outputs_upto(cfg, w0, times, lines, n) == lines.subrange(0, n),
        n == times.len() ==> outputs_upto(cfg, w0, times, lines, n) == lines,
        diags_upto(cfg, w0, times, lines, n) == Seq::<Seq<char>>::empty(),
    decreases n,
{
    if n > 0 {
        lemma_unlimited(cfg, w0, times, lines, n - 1);
        assert(admitted_upto(cfg, w0, times, n) =~= Seq::new(n as nat, |a: int| a));
    } else {
        assert(admitted_upto(cfg, w0, times, n) =~= Seq::new(n as nat, |a: int| a));
    }
    assert(outputs_upto(cfg, w0, times, lines, n) =~= lines.subrange(0, n));
    if n == times.len() {
        assert(lines.subrange(0, n) =~= lines);
    }
}

/// The admitted indices of a run are strictly increasing and drawn from
/// the first `n` input positions.
pub open spec fn strictly_increasing_in(s: Seq<int>, n: int) -> bool {
    &&& forall|a: int, b: int| 0 <= a < b < s.len() ==> #[trigger] s[a] < #[trigger] s[b]
    &&& forall|a: int| 0 <= a < s.len() ==> 0 <= #[trigger] s[a] < n
}

/// Order preservation: the output of a run is a strict order-preserving
/// subsequence of its input — the admitted indices are strictly
/// increasing, and each output line is the input line at its index.
pub proof fn lemma_order_preserving(
    cfg: Config,
    w0: WindowModel,
    times: Seq<int>,
    lines: Seq<Seq<char>>,
    n: int,
)
    requires
        0 <= n <= times.len(),
    ensures
        strictly_increasing_in(admitted_upto(cfg, w0, times, n), n),
        outputs_upto(cfg, w0, times, lines, n).len() == admitted_upto(cfg, w0, times, n).len(),
        forall|a: int|
            0 <= a < admitted_upto(cfg, w0, times, n).len()
                ==> #[trigger] outputs_upto(cfg, w0, times, lines, n)[a] == lines[admitted_upto(
                cfg,
                w0,
                times,
                n,
            )[a]],
    decreases n,
{
    if n > 0 {
        lemma_order_preserving(cfg, w0, times, lines, n - 1);
    }
}

/// Window reset: once at least `window` seconds have elapsed since the
/// window began, the next line begins a new window anchored at its own
/// arrival time and is admitted — the counter resets to 0 and advances to
/// 1 — even if the previous window was fully exhausted.
pub proof fn lemma_window_reset(cfg: Config, w: WindowModel, now: int)
    requires
        now - w.start >= cfg.window,
    ensures
        admits(cfg, w, now),
        next_window(cfg, w, now) == (WindowModel { start: now, admitted: 1 }),
{
}

/// Discard accounting: when verbose mode is on and the line of step `k`
/// is discarded at admitted count `c` against limit `l`, the run's
/// diagnostics grow by exactly the record `DISCARD:c/l:<line>`.
pub proof fn lemma_discard_accounting(
    cfg: Config,
    w0: WindowModel,
    times: Seq<int>,
    lines: Seq<Seq<char>>,
    k: int,
)
    requires
        cfg.verbose,
        0 <= k < times.len(),
        !admits(cfg, model_at(cfg, w0, times, k), times[k]),
    ensures
        diags_upto(cfg, w0, times, lines, k + 1) == diags_upto(cfg, w0, times, lines, k).push(
            discard_message(model_at(cfg, w0, times, k).admitted, cfg.limit as int, lines[k]),
        ),
{
}

/// With verbose mode off, a run produces no diagnostic record at all.
pub proof fn lemma_quiet_mode(
    cfg: Config,
    w0: WindowModel,
    times: Seq<int>,
    lines: Seq<Seq<char>>,
    n: int,
)
    requires
        !cfg.verbose,
    ensures
        diags_upto(cfg, w0, times, lines, n) == Seq::<Seq<char>>::empty(),
    decreases n,
{
    if n > 0 {
        lemma_quiet_mode(cfg, w0, times, lines, n - 1);
    }
}

/// Idempotent end-of-stream: a run of zero lines leaves the window as it
/// was and produces no output and no diagnostics.
pub proof fn lemma_empty_run(cfg: Config, w0: WindowModel, lines: Seq<Seq<char>>)
    ensures
        model_at(cfg, w0, Seq::<int>::empty(), 0) == w0,
        outputs_upto(cfg, w0, Seq::<int>::empty(), lines, 0) == Seq::<Seq<char>>::empty(),
        diags_upto(cfg, w0, Seq::<int>::empty(), lines, 0) == Seq::<Seq<char>>::empty(),
{
    assert(outputs_upto(cfg, w0, Seq::<int>::empty(), lines, 0) =~= Seq::<Seq<char>>::empty());
}

} // verus!

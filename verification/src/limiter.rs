//! The windowed admission decision: the window state, the per-line step,
//! and a model of whole runs over a sequence of arrival times.

use vstd::prelude::*;

verus! {

/// Fixed configuration of the relay: how many lines may pass per window,
/// how long a window lasts, and whether discards are reported.
#[derive(Clone, Copy, Debug)]
pub struct Config {
    /// Maximum lines admitted per window; 0 means unlimited.
    pub limit: usize,
    /// Window length in whole seconds.
    pub window: u64,
    /// Whether a discarded line produces a diagnostic record.
    pub verbose: bool,
}

/// Mathematical model of the window state: the clock reading (in whole
/// seconds) at which the current window began, and the number of lines
/// admitted since then.
pub struct WindowModel {
    pub start: int,
    pub admitted: int,
}

/// The rate-limiting window: the clock reading at which the current epoch
/// began, and the count of lines admitted since it began.
#[derive(Clone, Copy, Debug)]
pub struct Window {
    pub start: u64,
    pub admitted: usize,
}

impl View for Window {
    type V = WindowModel;

    open spec fn view(&self) -> WindowModel {
        WindowModel { start: self.start as int, admitted: self.admitted as int }
    }
}

/// Whether a line arriving at clock reading `now` begins a new window:
/// at least `cfg.window` whole seconds have elapsed since the window began.
pub open spec fn rolls_over(cfg: Config, w: WindowModel, now: int) -> bool {
    now - w.start >= cfg.window
}

/// The admitted count against which the admission decision is made,
/// after the rollover check.
pub open spec fn count_at_decision(cfg: Config, w: WindowModel, now: int) -> int {
    if rolls_over(cfg, w, now) {
        0
    } else {
        w.admitted
    }
}

/// Whether a line arriving at clock reading `now` is admitted: always,
/// unless a positive limit is already exhausted.
pub open spec fn admits(cfg: Config, w: WindowModel, now: int) -> bool {
    !(cfg.limit > 0 && count_at_decision(cfg, w, now) >= cfg.limit)
}

/// The window state after one line has been processed at clock reading `now`.
pub open spec fn next_window(cfg: Config, w: WindowModel, now: int) -> WindowModel {
    let base = count_at_decision(cfg, w, now);
    WindowModel {
        start: if rolls_over(cfg, w, now) { now } else { w.start },
        admitted: if admits(cfg, w, now) { base + 1 } else { base },
    }
}

/// The arrival times of a run, as mathematical integers.
pub open spec fn times_int(ts: Seq<u64>) -> Seq<int> {
    ts.map_values(|t: u64| t as int)
}

/// The window state after the first `i` lines of a run whose arrival
/// times are `times`, starting from `w0`.
pub open spec fn model_at(cfg: Config, w0: WindowModel, times: Seq<int>, i: int) -> WindowModel
    decreases i,
{
    if i <= 0 {
        w0
    } else {
        next_window(cfg, model_at(cfg, w0, times, i - 1), times[i - 1])
    }
}

/// The indices, in order, of the admitted lines among the first `n` of a run.
pub open spec fn admitted_upto(cfg: Config, w0: WindowModel, times: Seq<int>, n: int) -> Seq<int>
    decreases n,
{
    if n <= 0 {
        Seq::empty()
    } else {
        let pre = admitted_upto(cfg, w0, times, n - 1);
        if admits(cfg, model_at(cfg, w0, times, n - 1), times[n - 1]) {
            pre.push(n - 1)
        } else {
            pre
        }
    }
}

/// The lines written to output among the first `n` of a run: the admitted
/// lines, verbatim, in input order.
pub open spec fn outputs_upto(
    cfg: Config,
    w0: WindowModel,
    times: Seq<int>,
    lines: Seq<Seq<char>>,
    n: int,
) -> Seq<Seq<char>> {
    admitted_upto(cfg, w0, times, n).map_values(|i: int| lines[i])
}

/// The diagnostic records written among the first `n` lines of a run:
/// one per discarded line when verbose mode is on, none otherwise.
pub open spec fn diags_upto(
    cfg: Config,
    w0: WindowModel,
    times: Seq<int>,
    lines: Seq<Seq<char>>,
    n: int,
) -> Seq<Seq<char>>
    decreases n,
{
    if n <= 0 {
        Seq::empty()
    } else {
        let pre = diags_upto(cfg, w0, times, lines, n - 1);
        let w = model_at(cfg, w0, times, n - 1);
        if cfg.verbose && !admits(cfg, w, times[n - 1]) {
            pre.push(crate::diag::discard_message(w.admitted, cfg.limit as int, lines[n - 1]))
        } else {
            pre
        }
    }
}

/// Whether a line is forwarded to output or dropped.
#[derive(Clone, Copy, Debug, PartialEq, Eq, Structural)]
pub enum Decision {
    Admit,
    Discard,
}

/// What one step of the relay decided: whether a new window began (the
/// caller must then re-anchor its clock), and whether the line passes.
#[derive(Clone, Copy, Debug, PartialEq, Eq, Structural)]
pub struct StepOutcome {
    pub rolled: bool,
    pub decision: Decision,
}

impl Window {
    /// A fresh window beginning at clock reading `now`, with nothing admitted.
    pub fn new(now: u64) -> (w: Window)
        ensures
            w@ == (WindowModel { start: now as int, admitted: 0 }),
    {
        Window { start: now, admitted: 0 }
    }

    /// Process one line arriving at clock reading `now`: roll the window
    /// over if it has expired, then admit the line unless a positive limit
    /// is exhausted. On a discard, `self.admitted` is the count that a
    /// diagnostic record reports.
    pub fn step(&mut self, cfg: &Config, now: u64) -> (r: StepOutcome)
        requires
            old(self).start <= now,
            old(self).admitted < usize::MAX,
        ensures
            final(self)@ == next_window(*cfg, old(self)@, now as int),
            r.rolled == rolls_over(*cfg, old(self)@, now as int),
            (r.decision is Admit) == admits(*cfg, old(self)@, now as int),
    {
        let mut rolled = false;
        if now - self.start >= cfg.window {
            self.admitted = 0;
            self.start = now;
            rolled = true;
        }
        if cfg.limit > 0 && self.admitted >= cfg.limit {
            StepOutcome { rolled, decision: Decision::Discard }
        } else {
            self.admitted = self.admitted + 1;
            StepOutcome { rolled, decision: Decision::Admit }
        }
    }
}

/// Drive the relay over a batch of lines held in memory, each paired with
/// the clock reading (in whole seconds) at which it arrived. Returns the
/// admitted lines and the diagnostic records, both in order.
pub fn relay_batch(cfg: &Config, w: &mut Window, times: &Vec<u64>, lines: &Vec<String>) -> (r: (
    Vec<String>,
    Vec<String>,
))
    requires
        times@.len() == lines@.len(),
        forall|k: int| 0 <= k < times@.len() - 1 ==> #[trigger] times@[k] <= times@[k + 1],
        times@.len() > 0 ==> old(w).start <= times@[0],
        old(w).admitted + times@.len() < usize::MAX,
    ensures
        final(w)@ == model_at(*cfg, old(w)@, times_int(times@), times@.len() as int),
        r.0.deep_view() == outputs_upto(
            *cfg,
            old(w)@,
            times_int(times@),
            lines.deep_view(),
            times@.len() as int,
        ),
        r.1.deep_view() == diags_upto(
            *cfg,
            old(w)@,
            times_int(times@),
            lines.deep_view(),
            times@.len() as int,
        ),
{
    let ghost w0 = w@;
    let ghost ts = times_int(times@);
    let ghost ldv = lines.deep_view();
    let mut out: Vec<String> = Vec::new();
    let mut diags: Vec<String> = Vec::new();
    let n = times.len();
    let mut i: usize = 0;
    while i < n
        invariant
            n == times@.len(),
            times@.len() == lines@.len(),
            i <= n,
            forall|k: int| 0 <= k < times@.len() - 1 ==> #[trigger] times@[k] <= times@[k + 1],
            ts == times_int(times@),
            ldv == lines.deep_view(),
            w@ == model_at(*cfg, w0, ts, i as int),
            i < n ==> w.start <= times@[i as int],
            w.admitted <= w0.admitted + i,
            w0.admitted + times@.len() < usize::MAX,
            out.deep_view() == outputs_upto(*cfg, w0, ts, ldv, i as int),
            diags.deep_view() == diags_upto(*cfg, w0, ts, ldv, i as int),
        decreases n - i,
    {
        let now = times[i];
        assert(ts[i as int] == now as int);
        let ghost w_pre = w@;
        let outcome = w.step(cfg, now);
        match outcome.decision {
            Decision::Admit => {
                let ghost out_pre = out.deep_view();
                out.push(lines[i].clone());
                proof {
                    assert(admits(*cfg, w_pre, ts[i as int]));
                    assert(admitted_upto(*cfg, w0, ts, i + 1) == admitted_upto(
                        *cfg,
                        w0,
                        ts,
                        i as int,
                    ).push(i as int));
                    assert(out.deep_view() =~= out_pre.push(ldv[i as int]));
                    assert(outputs_upto(*cfg, w0, ts, ldv, i + 1) =~= outputs_upto(
                        *cfg,
                        w0,
                        ts,
                        ldv,
                        i as int,
                    ).push(ldv[i as int]));
                    assert(out.deep_view() == outputs_upto(*cfg, w0, ts, ldv, i + 1));
                    assert(diags.deep_view() =~= diags_upto(*cfg, w0, ts, ldv, i + 1));
                }
            },
            Decision::Discard => {
                proof {
                    assert(!admits(*cfg, w_pre, ts[i as int]));
                    assert(!rolls_over(*cfg, w_pre, ts[i as int]));
                    assert(w.admitted as int == w_pre.admitted);
                    assert(out.deep_view() =~= outputs_upto(*cfg, w0, ts, ldv, i + 1));
                }
                if cfg.verbose {
                    let ghost diags_pre = diags.deep_view();
                    let msg = crate::diag::render_discard(w.admitted, cfg.limit, lines[i].as_str());
                    diags.push(msg);
                    proof {
                        assert(diags.deep_view() =~= diags_pre.push(
                            crate::diag::discard_message(w_pre.admitted, cfg.limit as int, ldv[i as int]),
                        ));
                        assert(diags.deep_view() == diags_upto(*cfg, w0, ts, ldv, i + 1));
                    }
                } else {
                    proof {
                        assert(diags.deep_view() =~= diags_upto(*cfg, w0, ts, ldv, i + 1));
                    }
                }
            },
        }
        i = i + 1;
    }
    (out, diags)
}

} // verus!

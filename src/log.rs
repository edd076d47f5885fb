use vstd::prelude::*;
use crate::span::KSpan;

verus! {

/// One diagnostic: where it happened and what went wrong.
#[derive(Clone, Debug, PartialEq, Eq)]
pub struct Log {
    pub span: KSpan,
    pub message: String,
}

/// An ordered, non-empty list of diagnostics.
#[derive(Clone, Debug, PartialEq, Eq)]
pub struct ErrorLogs(pub Vec<Log>);

/// The outcome of a stage that reports every failure it meets.
pub type LogResult<T> = Result<T, ErrorLogs>;

pub struct LogV {
    pub span: KSpan,
    pub message: Seq<char>,
}

impl View for Log {
    type V = LogV;

    open spec fn view(&self) -> LogV {
        LogV { span: self.span, message: self.message@ }
    }
}

impl View for ErrorLogs {
    type V = Seq<LogV>;

    open spec fn view(&self) -> Seq<LogV> {
        self.0@.map_values(|l: Log| l@)
    }
}

/// The text of a diagnostic: `LOG(line:column-line:column): message`.
pub open spec fn log_line(l: LogV) -> Seq<char> {
    "LOG("@ + crate::span::span_text(l.span) + "): "@ + l.message
}

impl Log {
    /// Writes the diagnostic as one line of text.
    pub fn to_line(&self) -> (r: String)
        ensures
            r@ == log_line(self@),
    {
        let mut s = String::from_str("LOG(");
        s.append(self.span.to_text().as_str());
        s.append("): ");
        s.append(self.message.as_str());
        s
    }
}

impl ErrorLogs {
    /// Writes every diagnostic, one per line.
    pub fn to_lines(&self) -> (r: Vec<String>)
        ensures
            r@.map_values(|s: String| s@) == self@.map_values(|l: LogV| log_line(l)),
    {
        let mut out: Vec<String> = Vec::new();
        let mut i: usize = 0;
        while i < self.0.len()
            invariant
                i <= self.0.len(),
                out@.map_values(|s: String| s@) == self@.subrange(0, i as int).map_values(|l: LogV| log_line(l)),
            decreases self.0.len() - i,
        {
            let line = self.0[i].to_line();
            proof {
                assert(out@.push(line).map_values(|s: String| s@) =~= out@.map_values(|s: String| s@).push(line@));
                assert(self@.subrange(0, i + 1).map_values(|l: LogV| log_line(l))
                    =~= self@.subrange(0, i as int).map_values(|l: LogV| log_line(l)).push(log_line(self@[i as int])));
            }
            out.push(line);
            i = i + 1;
        }
        proof {
            assert(self@.subrange(0, i as int) =~= self@);
        }
        out
    }
}

/// The model of a fallible result.
pub open spec fn res_view<T: View>(r: LogResult<T>) -> Result<T::V, Seq<LogV>> {
    match r {
        Ok(x) => Ok(x@),
        Err(e) => Err(e@),
    }
}

/// The model of a fallible optional result.
pub open spec fn opt_res_view<T: View>(r: LogResult<Option<T>>) -> Result<Option<T::V>, Seq<LogV>> {
    match r {
        Ok(Some(x)) => Ok(Some(x@)),
        Ok(None) => Ok(None),
        Err(e) => Err(e@),
    }
}

/// The model of a fallible list of results.
pub open spec fn vec_res_view<T: View>(r: LogResult<Vec<T>>) -> Result<Seq<T::V>, Seq<LogV>> {
    match r {
        Ok(v) => Ok(v@.map_values(|x: T| x@)),
        Err(e) => Err(e@),
    }
}

/// A single diagnostic as a failure.
pub open spec fn fail<V>(span: KSpan, message: Seq<char>) -> Result<V, Seq<LogV>> {
    Err(seq![LogV { span, message }])
}

/// All diagnostics of a sequence of outcomes, in order.
pub open spec fn errs_of<V>(rs: Seq<Result<V, Seq<LogV>>>) -> Seq<LogV>
    decreases rs.len(),
{
    if rs.len() == 0 {
        seq![]
    } else {
        errs_of(rs.drop_last()) + match rs.last() {
            Ok(_) => seq![],
            Err(e) => e,
        }
    }
}

/// All successes of a sequence of outcomes, in order.
pub open spec fn oks_of<V>(rs: Seq<Result<V, Seq<LogV>>>) -> Seq<V>
    decreases rs.len(),
{
    if rs.len() == 0 {
        seq![]
    } else {
        oks_of(rs.drop_last()) + match rs.last() {
            Ok(x) => seq![x],
            Err(_) => seq![],
        }
    }
}

/// All present successes of a sequence of optional outcomes, in order.
pub open spec fn somes_of<V>(rs: Seq<Result<Option<V>, Seq<LogV>>>) -> Seq<V>
    decreases rs.len(),
{
    if rs.len() == 0 {
        seq![]
    } else {
        somes_of(rs.drop_last()) + match rs.last() {
            Ok(Some(x)) => seq![x],
            _ => seq![],
        }
    }
}

/// Accumulate-map: fails with every diagnostic if any outcome failed, else
/// succeeds with every success.
pub open spec fn accumulate<V>(rs: Seq<Result<V, Seq<LogV>>>) -> Result<Seq<V>, Seq<LogV>> {
    if errs_of(rs).len() > 0 {
        Err(errs_of(rs))
    } else {
        Ok(oks_of(rs))
    }
}

/// Accumulate-map where a success may carry no output, which is dropped.
pub open spec fn accumulate_optional<V>(rs: Seq<Result<Option<V>, Seq<LogV>>>) -> Result<Seq<V>, Seq<LogV>> {
    if errs_of(rs).len() > 0 {
        Err(errs_of(rs))
    } else {
        Ok(somes_of(rs))
    }
}

/// Sequential composition: the successes of every outcome in order, or the
/// first failure met.
pub open spec fn seq_first<V>(rs: Seq<Result<V, Seq<LogV>>>) -> Result<Seq<V>, Seq<LogV>>
    decreases rs.len(),
{
    if rs.len() == 0 {
        Ok(seq![])
    } else {
        match seq_first(rs.drop_last()) {
            Err(e) => Err(e),
            Ok(vs) => match rs.last() {
                Err(e) => Err(e),
                Ok(v) => Ok(vs.push(v)),
            },
        }
    }
}

/// The present values of a sequence of optional values, in order.
pub open spec fn flatten_options<V>(os: Seq<Option<V>>) -> Seq<V>
    decreases os.len(),
{
    if os.len() == 0 {
        seq![]
    } else {
        flatten_options(os.drop_last()) + match os.last() {
            Some(v) => seq![v],
            None => seq![],
        }
    }
}

/// Once a prefix fails, sequential composition fails with that failure.
pub proof fn lemma_seq_first_stops<V>(rs: Seq<Result<V, Seq<LogV>>>, k: int)
    requires
        0 <= k <= rs.len(),
        seq_first(rs.subrange(0, k)) is Err,
    ensures
        seq_first(rs) == seq_first(rs.subrange(0, k)),
    decreases rs.len(),
{
    if k == rs.len() {
        assert(rs.subrange(0, k) =~= rs);
    } else {
        let p = rs.drop_last();
        assert(p.subrange(0, k) =~= rs.subrange(0, k));
        lemma_seq_first_stops(p, k);
    }
}

/// One step of sequential composition.
pub proof fn lemma_seq_first_step<V>(rs: Seq<Result<V, Seq<LogV>>>, k: int)
    requires
        0 <= k < rs.len(),
    ensures
        seq_first(rs.subrange(0, k + 1)) == match seq_first(rs.subrange(0, k)) {
            Err(e) => Err(e),
            Ok(vs) => match rs[k] {
                Err(e) => Err(e),
                Ok(v) => Ok(vs.push(v)),
            },
        },
{
    assert(rs.subrange(0, k + 1).drop_last() =~= rs.subrange(0, k));
}

/// Every failure's diagnostics are among the accumulated ones.
pub proof fn lemma_errs_of_includes<V>(rs: Seq<Result<V, Seq<LogV>>>, i: int)
    requires
        0 <= i < rs.len(),
        rs[i] is Err,
    ensures
        errs_of(rs).len() >= rs[i]->Err_0.len(),
    decreases rs.len(),
{
    if i < rs.len() - 1 {
        assert(rs.drop_last()[i] == rs[i]);
        lemma_errs_of_includes(rs.drop_last(), i);
    }
}

/// Viewing a sequence commutes with pushing onto it.
pub proof fn lemma_view_push<T: View>(s: Seq<T>, x: T)
    ensures
        s.push(x).map_values(|t: T| t@) == s.map_values(|t: T| t@).push(x@),
{
    assert(s.push(x).map_values(|t: T| t@) =~= s.map_values(|t: T| t@).push(x@));
}

/// Builds a failure with one diagnostic.
pub fn err<T>(span: KSpan, message: &str) -> (r: LogResult<T>)
    ensures
        r matches Err(e) && e@ == seq![LogV { span, message: message@ }],
{
    let log = Log { span, message: String::from_str(message) };
    let mut v: Vec<Log> = Vec::new();
    v.push(log);
    proof {
        assert(v@.map_values(|l: Log| l@) =~= seq![LogV { span, message: message@ }]);
    }
    Err(ErrorLogs(v))
}

/// Collects the outcomes of a projection run over every element: fails with
/// all diagnostics, in order, if any failed; else succeeds with all results.
pub fn map_collect_result<T: View>(rs: Vec<LogResult<T>>) -> (r: LogResult<Vec<T>>)
    ensures
        vec_res_view(r) == accumulate(rs@.map_values(|x: LogResult<T>| res_view(x))),
{
    let ghost all = rs@.map_values(|x: LogResult<T>| res_view(x));
    let mut rest = rs;
    let mut oks: Vec<T> = Vec::new();
    let mut logs: Vec<Log> = Vec::new();
    let ghost mut k: int = 0;
    while rest.len() > 0
        invariant
            0 <= k <= all.len(),
            all == rs@.map_values(|x: LogResult<T>| res_view(x)),
            rest@.map_values(|x: LogResult<T>| res_view(x)) == all.subrange(k, all.len() as int),
            rest@.len() == all.len() - k,
            oks@.map_values(|x: T| x@) == oks_of(all.subrange(0, k)),
            logs@.map_values(|l: Log| l@) == errs_of(all.subrange(0, k)),
        decreases rest.len(),
    {
        let ghost before = rest@;
        let x = rest.remove(0);
        proof {
            assert(before.map_values(|x: LogResult<T>| res_view(x))[0] == res_view(before[0]));
            assert(res_view(x) == all[k]);
            let mr = rest@.map_values(|x: LogResult<T>| res_view(x));
            let mb = before.map_values(|x: LogResult<T>| res_view(x));
            assert forall|i: int| 0 <= i < mr.len() implies #[trigger] mr[i]
                == all.subrange(k + 1, all.len() as int)[i] by {
                assert(rest@[i] == before[i + 1]);
                assert(mb[i + 1] == all.subrange(k, all.len() as int)[i + 1]);
            }
            assert(rest@.map_values(|x: LogResult<T>| res_view(x)) =~= all.subrange(k + 1, all.len() as int));
            assert(all.subrange(0, k + 1).drop_last() =~= all.subrange(0, k));
        }
        match x {
            Err(mut e) => {
                logs.append(&mut e.0);
            },
            Ok(o) => {
                oks.push(o);
            },
        }
        proof {
            k = k + 1;
            assert(oks@.map_values(|x: T| x@) =~= oks_of(all.subrange(0, k)));
            assert(logs@.map_values(|l: Log| l@) =~= errs_of(all.subrange(0, k)));
        }
    }
    proof {
        assert(all.subrange(0, k) =~= all);
    }
    if logs.len() > 0 {
        return Err(ErrorLogs(logs));
    }
    Ok(oks)
}

/// Like `map_collect_result`, but a success may carry no output; such
/// elements are dropped without counting as failures.
pub fn map_collect_optional_result<T: View>(rs: Vec<LogResult<Option<T>>>) -> (r: LogResult<Vec<T>>)
    ensures
        vec_res_view(r) == accumulate_optional(rs@.map_values(|x: LogResult<Option<T>>| opt_res_view(x))),
{
    let ghost all = rs@.map_values(|x: LogResult<Option<T>>| opt_res_view(x));
    let mut rest = rs;
    let mut oks: Vec<T> = Vec::new();
    let mut logs: Vec<Log> = Vec::new();
    let ghost mut k: int = 0;
    while rest.len() > 0
        invariant
            0 <= k <= all.len(),
            all == rs@.map_values(|x: LogResult<Option<T>>| opt_res_view(x)),
            rest@.map_values(|x: LogResult<Option<T>>| opt_res_view(x)) == all.subrange(k, all.len() as int),
            rest@.len() == all.len() - k,
            oks@.map_values(|x: T| x@) == somes_of(all.subrange(0, k)),
            logs@.map_values(|l: Log| l@) == errs_of(all.subrange(0, k)),
        decreases rest.len(),
    {
        let ghost before = rest@;
        let x = rest.remove(0);
        proof {
            assert(before.map_values(|x: LogResult<Option<T>>| opt_res_view(x))[0] == opt_res_view(before[0]));
            assert(opt_res_view(x) == all[k]);
            let mr = rest@.map_values(|x: LogResult<Option<T>>| opt_res_view(x));
            let mb = before.map_values(|x: LogResult<Option<T>>| opt_res_view(x));
            assert forall|i: int| 0 <= i < mr.len() implies #[trigger] mr[i]
                == all.subrange(k + 1, all.len() as int)[i] by {
                assert(rest@[i] == before[i + 1]);
                assert(mb[i + 1] == all.subrange(k, all.len() as int)[i + 1]);
            }
            assert(rest@.map_values(|x: LogResult<Option<T>>| opt_res_view(x)) =~= all.subrange(k + 1, all.len() as int));
            assert(all.subrange(0, k + 1).drop_last() =~= all.subrange(0, k));
        }
        match x {
            Err(mut e) => {
                logs.append(&mut e.0);
            },
            Ok(Some(o)) => {
                oks.push(o);
            },
            Ok(None) => {},
        }
        proof {
            k = k + 1;
            assert(oks@.map_values(|x: T| x@) =~= somes_of(all.subrange(0, k)));
            assert(logs@.map_values(|l: Log| l@) =~= errs_of(all.subrange(0, k)));
        }
    }
    proof {
        assert(all.subrange(0, k) =~= all);
    }
    if logs.len() > 0 {
        return Err(ErrorLogs(logs));
    }
    Ok(oks)
}

/// The number of failed outcomes.
pub open spec fn count_errs<V>(rs: Seq<Result<V, Seq<LogV>>>) -> nat
    decreases rs.len(),
{
    if rs.len() == 0 {
        0
    } else {
        count_errs(rs.drop_last()) + if rs.last() is Err {
            1nat
        } else {
            0nat
        }
    }
}

/// The outcomes that succeeded, in order; the failed ones left out.
pub open spec fn only_oks<V>(rs: Seq<Result<V, Seq<LogV>>>) -> Seq<Result<V, Seq<LogV>>>
    decreases rs.len(),
{
    if rs.len() == 0 {
        seq![]
    } else {
        only_oks(rs.drop_last()) + if rs.last() is Ok {
            seq![rs.last()]
        } else {
            seq![]
        }
    }
}

/// Accumulation: of N sibling outcomes, k of which failed with one
/// diagnostic each, accumulating them yields exactly k diagnostics, fails
/// exactly when k > 0, keeps N - k successes, and those successes are the
/// same as when the failed siblings are absent.
pub proof fn lemma_accumulation<V>(rs: Seq<Result<V, Seq<LogV>>>)
    requires
        forall|i: int| 0 <= i < rs.len() && (#[trigger] rs[i]) is Err ==> rs[i]->Err_0.len() == 1,
    ensures
        errs_of(rs).len() == count_errs(rs),
        oks_of(rs).len() + count_errs(rs) == rs.len(),
        accumulate(rs) is Err <==> count_errs(rs) > 0,
        oks_of(rs) == oks_of(only_oks(rs)),
        count_errs(only_oks(rs)) == 0,
    decreases rs.len(),
{
    if rs.len() > 0 {
        let p = rs.drop_last();
        assert forall|i: int| 0 <= i < p.len() && (#[trigger] p[i]) is Err implies p[i]->Err_0.len() == 1 by {
            assert(p[i] == rs[i]);
        }
        lemma_accumulation(p);
        let q = only_oks(p);
        if rs.last() is Ok {
            let q2 = q + seq![rs.last()];
            assert(only_oks(rs) == q2);
            assert(q2.drop_last() =~= q);
        } else {
            assert(only_oks(rs) == q);
            assert(rs[rs.len() - 1] is Err);
        }
    }
}

} // verus!

//! The stack evaluator: operations on a non-empty sequence of string values.

use vstd::prelude::*;
use vstd::pervasive::VecAdditionalExecFns;
use vstd::string::StringExecFns;

use crate::indexing::{resolve_index, CollectionLength, Index};

verus! {

/// Why an operation could not produce a value sequence. `E` is the error of
/// the pipeline that runs nested operation lists.
#[derive(Debug, Clone, PartialEq, Eq)]
pub enum StackError<E> {
    /// The input sequence was empty.
    NoValuesError,
    /// The operation would have produced an empty sequence.
    OutputNoValuesError,
    /// A signed offset did not resolve to a position of the sequence.
    IndexOutOfBounds,
    /// A length requirement did not hold.
    RequirementNotSatisfied,
    /// A nested operation list failed; the cause is kept.
    InnerOperationError(Box<E>),
}

/// How the result of a cloned branch is recombined with the original values.
#[derive(Debug, Clone, Copy, PartialEq, Eq)]
pub enum CloneMode {
    /// The branch's result first, then the original values.
    PrependResult,
    /// The original values first, then the branch's result.
    AppendResult,
}

impl Default for CloneMode {
    fn default() -> (r: CloneMode)
        ensures
            r is AppendResult,
    {
        CloneMode::AppendResult
    }
}

/// Severity of the diagnostic record that `Stack::Values` stands for.
#[derive(Debug, Clone, Copy, PartialEq, Eq)]
pub enum LogLevel {
    Trace,
    Debug,
    Info,
    Warn,
    Error,
    Critical,
}

/// One stack-machine operation. `O` is the type of the operations of the
/// nested lists, which the pipeline driver runs.
#[derive(Debug, Clone)]
pub enum Stack<O> {
    /// Passes the values through iff their count is in `[min, max]`.
    Length { min: usize, max: usize },
    /// Joins all values into one, with the separator between them.
    Join(String),
    /// Reverses the order of the values.
    Reverse,
    /// Keeps the first `head` and the last `tail` values.
    Take { head: Option<usize>, tail: Option<usize> },
    /// Removes the first `head` values, then the last `tail` of the rest.
    Drop { head: Option<usize>, tail: Option<usize> },
    /// Exchanges the values at two signed offsets.
    Swap { from: isize, to: isize },
    /// Picks the values at the given signed offsets; an empty list keeps all.
    Indexes(Vec<isize>),
    /// Runs the nested list on each value alone; concatenates the results.
    FlatMap(Vec<O>),
    /// Like `FlatMap`, but drops the values whose nested run fails.
    Select(Vec<O>),
    /// Runs the nested list on a copy and recombines it with the original.
    Cloned { result: CloneMode, ops: Vec<O> },
    /// Emits a diagnostic record of the values and passes them through.
    Values { level: LogLevel, id: Option<String> },
}

/// A model of the pipeline that nested operation lists re-enter: what running
/// a list of operations on a value sequence gives.
pub type Runner<O, E> = spec_fn(Seq<O>, Seq<Seq<char>>) -> Result<Seq<Seq<char>>, E>;

/// Whether every result that `apply` can return is the one that `run` gives.
pub open spec fn agrees<O, E, F: Fn(&Vec<O>, Vec<String>) -> Result<Vec<String>, E>>(apply: F, run: Runner<O, E>) -> bool {
    forall|ops: &Vec<O>, v: Vec<String>, out: Result<Vec<String>, E>|
        #[trigger] apply.ensures((ops, v), out) ==> values_of(out) == run(ops@, v.deep_view())
}

/// The character sequences held by a result of string vectors.
pub open spec fn values_of<E>(r: Result<Vec<String>, E>) -> Result<Seq<Seq<char>>, E> {
    match r {
        Ok(v) => Ok(v.deep_view()),
        Err(e) => Err(e),
    }
}

/// The values joined, with `sep` between each two of them.
pub open spec fn joined(parts: Seq<Seq<char>>, sep: Seq<char>) -> Seq<char>
    decreases parts.len(),
{
    if parts.len() == 0 {
        Seq::empty()
    } else if parts.len() == 1 {
        parts[0]
    } else {
        joined(parts.drop_last(), sep) + sep + parts.last()
    }
}

/// The values in reverse order.
pub open spec fn reversed(s: Seq<Seq<char>>) -> Seq<Seq<char>> {
    Seq::new(s.len(), |i: int| s[s.len() - 1 - i])
}

/// An optional count, absent meaning zero, clamped to `n`.
pub open spec fn clamped(count: Option<usize>, n: int) -> int {
    match count {
        Some(c) => if c as int <= n { c as int } else { n },
        None => 0,
    }
}

/// The first `head` values followed by the last `tail` values, both windows
/// taken from `s` independently.
pub open spec fn taken(s: Seq<Seq<char>>, head: Option<usize>, tail: Option<usize>) -> Seq<Seq<char>> {
    s.take(clamped(head, s.len() as int)) + s.skip(s.len() - clamped(tail, s.len() as int))
}

/// `s` without its first `head` values, then without the last `tail` values
/// of what remains.
pub open spec fn dropped(s: Seq<Seq<char>>, head: Option<usize>, tail: Option<usize>) -> Seq<Seq<char>> {
    let rest = s.skip(clamped(head, s.len() as int));
    rest.take(rest.len() - clamped(tail, rest.len() as int))
}

/// Whether every offset of `list` resolves against `n` values.
pub open spec fn all_resolve(list: Seq<isize>, n: int) -> bool {
    forall|j: int| 0 <= j < list.len() ==> (#[trigger] resolve_index(list[j] as int, n)) is Some
}

/// The values that the offsets of `list` resolve to, in the order of `list`.
pub open spec fn picked(s: Seq<Seq<char>>, list: Seq<isize>) -> Seq<Seq<char>> {
    Seq::new(list.len(), |j: int| s[resolve_index(list[j] as int, s.len() as int)->0])
}

/// Running `ops` on each value alone, the results concatenated in order; the
/// first failure if any.
pub open spec fn flat_mapped<O, E>(run: Runner<O, E>, ops: Seq<O>, s: Seq<Seq<char>>) -> Result<Seq<Seq<char>>, E>
    decreases s.len(),
{
    if s.len() == 0 {
        Ok(Seq::empty())
    } else {
        match run(ops, seq![s[0]]) {
            Err(e) => Err(e),
            Ok(v) => match flat_mapped(run, ops, s.skip(1)) {
                Ok(rest) => Ok(v + rest),
                Err(e) => Err(e),
            },
        }
    }
}

/// Running `ops` on each value alone, the results of the runs that succeed
/// concatenated in order.
pub open spec fn selected<O, E>(run: Runner<O, E>, ops: Seq<O>, s: Seq<Seq<char>>) -> Seq<Seq<char>>
    decreases s.len(),
{
    if s.len() == 0 {
        Seq::empty()
    } else {
        let first = match run(ops, seq![s[0]]) {
            Ok(v) => v,
            Err(_) => Seq::empty(),
        };
        first + selected(run, ops, s.skip(1))
    }
}

/// A value between double quotes.
pub open spec fn quoted(v: Seq<char>) -> Seq<char> {
    "\""@ + v + "\""@
}

/// The diagnostic line for `values` at the tag `id` (`()` when absent): the
/// values quoted and separated by `, `.
pub open spec fn values_message(id: Option<String>, values: Seq<Seq<char>>) -> Seq<char> {
    let tag = match id {
        Some(t) => t@,
        None => "()"@,
    };
    "values at "@ + tag + ": "@ + joined(values.map_values(|v: Seq<char>| quoted(v)), ", "@)
}

/// What an operation computes from a non-empty sequence, before the check on
/// an empty output.
pub open spec fn transformed<O, E>(op: Stack<O>, run: Runner<O, E>, s: Seq<Seq<char>>) -> Result<Seq<Seq<char>>, StackError<E>> {
    match op {
        Stack::Length { min, max } => if min <= s.len() <= max {
            Ok(s)
        } else {
            Err(StackError::RequirementNotSatisfied)
        },
        Stack::Join(sep) => Ok(seq![joined(s, sep@)]),
        Stack::Reverse => Ok(reversed(s)),
        Stack::Take { head, tail } => Ok(taken(s, head, tail)),
        Stack::Drop { head, tail } => Ok(dropped(s, head, tail)),
        Stack::Swap { from, to } => if s.len() > isize::MAX {
            Err(StackError::IndexOutOfBounds)
        } else {
            match (resolve_index(from as int, s.len() as int), resolve_index(to as int, s.len() as int)) {
                (Some(a), Some(b)) => Ok(s.update(a, s[b]).update(b, s[a])),
                _ => Err(StackError::IndexOutOfBounds),
            }
        },
        Stack::Indexes(list) => if list.len() == 0 {
            Ok(s)
        } else if s.len() > isize::MAX || !all_resolve(list@, s.len() as int) {
            Err(StackError::IndexOutOfBounds)
        } else {
            Ok(picked(s, list@))
        },
        Stack::FlatMap(ops) => match flat_mapped(run, ops@, s) {
            Ok(v) => Ok(v),
            Err(e) => Err(StackError::InnerOperationError(Box::new(e))),
        },
        Stack::Select(ops) => Ok(selected(run, ops@, s)),
        Stack::Cloned { result, ops } => match run(ops@, s) {
            Ok(v) => match result {
                CloneMode::AppendResult => Ok(s + v),
                CloneMode::PrependResult => Ok(v + s),
            },
            Err(e) => Err(StackError::InnerOperationError(Box::new(e))),
        },
        Stack::Values { .. } => Ok(s),
    }
}

/// What `process` gives: `NoValuesError` on an empty input, whatever the
/// operation; `OutputNoValuesError` where the operation leaves nothing.
pub open spec fn processed<O, E>(op: Stack<O>, run: Runner<O, E>, s: Seq<Seq<char>>) -> Result<Seq<Seq<char>>, StackError<E>> {
    if s.len() == 0 {
        Err(StackError::NoValuesError)
    } else {
        match transformed(op, run, s) {
            Err(e) => Err(e),
            Ok(r) => if r.len() == 0 {
                Err(StackError::OutputNoValuesError)
            } else {
                Ok(r)
            },
        }
    }
}

/// Appends clones of `src[lo..hi]` to `out`.
fn copy_range(src: &Vec<String>, lo: usize, hi: usize, out: &mut Vec<String>)
    requires
        lo <= hi <= src.len(),
    ensures
        final(out).deep_view() == old(out).deep_view() + src.deep_view().subrange(lo as int, hi as int),
{
    let mut i: usize = lo;
    while i < hi
        invariant
            lo <= i <= hi <= src.len(),
            out.deep_view() == old(out).deep_view() + src.deep_view().subrange(lo as int, i as int),
        decreases hi - i,
    {
        let ghost before = out.deep_view();
        out.push(src[i].clone());
        assert(out.deep_view() =~= before.push(src.deep_view()[i as int]));
        assert(src.deep_view().subrange(lo as int, i + 1) =~= src.deep_view().subrange(lo as int, i as int).push(
            src.deep_view()[i as int],
        ));
        i = i + 1;
    }
}

impl<O> Stack<O> {
    /// Whether this operation runs a nested operation list.
    pub open spec fn nests(self) -> bool {
        self is FlatMap || self is Select || self is Cloned
    }

    /// Applies this operation to `input`. Nested operation lists are run by
    /// `apply`, the pipeline driver; `log` receives the `Values` diagnostics.
    /// Fails with `NoValuesError` on an empty input, before looking at the
    /// operation, and with `OutputNoValuesError` where the operation would
    /// leave no value. The result is the one that `processed` gives with every
    /// model `run` that the driver agrees with; for an operation that nests
    /// nothing, or an empty input, with every model.
    pub fn process<E, F, L>(&self, input: Vec<String>, apply: &F, log: &L) -> (r: Result<Vec<String>, StackError<E>>) where
        F: Fn(&Vec<O>, Vec<String>) -> Result<Vec<String>, E>,
        L: Fn(LogLevel, String),

        requires
            forall|o: &Vec<O>, v: Vec<String>| apply.requires((o, v)),
            forall|level: LogLevel, message: String| log.requires((level, message)),
        ensures
            forall|run: Runner<O, E>|
                (agrees(*apply, run) || !self.nests() || input.len() == 0) ==> #[trigger] processed(*self, run, input.deep_view()) == values_of(r),
    {
        if input.len() == 0 {
            return Err(StackError::NoValuesError);
        }
        let ghost dv = input.deep_view();
        let res: Vec<String> = match self {
            Stack::Length { min, max } => {
                if input.len() < *min {
                    return Err(StackError::RequirementNotSatisfied);
                }
                if input.len() > *max {
                    return Err(StackError::RequirementNotSatisfied);
                }
                input
            },
            Stack::Join(separator) => {
                let one = join_values(&input, separator);
                let out = vec![one];
                assert(out.deep_view() =~= seq![joined(dv, separator@)]);
                out
            },
            Stack::Reverse => reverse_values(&input),
            Stack::Take { head, tail } => {
                let n = input.len();
                let h: usize = match head {
                    Some(h) => if *h <= n { *h } else { n },
                    None => 0,
                };
                let t: usize = match tail {
                    Some(t) => if *t <= n { *t } else { n },
                    None => 0,
                };
                let mut out: Vec<String> = Vec::new();
                copy_range(&input, 0, h, &mut out);
                copy_range(&input, n - t, n, &mut out);
                assert(out.deep_view() =~= taken(dv, *head, *tail));
                out
            },
            Stack::Drop { head, tail } => {
                let n = input.len();
                let h: usize = match head {
                    Some(h) => if *h <= n { *h } else { n },
                    None => 0,
                };
                let rest = n - h;
                let t: usize = match tail {
                    Some(t) => if *t <= rest { *t } else { rest },
                    None => 0,
                };
                let mut out: Vec<String> = Vec::new();
                copy_range(&input, h, n - t, &mut out);
                assert(out.deep_view() =~= dropped(dv, *head, *tail));
                out
            },
            Stack::Swap { from, to } => {
                let len = match CollectionLength::from_len::<E>(input.len()) {
                    Ok(len) => len,
                    Err(e) => return Err(e),
                };
                let a = match len.index_into::<E>(Index::from(*from)) {
                    Ok(a) => a,
                    Err(e) => return Err(e),
                };
                let b = match len.index_into::<E>(Index::from(*to)) {
                    Ok(b) => b,
                    Err(e) => return Err(e),
                };
                let mut out = input;
                let va = out[a].clone();
                let vb = out[b].clone();
                out.set(a, vb);
                out.set(b, va);
                assert(out.deep_view() =~= dv.update(a as int, dv[b as int]).update(b as int, dv[a as int]));
                out
            },
            Stack::Indexes(indexes) => {
                if indexes.len() == 0 {
                    input
                } else {
                    let len = match CollectionLength::from_len::<E>(input.len()) {
                        Ok(len) => len,
                        Err(e) => return Err(e),
                    };
                    match pick_values(&input, indexes, len) {
                        Ok(v) => v,
                        Err(e) => return Err(e),
                    }
                }
            },
            Stack::FlatMap(ops) => match flat_map_values(apply, ops, &input) {
                Ok(v) => v,
                Err(e) => return Err(StackError::InnerOperationError(Box::new(e))),
            },
            Stack::Select(ops) => select_values(apply, ops, &input),
            Stack::Cloned { result, ops } => {
                let mut copy: Vec<String> = Vec::new();
                copy_range(&input, 0, input.len(), &mut copy);
                assert(dv.subrange(0, dv.len() as int) =~= dv);
                let ghost arg = copy;
                let res = apply(ops, copy);
                assert(apply.ensures((ops, arg), res));
                match res {
                    Ok(mut v) => {
                        let ghost got = v.deep_view();
                        match result {
                            CloneMode::AppendResult => {
                                let mut out = input;
                                out.append(&mut v);
                                assert(out.deep_view() =~= dv + got);
                                out
                            },
                            CloneMode::PrependResult => {
                                let mut original = input;
                                v.append(&mut original);
                                assert(v.deep_view() =~= got + dv);
                                v
                            },
                        }
                    },
                    Err(e) => return Err(StackError::InnerOperationError(Box::new(e))),
                }
            },
            Stack::Values { level, id } => {
                log(*level, describe_values(id, &input));
                input
            },
        };
        assert forall|run: Runner<O, E>| agrees(*apply, run) || !self.nests() implies transformed(*self, run, dv)
            == Ok::<Seq<Seq<char>>, StackError<E>>(res.deep_view()) by {}
        if res.len() == 0 {
            return Err(StackError::OutputNoValuesError);
        }
        Ok(res)
    }
}

/// Renders the diagnostic line for `values` at the tag `id`.
pub fn describe_values(id: &Option<String>, values: &Vec<String>) -> (r: String)
    ensures
        r@ == values_message(*id, values.deep_view()),
{
    let ghost q = values.deep_view().map_values(|v: Seq<char>| quoted(v));
    let mut r = String::from_str("values at ");
    match id {
        Some(t) => r.append(t.as_str()),
        None => r.append("()"),
    }
    r.append(": ");
    let ghost head = r@;
    let mut i: usize = 0;
    while i < values.len()
        invariant
            i <= values.len(),
            q == values.deep_view().map_values(|v: Seq<char>| quoted(v)),
            r@ == head + joined(q.take(i as int), ", "@),
        decreases values.len() - i,
    {
        if i > 0 {
            r.append(", ");
        }
        r.append("\"");
        r.append(values[i].as_str());
        r.append("\"");
        assert(q.take(i + 1).drop_last() =~= q.take(i as int));
        assert(r@ =~= head + joined(q.take(i + 1), ", "@));
        i = i + 1;
    }
    assert(q.take(i as int) =~= q);
    r
}

/// `acc` followed by the values of `r`, or the error of `r`.
spec fn prefixed<E>(acc: Seq<Seq<char>>, r: Result<Seq<Seq<char>>, E>) -> Result<Seq<Seq<char>>, E> {
    match r {
        Ok(v) => Ok(acc + v),
        Err(e) => Err(e),
    }
}

/// Joins the values with `sep` between each two of them.
fn join_values(input: &Vec<String>, sep: &String) -> (r: String)
    requires
        input.len() > 0,
    ensures
        r@ == joined(input.deep_view(), sep@),
{
    let ghost dv = input.deep_view();
    let mut r = input[0].clone();
    assert(dv.take(1).drop_last() =~= Seq::<Seq<char>>::empty());
    let mut i: usize = 1;
    while i < input.len()
        invariant
            1 <= i <= input.len(),
            dv == input.deep_view(),
            r@ == joined(dv.take(i as int), sep@),
        decreases input.len() - i,
    {
        r.append(sep.as_str());
        r.append(input[i].as_str());
        assert(dv.take(i + 1).drop_last() =~= dv.take(i as int));
        i = i + 1;
    }
    assert(dv.take(i as int) =~= dv);
    r
}

/// The values in reverse order.
fn reverse_values(input: &Vec<String>) -> (r: Vec<String>)
    ensures
        r.deep_view() == reversed(input.deep_view()),
{
    let ghost dv = input.deep_view();
    let n = input.len();
    let mut out: Vec<String> = Vec::new();
    let mut k: usize = 0;
    while k < n
        invariant
            k <= n == input.len(),
            dv == input.deep_view(),
            out.deep_view() =~= reversed(dv).take(k as int),
        decreases n - k,
    {
        let ghost before = out.deep_view();
        out.push(input[n - 1 - k].clone());
        assert(out.deep_view() =~= before.push(dv[n - 1 - k]));
        assert(out.deep_view() =~= reversed(dv).take(k + 1));
        k = k + 1;
    }
    out
}

/// The values at the positions that the offsets of `list` resolve to.
fn pick_values<E>(input: &Vec<String>, list: &Vec<isize>, len: CollectionLength) -> (r: Result<Vec<String>, StackError<E>>)
    requires
        len.magnitude() == input.len(),
    ensures
        all_resolve(list@, input.len() as int) <==> r is Ok,
        r matches Ok(v) ==> v.deep_view() == picked(input.deep_view(), list@),
        r matches Err(e) ==> e is IndexOutOfBounds,
{
    let ghost dv = input.deep_view();
    let ghost n = input.len() as int;
    let mut out: Vec<String> = Vec::new();
    let mut j: usize = 0;
    while j < list.len()
        invariant
            j <= list.len(),
            len.magnitude() == n == input.len(),
            dv == input.deep_view(),
            forall|k: int| 0 <= k < j ==> (#[trigger] resolve_index(list@[k] as int, n)) is Some,
            out.deep_view() =~= picked(dv, list@.take(j as int)),
        decreases list.len() - j,
    {
        match len.index_into::<E>(Index::from(list[j])) {
            Ok(pos) => {
                let ghost before = out.deep_view();
                out.push(input[pos].clone());
                assert(out.deep_view() =~= before.push(dv[pos as int]));
                assert(out.deep_view() =~= picked(dv, list@.take(j + 1)));
            },
            Err(e) => {
                return Err(e);
            },
        }
        j = j + 1;
    }
    assert(list@.take(j as int) =~= list@);
    Ok(out)
}

/// Runs `ops` on each value alone and concatenates the results in order.
fn flat_map_values<O, E, F>(apply: &F, ops: &Vec<O>, input: &Vec<String>) -> (r: Result<Vec<String>, E>) where
    F: Fn(&Vec<O>, Vec<String>) -> Result<Vec<String>, E>,

    requires
        forall|o: &Vec<O>, v: Vec<String>| apply.requires((o, v)),
    ensures
        forall|run: Runner<O, E>| #[trigger] agrees(*apply, run) ==> values_of(r) == flat_mapped(run, ops@, input.deep_view()),
{
    let ghost dv = input.deep_view();
    let mut acc: Vec<String> = Vec::new();
    let mut i: usize = 0;
    assert(dv.skip(0) =~= dv);
    assert forall|x: Seq<Seq<char>>| acc.deep_view() + x =~= x by {}
    while i < input.len()
        invariant
            i <= input.len(),
            dv == input.deep_view(),
            forall|o: &Vec<O>, v: Vec<String>| apply.requires((o, v)),
            forall|run: Runner<O, E>| #[trigger] agrees(*apply, run) ==>
                flat_mapped(run, ops@, dv) == prefixed(acc.deep_view(), flat_mapped(run, ops@, dv.skip(i as int))),
        decreases input.len() - i,
    {
        let single = vec![input[i].clone()];
        let ghost arg = single;
        assert(single.deep_view() =~= seq![dv.skip(i as int)[0]]);
        assert(dv.skip(i as int).skip(1) =~= dv.skip(i + 1));
        let res = apply(ops, single);
        assert(apply.ensures((ops, arg), res));
        match res {
            Ok(mut v) => {
                let ghost before = acc.deep_view();
                let ghost got = v.deep_view();
                acc.append(&mut v);
                assert(acc.deep_view() =~= before + got);
                assert forall|x: Seq<Seq<char>>| before + (got + x) =~= acc.deep_view() + x by {}
            },
            Err(e) => {
                return Err(e);
            },
        }
        i = i + 1;
    }
    assert(acc.deep_view() + Seq::<Seq<char>>::empty() =~= acc.deep_view());
    Ok(acc)
}

/// Runs `ops` on each value alone and concatenates the results of the runs
/// that succeed, in order; the values whose run fails are left out.
fn select_values<O, E, F>(apply: &F, ops: &Vec<O>, input: &Vec<String>) -> (r: Vec<String>) where
    F: Fn(&Vec<O>, Vec<String>) -> Result<Vec<String>, E>,

    requires
        forall|o: &Vec<O>, v: Vec<String>| apply.requires((o, v)),
    ensures
        forall|run: Runner<O, E>| #[trigger] agrees(*apply, run) ==> r.deep_view() == selected(run, ops@, input.deep_view()),
{
    let ghost dv = input.deep_view();
    let mut acc: Vec<String> = Vec::new();
    let mut i: usize = 0;
    assert(dv.skip(0) =~= dv);
    assert forall|x: Seq<Seq<char>>| acc.deep_view() + x =~= x by {}
    while i < input.len()
        invariant
            i <= input.len(),
            dv == input.deep_view(),
            forall|o: &Vec<O>, v: Vec<String>| apply.requires((o, v)),
            forall|run: Runner<O, E>| #[trigger] agrees(*apply, run) ==>
                selected(run, ops@, dv) == acc.deep_view() + selected(run, ops@, dv.skip(i as int)),
        decreases input.len() - i,
    {
        let single = vec![input[i].clone()];
        let ghost arg = single;
        assert(single.deep_view() =~= seq![dv.skip(i as int)[0]]);
        assert(dv.skip(i as int).skip(1) =~= dv.skip(i + 1));
        let ghost before = acc.deep_view();
        let res = apply(ops, single);
        assert(apply.ensures((ops, arg), res));
        let ghost got = match &res { Ok(v) => v.deep_view(), Err(_) => Seq::<Seq<char>>::empty() };
        match res {
            Ok(mut v) => {
                acc.append(&mut v);
            },
            Err(_) => {},
        }
        assert(acc.deep_view() =~= before + got);
        assert forall|run: Runner<O, E>| #[trigger] agrees(*apply, run) implies
            selected(run, ops@, dv) == acc.deep_view() + selected(run, ops@, dv.skip(i + 1)) by {
            assert(before + selected(run, ops@, dv.skip(i as int)) =~= acc.deep_view() + selected(run, ops@, dv.skip(i + 1)));
        }
        i = i + 1;
    }
    assert(acc.deep_view() + Seq::<Seq<char>>::empty() =~= acc.deep_view());
    acc
}

} // verus!

//! Laws of the stack evaluator, stated over `processed`, the model that
//! `Stack::process` is proved to follow, for any model `run` of the driver.

use vstd::prelude::*;

use crate::stack::{joined, processed, reversed, selected, Runner, Stack, StackError};

verus! {

/// Whatever the operation, an empty input fails with `NoValuesError`.
pub proof fn lemma_empty_input_fails<O, E>(op: Stack<O>, run: Runner<O, E>)
    ensures
        processed(op, run, Seq::empty()) == Err::<Seq<Seq<char>>, StackError<E>>(StackError::NoValuesError),
{
}

/// Joining a non-empty input always succeeds with exactly one value, so it
/// never fails with `OutputNoValuesError`.
pub proof fn lemma_join_gives_one_value<O, E>(sep: String, run: Runner<O, E>, s: Seq<Seq<char>>)
    requires
        s.len() > 0,
    ensures
        processed(Stack::<O>::Join(sep), run, s) == Ok::<Seq<Seq<char>>, StackError<E>>(seq![joined(s, sep@)]),
{
}

/// `Indexes` with an empty list gives back any non-empty input unchanged.
pub proof fn lemma_empty_indexes_is_identity<O, E>(list: Vec<isize>, run: Runner<O, E>, s: Seq<Seq<char>>)
    requires
        list.len() == 0,
        s.len() > 0,
    ensures
        processed(Stack::<O>::Indexes(list), run, s) == Ok::<Seq<Seq<char>>, StackError<E>>(s),
{
}

/// Swapping position `0` with itself gives back any non-empty input
/// unchanged (any input whose length fits in an `isize`, as a vector's does).
pub proof fn lemma_swap_same_position_is_identity<O, E>(run: Runner<O, E>, s: Seq<Seq<char>>)
    requires
        0 < s.len() <= isize::MAX,
    ensures
        processed(Stack::<O>::Swap { from: 0, to: 0 }, run, s) == Ok::<Seq<Seq<char>>, StackError<E>>(s),
{
    assert(s.update(0, s[0]).update(0, s[0]) =~= s);
}

/// `Select` never passes on a nested failure: on a non-empty input it gives
/// the concatenated results of the values whose nested run succeeds, and
/// fails only with `OutputNoValuesError`, when no value is left.
pub proof fn lemma_select_absorbs_failures<O, E>(ops: Vec<O>, run: Runner<O, E>, s: Seq<Seq<char>>)
    requires
        s.len() > 0,
    ensures
        selected(run, ops@, s).len() > 0 ==> processed(Stack::Select(ops), run, s) == Ok::<Seq<Seq<char>>, StackError<E>>(
            selected(run, ops@, s),
        ),
        selected(run, ops@, s).len() == 0 ==> processed(Stack::Select(ops), run, s) == Err::<Seq<Seq<char>>, StackError<E>>(
            StackError::OutputNoValuesError,
        ),
{
}

/// Reversing twice gives back the original values in their original order.
pub proof fn lemma_reverse_twice<O, E>(run: Runner<O, E>, s: Seq<Seq<char>>)
    requires
        s.len() > 0,
    ensures
        processed(Stack::<O>::Reverse, run, s) == Ok::<Seq<Seq<char>>, StackError<E>>(reversed(s)),
        processed(Stack::<O>::Reverse, run, reversed(s)) == Ok::<Seq<Seq<char>>, StackError<E>>(s),
{
    assert(reversed(reversed(s)) =~= s);
}

} // verus!

use vstd::prelude::*;
use wasmtime::{Func, Instance, Val};
use crate::doc::Number;
use crate::error::{ErrorHandler, Record};
use crate::parser::{Fun, Module, Test, TestModel, Type, rows_view};
use crate::values::{Failure, Value, prepare_values, spec_equality, spec_prepare, test_equality};

verus! {

#[verifier::external_type_specification]
#[verifier::external_body]
pub struct ExInstance(Instance);

#[verifier::external_type_specification]
#[verifier::external_body]
pub struct ExFunc(Func);

#[verifier::external_type_specification]
#[verifier::external_body]
pub struct ExVal(Val);

/// Relies on `wasmtime::Instance::get_func`: the exported function of that
/// name, if the instance has one.
#[verifier::external_body]
fn lookup_func(instance: &Instance, name: &String) -> (r: Option<Func>) {
    instance.get_func(name)
}

/// Relies on `wasmtime::Func::call`: runs the function on `params`. It returns
/// an error when the call traps, and also when the number or the kinds of
/// `params` differ from the function's signature. Its one assertion concerns
/// async support, a feature this crate does not enable.
#[verifier::external_body]
fn call_func(f: &Func, params: &Vec<Val>) -> (r: Result<Vec<Val>, ()>) {
    match f.call(params) {
        Ok(results) => Ok(results.into_vec()),
        Err(_) => Err(()),
    }
}

/// Relies on the numeric variants of `wasmtime::Val`: builds the value of the
/// same kind with the same bits.
#[verifier::external_body]
fn to_val(v: Value) -> (r: Val) {
    match v {
        Value::I32(n) => Val::I32(n),
        Value::I64(n) => Val::I64(n),
        Value::F32(b) => Val::F32(b),
        Value::F64(b) => Val::F64(b),
    }
}

/// Relies on the numeric variants of `wasmtime::Val`: reads a value back as a
/// machine value of the same kind and bits; `None` for the kinds that are not
/// numeric (references, vectors).
#[verifier::external_body]
fn from_val(v: &Val) -> (r: Option<Value>) {
    match v {
        Val::I32(n) => Some(Value::I32(*n)),
        Val::I64(n) => Some(Value::I64(*n)),
        Val::F32(b) => Some(Value::F32(*b)),
        Val::F64(b) => Some(Value::F64(*b)),
        _ => None,
    }
}

/// How the test of one function ended.
#[derive(Clone, Copy, Debug, PartialEq, Eq, Structural)]
pub enum Outcome {
    /// The module exports no function of that name; nothing was run.
    Missing,
    /// The function declares no test; nothing was run.
    Skipped,
    /// `with` and `expect` differ in their numbers of rows; nothing was run.
    RowCountMismatch,
    /// Every row was tried; the count is the number of rows invoked.
    Completed(usize),
}

/// What a call returned, as far as the checks go: `None` for a trap, else the
/// results (`None` for a result that is not numeric).
pub type CallOutcome = Option<Seq<Option<Value>>>;

/// The rows of expected results: those of `expect`, or one empty row per input
/// row where `expect` is absent.
pub open spec fn spec_expected_rows(t: TestModel) -> Seq<Seq<Number>> {
    match t.outputs {
        Some(o) => o,
        None => Seq::new(t.inputs.len(), |i: int| Seq::<Number>::empty()),
    }
}

/// The failure of one row, given what its call returned: a row whose literals
/// cannot be coerced is not invoked; a trap and a disagreement with the
/// expected row are failures too.
pub open spec fn spec_row_failure(
    args: Seq<Type>,
    input: Seq<Number>,
    expected: Seq<Number>,
    outcome: CallOutcome,
) -> Option<Failure> {
    match spec_prepare(args, input) {
        Err(f) => Some(f),
        Ok(_) => match outcome {
            None => Some(Failure::Trapped),
            Some(res) => match spec_equality(expected, res) {
                Ok(_) => None,
                Err(f) => Some(f),
            },
        },
    }
}

/// The records of rows `0..n`, given what each call returned.
pub open spec fn spec_row_records(
    name: String,
    args: Seq<Type>,
    inputs: Seq<Seq<Number>>,
    expected: Seq<Seq<Number>>,
    outs: Seq<CallOutcome>,
    n: int,
) -> Seq<Record>
    decreases n,
{
    if n <= 0 {
        Seq::empty()
    } else {
        let prev = spec_row_records(name, args, inputs, expected, outs, n - 1);
        match spec_row_failure(args, inputs[n - 1], expected[n - 1], outs[n - 1]) {
            Some(f) => prev.push(Record { fun: name, failure: f }),
            None => prev,
        }
    }
}

/// The number of rows among `0..n` whose literals can be coerced: the rows
/// that get invoked.
pub open spec fn spec_invoked(args: Seq<Type>, inputs: Seq<Seq<Number>>, n: int) -> nat
    decreases n,
{
    if n <= 0 {
        0
    } else {
        spec_invoked(args, inputs, n - 1) + if spec_prepare(args, inputs[n - 1]) is Ok {
            1nat
        } else {
            0nat
        }
    }
}

/// How the test of `fun` may end, whatever its calls return.
pub open spec fn spec_outcome_fits(fun: Fun, o: Outcome) -> bool {
    match o {
        Outcome::Missing => true,
        Outcome::Skipped => fun@.test is None,
        Outcome::RowCountMismatch => match fun@.test {
            Some(t) => spec_expected_rows(t).len() != t.inputs.len(),
            None => false,
        },
        Outcome::Completed(n) => match fun@.test {
            Some(t) => spec_expected_rows(t).len() == t.inputs.len() && n == spec_invoked(
                fun@.args,
                t.inputs,
                t.inputs.len() as int,
            ),
            None => false,
        },
    }
}

/// The failures recorded for `fun` when its test ends with `o` and its calls
/// return `outs`.
pub open spec fn spec_fun_records(fun: Fun, o: Outcome, outs: Seq<CallOutcome>) -> Seq<Record> {
    match o {
        Outcome::Missing => seq![Record { fun: fun.name, failure: Failure::NoFunction }],
        Outcome::Skipped => Seq::empty(),
        Outcome::RowCountMismatch => match fun@.test {
            Some(t) => seq![
                Record {
                    fun: fun.name,
                    failure: Failure::RowCountMismatch {
                        outputs: spec_expected_rows(t).len() as usize,
                        inputs: t.inputs.len() as usize,
                    },
                },
            ],
            None => Seq::empty(),
        },
        Outcome::Completed(_) => match fun@.test {
            Some(t) => spec_row_records(
                fun.name,
                fun@.args,
                t.inputs,
                spec_expected_rows(t),
                outs,
                t.inputs.len() as int,
            ),
            None => Seq::empty(),
        },
    }
}

/// The expected rows of a test, with one empty row per input row where the
/// test gives none.
fn expected_rows(test: &Test) -> (r: Vec<Vec<Number>>)
    ensures
        rows_view(r@) == spec_expected_rows(test@),
{
    match &test.outputs {
        Some(o) => {
            let mut rows: Vec<Vec<Number>> = Vec::new();
            let mut i: usize = 0;
            while i < o.len()
                invariant
                    i <= o.len(),
                    rows_view(rows@) =~= rows_view(o@).take(i as int),
                decreases o.len() - i,
            {
                let src = &o[i];
                let mut row: Vec<Number> = Vec::new();
                let mut j: usize = 0;
                while j < src.len()
                    invariant
                        j <= src.len(),
                        row@ =~= src@.take(j as int),
                    decreases src.len() - j,
                {
                    row.push(src[j].copy());
                    j = j + 1;
                }
                assert(row@ =~= src@);
                let ghost before = rows@;
                rows.push(row);
                assert(rows_view(rows@) =~= rows_view(before).push(row@));
                i = i + 1;
            }
            assert(rows_view(o@).take(o.len() as int) =~= rows_view(o@));
            rows
        },
        None => {
            let mut rows: Vec<Vec<Number>> = Vec::new();
            let mut i: usize = 0;
            while i < test.inputs.len()
                invariant
                    i <= test.inputs.len(),
                    rows_view(rows@) =~= Seq::new(i as nat, |k: int| Seq::<Number>::empty()),
                decreases test.inputs.len() - i,
            {
                let ghost before = rows@;
                let empty: Vec<Number> = Vec::new();
                rows.push(empty);
                assert(rows_view(rows@) =~= rows_view(before).push(Seq::<Number>::empty()));
                i = i + 1;
            }
            rows
        },
    }
}

/// Invokes `f` on `args`; `None` when the call traps.
fn invoke(f: &Func, args: &Vec<Value>) -> (r: Option<Vec<Option<Value>>>) {
    let mut params: Vec<Val> = Vec::new();
    let mut i: usize = 0;
    while i < args.len()
        invariant
            i <= args.len(),
        decreases args.len() - i,
    {
        params.push(to_val(args[i]));
        i = i + 1;
    }
    match call_func(f, &params) {
        Ok(results) => {
            let mut out: Vec<Option<Value>> = Vec::new();
            let mut j: usize = 0;
            while j < results.len()
                invariant
                    j <= results.len(),
                decreases results.len() - j,
            {
                out.push(from_val(&results[j]));
                j = j + 1;
            }
            Some(out)
        },
        Err(_) => None,
    }
}


proof fn lemma_row_records_prefix(
    name: String,
    args: Seq<Type>,
    inputs: Seq<Seq<Number>>,
    expected: Seq<Seq<Number>>,
    outs: Seq<CallOutcome>,
    x: CallOutcome,
    n: int,
)
    requires
        0 <= n <= outs.len(),
    ensures
        spec_row_records(name, args, inputs, expected, outs.push(x), n) == spec_row_records(
            name,
            args,
            inputs,
            expected,
            outs,
            n,
        ),
    decreases n,
{
    if n > 0 {
        lemma_row_records_prefix(name, args, inputs, expected, outs, x, n - 1);
        assert(outs.push(x)[n - 1] == outs[n - 1]);
    }
}

/// Tests one function, given what looking it up in the live instance found:
/// runs each row of its test in order, recording every failure against the
/// function's name and going on past each failed row. Whatever the calls
/// return, the records added are those of `spec_fun_records` for what they
/// returned.
pub fn test_fun(fun: &Fun, found: Option<Func>, handler: &mut ErrorHandler) -> (o: Outcome)
    requires
        old(handler).wf(),
    ensures
        final(handler).wf(),
        (o is Missing) == (found is None),
        spec_outcome_fits(*fun, o),
        final(handler)@.1.len() >= old(handler)@.1.len(),
        final(handler)@.1.take(old(handler)@.1.len() as int) == old(handler)@.1,
        final(handler)@.0 == (old(handler)@.0 || final(handler)@.1.len() > old(handler)@.1.len()),
        exists|outs: Seq<CallOutcome>|
            final(handler)@.1 == old(handler)@.1 + #[trigger] spec_fun_records(*fun, o, outs),
{
    let ghost start = handler@.1;
    let callable = match found {
        Some(c) => c,
        None => {
            handler.report(fun.name.clone(), Failure::NoFunction);
            assert(handler@.1 =~= start + spec_fun_records(*fun, Outcome::Missing, Seq::empty()));
            assert(handler@.1.take(start.len() as int) =~= start);
            return Outcome::Missing;
        },
    };
    match &fun.test {
        None => {
            assert(handler@.1 =~= start + spec_fun_records(*fun, Outcome::Skipped, Seq::empty()));
            assert(handler@.1.take(start.len() as int) =~= start);
            Outcome::Skipped
        },
        Some(test) => {
            let outputs = expected_rows(test);
            if test.inputs.len() != outputs.len() {
                handler.report(
                    fun.name.clone(),
                    Failure::RowCountMismatch { outputs: outputs.len(), inputs: test.inputs.len() },
                );
                assert(handler@.1 =~= start + spec_fun_records(
                    *fun,
                    Outcome::RowCountMismatch,
                    Seq::empty(),
                ));
                assert(handler@.1.take(start.len() as int) =~= start);
                return Outcome::RowCountMismatch;
            }
            let ghost outs: Seq<CallOutcome> = Seq::empty();
            let mut invoked: usize = 0;
            let mut i: usize = 0;
            assert(handler@.1 =~= start + Seq::<Record>::empty());
            while i < test.inputs.len()
                invariant
                    i <= test.inputs.len(),
                    outputs.len() == test.inputs.len(),
                    rows_view(outputs@) == spec_expected_rows(test@),
                    fun@.test == Some(test@),
                    handler.wf(),
                    outs.len() == i,
                    handler@.1 == start + spec_row_records(
                        fun.name,
                        fun@.args,
                        test@.inputs,
                        spec_expected_rows(test@),
                        outs,
                        i as int,
                    ),
                    handler@.0 == (old(handler)@.0 || handler@.1.len() > start.len()),
                    start == old(handler)@.1,
                    invoked == spec_invoked(fun@.args, test@.inputs, i as int),
                    invoked <= i,
                decreases test.inputs.len() - i,
            {
                let ghost before = handler@.1;
                let ghost prev_outs = outs;
                assert(test@.inputs[i as int] == test.inputs[i as int]@);
                assert(spec_expected_rows(test@)[i as int] == outputs[i as int]@);
                match prepare_values(&fun.args, &test.inputs[i]) {
                    Err(f) => {
                        handler.report(fun.name.clone(), f);
                        proof {
                            outs = outs.push(None);
                        }
                    },
                    Ok(args) => {
                        invoked = invoked + 1;
                        match invoke(&callable, &args) {
                            None => {
                                handler.report(fun.name.clone(), Failure::Trapped);
                                proof {
                                    outs = outs.push(None);
                                }
                            },
                            Some(results) => {
                                proof {
                                    outs = outs.push(Some(results@));
                                }
                                match test_equality(&outputs[i], &results) {
                                    Ok(()) => {},
                                    Err(f) => {
                                        handler.report(fun.name.clone(), f);
                                    },
                                }
                            },
                        }
                    },
                }
                proof {
                    lemma_row_records_prefix(
                        fun.name,
                        fun@.args,
                        test@.inputs,
                        spec_expected_rows(test@),
                        prev_outs,
                        outs.last(),
                        i as int,
                    );
                    assert(outs == prev_outs.push(outs.last()));
                }
                i = i + 1;
            }
            assert(handler@.1 == start + spec_fun_records(*fun, Outcome::Completed(invoked), outs));
            assert(handler@.1.take(start.len() as int) =~= start);
            Outcome::Completed(invoked)
        },
    }
}

/// The records of the functions `0..n`, each ending with its outcome and its
/// calls returning what `outss` holds for it.
pub open spec fn spec_module_records(
    funs: Seq<Fun>,
    os: Seq<Outcome>,
    outss: Seq<Seq<CallOutcome>>,
    n: int,
) -> Seq<Record>
    decreases n,
{
    if n <= 0 {
        Seq::empty()
    } else {
        spec_module_records(funs, os, outss, n - 1) + spec_fun_records(funs[n - 1], os[n - 1], outss[n - 1])
    }
}

proof fn lemma_module_records_prefix(
    funs: Seq<Fun>,
    os: Seq<Outcome>,
    outss: Seq<Seq<CallOutcome>>,
    o: Outcome,
    x: Seq<CallOutcome>,
    n: int,
)
    requires
        0 <= n <= os.len(),
        n <= outss.len(),
    ensures
        spec_module_records(funs, os.push(o), outss.push(x), n) == spec_module_records(
            funs,
            os,
            outss,
            n,
        ),
    decreases n,
{
    if n > 0 {
        lemma_module_records_prefix(funs, os, outss, o, x, n - 1);
        assert(os.push(o)[n - 1] == os[n - 1]);
        assert(outss.push(x)[n - 1] == outss[n - 1]);
    }
}

/// Tests every function of the plan in order; no function's failures stop
/// the functions after it. The records added are those of each function in
/// turn, for what its calls returned.
pub fn test_module(spec: &Module, instance: &Instance, handler: &mut ErrorHandler) -> (r: Vec<
    Outcome,
>)
    requires
        old(handler).wf(),
    ensures
        final(handler).wf(),
        r.len() == spec.funs.len(),
        forall|i: int| 0 <= i < r.len() ==> spec_outcome_fits(spec.funs[i], #[trigger] r[i]),
        final(handler)@.0 == (old(handler)@.0 || final(handler)@.1.len() > old(handler)@.1.len()),
        exists|outss: Seq<Seq<CallOutcome>>|
            outss.len() == spec.funs.len() && final(handler)@.1 == old(handler)@.1
                + #[trigger] spec_module_records(spec.funs@, r@, outss, spec.funs.len() as int),
{
    let mut outcomes: Vec<Outcome> = Vec::new();
    let ghost outss: Seq<Seq<CallOutcome>> = Seq::empty();
    let mut i: usize = 0;
    assert(handler@.1 =~= old(handler)@.1 + Seq::<Record>::empty());
    while i < spec.funs.len()
        invariant
            i <= spec.funs.len(),
            outcomes.len() == i,
            outss.len() == i,
            forall|k: int| 0 <= k < i ==> spec_outcome_fits(spec.funs[k], #[trigger] outcomes[k]),
            handler.wf(),
            handler@.1 == old(handler)@.1 + spec_module_records(spec.funs@, outcomes@, outss, i as int),
            handler@.0 == (old(handler)@.0 || handler@.1.len() > old(handler)@.1.len()),
        decreases spec.funs.len() - i,
    {
        let ghost before = handler@.1;
        let ghost prev_os = outcomes@;
        let ghost prev_outss = outss;
        let found = lookup_func(instance, &spec.funs[i].name);
        let o = test_fun(&spec.funs[i], found, handler);
        let ghost outs = choose|outs: Seq<CallOutcome>|
            handler@.1 == before + #[trigger] spec_fun_records(spec.funs[i as int], o, outs);
        outcomes.push(o);
        proof {
            outss = outss.push(outs);
            lemma_module_records_prefix(spec.funs@, prev_os, prev_outss, o, outs, i as int);
            assert(outcomes@ == prev_os.push(o));
            assert(handler@.1 =~= old(handler)@.1 + spec_module_records(
                spec.funs@,
                outcomes@,
                outss,
                i + 1,
            ));
        }
        i = i + 1;
    }
    outcomes
}

/// The records of rows `a..n`, given what each call returned.
pub open spec fn spec_rows_between(
    name: String,
    args: Seq<Type>,
    inputs: Seq<Seq<Number>>,
    expected: Seq<Seq<Number>>,
    outs: Seq<CallOutcome>,
    a: int,
    n: int,
) -> Seq<Record>
    decreases n - a,
{
    if n <= a {
        Seq::empty()
    } else {
        let prev = spec_rows_between(name, args, inputs, expected, outs, a, n - 1);
        match spec_row_failure(args, inputs[n - 1], expected[n - 1], outs[n - 1]) {
            Some(f) => prev.push(Record { fun: name, failure: f }),
            None => prev,
        }
    }
}

/// A trap does not stop a test: when the call of row `j` traps, that row
/// adds one `Trapped` record and the rows after it are still run, each adding
/// the records of its own outcome.
pub proof fn lemma_trap_does_not_stop_rows(
    name: String,
    args: Seq<Type>,
    inputs: Seq<Seq<Number>>,
    expected: Seq<Seq<Number>>,
    outs: Seq<CallOutcome>,
    j: int,
    n: int,
)
    requires
        0 <= j < n <= outs.len(),
        outs[j] is None,
        spec_prepare(args, inputs[j]) is Ok,
    ensures
        spec_row_records(name, args, inputs, expected, outs, n) == spec_row_records(
            name,
            args,
            inputs,
            expected,
            outs,
            j,
        ) + seq![Record { fun: name, failure: Failure::Trapped }] + spec_rows_between(
            name,
            args,
            inputs,
            expected,
            outs,
            j + 1,
            n,
        ),
    decreases n,
{
    let pre = spec_row_records(name, args, inputs, expected, outs, j);
    let rec = seq![Record { fun: name, failure: Failure::Trapped }];
    if n == j + 1 {
        assert(spec_row_records(name, args, inputs, expected, outs, n) =~= pre + rec + Seq::empty());
    } else {
        lemma_trap_does_not_stop_rows(name, args, inputs, expected, outs, j, n - 1);
        let mid = spec_rows_between(name, args, inputs, expected, outs, j + 1, n - 1);
        match spec_row_failure(args, inputs[n - 1], expected[n - 1], outs[n - 1]) {
            Some(f) => {
                assert((pre + rec + mid).push(Record { fun: name, failure: f }) =~= pre + rec
                    + mid.push(Record { fun: name, failure: f }));
            },
            None => {},
        }
    }
}

/// When `with` and `expect` differ in their numbers of rows, a function that
/// the module exports ends without running any row, with exactly one record:
/// the structural failure that gives both counts.
pub proof fn lemma_row_count_mismatch(fun: Fun, o: Outcome, outs: Seq<CallOutcome>)
    requires
        spec_outcome_fits(fun, o),
        !(o is Missing),
        fun@.test is Some,
        spec_expected_rows(fun@.test->Some_0).len() != fun@.test->Some_0.inputs.len(),
    ensures
        o == Outcome::RowCountMismatch,
        spec_fun_records(fun, o, outs) == seq![
            Record {
                fun: fun.name,
                failure: Failure::RowCountMismatch {
                    outputs: spec_expected_rows(fun@.test->Some_0).len() as usize,
                    inputs: fun@.test->Some_0.inputs.len() as usize,
                },
            },
        ],
        spec_fun_records(fun, o, outs).len() == 1,
        !spec_fun_records(fun, o, outs)[0].failure.is_row_level(),
{
}

/// A function that the module does not export gets exactly one record,
/// `NoFunction`, whatever any call would return: none of its rows is run.
pub proof fn lemma_missing_function(fun: Fun, outs: Seq<CallOutcome>)
    ensures
        spec_fun_records(fun, Outcome::Missing, outs) == seq![
            Record { fun: fun.name, failure: Failure::NoFunction },
        ],
        spec_fun_records(fun, Outcome::Missing, outs) == spec_fun_records(
            fun,
            Outcome::Missing,
            Seq::empty(),
        ),
{
}

} // verus!

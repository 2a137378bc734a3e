use vstd::prelude::*;
use crate::doc::{Doc, Number};

verus! {

/// The four numeric kinds a tested function may take or return.
#[derive(Clone, Copy, Debug, PartialEq, Eq, Structural)]
pub enum Type {
    I32,
    I64,
    F32,
    F64,
}

/// Whether two strings hold the same characters.
fn str_is(s: &str, lit: &str) -> (r: bool)
    ensures
        r == (s@ == lit@),
{
    let a = s.to_owned();
    let b = lit.to_owned();
    a == b
}

/// What a type name denotes, if it is one of the four accepted names.
pub open spec fn spec_type_from_str(s: Seq<char>) -> Option<Type> {
    if s == "i32"@ {
        Some(Type::I32)
    } else if s == "i64"@ {
        Some(Type::I64)
    } else if s == "f32"@ {
        Some(Type::F32)
    } else if s == "f64"@ {
        Some(Type::F64)
    } else {
        None
    }
}

/// Reads a type name; any name but `i32`, `i64`, `f32` and `f64` is refused.
pub fn type_from_str(s: &str) -> (r: Result<Type, SpecError>)
    ensures
        r == spec_type_result(s@),
{
    if str_is(s, "i32") {
        Ok(Type::I32)
    } else if str_is(s, "i64") {
        Ok(Type::I64)
    } else if str_is(s, "f32") {
        Ok(Type::F32)
    } else if str_is(s, "f64") {
        Ok(Type::F64)
    } else {
        Err(SpecError::InvalidType)
    }
}

/// A type name read as a type, or refused.
pub open spec fn spec_type_result(s: Seq<char>) -> Result<Type, SpecError> {
    match spec_type_from_str(s) {
        Some(t) => Ok(t),
        None => Err(SpecError::InvalidType),
    }
}

impl View for Type {
    type V = Type;

    open spec fn view(&self) -> Type {
        *self
    }
}

/// Why a document is not a valid test plan.
#[derive(Debug, PartialEq, Eq)]
pub enum SpecError {
    RootNotMapping,
    RootKeyNotString,
    UnknownRootKey(String),
    MissingFile,
    FileNotString,
    FileNotFound(String),
    FunsNotMapping,
    FunNameNotString,
    FunNotMapping,
    FunAttributeNotString,
    UnknownFunAttribute(String),
    MissingArgs,
    MissingOut,
    ArgNotString,
    ArgsShape,
    OutNotString,
    InvalidType,
    TestNotMapping,
    TestKeyNotString,
    UnknownTestKey(String),
    MissingWith,
    WithShape,
    ExpectShape,
    ValueNotNumber,
    InputRowShape,
    OutputRowShape,
}

/// A table of literals, one row per call.
pub open spec fn rows_view(v: Seq<Vec<Number>>) -> Seq<Seq<Number>> {
    v.map_values(|r: Vec<Number>| r@)
}

/// The literals of a sequence, refused at the first item that is not a number.
pub open spec fn spec_numbers(s: Seq<Doc>) -> Result<Seq<Number>, SpecError>
    decreases s.len(),
{
    if s.len() == 0 {
        Ok(Seq::empty())
    } else {
        match spec_numbers(s.drop_last()) {
            Err(e) => Err(e),
            Ok(r) => match s.last() {
                Doc::Num(n) => Ok(r.push(n)),
                _ => Err(SpecError::ValueNotNumber),
            },
        }
    }
}

/// The error for a row of `with` (`input`) or of `expect` of the wrong shape.
pub open spec fn row_shape_error(input: bool) -> SpecError {
    if input {
        SpecError::InputRowShape
    } else {
        SpecError::OutputRowShape
    }
}

/// The error for a `with` (`input`) or `expect` entry of the wrong shape.
pub open spec fn table_shape_error(input: bool) -> SpecError {
    if input {
        SpecError::WithShape
    } else {
        SpecError::ExpectShape
    }
}

/// One row of a table given row by row: a number alone, or a sequence of numbers.
pub open spec fn spec_row(d: Doc, input: bool) -> Result<Seq<Number>, SpecError> {
    match d {
        Doc::Num(n) => Ok(seq![n]),
        Doc::Sequence(v) => spec_numbers(v@),
        _ => Err(row_shape_error(input)),
    }
}

/// The rows of a table given row by row.
pub open spec fn spec_rows(s: Seq<Doc>, input: bool) -> Result<Seq<Seq<Number>>, SpecError>
    decreases s.len(),
{
    if s.len() == 0 {
        Ok(Seq::empty())
    } else {
        match spec_rows(s.drop_last(), input) {
            Err(e) => Err(e),
            Ok(r) => match spec_row(s.last(), input) {
                Ok(row) => Ok(r.push(row)),
                Err(e) => Err(e),
            },
        }
    }
}

/// A non-empty sequence whose items are all numbers: a single row.
pub open spec fn all_numbers(s: Seq<Doc>) -> bool {
    s.len() > 0 && forall|i: int| 0 <= i < s.len() ==> (#[trigger] s[i] is Num)
}

/// The table of a `with` (input) or `expect` entry: a number is one row of one
/// value, a non-empty sequence of numbers one row, and any other sequence lists
/// the rows.
pub open spec fn spec_table(d: Doc, input: bool) -> Result<Seq<Seq<Number>>, SpecError> {
    match d {
        Doc::Num(n) => Ok(seq![seq![n]]),
        Doc::Sequence(v) => if all_numbers(v@) {
            match spec_numbers(v@) {
                Ok(r) => Ok(seq![r]),
                Err(e) => Err(e),
            }
        } else {
            spec_rows(v@, input)
        },
        _ => Err(table_shape_error(input)),
    }
}

fn parse_numbers(items: &Vec<Doc>) -> (r: Result<Vec<Number>, SpecError>)
    ensures
        match r {
            Ok(v) => spec_numbers(items@) == Ok::<Seq<Number>, SpecError>(v@),
            Err(e) => spec_numbers(items@) == Err::<Seq<Number>, SpecError>(e),
        },
{
    let mut values: Vec<Number> = Vec::new();
    let mut i: usize = 0;
    while i < items.len()
        invariant
            i <= items.len(),
            spec_numbers(items@.take(i as int)) == Ok::<Seq<Number>, SpecError>(values@),
        decreases items.len() - i,
    {
        assert(items@.take(i + 1).drop_last() =~= items@.take(i as int));
        match &items[i] {
            Doc::Num(n) => {
                values.push(n.copy());
            },
            _ => {
                proof { lemma_numbers_err(items@, i + 1); }
                return Err(SpecError::ValueNotNumber);
            },
        }
        i = i + 1;
    }
    assert(items@.take(items.len() as int) =~= items@);
    Ok(values)
}

proof fn lemma_numbers_err(s: Seq<Doc>, j: int)
    requires
        0 <= j <= s.len(),
        spec_numbers(s.take(j)) is Err,
    ensures
        spec_numbers(s) == spec_numbers(s.take(j)),
    decreases s.len() - j,
{
    if j < s.len() {
        assert(s.take(j + 1).drop_last() =~= s.take(j));
        lemma_numbers_err(s, j + 1);
    } else {
        assert(s.take(j) =~= s);
    }
}


fn row_shape(input: bool) -> (r: SpecError)
    ensures
        r == row_shape_error(input),
{
    if input {
        SpecError::InputRowShape
    } else {
        SpecError::OutputRowShape
    }
}

fn parse_row(d: &Doc, input: bool) -> (r: Result<Vec<Number>, SpecError>)
    ensures
        match r {
            Ok(v) => spec_row(*d, input) == Ok::<Seq<Number>, SpecError>(v@),
            Err(e) => spec_row(*d, input) == Err::<Seq<Number>, SpecError>(e),
        },
{
    match d {
        Doc::Num(n) => {
            let mut v: Vec<Number> = Vec::new();
            v.push(n.copy());
            assert(v@ =~= seq![*n]);
            Ok(v)
        },
        Doc::Sequence(items) => parse_numbers(items),
        _ => Err(row_shape(input)),
    }
}

proof fn lemma_rows_err(s: Seq<Doc>, input: bool, j: int)
    requires
        0 <= j <= s.len(),
        spec_rows(s.take(j), input) is Err,
    ensures
        spec_rows(s, input) == spec_rows(s.take(j), input),
    decreases s.len() - j,
{
    if j < s.len() {
        assert(s.take(j + 1).drop_last() =~= s.take(j));
        lemma_rows_err(s, input, j + 1);
    } else {
        assert(s.take(j) =~= s);
    }
}

fn parse_rows(items: &Vec<Doc>, input: bool) -> (r: Result<Vec<Vec<Number>>, SpecError>)
    ensures
        match r {
            Ok(v) => spec_rows(items@, input) == Ok::<Seq<Seq<Number>>, SpecError>(rows_view(v@)),
            Err(e) => spec_rows(items@, input) == Err::<Seq<Seq<Number>>, SpecError>(e),
        },
{
    let mut rows: Vec<Vec<Number>> = Vec::new();
    let mut i: usize = 0;
    assert(rows_view(rows@) =~= Seq::<Seq<Number>>::empty());
    assert(items@.take(0) =~= Seq::<Doc>::empty());
    while i < items.len()
        invariant
            i <= items.len(),
            spec_rows(items@.take(i as int), input) == Ok::<Seq<Seq<Number>>, SpecError>(rows_view(rows@)),
        decreases items.len() - i,
    {
        assert(items@.take(i + 1).drop_last() =~= items@.take(i as int));
        match parse_row(&items[i], input) {
            Ok(row) => {
                let ghost before = rows@;
                rows.push(row);
                assert(rows_view(rows@) =~= rows_view(before).push(row@));
            },
            Err(e) => {
                proof { lemma_rows_err(items@, input, i + 1); }
                return Err(e);
            },
        }
        i = i + 1;
    }
    assert(items@.take(items.len() as int) =~= items@);
    Ok(rows)
}

fn is_all_numbers(items: &Vec<Doc>) -> (r: bool)
    ensures
        r == all_numbers(items@),
{
    if items.len() == 0 {
        return false;
    }
    let mut i: usize = 0;
    while i < items.len()
        invariant
            i <= items.len(),
            forall|j: int| 0 <= j < i ==> (#[trigger] items@[j] is Num),
        decreases items.len() - i,
    {
        match &items[i] {
            Doc::Num(_) => {},
            _ => {
                return false;
            },
        }
        i = i + 1;
    }
    true
}

/// Reads the table of a `with` entry (`input`) or of an `expect` entry.
pub fn parse_table(d: &Doc, input: bool) -> (r: Result<Vec<Vec<Number>>, SpecError>)
    ensures
        match r {
            Ok(v) => spec_table(*d, input) == Ok::<Seq<Seq<Number>>, SpecError>(rows_view(v@)),
            Err(e) => spec_table(*d, input) == Err::<Seq<Seq<Number>>, SpecError>(e),
        },
{
    match d {
        Doc::Num(n) => {
            let mut row: Vec<Number> = Vec::new();
            row.push(n.copy());
            let mut rows: Vec<Vec<Number>> = Vec::new();
            rows.push(row);
            assert(rows_view(rows@) =~= seq![seq![*n]]);
            Ok(rows)
        },
        Doc::Sequence(items) => {
            if is_all_numbers(items) {
                let row = parse_numbers(items)?;
                let mut rows: Vec<Vec<Number>> = Vec::new();
                rows.push(row);
                assert(rows_view(rows@) =~= seq![row@]);
                Ok(rows)
            } else {
                parse_rows(items, input)
            }
        },
        _ => {
            if input {
                Err(SpecError::WithShape)
            } else {
                Err(SpecError::ExpectShape)
            }
        },
    }
}


/// The inputs of a tested function and, optionally, the results expected of it.
pub struct Test {
    pub inputs: Vec<Vec<Number>>,
    pub outputs: Option<Vec<Vec<Number>>>,
}

/// The model of a `Test`: its tables as sequences of rows.
pub struct TestModel {
    pub inputs: Seq<Seq<Number>>,
    pub outputs: Option<Seq<Seq<Number>>>,
}

/// The model of an optional table.
pub open spec fn opt_rows_view(o: Option<Vec<Vec<Number>>>) -> Option<Seq<Seq<Number>>> {
    match o {
        Some(v) => Some(rows_view(v@)),
        None => None,
    }
}

impl View for Test {
    type V = TestModel;

    open spec fn view(&self) -> TestModel {
        TestModel { inputs: rows_view(self.inputs@), outputs: opt_rows_view(self.outputs) }
    }
}

/// One exported function to test: its name, argument types, result type and
/// optional test table.
pub struct Fun {
    pub name: String,
    pub args: Vec<Type>,
    pub out: Type,
    pub test: Option<Test>,
}

/// The model of a `Fun`.
pub struct FunModel {
    pub name: Seq<char>,
    pub args: Seq<Type>,
    pub out: Type,
    pub test: Option<TestModel>,
}

impl View for Fun {
    type V = FunModel;

    open spec fn view(&self) -> FunModel {
        FunModel {
            name: self.name@,
            args: self.args@,
            out: self.out,
            test: match self.test {
                Some(t) => Some(t@),
                None => None,
            },
        }
    }
}

/// A whole test plan: the module's path and the functions to test, in order.
pub struct Module {
    pub funs: Vec<Fun>,
    pub path: String,
}

/// The model of a `Module`.
pub struct ModuleModel {
    pub path: Seq<char>,
    pub funs: Seq<FunModel>,
}

/// The models of a sequence of functions.
pub open spec fn funs_view(v: Seq<Fun>) -> Seq<FunModel> {
    v.map_values(|f: Fun| f@)
}

impl View for Module {
    type V = ModuleModel;

    open spec fn view(&self) -> ModuleModel {
        ModuleModel { path: self.path@, funs: funs_view(self.funs@) }
    }
}

/// The entries of a `test` mapping, read in order from the state `(with, expect)`.
pub open spec fn spec_test_entries(
    s: Seq<(Doc, Doc)>,
    with: Option<Seq<Seq<Number>>>,
    expect: Option<Seq<Seq<Number>>>,
) -> Result<(Option<Seq<Seq<Number>>>, Option<Seq<Seq<Number>>>), SpecError>
    decreases s.len(),
{
    if s.len() == 0 {
        Ok((with, expect))
    } else {
        match s[0].0 {
            Doc::Text(k) => if k@ == "with"@ {
                match spec_table(s[0].1, true) {
                    Ok(t) => spec_test_entries(s.skip(1), Some(t), expect),
                    Err(e) => Err(e),
                }
            } else if k@ == "expect"@ {
                match spec_table(s[0].1, false) {
                    Ok(t) => spec_test_entries(s.skip(1), with, Some(t)),
                    Err(e) => Err(e),
                }
            } else {
                Err(SpecError::UnknownTestKey(k))
            },
            _ => Err(SpecError::TestKeyNotString),
        }
    }
}

/// A `test` mapping: `with` is required, `expect` optional.
pub open spec fn spec_test(d: Doc) -> Result<TestModel, SpecError> {
    match d {
        Doc::Mapping(es) => match spec_test_entries(es@, None, None) {
            Ok(st) => match st.0 {
                Some(i) => Ok(TestModel { inputs: i, outputs: st.1 }),
                None => Err(SpecError::MissingWith),
            },
            Err(e) => Err(e),
        },
        _ => Err(SpecError::TestNotMapping),
    }
}

/// Reads a `test` mapping.
pub fn parse_test(d: &Doc) -> (r: Result<Test, SpecError>)
    ensures
        match r {
            Ok(t) => spec_test(*d) == Ok::<TestModel, SpecError>(t@),
            Err(e) => spec_test(*d) == Err::<TestModel, SpecError>(e),
        },
{
    match d {
        Doc::Mapping(es) => {
            let mut with: Option<Vec<Vec<Number>>> = None;
            let mut expect: Option<Vec<Vec<Number>>> = None;
            let mut i: usize = 0;
            assert(es@.skip(0) =~= es@);
            while i < es.len()
                invariant
                    i <= es.len(),
                    *d == Doc::Mapping(*es),
                    spec_test_entries(es@.skip(i as int), opt_rows_view(with), opt_rows_view(expect))
                        == spec_test_entries(es@, None, None),
                decreases es.len() - i,
            {
                assert(es@.skip(i as int).skip(1) =~= es@.skip(i + 1));
                assert(es@.skip(i as int)[0] == es@[i as int]);
                let entry = &es[i];
                match &entry.0 {
                    Doc::Text(k) => {
                        if str_is(k.as_str(), "with") {
                            with = Some(parse_table(&entry.1, true)?);
                        } else if str_is(k.as_str(), "expect") {
                            expect = Some(parse_table(&entry.1, false)?);
                        } else {
                            return Err(SpecError::UnknownTestKey(k.clone()));
                        }
                    },
                    _ => {
                        return Err(SpecError::TestKeyNotString);
                    },
                }
                i = i + 1;
            }
            match with {
                Some(inputs) => Ok(Test { inputs, outputs: expect }),
                None => Err(SpecError::MissingWith),
            }
        },
        _ => Err(SpecError::TestNotMapping),
    }
}

/// The items of an `args` sequence, read in order after the types `acc`.
pub open spec fn spec_arg_items(s: Seq<Doc>, acc: Seq<Type>) -> Result<Seq<Type>, SpecError>
    decreases s.len(),
{
    if s.len() == 0 {
        Ok(acc)
    } else {
        match s[0] {
            Doc::Text(t) => match spec_type_result(t@) {
                Ok(ty) => spec_arg_items(s.skip(1), acc.push(ty)),
                Err(e) => Err(e),
            },
            _ => Err(SpecError::ArgNotString),
        }
    }
}

/// An `args` entry: one type name, or a sequence of them.
pub open spec fn spec_args(d: Doc) -> Result<Seq<Type>, SpecError> {
    match d {
        Doc::Sequence(v) => spec_arg_items(v@, Seq::empty()),
        Doc::Text(t) => match spec_type_result(t@) {
            Ok(ty) => Ok(seq![ty]),
            Err(e) => Err(e),
        },
        _ => Err(SpecError::ArgsShape),
    }
}

/// An `out` entry: one type name.
pub open spec fn spec_out(d: Doc) -> Result<Type, SpecError> {
    match d {
        Doc::Text(t) => spec_type_result(t@),
        _ => Err(SpecError::OutNotString),
    }
}

/// Reads an `args` entry.
pub fn parse_args(d: &Doc) -> (r: Result<Vec<Type>, SpecError>)
    ensures
        match r {
            Ok(v) => spec_args(*d) == Ok::<Seq<Type>, SpecError>(v@),
            Err(e) => spec_args(*d) == Err::<Seq<Type>, SpecError>(e),
        },
{
    match d {
        Doc::Sequence(items) => {
            let mut args: Vec<Type> = Vec::new();
            let mut i: usize = 0;
            assert(items@.skip(0) =~= items@);
            while i < items.len()
                invariant
                    i <= items.len(),
                    *d == Doc::Sequence(*items),
                    spec_arg_items(items@.skip(i as int), args@) == spec_arg_items(items@, Seq::empty()),
                decreases items.len() - i,
            {
                assert(items@.skip(i as int).skip(1) =~= items@.skip(i + 1));
                assert(items@.skip(i as int)[0] == items@[i as int]);
                match &items[i] {
                    Doc::Text(t) => {
                        let ty = type_from_str(t.as_str())?;
                        args.push(ty);
                    },
                    _ => {
                        return Err(SpecError::ArgNotString);
                    },
                }
                i = i + 1;
            }
            Ok(args)
        },
        Doc::Text(t) => {
            let ty = type_from_str(t.as_str())?;
            let mut args: Vec<Type> = Vec::new();
            args.push(ty);
            assert(args@ =~= seq![ty]);
            Ok(args)
        },
        _ => Err(SpecError::ArgsShape),
    }
}

/// Reads an `out` entry.
pub fn parse_out(d: &Doc) -> (r: Result<Type, SpecError>)
    ensures
        r == spec_out(*d),
{
    match d {
        Doc::Text(t) => type_from_str(t.as_str()),
        _ => Err(SpecError::OutNotString),
    }
}


/// The entries of a function mapping, read in order from the state
/// `(args, out, test)`.
pub open spec fn spec_fun_entries(
    s: Seq<(Doc, Doc)>,
    args: Option<Seq<Type>>,
    out: Option<Type>,
    test: Option<TestModel>,
) -> Result<(Option<Seq<Type>>, Option<Type>, Option<TestModel>), SpecError>
    decreases s.len(),
{
    if s.len() == 0 {
        Ok((args, out, test))
    } else {
        match s[0].0 {
            Doc::Text(k) => if k@ == "args"@ {
                match spec_args(s[0].1) {
                    Ok(a) => spec_fun_entries(s.skip(1), Some(a), out, test),
                    Err(e) => Err(e),
                }
            } else if k@ == "out"@ {
                match spec_out(s[0].1) {
                    Ok(o) => spec_fun_entries(s.skip(1), args, Some(o), test),
                    Err(e) => Err(e),
                }
            } else if k@ == "test"@ {
                match spec_test(s[0].1) {
                    Ok(t) => spec_fun_entries(s.skip(1), args, out, Some(t)),
                    Err(e) => Err(e),
                }
            } else {
                Err(SpecError::UnknownFunAttribute(k))
            },
            _ => Err(SpecError::FunAttributeNotString),
        }
    }
}

/// A function mapping, named `name`: `args` and `out` are required, `test` optional.
pub open spec fn spec_fun(d: Doc, name: Seq<char>) -> Result<FunModel, SpecError> {
    match d {
        Doc::Mapping(es) => match spec_fun_entries(es@, None, None, None) {
            Ok(st) => match st.0 {
                Some(a) => match st.1 {
                    Some(o) => Ok(FunModel { name, args: a, out: o, test: st.2 }),
                    None => Err(SpecError::MissingOut),
                },
                None => Err(SpecError::MissingArgs),
            },
            Err(e) => Err(e),
        },
        _ => Err(SpecError::FunNotMapping),
    }
}

/// The model of an optional test.
pub open spec fn opt_test_view(t: Option<Test>) -> Option<TestModel> {
    match t {
        Some(t) => Some(t@),
        None => None,
    }
}

/// Reads the mapping that declares the function `name`.
pub fn parse_fun(d: &Doc, name: &String) -> (r: Result<Fun, SpecError>)
    ensures
        match r {
            Ok(f) => spec_fun(*d, name@) == Ok::<FunModel, SpecError>(f@),
            Err(e) => spec_fun(*d, name@) == Err::<FunModel, SpecError>(e),
        },
{
    match d {
        Doc::Mapping(es) => {
            let mut args: Option<Vec<Type>> = None;
            let mut out: Option<Type> = None;
            let mut test: Option<Test> = None;
            let mut i: usize = 0;
            assert(es@.skip(0) =~= es@);
            while i < es.len()
                invariant
                    i <= es.len(),
                    *d == Doc::Mapping(*es),
                    spec_fun_entries(
                        es@.skip(i as int),
                        match args {
                            Some(a) => Some(a@),
                            None => None,
                        },
                        out,
                        opt_test_view(test),
                    ) == spec_fun_entries(es@, None, None, None),
                decreases es.len() - i,
            {
                assert(es@.skip(i as int).skip(1) =~= es@.skip(i + 1));
                assert(es@.skip(i as int)[0] == es@[i as int]);
                let entry = &es[i];
                match &entry.0 {
                    Doc::Text(k) => {
                        if str_is(k.as_str(), "args") {
                            args = Some(parse_args(&entry.1)?);
                        } else if str_is(k.as_str(), "out") {
                            out = Some(parse_out(&entry.1)?);
                        } else if str_is(k.as_str(), "test") {
                            test = Some(parse_test(&entry.1)?);
                        } else {
                            return Err(SpecError::UnknownFunAttribute(k.clone()));
                        }
                    },
                    _ => {
                        return Err(SpecError::FunAttributeNotString);
                    },
                }
                i = i + 1;
            }
            match args {
                Some(args) => match out {
                    Some(out) => Ok(Fun { name: name.clone(), args, out, test }),
                    None => Err(SpecError::MissingOut),
                },
                None => Err(SpecError::MissingArgs),
            }
        },
        _ => Err(SpecError::FunNotMapping),
    }
}

/// The entries of the `funs` mapping, read in order after the functions `acc`.
pub open spec fn spec_funs_entries(s: Seq<(Doc, Doc)>, acc: Seq<FunModel>) -> Result<
    Seq<FunModel>,
    SpecError,
>
    decreases s.len(),
{
    if s.len() == 0 {
        Ok(acc)
    } else {
        match s[0].0 {
            Doc::Text(name) => match spec_fun(s[0].1, name@) {
                Ok(f) => spec_funs_entries(s.skip(1), acc.push(f)),
                Err(e) => Err(e),
            },
            _ => Err(SpecError::FunNameNotString),
        }
    }
}

/// The `funs` mapping, from function name to declaration.
pub open spec fn spec_funs(d: Doc) -> Result<Seq<FunModel>, SpecError> {
    match d {
        Doc::Mapping(es) => spec_funs_entries(es@, Seq::empty()),
        _ => Err(SpecError::FunsNotMapping),
    }
}

/// Reads the `funs` mapping.
pub fn parse_funs(d: &Doc) -> (r: Result<Vec<Fun>, SpecError>)
    ensures
        match r {
            Ok(v) => spec_funs(*d) == Ok::<Seq<FunModel>, SpecError>(funs_view(v@)),
            Err(e) => spec_funs(*d) == Err::<Seq<FunModel>, SpecError>(e),
        },
{
    match d {
        Doc::Mapping(es) => {
            let mut funs: Vec<Fun> = Vec::new();
            let mut i: usize = 0;
            assert(es@.skip(0) =~= es@);
            assert(funs_view(funs@) =~= Seq::<FunModel>::empty());
            while i < es.len()
                invariant
                    i <= es.len(),
                    *d == Doc::Mapping(*es),
                    spec_funs_entries(es@.skip(i as int), funs_view(funs@)) == spec_funs_entries(
                        es@,
                        Seq::empty(),
                    ),
                decreases es.len() - i,
            {
                assert(es@.skip(i as int).skip(1) =~= es@.skip(i + 1));
                assert(es@.skip(i as int)[0] == es@[i as int]);
                let entry = &es[i];
                match &entry.0 {
                    Doc::Text(name) => {
                        let f = parse_fun(&entry.1, name)?;
                        let ghost before = funs@;
                        funs.push(f);
                        assert(funs_view(funs@) =~= funs_view(before).push(f@));
                    },
                    _ => {
                        return Err(SpecError::FunNameNotString);
                    },
                }
                i = i + 1;
            }
            Ok(funs)
        },
        _ => Err(SpecError::FunsNotMapping),
    }
}

/// The `file` entry: a string naming an existing file (`file_exists`).
pub open spec fn spec_file(d: Doc, file_exists: bool) -> Result<Seq<char>, SpecError> {
    match d {
        Doc::Text(p) => if file_exists {
            Ok(p@)
        } else {
            Err(SpecError::FileNotFound(p))
        },
        _ => Err(SpecError::FileNotString),
    }
}

/// Reads the `file` entry; `file_exists` tells whether the named file exists.
pub fn parse_file(d: &Doc, file_exists: bool) -> (r: Result<String, SpecError>)
    ensures
        match r {
            Ok(p) => spec_file(*d, file_exists) == Ok::<Seq<char>, SpecError>(p@),
            Err(e) => spec_file(*d, file_exists) == Err::<Seq<char>, SpecError>(e),
        },
{
    match d {
        Doc::Text(p) => {
            if file_exists {
                Ok(p.clone())
            } else {
                Err(SpecError::FileNotFound(p.clone()))
            }
        },
        _ => Err(SpecError::FileNotString),
    }
}

/// The entries of the root mapping, read in order from the state `(file, funs)`.
pub open spec fn spec_root_entries(
    s: Seq<(Doc, Doc)>,
    file_exists: bool,
    file: Option<Seq<char>>,
    funs: Seq<FunModel>,
) -> Result<(Option<Seq<char>>, Seq<FunModel>), SpecError>
    decreases s.len(),
{
    if s.len() == 0 {
        Ok((file, funs))
    } else {
        match s[0].0 {
            Doc::Text(k) => if k@ == "file"@ {
                match spec_file(s[0].1, file_exists) {
                    Ok(p) => spec_root_entries(s.skip(1), file_exists, Some(p), funs),
                    Err(e) => Err(e),
                }
            } else if k@ == "funs"@ {
                match spec_funs(s[0].1) {
                    Ok(fs) => spec_root_entries(s.skip(1), file_exists, file, funs + fs),
                    Err(e) => Err(e),
                }
            } else {
                Err(SpecError::UnknownRootKey(k))
            },
            _ => Err(SpecError::RootKeyNotString),
        }
    }
}

/// The test plan that a document describes, or the first violation met in a
/// depth-first reading of it. `file_exists` tells whether the file that its
/// `file` entry names exists.
pub open spec fn spec_parse(d: Doc, file_exists: bool) -> Result<ModuleModel, SpecError> {
    match d {
        Doc::Mapping(es) => match spec_root_entries(es@, file_exists, None, Seq::empty()) {
            Ok(st) => match st.0 {
                Some(p) => Ok(ModuleModel { path: p, funs: st.1 }),
                None => Err(SpecError::MissingFile),
            },
            Err(e) => Err(e),
        },
        _ => Err(SpecError::RootNotMapping),
    }
}

/// Reads a test plan from a document tree. `file_exists` tells whether the file
/// that the document's `file` entry names exists (see `declared_file`).
pub fn parse(doc: &Doc, file_exists: bool) -> (r: Result<Module, SpecError>)
    ensures
        match r {
            Ok(m) => spec_parse(*doc, file_exists) == Ok::<ModuleModel, SpecError>(m@),
            Err(e) => spec_parse(*doc, file_exists) == Err::<ModuleModel, SpecError>(e),
        },
{
    match doc {
        Doc::Mapping(es) => {
            let mut file: Option<String> = None;
            let mut funs: Vec<Fun> = Vec::new();
            let mut i: usize = 0;
            assert(es@.skip(0) =~= es@);
            assert(funs_view(funs@) =~= Seq::<FunModel>::empty());
            while i < es.len()
                invariant
                    i <= es.len(),
                    *doc == Doc::Mapping(*es),
                    spec_root_entries(
                        es@.skip(i as int),
                        file_exists,
                        match file {
                            Some(p) => Some(p@),
                            None => None,
                        },
                        funs_view(funs@),
                    ) == spec_root_entries(es@, file_exists, None, Seq::empty()),
                decreases es.len() - i,
            {
                assert(es@.skip(i as int).skip(1) =~= es@.skip(i + 1));
                assert(es@.skip(i as int)[0] == es@[i as int]);
                let entry = &es[i];
                match &entry.0 {
                    Doc::Text(k) => {
                        if str_is(k.as_str(), "file") {
                            file = Some(parse_file(&entry.1, file_exists)?);
                        } else if str_is(k.as_str(), "funs") {
                            let mut more = parse_funs(&entry.1)?;
                            let ghost before = funs@;
                            let ghost added = more@;
                            funs.append(&mut more);
                            assert(funs_view(funs@) =~= funs_view(before) + funs_view(added));
                        } else {
                            return Err(SpecError::UnknownRootKey(k.clone()));
                        }
                    },
                    _ => {
                        return Err(SpecError::RootKeyNotString);
                    },
                }
                i = i + 1;
            }
            match file {
                Some(path) => Ok(Module { funs, path }),
                None => Err(SpecError::MissingFile),
            }
        },
        _ => Err(SpecError::RootNotMapping),
    }
}


/// Reading is deterministic: equal documents, with the same answer on the
/// module file's existence, give equal test plans or equal errors, and
/// `parse` returns exactly that result.
pub proof fn lemma_parse_deterministic(d1: Doc, d2: Doc, file_exists: bool)
    requires
        d1 == d2,
    ensures
        spec_parse(d1, file_exists) == spec_parse(d2, file_exists),
{
}


/// The path of the first `file` entry of a root mapping whose value is a
/// string, among the entries `s`.
pub open spec fn spec_first_file(s: Seq<(Doc, Doc)>) -> Option<Seq<char>>
    decreases s.len(),
{
    if s.len() == 0 {
        None
    } else {
        match (s[0].0, s[0].1) {
            (Doc::Text(k), Doc::Text(p)) => if k@ == "file"@ {
                Some(p@)
            } else {
                spec_first_file(s.skip(1))
            },
            _ => spec_first_file(s.skip(1)),
        }
    }
}

/// The module path that a document names, if any: the file whose existence
/// `parse` is told of.
pub open spec fn spec_declared_file(d: Doc) -> Option<Seq<char>> {
    match d {
        Doc::Mapping(es) => spec_first_file(es@),
        _ => None,
    }
}

/// Finds the module path that a document names.
pub fn declared_file(doc: &Doc) -> (r: Option<String>)
    ensures
        match r {
            Some(p) => spec_declared_file(*doc) == Some(p@),
            None => spec_declared_file(*doc) is None,
        },
{
    match doc {
        Doc::Mapping(es) => {
            let mut i: usize = 0;
            assert(es@.skip(0) =~= es@);
            while i < es.len()
                invariant
                    i <= es.len(),
                    *doc == Doc::Mapping(*es),
                    spec_first_file(es@.skip(i as int)) == spec_first_file(es@),
                decreases es.len() - i,
            {
                assert(es@.skip(i as int).skip(1) =~= es@.skip(i + 1));
                assert(es@.skip(i as int)[0] == es@[i as int]);
                let entry = &es[i];
                match (&entry.0, &entry.1) {
                    (Doc::Text(k), Doc::Text(p)) => {
                        if str_is(k.as_str(), "file") {
                            return Some(p.clone());
                        }
                    },
                    _ => {},
                }
                i = i + 1;
            }
            None
        },
        _ => None,
    }
}

} // verus!

use vstd::prelude::*;
use crate::doc::Number;
use crate::parser::Type;

verus! {

/// A machine value of one of the four numeric kinds; floats are held by
/// their bit pattern.
#[derive(Clone, Copy, Debug, PartialEq, Eq, Structural)]
pub enum Value {
    I32(i32),
    I64(i64),
    F32(u32),
    F64(u64),
}

/// What went wrong with one tested function, or with one of its rows.
#[allow(inconsistent_fields)]
#[derive(Debug, PartialEq, Eq)]
pub enum Failure {
    /// The module exports no function of that name.
    NoFunction,
    /// `expect` lists `outputs` rows while `with` lists `inputs` rows.
    RowCountMismatch { outputs: usize, inputs: usize },
    /// A row holds `got` values for `expected` arguments.
    ArgCount { expected: usize, got: usize },
    /// The literal `literal` has no reading as an integer of type `ty`.
    NotAnInteger { literal: String, ty: Type },
    /// The invocation trapped.
    Trapped,
    /// The expected row holds `expected` values, the call returned `got`.
    ResultCount { expected: usize, got: usize },
    /// An integer result differs from the expected literal.
    IntMismatch { expected: i64, actual: i64 },
    /// A 32-bit float result differs, bit for bit, from the expected literal
    /// narrowed to 32 bits.
    F32Mismatch { expected: u32, actual: u32 },
    /// A 64-bit float result differs, bit for bit, from the expected literal.
    F64Mismatch { expected: u64, actual: u64 },
    /// An integer result `actual` met an expected literal, `expected`, that has
    /// no integer reading.
    NotAnIntegerResult { expected: String, actual: i64 },
    /// The call returned a value of a kind that no literal describes.
    UnexpectedReturnType,
}

impl Failure {
    /// Row-level failures: those that concern one row of a test table.
    pub open spec fn is_row_level(&self) -> bool {
        !(self is NoFunction) && !(self is RowCountMismatch)
    }
}

/// The machine value of type `t` that the literal `n` stands for. An integer
/// type keeps the low 32 or all 64 bits of the literal's integer reading; a
/// float type takes the literal's bit pattern at that precision.
pub open spec fn spec_coerce(t: Type, n: Number) -> Result<Value, Failure> {
    match t {
        Type::I32 => match n.int {
            Some(i) => Ok(Value::I32(i as i32)),
            None => Err(Failure::NotAnInteger { literal: n.text, ty: t }),
        },
        Type::I64 => match n.int {
            Some(i) => Ok(Value::I64(i)),
            None => Err(Failure::NotAnInteger { literal: n.text, ty: t }),
        },
        Type::F32 => Ok(Value::F32(n.bits32)),
        Type::F64 => Ok(Value::F64(n.bits64)),
    }
}

/// The values of positions `i..` of a row, appended to `acc`; the first
/// position that cannot be coerced decides the failure.
pub open spec fn spec_coerce_from(types: Seq<Type>, values: Seq<Number>, i: int, acc: Seq<Value>) -> Result<
    Seq<Value>,
    Failure,
>
    decreases values.len() - i,
{
    if i < 0 || i >= values.len() {
        Ok(acc)
    } else {
        match spec_coerce(types[i], values[i]) {
            Ok(v) => spec_coerce_from(types, values, i + 1, acc.push(v)),
            Err(f) => Err(f),
        }
    }
}

/// The arguments that a row of literals stands for, given the declared types.
pub open spec fn spec_prepare(types: Seq<Type>, values: Seq<Number>) -> Result<Seq<Value>, Failure> {
    if types.len() != values.len() {
        Err(Failure::ArgCount { expected: types.len() as usize, got: values.len() as usize })
    } else {
        spec_coerce_from(types, values, 0, Seq::empty())
    }
}

/// Coerces one literal to a machine value of type `t`.
pub fn coerce(t: Type, n: &Number) -> (r: Result<Value, Failure>)
    ensures
        r == spec_coerce(t, *n),
{
    match t {
        Type::I32 => match n.int {
            Some(i) => Ok(Value::I32(#[verifier::truncate] (i as i32))),
            None => Err(Failure::NotAnInteger { literal: n.text.clone(), ty: t }),
        },
        Type::I64 => match n.int {
            Some(i) => Ok(Value::I64(i)),
            None => Err(Failure::NotAnInteger { literal: n.text.clone(), ty: t }),
        },
        Type::F32 => Ok(Value::F32(n.bits32)),
        Type::F64 => Ok(Value::F64(n.bits64)),
    }
}

/// Coerces a row of literals into the arguments of a function whose argument
/// types are `types`.
pub fn prepare_values(types: &Vec<Type>, values: &Vec<Number>) -> (r: Result<Vec<Value>, Failure>)
    ensures
        match r {
            Ok(v) => spec_prepare(types@, values@) == Ok::<Seq<Value>, Failure>(v@),
            Err(f) => spec_prepare(types@, values@) == Err::<Seq<Value>, Failure>(f),
        },
{
    if types.len() != values.len() {
        return Err(Failure::ArgCount { expected: types.len(), got: values.len() });
    }
    let mut prepared: Vec<Value> = Vec::new();
    let mut i: usize = 0;
    while i < values.len()
        invariant
            i <= values.len(),
            types.len() == values.len(),
            spec_coerce_from(types@, values@, i as int, prepared@) == spec_coerce_from(
                types@,
                values@,
                0,
                Seq::empty(),
            ),
        decreases values.len() - i,
    {
        let v = coerce(types[i], &values[i])?;
        prepared.push(v);
        i = i + 1;
    }
    Ok(prepared)
}

/// Whether the result `actual` agrees with the expected literal `expected`:
/// integers by value (the literal narrowed to 32 bits against a 32-bit
/// result), floats by bit pattern at the result's precision.
pub open spec fn spec_value_check(expected: Number, actual: Option<Value>) -> Result<(), Failure> {
    match actual {
        Some(Value::I32(n)) => match expected.int {
            Some(m) => if n == m as i32 {
                Ok(())
            } else {
                Err(Failure::IntMismatch { expected: m, actual: n as i64 })
            },
            None => Err(Failure::NotAnIntegerResult { expected: expected.text, actual: n as i64 }),
        },
        Some(Value::I64(n)) => match expected.int {
            Some(m) => if n == m {
                Ok(())
            } else {
                Err(Failure::IntMismatch { expected: m, actual: n })
            },
            None => Err(Failure::NotAnIntegerResult { expected: expected.text, actual: n }),
        },
        Some(Value::F32(x)) => if x == expected.bits32 {
            Ok(())
        } else {
            Err(Failure::F32Mismatch { expected: expected.bits32, actual: x })
        },
        Some(Value::F64(x)) => if x == expected.bits64 {
            Ok(())
        } else {
            Err(Failure::F64Mismatch { expected: expected.bits64, actual: x })
        },
        None => Err(Failure::UnexpectedReturnType),
    }
}

/// The first disagreement at positions `i..`, if any.
pub open spec fn spec_check_from(target: Seq<Number>, result: Seq<Option<Value>>, i: int) -> Result<
    (),
    Failure,
>
    decreases target.len() - i,
{
    if i < 0 || i >= target.len() {
        Ok(())
    } else {
        match spec_value_check(target[i], result[i]) {
            Ok(_) => spec_check_from(target, result, i + 1),
            Err(f) => Err(f),
        }
    }
}

/// Whether a call's results agree with an expected row; `None` stands for a
/// result of a non-numeric kind.
pub open spec fn spec_equality(target: Seq<Number>, result: Seq<Option<Value>>) -> Result<(), Failure> {
    if target.len() != result.len() {
        Err(Failure::ResultCount { expected: target.len() as usize, got: result.len() as usize })
    } else {
        spec_check_from(target, result, 0)
    }
}

/// Compares one result with one expected literal.
pub fn check_value(expected: &Number, actual: Option<Value>) -> (r: Result<(), Failure>)
    ensures
        r == spec_value_check(*expected, actual),
{
    match actual {
        Some(Value::I32(n)) => match expected.int {
            Some(m) => {
                if n == #[verifier::truncate] (m as i32) {
                    Ok(())
                } else {
                    Err(Failure::IntMismatch { expected: m, actual: n as i64 })
                }
            },
            None => Err(
                Failure::NotAnIntegerResult { expected: expected.text.clone(), actual: n as i64 },
            ),
        },
        Some(Value::I64(n)) => match expected.int {
            Some(m) => {
                if n == m {
                    Ok(())
                } else {
                    Err(Failure::IntMismatch { expected: m, actual: n })
                }
            },
            None => Err(Failure::NotAnIntegerResult { expected: expected.text.clone(), actual: n }),
        },
        Some(Value::F32(x)) => {
            if x == expected.bits32 {
                Ok(())
            } else {
                Err(Failure::F32Mismatch { expected: expected.bits32, actual: x })
            }
        },
        Some(Value::F64(x)) => {
            if x == expected.bits64 {
                Ok(())
            } else {
                Err(Failure::F64Mismatch { expected: expected.bits64, actual: x })
            }
        },
        None => Err(Failure::UnexpectedReturnType),
    }
}

/// Compares the results of a call with the expected row `target`.
pub fn test_equality(target: &Vec<Number>, result: &Vec<Option<Value>>) -> (r: Result<(), Failure>)
    ensures
        r == spec_equality(target@, result@),
{
    if target.len() != result.len() {
        return Err(Failure::ResultCount { expected: target.len(), got: result.len() });
    }
    let mut i: usize = 0;
    while i < target.len()
        invariant
            i <= target.len(),
            target.len() == result.len(),
            spec_check_from(target@, result@, i as int) == spec_check_from(target@, result@, 0),
        decreases target.len() - i,
    {
        check_value(&target[i], result[i])?;
        i = i + 1;
    }
    Ok(())
}

/// Coercion refuses exactly the literals with no integer reading when an
/// integer type is declared, and otherwise narrows no further than the
/// declared width: a 32-bit integer keeps the literal's value modulo 2^32,
/// and the literal's value itself when it fits in 32 bits; a float keeps the
/// literal's bit pattern at the declared precision.
pub proof fn lemma_coercion_narrowing(t: Type, n: Number)
    ensures
        (t is I32 || t is I64) ==> (spec_coerce(t, n) is Err <==> n.int is None),
        (t is F32 || t is F64) ==> spec_coerce(t, n) is Ok,
        t is I32 && n.int is Some ==> {
            let m = n.int->Some_0;
            &&& spec_coerce(t, n) == Ok::<Value, Failure>(Value::I32(m as i32))
            &&& ((m as i32) as int - m as int) % 0x1_0000_0000 == 0
            &&& (i32::MIN <= m <= i32::MAX ==> (m as i32) as int == m as int)
        },
        t is I64 && n.int is Some ==> spec_coerce(t, n) == Ok::<Value, Failure>(
            Value::I64(n.int->Some_0),
        ),
        t is F32 ==> spec_coerce(t, n) == Ok::<Value, Failure>(Value::F32(n.bits32)),
        t is F64 ==> spec_coerce(t, n) == Ok::<Value, Failure>(Value::F64(n.bits64)),
{
    if t is I32 && n.int is Some {
        let m = n.int->Some_0;
        assert((((m as i32) as i64) as int - m as int) % 0x1_0000_0000 == 0) by (bit_vector);
        assert(i32::MIN <= m <= i32::MAX ==> (m as i32) as i64 == m) by (bit_vector);
    }
}

/// Float results are compared by bit pattern, never numerically: a result
/// agrees with a literal exactly when its bits equal the literal's bits at the
/// result's precision.
pub proof fn lemma_float_bit_exact(n: Number, x32: u32, x64: u64)
    ensures
        spec_value_check(n, Some(Value::F32(x32))) is Ok <==> x32 == n.bits32,
        spec_value_check(n, Some(Value::F64(x64))) is Ok <==> x64 == n.bits64,
{
}

} // verus!

use wasmtest::doc::{Doc, Number};
use wasmtest::engine::{test_fun, test_module, Outcome};
use wasmtest::error::ErrorHandler;
use wasmtest::parser::{parse, Module};
use wasmtest::values::Failure;
use wasmtime::{Engine, Instance, Module as WasmModule, Store};

const WAT: &str = r#"
(module
  (func (export "add") (param i32 i32) (result i32)
    local.get 0
    local.get 1
    i32.add)
  (func (export "div") (param i32 i32) (result i32)
    local.get 0
    local.get 1
    i32.div_s)
  (func (export "half") (param f64) (result f64)
    local.get 0
    f64.const 0.5
    f64.mul))
"#;

fn instance() -> Instance {
    let engine = Engine::default();
    let store = Store::new(&engine);
    let module = WasmModule::new(&engine, WAT).unwrap();
    Instance::new(&store, &module, &[]).unwrap()
}

fn lit(i: i64) -> Doc {
    Doc::Num(Number {
        int: Some(i),
        bits64: (i as f64).to_bits(),
        bits32: ((i as f64) as f32).to_bits(),
        text: i.to_string(),
    })
}

fn float(x: f64) -> Doc {
    Doc::Num(Number { int: None, bits64: x.to_bits(), bits32: (x as f32).to_bits(), text: x.to_string() })
}

fn text(s: &str) -> Doc {
    Doc::Text(s.to_string())
}

fn seq(items: Vec<Doc>) -> Doc {
    Doc::Sequence(items)
}

fn map(entries: Vec<(&str, Doc)>) -> Doc {
    Doc::Mapping(entries.into_iter().map(|(k, v)| (text(k), v)).collect())
}

fn rows(r: Vec<Vec<Doc>>) -> Doc {
    seq(r.into_iter().map(seq).collect())
}

fn plan(name: &str, args: Vec<&str>, out: &str, test: Option<Doc>) -> Module {
    let mut decl = vec![("args", seq(args.into_iter().map(text).collect())), ("out", text(out))];
    if let Some(t) = test {
        decl.push(("test", t));
    }
    let doc = map(vec![("file", text("m.wasm")), ("funs", map(vec![(name, map(decl))]))]);
    parse(&doc, true).unwrap()
}

fn run_one(m: &Module) -> (Outcome, ErrorHandler) {
    let inst = instance();
    let mut h = ErrorHandler::new();
    let found = inst.get_func(&m.funs[0].name);
    let o = test_fun(&m.funs[0], found, &mut h);
    (o, h)
}

#[test]
fn add_forty_two_passes() {
    let m = plan(
        "add",
        vec!["i32", "i32"],
        "i32",
        Some(map(vec![("with", rows(vec![vec![lit(40), lit(2)]])), ("expect", rows(vec![vec![lit(42)]]))])),
    );
    let (o, h) = run_one(&m);
    assert_eq!(o, Outcome::Completed(1));
    assert!(!h.has_error());
    assert!(h.records().is_empty());
}

#[test]
fn add_wrong_expectation_is_one_failure() {
    let m = plan(
        "add",
        vec!["i32", "i32"],
        "i32",
        Some(map(vec![("with", rows(vec![vec![lit(40), lit(2)]])), ("expect", rows(vec![vec![lit(41)]]))])),
    );
    let (o, h) = run_one(&m);
    assert_eq!(o, Outcome::Completed(1));
    assert_eq!(h.records().len(), 1);
    assert_eq!(h.records()[0].fun, "add");
    assert_eq!(h.records()[0].failure, Failure::IntMismatch { expected: 41, actual: 42 });
}

#[test]
fn missing_function_is_one_failure() {
    let m = plan(
        "missing_fn",
        vec!["i32"],
        "i32",
        Some(map(vec![("with", rows(vec![vec![lit(1)]]))])),
    );
    let (o, h) = run_one(&m);
    assert_eq!(o, Outcome::Missing);
    assert!(h.has_error());
    assert_eq!(h.records().len(), 1);
    assert_eq!(h.records()[0].fun, "missing_fn");
    assert_eq!(h.records()[0].failure, Failure::NoFunction);
}

#[test]
fn row_count_mismatch_is_one_structural_failure() {
    let m = plan(
        "add",
        vec!["i32", "i32"],
        "i32",
        Some(map(vec![
            ("with", rows(vec![vec![lit(1), lit(2)], vec![lit(3), lit(4)]])),
            ("expect", rows(vec![vec![lit(3)]])),
        ])),
    );
    let (o, h) = run_one(&m);
    assert_eq!(o, Outcome::RowCountMismatch);
    assert_eq!(h.records().len(), 1);
    assert_eq!(h.records()[0].failure, Failure::RowCountMismatch { outputs: 1, inputs: 2 });
}

#[test]
fn trap_does_not_stop_later_rows() {
    let m = plan(
        "div",
        vec!["i32", "i32"],
        "i32",
        Some(map(vec![
            ("with", rows(vec![vec![lit(1), lit(0)], vec![lit(6), lit(3)], vec![lit(7), lit(0)]])),
            ("expect", rows(vec![vec![lit(0)], vec![lit(3)], vec![lit(0)]])),
        ])),
    );
    let (o, h) = run_one(&m);
    assert_eq!(o, Outcome::Completed(3));
    let r = h.records();
    assert_eq!(r.len(), 3);
    assert_eq!(r[0].failure, Failure::Trapped);
    assert_eq!(r[1].failure, Failure::IntMismatch { expected: 3, actual: 2 });
    assert_eq!(r[2].failure, Failure::Trapped);
}

#[test]
fn smoke_rows_expect_no_results() {
    let m = plan("add", vec!["i32", "i32"], "i32", Some(map(vec![("with", rows(vec![vec![lit(1), lit(2)]]))])));
    let (o, h) = run_one(&m);
    assert_eq!(o, Outcome::Completed(1));
    assert_eq!(h.records().len(), 1);
    assert_eq!(h.records()[0].failure, Failure::ResultCount { expected: 0, got: 1 });
}

#[test]
fn uncoercible_row_is_not_invoked() {
    let m = plan(
        "add",
        vec!["i32", "i32"],
        "i32",
        Some(map(vec![
            ("with", rows(vec![vec![float(1.5), lit(2)], vec![lit(1)], vec![lit(2), lit(2)]])),
            ("expect", rows(vec![vec![lit(0)], vec![lit(0)], vec![lit(4)]])),
        ])),
    );
    let (o, h) = run_one(&m);
    assert_eq!(o, Outcome::Completed(1));
    let r = h.records();
    assert_eq!(r.len(), 2);
    assert_eq!(r[0].failure, Failure::NotAnInteger { literal: "1.5".to_string(), ty: wasmtest::parser::Type::I32 });
    assert_eq!(r[1].failure, Failure::ArgCount { expected: 2, got: 1 });
}

#[test]
fn float_results_compare_bits() {
    let m = plan(
        "half",
        vec!["f64"],
        "f64",
        Some(map(vec![
            ("with", rows(vec![vec![float(0.2)], vec![lit(3)]])),
            ("expect", rows(vec![vec![float(0.1)], vec![float(1.4)]])),
        ])),
    );
    let (o, h) = run_one(&m);
    assert_eq!(o, Outcome::Completed(2));
    let r = h.records();
    assert_eq!(r.len(), 1);
    assert_eq!(r[0].failure, Failure::F64Mismatch { expected: 1.4f64.to_bits(), actual: 1.5f64.to_bits() });
}

#[test]
fn function_without_test_is_skipped() {
    let m = plan("add", vec!["i32", "i32"], "i32", None);
    let (o, h) = run_one(&m);
    assert_eq!(o, Outcome::Skipped);
    assert!(!h.has_error());
}

#[test]
fn every_function_is_tested() {
    let doc = map(vec![
        ("file", text("m.wasm")),
        (
            "funs",
            map(vec![
                ("nope", map(vec![("args", text("i32")), ("out", text("i32")), ("test", map(vec![("with", lit(1))]))])),
                (
                    "div",
                    map(vec![
                        ("args", seq(vec![text("i32"), text("i32")])),
                        ("out", text("i32")),
                        ("test", map(vec![("with", seq(vec![lit(1), lit(0)])), ("expect", lit(0))])),
                    ]),
                ),
                (
                    "add",
                    map(vec![
                        ("args", seq(vec![text("i32"), text("i32")])),
                        ("out", text("i32")),
                        ("test", map(vec![("with", seq(vec![lit(1), lit(1)])), ("expect", lit(2))])),
                    ]),
                ),
            ]),
        ),
    ]);
    let m = parse(&doc, true).unwrap();
    let inst = instance();
    let mut h = ErrorHandler::new();
    let outcomes = test_module(&m, &inst, &mut h);
    assert_eq!(outcomes, vec![Outcome::Missing, Outcome::Completed(1), Outcome::Completed(1)]);
    let r = h.records();
    assert_eq!(r.len(), 2);
    assert_eq!(r[0].failure, Failure::NoFunction);
    assert_eq!(r[1].fun, "div");
    assert_eq!(r[1].failure, Failure::Trapped);
}

use brpgen::classify::GenError;
use brpgen::generate::generate;

fn gen(text: &str, status: &str) -> Result<Vec<u8>, GenError> {
    generate(&text.as_bytes().to_vec(), &status.as_bytes().to_vec())
}

fn gen_ok(text: &str, status: &str) -> String {
    String::from_utf8(gen(text, status).unwrap()).unwrap()
}

#[test]
fn test_scenario_value_param() {
    let out = gen_ok("foo(x: c_uint) -> status", "status");
    let expected = "pub struct par_foo {\n    x: Buf<c_uint>,\n}\n\
                    pub fn gen_foo(p: par_foo) -> BrpResult<par_foo> {\n    \
                    try_ok(foo(p.x.read()), p)\n}\n";
    assert_eq!(out, expected);
    assert!(out.contains("foo(p.x.read())"));
}

#[test]
fn test_scenario_single_indirection() {
    let out = gen_ok("foo(buf: brp_buf *) -> status", "status");
    let expected = "pub struct par_foo {\n    buf: Buf<*>,\n}\n\
                    pub fn gen_foo(mut p: par_foo) -> BrpResult<par_foo> {\n    \
                    try_ok(foo(out_ptr(&mut p.buf)), p)\n}\n";
    assert_eq!(out, expected);
    assert!(out.contains("foo(out_ptr(&mut p.buf))"));
}

#[test]
fn test_scenario_double_indirection() {
    let out = gen_ok("foo(buf: brp_buf * *) -> status", "status");
    let expected = "pub struct par_foo {\n    buf: Buf<Ptr<*>>,\n}\n\
                    pub fn gen_foo(mut p: par_foo) -> BrpResult<par_foo> {\n    \
                    try_ok(foo(out_ptr_ptr(&mut p.buf)), p)\n}\n";
    assert_eq!(out, expected);
    assert!(out.contains("foo(out_ptr_ptr(&mut p.buf))"));
}

#[test]
fn test_regeneration_is_byte_identical() {
    let text = "open(ctx: protocol) -> status\n\
                read(ctx: protocol, buf: byte *, n: size * *) -> status\n";
    let first = gen(text, "status").unwrap();
    let second = gen(text, "status").unwrap();
    assert_eq!(first, second);
}

#[test]
fn test_unsupported_indirection_aborts_generation() {
    let r = gen("foo(buf: brp_buf * * *) -> status", "status");
    assert_eq!(r, Err(GenError::UnsupportedIndirection));
}

#[test]
fn test_other_return_type_is_skipped() {
    let out = gen_ok("len(x: c_uint) -> c_int", "status");
    assert_eq!(out, "");
}

#[test]
fn test_line_without_arrow_is_skipped() {
    let out = gen_ok("a plain remark line\n\nfoo(x: c_uint) -> status", "status");
    assert!(out.contains("pub fn gen_foo("));
    assert!(!out.contains("remark"));
}

#[test]
fn test_unbalanced_params_is_parse_error() {
    let r = gen("foo(x: c_uint -> status", "status");
    assert_eq!(r, Err(GenError::GenerationParse));
}

#[test]
fn test_missing_open_paren_is_parse_error() {
    let r = gen("foo x: c_uint) -> status", "status");
    assert_eq!(r, Err(GenError::GenerationParse));
}

#[test]
fn test_one_bad_declaration_aborts_whole_run() {
    let text = "good(x: c_uint) -> status\nbad(y: t * * * *) -> status\n";
    assert_eq!(gen(text, "status"), Err(GenError::UnsupportedIndirection));
}

#[test]
fn test_declarations_emitted_in_order() {
    let out = gen_ok("alpha(x: c_uint) -> status\nbeta(y: c_uint) -> status\n", "status");
    let a = out.find("gen_alpha").unwrap();
    let b = out.find("gen_beta").unwrap();
    assert!(a < b);
    assert!(out.contains("pub struct par_alpha {"));
    assert!(out.contains("pub struct par_beta {"));
}

#[test]
fn test_mixed_levels_keep_declaration_order() {
    let out = gen_ok("mix(a: c_uint, b: brp_buf *, c: brp_buf * *) -> status", "status");
    let expected = "pub struct par_mix {\n    a: Buf<c_uint>,\n    b: Buf<*>,\n    c: Buf<Ptr<*>>,\n}\n\
                    pub fn gen_mix(mut p: par_mix) -> BrpResult<par_mix> {\n    \
                    try_ok(mix(p.a.read(), out_ptr(&mut p.b), out_ptr_ptr(&mut p.c)), p)\n}\n";
    assert_eq!(out, expected);
}

#[test]
fn test_no_parameters_emits_empty_holder() {
    let out = gen_ok("ping() -> status", "status");
    let expected = "pub struct par_ping {\n}\n\
                    pub fn gen_ping(p: par_ping) -> BrpResult<par_ping> {\n    \
                    try_ok(ping(), p)\n}\n";
    assert_eq!(out, expected);
}

use bundler::payload::{Config, DetailConfig};
use bundler::synth::{mk_args_code, mk_detail_code, synthesize, Language};
use serde_json::Value;

fn object(pairs: &[(&str, i64)]) -> Value {
    let mut m = serde_json::Map::new();
    for (k, v) in pairs {
        m.insert(k.to_string(), Value::from(*v));
    }
    Value::Object(m)
}

fn detail(language: Language, code: &str, args: Value) -> Config {
    Config::Detail(DetailConfig { language, code: code.to_string(), args })
}

#[test]
fn empty_object_arguments_give_no_preamble() {
    let act = synthesize(&detail(Language::Lua, "print(1)", object(&[])));
    assert_eq!(act, "print(1)");
    assert!(!act.contains("vim.json.decode"));
}

#[test]
fn keyed_arguments_give_the_preamble() {
    let act = synthesize(&detail(Language::Lua, "print(args.x)", object(&[("x", 1)])));
    assert_eq!(act, "local args = vim.json.decode([[{\"x\":1}]])\nprint(args.x)");
}

#[test]
fn vim_block_is_wrapped() {
    let act = synthesize(&detail(Language::Vim, "echo s:args", object(&[("x", 1)])));
    assert_eq!(act, "vim.cmd([[let s:args = json_decode('{\"x\":1}')\necho s:args]])");
}

#[test]
fn vim_block_without_arguments_is_wrapped() {
    let act = synthesize(&detail(Language::Vim, "set number", Value::Null));
    assert_eq!(act, "vim.cmd([[set number]])");
}

#[test]
fn non_keyed_arguments_give_no_preamble() {
    let scalar = synthesize(&detail(Language::Lua, "a()", Value::from(3)));
    let text = synthesize(&detail(Language::Lua, "a()", Value::String("s".to_string())));
    let list = synthesize(&detail(Language::Lua, "a()", Value::Array(vec![Value::from(1)])));
    assert_eq!(scalar, "a()");
    assert_eq!(text, "a()");
    assert_eq!(list, "a()");
}

#[test]
fn bare_source_stands_as_it_is() {
    assert_eq!(synthesize(&Config::Simple("x".to_string())), "x");
    assert_eq!(synthesize(&Config::default()), "");
}

#[test]
fn empty_detailed_block_is_empty() {
    assert_eq!(synthesize(&detail(Language::Vim, "", Value::Null)), "");
    assert_eq!(synthesize(&detail(Language::Lua, "", object(&[]))), "");
}

#[test]
fn args_code_by_language() {
    let json = "{\"a\":1}".to_string();
    let empty = "{}".to_string();
    assert_eq!(mk_args_code(Language::Vim, Some(&json)), "let s:args = json_decode('{\"a\":1}')");
    assert_eq!(mk_args_code(Language::Lua, Some(&json)), "local args = vim.json.decode([[{\"a\":1}]])");
    assert_eq!(mk_args_code(Language::Lua, Some(&empty)), "");
    assert_eq!(mk_args_code(Language::Vim, None), "");
}

#[test]
fn detail_code_from_json_text() {
    let json = "{\"a\":1}".to_string();
    let code = "run()".to_string();
    assert_eq!(
        mk_detail_code(Language::Lua, &code, Some(&json)),
        "local args = vim.json.decode([[{\"a\":1}]])\nrun()"
    );
    assert_eq!(mk_detail_code(Language::Lua, &code, None), "run()");
}

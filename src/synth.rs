//! Synthesis of the source text of one configuration block.

use crate::payload::Config;
use vstd::prelude::*;
use vstd::string::*;

verus! {

/// serde_json's JSON value, the structured arguments of a block: carried as it is, and read
/// only through the functions below.
#[verifier::external_type_specification]
#[verifier::external_body]
pub struct ExValue(serde_json::Value);

/// Relies on the `Clone` that serde_json derives for `Value`: the copy is the same value.
pub assume_specification[ <serde_json::Value as Clone>::clone ](v: &serde_json::Value) -> (r:
    serde_json::Value)
    ensures
        r == *v,
;

/// Relies on `serde_json::Value::is_object`, which tells whether the value is a keyed structure.
pub assume_specification[ serde_json::Value::is_object ](v: &serde_json::Value) -> bool;

/// Relies on serde_json's `Display` for `Value`: the compact JSON text of the value.
#[verifier::external_body]
fn json_text(v: &serde_json::Value) -> (r: String) {
    v.to_string()
}

/// The language a configuration block is written in.
#[derive(Clone, Copy, Debug, PartialEq, Eq, Structural)]
pub enum Language {
    Vim,
    Lua,
}

impl Default for Language {
    fn default() -> (r: Language)
        ensures
            r == Language::Lua,
    {
        Language::Lua
    }
}

/// The one-line preamble that decodes the JSON text `json` into a local binding.
pub open spec fn preamble(language: Language, json: Seq<char>) -> Seq<char> {
    match language {
        Language::Vim => "let s:args = json_decode('"@ + json + "')"@,
        Language::Lua => "local args = vim.json.decode([["@ + json + "]])"@,
    }
}

/// The decoding preamble for arguments whose JSON text is `args_json` when they are a keyed
/// structure, and `None` otherwise: empty unless they are a non-empty keyed structure.
pub open spec fn args_code_of(language: Language, args_json: Option<Seq<char>>) -> Seq<char> {
    match args_json {
        Some(json) => if json == "{}"@ {
            Seq::empty()
        } else {
            preamble(language, json)
        },
        None => Seq::empty(),
    }
}

/// The source text of a detailed block: the preamble, a newline and the code; the code alone
/// when there is no preamble; Vim script wrapped in a command-execution call; and the empty
/// text for a block that holds neither code nor arguments.
pub open spec fn detail_code_of(language: Language, code: Seq<char>, args_json: Option<
    Seq<char>,
>) -> Seq<char> {
    let args = args_code_of(language, args_json);
    let body = if args.len() == 0 {
        code
    } else {
        args + "\n"@ + code
    };
    if body.len() == 0 {
        Seq::empty()
    } else {
        match language {
            Language::Vim => "vim.cmd([["@ + body + "]])"@,
            Language::Lua => body,
        }
    }
}

/// The characters of an optional JSON text.
pub open spec fn text_view(t: Option<&String>) -> Option<Seq<char>> {
    match t {
        Some(j) => Some(j@),
        None => None,
    }
}

/// The decoding preamble for arguments with JSON text `args_json` (`None` where the arguments
/// are not a keyed structure).
pub fn mk_args_code(language: Language, args_json: Option<&String>) -> (r: String)
    ensures
        r@ == args_code_of(language, text_view(args_json)),
{
    match args_json {
        None => String::new(),
        Some(json) => {
            let empty_object = String::from_str("{}");
            if *json == empty_object {
                String::new()
            } else {
                let (head, tail) = match language {
                    Language::Vim => ("let s:args = json_decode('", "')"),
                    Language::Lua => ("local args = vim.json.decode([[", "]])"),
                };
                let mut r = String::from_str(head);
                r.append(json.as_str());
                r.append(tail);
                r
            }
        },
    }
}

/// The source text of a detailed block, given the JSON text of its arguments (`None` where
/// they are not a keyed structure).
pub fn mk_detail_code(language: Language, code: &String, args_json: Option<&String>) -> (r:
    String)
    ensures
        r@ == detail_code_of(language, code@, text_view(args_json)),
{
    let args = mk_args_code(language, args_json);
    let mut body = args.clone();
    if !args.as_str().is_empty() {
        body.append("\n");
    }
    body.append(code.as_str());
    if body.as_str().is_empty() {
        return String::new();
    }
    match language {
        Language::Vim => {
            let mut r = String::from_str("vim.cmd([[");
            r.append(body.as_str());
            r.append("]])");
            r
        },
        Language::Lua => body,
    }
}

/// Whether `r` is what the block `c` synthesizes to: a bare source string stands as it is; a
/// detailed block gives its source text for the JSON text that its arguments have when they
/// are a keyed structure.
pub open spec fn synthesizes_to(c: Config, r: Seq<char>) -> bool {
    match c {
        Config::Simple(code) => r == code@,
        Config::Detail(d) => exists|json: Option<Seq<char>>|
            r == #[trigger] detail_code_of(d.language, d.code@, json),
    }
}

/// The source text to emit for the block `c`.
pub fn synthesize(c: &Config) -> (r: String)
    ensures
        synthesizes_to(*c, r@),
{
    match c {
        Config::Simple(code) => code.clone(),
        Config::Detail(d) => {
            let r = if d.args.is_object() {
                let json = json_text(&d.args);
                mk_detail_code(d.language, &d.code, Some(&json))
            } else {
                mk_detail_code(d.language, &d.code, None)
            };
            r
        },
    }
}

} // verus!

//! The Lua literals that the loader reads: a table of quoted strings, and a flag table.

use crate::content::strs;
use vstd::prelude::*;
use vstd::string::*;

verus! {

/// A string between double quotes.
pub open spec fn quoted(s: Seq<char>) -> Seq<char> {
    "\""@ + s + "\""@
}

/// The items `item(v[0])`, `item(v[1])`, ... separated by commas.
pub open spec fn joined(v: Seq<Seq<char>>, flag: Option<bool>) -> Seq<char>
    decreases v.len(),
{
    if v.len() == 0 {
        Seq::empty()
    } else if v.len() == 1 {
        lua_item(v[0], flag)
    } else {
        joined(v.drop_last(), flag) + ","@ + lua_item(v.last(), flag)
    }
}

/// One item: the quoted string alone, or `["s"]=true` / `["s"]=false` for a flag table.
pub open spec fn lua_item(s: Seq<char>, flag: Option<bool>) -> Seq<char> {
    match flag {
        None => quoted(s),
        Some(b) => "["@ + quoted(s) + "]="@ + if b {
            "true"@
        } else {
            "false"@
        },
    }
}

/// The Lua table of the items of `v`, between braces.
pub open spec fn lua_table(v: Seq<Seq<char>>, flag: Option<bool>) -> Seq<char> {
    "{"@ + joined(v, flag) + "}"@
}

fn push_item(out: &mut String, s: &String, flag: Option<bool>)
    ensures
        final(out)@ == old(out)@ + lua_item(s@, flag),
{
    match flag {
        None => {
            out.append("\"");
            out.append(s.as_str());
            out.append("\"");
        },
        Some(b) => {
            out.append("[\"");
            out.append(s.as_str());
            out.append("\"]=");
            out.append(if b { "true" } else { "false" });
        },
    }
    proof {
        reveal_strlit("[\"");
        reveal_strlit("\"]=");
        reveal_strlit("[");
        reveal_strlit("]=");
        reveal_strlit("\"");
    }
    assert(final(out)@ =~= old(out)@ + lua_item(s@, flag));
}

fn render(v: &Vec<String>, flag: Option<bool>) -> (r: String)
    ensures
        r@ == lua_table(strs(v@), flag),
{
    let mut out = String::from_str("{");
    let mut i: usize = 0;
    assert(strs(v@).subrange(0, 0) =~= Seq::<Seq<char>>::empty());
    while i < v.len()
        invariant
            i <= v@.len(),
            out@ == "{"@ + joined(strs(v@).subrange(0, i as int), flag),
        decreases v.len() - i,
    {
        let ghost before = out@;
        if i > 0 {
            out.append(",");
        }
        push_item(&mut out, &v[i], flag);
        proof {
            let next = strs(v@).subrange(0, i + 1);
            assert(next.drop_last() =~= strs(v@).subrange(0, i as int));
            assert(next.last() == v@[i as int]@);
            if i == 0 {
                assert(next.len() == 1);
                assert(out@ =~= "{"@ + joined(next, flag));
            } else {
                assert(out@ =~= "{"@ + joined(next, flag));
            }
        }
        i += 1;
    }
    out.append("}");
    assert(strs(v@).subrange(0, v@.len() as int) =~= strs(v@));
    out
}

/// The Lua table of the quoted strings of `v`: `{"a","b"}`.
pub fn to_lua_table(v: &Vec<String>) -> (r: String)
    ensures
        r@ == lua_table(strs(v@), None),
{
    render(v, None)
}

/// The Lua table that maps each string of `v` to `default`: `{["a"]=true,["b"]=true}`.
pub fn to_lua_flag_table(v: &Vec<String>, default: bool) -> (r: String)
    ensures
        r@ == lua_table(strs(v@), Some(default)),
{
    render(v, Some(default))
}

/// A quoted Lua string: `"s"`.
pub fn to_lua_string(s: &String) -> (r: String)
    ensures
        r@ == quoted(s@),
{
    let mut out = String::from_str("\"");
    out.append(s.as_str());
    out.append("\"");
    out
}

/// The chunk that hands the loader the Lua value `value`: `return value`.
pub fn to_lua_return(value: &String) -> (r: String)
    ensures
        r@ == "return "@ + value@,
{
    let mut out = String::from_str("return ");
    out.append(value.as_str());
    out
}

} // verus!

//! The names under which the server registers its tools: each tool's own
//! name behind a configurable prefix.

use vstd::prelude::*;
use crate::ids::chars_of;
use crate::text::push_char;

verus! {

/// The name a tool is registered under: the prefix, then the tool's name.
/// An empty prefix leaves the name as it is.
pub open spec fn registered_name(prefix: Seq<char>, name: Seq<char>) -> Seq<char> {
    prefix + name
}

/// Appends the characters of `text` to `out`.
fn append_chars(out: &mut String, text: &str)
    ensures
        final(out)@ == old(out)@ + text@,
{
    let chars = chars_of(text);
    let ghost start = out@;
    let mut i: usize = 0;
    while i < chars.len()
        invariant
            i <= chars.len(),
            chars@ == text@,
            out@ == start + chars@.take(i as int),
        decreases chars.len() - i,
    {
        push_char(out, chars[i]);
        assert(chars@.take(i + 1) =~= chars@.take(i as int).push(chars@[i as int]));
        i += 1;
    }
    assert(chars@.take(chars.len() as int) =~= chars@);
}

/// The name a tool is registered under, given the configured prefix.
pub fn prefixed_tool_name(prefix: &str, name: &str) -> (r: String)
    ensures
        r@ == registered_name(prefix@, name@),
{
    let mut out = String::new();
    append_chars(&mut out, prefix);
    append_chars(&mut out, name);
    out
}

/// The registered names of all tools, in the order given.
pub fn prefixed_tool_names(prefix: &str, names: &Vec<String>) -> (r: Vec<String>)
    ensures
        r.len() == names.len(),
        forall|i: int|
            0 <= i < names.len() ==> #[trigger] r@[i]@ == registered_name(prefix@, names@[i]@),
{
    let mut out: Vec<String> = Vec::new();
    let mut i: usize = 0;
    while i < names.len()
        invariant
            i <= names.len(),
            out.len() == i,
            forall|j: int|
                0 <= j < i ==> #[trigger] out@[j]@ == registered_name(prefix@, names@[j]@),
        decreases names.len() - i,
    {
        out.push(prefixed_tool_name(prefix, names[i].as_str()));
        i += 1;
    }
    out
}

/// Prefixing keeps tools apart: two tools with different names are
/// registered under different names, whatever the prefix.
pub proof fn law_prefix_keeps_names_apart(prefix: Seq<char>, a: Seq<char>, b: Seq<char>)
    requires
        a != b,
    ensures
        registered_name(prefix, a) != registered_name(prefix, b),
{
    let ra = registered_name(prefix, a);
    let rb = registered_name(prefix, b);
    if ra == rb {
        assert(a =~= ra.subrange(prefix.len() as int, ra.len() as int));
        assert(b =~= rb.subrange(prefix.len() as int, rb.len() as int));
    }
}

/// A registered name gives the tool's own name back: it starts with the
/// prefix, and what follows the prefix is the name.
pub proof fn law_prefix_can_be_stripped(prefix: Seq<char>, name: Seq<char>)
    ensures
        registered_name(prefix, name).take(prefix.len() as int) == prefix,
        registered_name(prefix, name).skip(prefix.len() as int) == name,
{
    assert(registered_name(prefix, name).take(prefix.len() as int) =~= prefix);
    assert(registered_name(prefix, name).skip(prefix.len() as int) =~= name);
}

} // verus!

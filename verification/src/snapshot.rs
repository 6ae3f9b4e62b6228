use crate::error::{input, input_line};
use crate::principal::{principal_text, Principal};
use vstd::prelude::*;

verus! {

/// A snapshot line that shows a principal by its text.
pub open spec fn principal_line(label: Seq<char>, principal: Seq<u8>) -> Seq<char> {
    input_line(label, principal_text(principal))
}

/// Builds a snapshot line that shows a principal by its text.
pub fn principal_input(label: &str, principal: &Principal) -> (r: String)
    ensures
        r@ == principal_line(label@, principal@),
{
    let shown = principal.to_text();
    input(label, shown.as_str())
}

/// A snapshot of one line.
pub fn lines1(a: String) -> (r: Option<Vec<String>>)
    ensures
        r.deep_view() == Some(seq![a@]),
{
    let mut v: Vec<String> = Vec::new();
    v.push(a);
    assert(v.deep_view() =~= seq![a@]);
    Some(v)
}

/// A snapshot of two lines.
pub fn lines2(a: String, b: String) -> (r: Option<Vec<String>>)
    ensures
        r.deep_view() == Some(seq![a@, b@]),
{
    let mut v: Vec<String> = Vec::new();
    v.push(a);
    v.push(b);
    assert(v.deep_view() =~= seq![a@, b@]);
    Some(v)
}

/// A snapshot of three lines.
pub fn lines3(a: String, b: String, c: String) -> (r: Option<Vec<String>>)
    ensures
        r.deep_view() == Some(seq![a@, b@, c@]),
{
    let mut v: Vec<String> = Vec::new();
    v.push(a);
    v.push(b);
    v.push(c);
    assert(v.deep_view() =~= seq![a@, b@, c@]);
    Some(v)
}

/// A snapshot of four lines.
pub fn lines4(a: String, b: String, c: String, d: String) -> (r: Option<Vec<String>>)
    ensures
        r.deep_view() == Some(seq![a@, b@, c@, d@]),
{
    let mut v: Vec<String> = Vec::new();
    v.push(a);
    v.push(b);
    v.push(c);
    v.push(d);
    assert(v.deep_view() =~= seq![a@, b@, c@, d@]);
    Some(v)
}

} // verus!

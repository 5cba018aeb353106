//! Requests to Redis, as plain texts.
use vstd::prelude::*;
#[allow(unused_imports)]
use crate::text::views;

verus! {

/// One run of a Lua program inside Redis.
#[derive(Debug)]
pub struct ScriptCall {
    pub script: &'static str,
    pub keys: Vec<String>,
    pub args: Vec<String>,
}

impl ScriptCall {
    /// Whether the call runs a program on these keys with these arguments.
    pub open spec fn is(
        self,
        script: Seq<char>,
        keys: Seq<Seq<char>>,
        args: Seq<Seq<char>>,
    ) -> bool {
        &&& self.script@ == script
        &&& views(self.keys@) == keys
        &&& views(self.args@) == args
    }
}

/// A list of one text.
pub fn texts1(a: String) -> (r: Vec<String>)
    ensures
        views(r@) == seq![a@],
{
    let r: Vec<String> = vec![a];
    assert(views(r@) =~= seq![a@]);
    r
}

/// A list of two texts.
pub fn texts2(a: String, b: String) -> (r: Vec<String>)
    ensures
        views(r@) == seq![a@, b@],
{
    let r: Vec<String> = vec![a, b];
    assert(views(r@) =~= seq![a@, b@]);
    r
}

/// A list of three texts.
pub fn texts3(a: String, b: String, c: String) -> (r: Vec<String>)
    ensures
        views(r@) == seq![a@, b@, c@],
{
    let r: Vec<String> = vec![a, b, c];
    assert(views(r@) =~= seq![a@, b@, c@]);
    r
}

/// A list of four texts.
pub fn texts4(a: String, b: String, c: String, d: String) -> (r: Vec<String>)
    ensures
        views(r@) == seq![a@, b@, c@, d@],
{
    let r: Vec<String> = vec![a, b, c, d];
    assert(views(r@) =~= seq![a@, b@, c@, d@]);
    r
}

} // verus!

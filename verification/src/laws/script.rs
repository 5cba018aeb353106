//! The texts of a call by the numbers under which its program reads them.
use vstd::prelude::*;
use crate::calls::ScriptCall;
use crate::text::views;

verus! {

/// What the program reads as `KEYS[n]`.
pub open spec fn key(call: ScriptCall, n: int) -> Seq<char> {
    call.keys@[n - 1]@
}

/// What the program reads as `ARGV[n]`.
pub open spec fn arg(call: ScriptCall, n: int) -> Seq<char> {
    call.args@[n - 1]@
}

/// How many keys and how many arguments a call hands over.
pub open spec fn hands_over(call: ScriptCall, keys: nat, args: nat) -> bool {
    call.keys@.len() == keys && call.args@.len() == args
}

pub(crate) proof fn lemma_texts(call: ScriptCall)
    ensures
        views(call.keys@).len() == call.keys@.len(),
        views(call.args@).len() == call.args@.len(),
        forall|n: int| 1 <= n <= call.keys@.len() ==> #[trigger] key(call, n) == views(call.keys@)[n - 1],
        forall|n: int| 1 <= n <= call.args@.len() ==> #[trigger] arg(call, n) == views(call.args@)[n - 1],
{
}

} // verus!

//! Questions about the file system, asked through a function that the caller hands in.

use vstd::prelude::*;

verus! {

/// Whether `ask` can be asked about every path.
pub open spec fn answers<F: Fn(&str) -> bool>(ask: F) -> bool {
    forall|p: &str| call_requires(ask, (p,))
}

/// Whether `ask` answers as `files` does, whenever it is asked.
pub open spec fn agrees<F: Fn(&str) -> bool>(
    ask: F,
    files: spec_fn(Seq<char>) -> bool,
) -> bool {
    forall|p: &str, b: bool| #[trigger] call_ensures(ask, (p,), b) ==> b == files(p@)
}

/// Whether `ask` was asked about a path, and gave that answer.
pub open spec fn answered<F: Fn(&str) -> bool>(ask: F, p: Seq<char>, answer: bool) -> bool {
    exists|q: &str| #[trigger] call_ensures(ask, (q,), answer) && q@ == p
}

/// Whether `read` can be asked for every path.
pub open spec fn reads<F: Fn(&str) -> Result<Vec<u8>, String>>(read: F) -> bool {
    forall|p: &str| call_requires(read, (p,))
}

/// Whether `read` gives what `contents` holds, whenever it is asked: the bytes of
/// a file, or why they could not be read.
pub open spec fn holds<F: Fn(&str) -> Result<Vec<u8>, String>>(
    read: F,
    contents: spec_fn(Seq<char>) -> Result<Seq<u8>, Seq<char>>,
) -> bool {
    forall|p: &str, r: Result<Vec<u8>, String>| #[trigger]
        call_ensures(read, (p,), r) ==> contents(p@) == match r {
            Ok(bytes) => Ok::<Seq<u8>, Seq<char>>(bytes@),
            Err(why) => Err(why@),
        }
}

} // verus!

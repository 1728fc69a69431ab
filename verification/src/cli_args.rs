//! Reading the command-line arguments of the CLI.

use crate::models::strings_view;
use crate::text::{owned, str_eq};
use vstd::prelude::*;

verus! {

/// Index of the first argument equal to `flag` that has another argument
/// after it, at or after `from`; `args.len()` when there is none.
pub open spec fn option_index(args: Seq<Seq<char>>, flag: Seq<char>, from: int) -> int
    decreases args.len() - from,
{
    if from < 0 || from + 1 >= args.len() {
        args.len() as int
    } else if args[from] == flag {
        from
    } else {
        option_index(args, flag, from + 1)
    }
}

/// The argument that follows the first `flag` that has one.
pub open spec fn option_value_spec(args: Seq<Seq<char>>, flag: Seq<char>) -> Option<Seq<char>> {
    let i = option_index(args, flag, 0);
    if i < args.len() {
        Some(args[i + 1])
    } else {
        None
    }
}

pub proof fn lemma_option_index(args: Seq<Seq<char>>, flag: Seq<char>, from: int)
    requires
        0 <= from,
    ensures
        option_index(args, flag, from) == args.len() || (from <= option_index(args, flag, from) && option_index(
            args,
            flag,
            from,
        ) + 1 < args.len()),
    decreases args.len() - from,
{
    if from + 1 < args.len() && args[from] != flag {
        lemma_option_index(args, flag, from + 1);
    }
}

/// The value given to a `--flag value` option.
pub fn option_value<'a>(args: &'a [String], flag: &str) -> (r: Option<&'a str>)
    ensures
        match r {
            Some(v) => option_value_spec(strings_view(args@), flag@) == Some(v@),
            None => option_value_spec(strings_view(args@), flag@) is None,
        },
{
    let ghost a = strings_view(args@);
    proof {
        lemma_option_index(a, flag@, 0);
    }
    let mut i: usize = 0;
    while i < args.len() && i + 1 < args.len() && !str_eq(args[i].as_str(), flag)
        invariant
            i <= args@.len(),
            a == strings_view(args@),
            a.len() == args@.len(),
            option_index(a, flag@, 0) == option_index(a, flag@, i as int),
        decreases args.len() - i,
    {
        assert(a[i as int] == args@[i as int]@);
        i = i + 1;
    }
    if i < args.len() && i + 1 < args.len() {
        assert(a[i as int] == args@[i as int]@);
        assert(a[i + 1] == args@[i + 1]@);
        Some(args[i + 1].as_str())
    } else {
        None
    }
}

/// Some argument is exactly `flag`.
pub fn has_flag(args: &[String], flag: &str) -> (r: bool)
    ensures
        r == strings_view(args@).contains(flag@),
{
    let ghost a = strings_view(args@);
    let mut found = false;
    let mut i: usize = 0;
    while i < args.len() && !found
        invariant
            i <= args@.len(),
            a == strings_view(args@),
            a.len() == args@.len(),
            found == (exists|k: int| 0 <= k < i && a[k] == flag@),
        decreases args.len() - i + (if found { 0int } else { 1int }),
    {
        assert(a[i as int] == args@[i as int]@);
        if str_eq(args[i].as_str(), flag) {
            found = true;
        }
        i = i + 1;
    }
    proof {
        if a.contains(flag@) {
            let k = choose|k: int| 0 <= k < a.len() && a[k] == flag@;
        }
    }
    found
}

/// The note given with `--note`, or the default note of a CLI capture.
pub fn extract_note(args: &[String]) -> (r: String)
    ensures
        r@ == match option_value_spec(strings_view(args@), "--note"@) {
            Some(v) => v,
            None => "Captura desde CLI"@,
        },
{
    match option_value(args, "--note") {
        Some(v) => owned(v),
        None => owned("Captura desde CLI"),
    }
}

} // verus!

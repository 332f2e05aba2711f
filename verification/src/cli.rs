//! Command-line options of the form `--name VALUE`.
use vstd::prelude::*;

use crate::text::{chars_of, is_lit};

verus! {

/// The word after the first occurrence of `name` in `args`, if there is one.
pub open spec fn arg_spec(args: Seq<String>, name: Seq<char>) -> Option<Seq<char>>
    decreases args.len(),
{
    if args.len() == 0 {
        None
    } else if args[0]@ == name {
        if args.len() > 1 {
            Some(args[1]@)
        } else {
            None
        }
    } else {
        arg_spec(args.drop_first(), name)
    }
}

/// The value of option `name`: the argument that follows its first occurrence.
pub fn arg(args: &[String], name: &str) -> (r: Option<String>)
    ensures
        match r {
            Some(v) => arg_spec(args@, name@) == Some(v@),
            None => arg_spec(args@, name@) is None,
        },
{
    let n = args.len();
    let mut i: usize = 0;
    assert(args@.subrange(0, n as int) =~= args@);
    while i < n
        invariant
            n == args@.len(),
            i <= n,
            arg_spec(args@, name@) == arg_spec(args@.subrange(i as int, n as int), name@),
        decreases n - i,
    {
        let ghost rest = args@.subrange(i as int, n as int);
        let a = chars_of(args[i].as_str());
        if is_lit(a.as_slice(), name) {
            if i + 1 < n {
                return Some(args[i + 1].clone());
            } else {
                return None;
            }
        }
        assert(rest.drop_first() =~= args@.subrange(i + 1, n as int));
        i = i + 1;
    }
    None
}

} // verus!

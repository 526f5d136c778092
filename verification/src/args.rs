//! Command-line handling: the optional `--directory` flag selects the file
//! root for the `/files/` routes.

use vstd::prelude::*;

verus! {

use vstd::string::StringExecFns;

/// Whether some argument is exactly `--directory`.
pub open spec fn spec_has_directory_flag(args: Seq<Seq<char>>) -> bool {
    exists|i: int| 0 <= i < args.len() && args[i] == "--directory"@
}

/// The configured file root: the last argument when the `--directory` flag
/// appears anywhere among the arguments, and the empty string otherwise
/// (which disables the file routes in practice).
pub fn parse_args(args: Vec<String>) -> (r: String)
    ensures
        spec_has_directory_flag(args.deep_view()) ==> args@.len() > 0 && r@ == args.deep_view()
            .last(),
        !spec_has_directory_flag(args.deep_view()) ==> r@ == Seq::<char>::empty(),
{
    let flag: String = String::from_str("--directory");
    let n = args.len();
    let mut found = false;
    let mut i: usize = 0;
    while i < n
        invariant
            n == args@.len(),
            i <= n,
            flag@ == "--directory"@,
            found == spec_has_directory_flag(args.deep_view().take(i as int)),
        decreases n - i,
    {
        proof {
            assert(args.deep_view()[i as int] == args@[i as int]@);
        }
        let ghost prev = args.deep_view().take(i as int);
        if args[i].eq(&flag) {
            found = true;
        }
        proof {
            assert(args.deep_view().take(i + 1).drop_last() =~~= prev);
            assert(args.deep_view().take(i + 1).last() == args@[i as int]@);
            if found && !spec_has_directory_flag(prev) {
                assert(args.deep_view().take(i + 1)[i as int] == args@[i as int]@);
            }
            if spec_has_directory_flag(prev) {
                let k = choose|k: int| 0 <= k < prev.len() && prev[k] == "--directory"@;
                assert(args.deep_view().take(i + 1)[k] == "--directory"@);
            }
        }
        i = i + 1;
    }
    proof {
        assert(args.deep_view().take(n as int) =~~= args.deep_view());
    }
    if found {
        proof {
            assert(args.deep_view()[n - 1] == args@[n - 1]@);
        }
        let dir = args[n - 1].clone();
        dir
    } else {
        String::new()
    }
}

} // verus!

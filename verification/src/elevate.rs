use vstd::prelude::*;

verus! {

/// The argument vector of the direct attempt of an elevated command: the
/// shell is handed "/C", the command name, and the command's own arguments.
pub fn primary_command_args(name: &str, args: &Vec<String>) -> (r: Vec<String>)
    ensures
        r.deep_view() == seq!["/C"@, name@] + args.deep_view(),
{
    let mut out: Vec<String> = Vec::new();
    out.push(String::from_str("/C"));
    out.push(name.to_owned());
    let n = args.len();
    let mut i: usize = 0;
    while i < n
        invariant
            0 <= i <= n == args@.len(),
            out.deep_view() == seq!["/C"@, name@] + args.deep_view().subrange(0, i as int),
        decreases n - i,
    {
        let ghost before = out.deep_view();
        out.push(args[i].clone());
        proof {
            assert(out.deep_view() =~= before.push(args.deep_view()[i as int]));
            assert(out.deep_view() =~= seq!["/C"@, name@] + args.deep_view().subrange(
                0,
                i as int + 1,
            ));
        }
        i = i + 1;
    }
    proof {
        assert(args.deep_view().subrange(0, n as int) =~= args.deep_view());
        assert(out.deep_view() =~= seq!["/C"@, name@] + args.deep_view());
    }
    out
}

/// The argument vector of the fallback attempt, run through the elevation
/// script: the shell invocation itself becomes the first argument.
pub fn fallback_command_args(name: &str, args: &Vec<String>) -> (r: Vec<String>)
    ensures
        r.deep_view() == seq!["cmd"@, "/C"@, name@] + args.deep_view(),
{
    let mut out: Vec<String> = Vec::new();
    out.push(String::from_str("cmd"));
    out.push(String::from_str("/C"));
    out.push(name.to_owned());
    let n = args.len();
    let mut i: usize = 0;
    while i < n
        invariant
            0 <= i <= n == args@.len(),
            out.deep_view() == seq!["cmd"@, "/C"@, name@] + args.deep_view().subrange(0, i as int),
        decreases n - i,
    {
        let ghost before = out.deep_view();
        out.push(args[i].clone());
        proof {
            assert(out.deep_view() =~= before.push(args.deep_view()[i as int]));
            assert(out.deep_view() =~= seq!["cmd"@, "/C"@, name@] + args.deep_view().subrange(
                0,
                i as int + 1,
            ));
        }
        i = i + 1;
    }
    proof {
        assert(args.deep_view().subrange(0, n as int) =~= args.deep_view());
        assert(out.deep_view() =~= seq!["cmd"@, "/C"@, name@] + args.deep_view());
    }
    out
}

} // verus!

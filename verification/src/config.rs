//! Resolution of the configuration-file path: an explicit `--conf PATH`
//! argument wins; otherwise a non-empty environment override; otherwise
//! the built-in default path. Reading the arguments and the environment
//! is the caller's business; this module only decides.

use vstd::prelude::*;

verus! {

/// What the argument list alone decides: `None` when no `--conf` flag
/// occurs; otherwise what the first flag resolves to — the path that
/// follows it, or nothing when the flag is last or the path is empty.
pub open spec fn conf_from_args(args: Seq<String>) -> Option<Option<Seq<char>>>
    decreases args.len(),
{
    if args.len() == 0 {
        None
    } else if args[0]@ == "--conf"@ {
        Some(
            if args.len() >= 2 && args[1]@.len() > 0 {
                Some(args[1]@)
            } else {
                None
            },
        )
    } else {
        conf_from_args(args.drop_first())
    }
}

/// The resolved configuration path: the argument decision where the flag
/// occurs, else the environment override where it is non-empty, else the
/// built-in default path.
pub open spec fn spec_config_path(args: Seq<String>, env_conf: Option<String>) -> Option<
    Seq<char>,
> {
    match conf_from_args(args) {
        Some(r) => r,
        None => match env_conf {
            Some(p) => if p@.len() > 0 {
                Some(p@)
            } else {
                Some("/etc/app/app.conf"@)
            },
            None => Some("/etc/app/app.conf"@),
        },
    }
}

/// Resolve the configuration path from the command-line arguments and
/// the optional environment override. `None` means the flag was given
/// without a usable path, which the caller reports as an error.
pub fn resolve_config_path(args: &Vec<String>, env_conf: Option<String>) -> (r: Option<String>)
    ensures
        match (r, spec_config_path(args@, env_conf)) {
            (Some(p), Some(q)) => p@ == q,
            (None, None) => true,
            _ => false,
        },
{
    let flag: String = "--conf".to_owned();
    let n: usize = args.len();
    let mut i: usize = 0;
    proof {
        assert(args@.skip(0) =~= args@);
    }
    while i < n
        invariant
            i <= n,
            n == args@.len(),
            flag@ == "--conf"@,
            conf_from_args(args@) == conf_from_args(args@.skip(i as int)),
        decreases n - i,
    {
        if args[i].eq(&flag) {
            if i + 1 < n {
                let path = &args[i + 1];
                if !path.as_str().is_empty() {
                    return Some(path.clone());
                }
            }
            return None;
        }
        proof {
            assert(args@.skip(i as int).drop_first() =~= args@.skip(i as int + 1));
        }
        i = i + 1;
    }
    proof {
        assert(args@.skip(n as int) =~= Seq::<String>::empty());
    }
    match env_conf {
        Some(p) => {
            if !p.as_str().is_empty() {
                Some(p)
            } else {
                Some("/etc/app/app.conf".to_owned())
            }
        },
        None => Some("/etc/app/app.conf".to_owned()),
    }
}

} // verus!

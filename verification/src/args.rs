//! The command line of the program.
use vstd::prelude::*;
use crate::text::{str_eq, opt_view, views};

verus! {

/// What the command line asks for.
#[derive(Debug)]
pub struct CommandLine {
    /// Only check the snapshot schedule, without the interface.
    pub check_schedule: bool,
    /// The device to manage, where one is named.
    pub device: Option<String>,
}

/// The options found in `args` from position `i` on, given those found
/// before it: `--check-schedule` sets the check, `--device` takes the next
/// argument as the device (the last one named wins), anything else is
/// skipped.
pub open spec fn scan_spec(
    args: Seq<Seq<char>>,
    i: nat,
    check: bool,
    device: Option<Seq<char>>,
) -> (bool, Option<Seq<char>>)
    decreases args.len() - i,
{
    if i >= args.len() {
        (check, device)
    } else if args[i as int] == "--check-schedule"@ {
        scan_spec(args, i + 1, true, device)
    } else if args[i as int] == "--device"@ && i + 1 < args.len() {
        scan_spec(args, i + 2, check, Some(args[(i + 1) as int]))
    } else {
        scan_spec(args, i + 1, check, device)
    }
}

/// Reads the options of the command line `args`, program name included.
pub fn scan_args(args: &[String]) -> (r: CommandLine)
    ensures
        (r.check_schedule, opt_view(r.device)) == scan_spec(views(args@), 0, false, None),
{
    let n = args.len();
    let mut check_schedule = false;
    let mut device: Option<String> = None;
    let mut i: usize = 0;
    while i < n
        invariant
            n == args@.len(),
            i <= n,
            scan_spec(views(args@), 0, false, None) == scan_spec(
                views(args@),
                i as nat,
                check_schedule,
                opt_view(device),
            ),
        decreases n - i,
    {
        assert(views(args@)[i as int] == args@[i as int]@);
        if str_eq(args[i].as_str(), "--check-schedule") {
            check_schedule = true;
            i = i + 1;
        } else if str_eq(args[i].as_str(), "--device") && i + 1 < n {
            assert(views(args@)[i + 1] == args@[i + 1]@);
            device = Some(args[i + 1].clone());
            i = i + 2;
        } else {
            i = i + 1;
        }
    }
    CommandLine { check_schedule, device }
}

} // verus!

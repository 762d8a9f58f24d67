//! The stand-alone bar opener's computation: the command lines it runs
//! after every topology event, one close-all and one open per output.

use vstd::prelude::*;
use crate::text::{dec_digits, u64_to_dec};

verus! {

/// The command line that closes every open bar.
pub open spec fn close_all_cmd() -> Seq<Seq<char>> {
    seq!["eww"@, "--restart"@, "close-all"@]
}

/// The command line that opens the bar on the output with the given
/// screen index and name.
pub open spec fn open_cmd(idx: int, name: Seq<char>) -> Seq<Seq<char>> {
    seq![
        "eww"@,
        "open"@,
        "bar"@,
        "--screen"@,
        dec_digits(idx as nat),
        "--id"@,
        "bar-"@ + name,
        "--arg"@,
        "monitor="@ + name,
    ]
}

/// The views of one command line.
pub open spec fn cmd_views(c: Seq<String>) -> Seq<Seq<char>> {
    c.map_values(|s: String| s@)
}

/// Build the command lines that reopen the bars: close them all, then
/// open one per output, each bound to its screen index and output name.
pub fn open_bar_commands(outputs: &Vec<String>) -> (r: Vec<Vec<String>>)
    ensures
        r@.len() == outputs@.len() + 1,
        cmd_views(r@[0]@) == close_all_cmd(),
        forall|k: int| 0 <= k < outputs@.len()
            ==> cmd_views(#[trigger] r@[k + 1]@) == open_cmd(k, outputs@[k]@),
{
    let mut out: Vec<Vec<String>> = Vec::new();

    let mut close: Vec<String> = Vec::new();
    close.push(String::from_str("eww"));
    close.push(String::from_str("--restart"));
    close.push(String::from_str("close-all"));
    proof {
        assert(cmd_views(close@) =~= close_all_cmd());
    }
    out.push(close);

    let n: usize = outputs.len();
    let mut i: usize = 0;
    while i < n
        invariant
            0 <= i <= n,
            n == outputs@.len(),
            out@.len() == i + 1,
            cmd_views(out@[0]@) == close_all_cmd(),
            forall|k: int| 0 <= k < i
                ==> cmd_views(#[trigger] out@[k + 1]@) == open_cmd(k, outputs@[k]@),
        decreases n - i,
    {
        let name: &String = &outputs[i];
        let mut cmd: Vec<String> = Vec::new();
        cmd.push(String::from_str("eww"));
        cmd.push(String::from_str("open"));
        cmd.push(String::from_str("bar"));
        cmd.push(String::from_str("--screen"));
        cmd.push(u64_to_dec(i as u64));
        cmd.push(String::from_str("--id"));
        cmd.push(String::from_str("bar-").concat(name.as_str()));
        cmd.push(String::from_str("--arg"));
        cmd.push(String::from_str("monitor=").concat(name.as_str()));
        proof {
            assert(cmd_views(cmd@) =~= open_cmd(i as int, outputs@[i as int]@));
        }
        out.push(cmd);
        i = i + 1;
    }
    out
}

} // verus!

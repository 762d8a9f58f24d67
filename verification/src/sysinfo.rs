//! The timer listener's computation: parsing the line-oriented memory
//! pseudo-file and deriving the memory-usage fraction.

use vstd::prelude::*;
use crate::text::{push_char, views_of};

verus! {

/// ASCII whitespace, as the field splitter understands it.
pub open spec fn is_ws(c: char) -> bool {
    c == ' ' || c == '\t' || c == '\n' || c == '\r' || c == '\x0b' || c == '\x0c'
}

/// The whitespace-separated fields of `s` that remain to be cut, given the
/// fields already cut and the partial field currently being read.
pub open spec fn split_ws_acc(s: Seq<char>, done: Seq<Seq<char>>, cur: Seq<char>) -> Seq<Seq<char>>
    decreases s.len(),
{
    if s.len() == 0 {
        if cur.len() == 0 {
            done
        } else {
            done.push(cur)
        }
    } else if is_ws(s[0]) {
        if cur.len() == 0 {
            split_ws_acc(s.skip(1), done, cur)
        } else {
            split_ws_acc(s.skip(1), done.push(cur), Seq::empty())
        }
    } else {
        split_ws_acc(s.skip(1), done, cur.push(s[0]))
    }
}

/// The whitespace-separated fields of a line.
pub open spec fn split_ws(s: Seq<char>) -> Seq<Seq<char>> {
    split_ws_acc(s, Seq::empty(), Seq::empty())
}

fn is_ws_exec(c: char) -> (r: bool)
    ensures
        r == is_ws(c),
{
    c == ' ' || c == '\t' || c == '\n' || c == '\r' || c == '\x0b' || c == '\x0c'
}

/// Cut a line into its whitespace-separated fields.
pub fn split_whitespace(s: &str) -> (r: Vec<String>)
    ensures
        views_of(r@) == split_ws(s@),
{
    let n: usize = s.unicode_len();
    let mut done: Vec<String> = Vec::new();
    let mut cur: String = String::new();
    let mut i: usize = 0;
    proof {
        assert(s@.skip(0) =~= s@);
        assert(views_of(done@) =~= Seq::<Seq<char>>::empty());
    }
    while i < n
        invariant
            0 <= i <= n,
            n == s@.len(),
            split_ws(s@) == split_ws_acc(s@.skip(i as int), views_of(done@), cur@),
        decreases n - i,
    {
        let c: char = s.get_char(i);
        proof {
            assert(s@.skip(i as int)[0] == s@[i as int]);
            assert(s@.skip(i as int).skip(1) =~= s@.skip(i + 1));
        }
        if is_ws_exec(c) {
            if cur.unicode_len() != 0 {
                proof {
                    assert(views_of(done@.push(cur)) =~= views_of(done@).push(cur@));
                }
                done.push(cur);
                cur = String::new();
            }
        } else {
            push_char(&mut cur, c);
        }
        i = i + 1;
    }
    proof {
        assert(s@.skip(n as int) =~= Seq::<char>::empty());
    }
    if cur.unicode_len() != 0 {
        proof {
            assert(views_of(done@.push(cur)) =~= views_of(done@).push(cur@));
        }
        done.push(cur);
    }
    done
}

/// Whether every character of `s` is an ASCII decimal digit, and there is
/// at least one.
pub open spec fn all_digits(s: Seq<char>) -> bool {
    s.len() >= 1 && forall|i: int| 0 <= i < s.len() ==> '0' <= #[trigger] s[i] <= '9'
}

/// The number the digit string `s` denotes.
pub open spec fn digits_val(s: Seq<char>) -> int
    decreases s.len(),
{
    if s.len() == 0 {
        0
    } else {
        digits_val(s.drop_last()) * 10 + (s.last() as int - '0' as int)
    }
}

/// A number literal may carry one leading plus sign; this is its digit
/// part.
pub open spec fn num_body(s: Seq<char>) -> Seq<char> {
    if s.len() >= 1 && s[0] == '+' {
        s.skip(1)
    } else {
        s
    }
}

/// Whether `s` parses as an unsigned 64-bit number: an optional plus sign,
/// then only digits, at least one, denoting a value that fits.
pub open spec fn valid_u64(s: Seq<char>) -> bool {
    all_digits(num_body(s)) && digits_val(num_body(s)) <= u64::MAX
}

/// A digit string denotes a nonnegative number.
proof fn lemma_digits_val_nonneg(s: Seq<char>)
    requires
        forall|j: int| 0 <= j < s.len() ==> '0' <= #[trigger] s[j] <= '9',
    ensures
        digits_val(s) >= 0,
    decreases s.len(),
{
    if s.len() > 0 {
        lemma_digits_val_nonneg(s.drop_last());
    }
}

/// No digit prefix of a digit string denotes more than the whole string.
proof fn lemma_digits_val_prefix(s: Seq<char>, i: int)
    requires
        0 <= i <= s.len(),
        forall|j: int| 0 <= j < s.len() ==> '0' <= #[trigger] s[j] <= '9',
    ensures
        0 <= digits_val(s.take(i)) <= digits_val(s),
    decreases s.len() - i,
{
    assert(forall|j: int| 0 <= j < s.take(i).len() ==> '0' <= #[trigger] s.take(i)[j] <= '9');
    lemma_digits_val_nonneg(s.take(i));
    if i < s.len() {
        lemma_digits_val_prefix(s, i + 1);
        assert(s.take(i + 1).drop_last() =~= s.take(i));
        assert(s.take(i + 1).last() == s[i]);
        assert(digits_val(s.take(i)) <= digits_val(s.take(i + 1)));
    } else {
        assert(s.take(i) =~= s);
    }
}

/// Parse an unsigned 64-bit number, accepting an optional leading plus
/// sign, rejecting anything else and values that do not fit.
pub fn parse_u64(s: &str) -> (r: Option<u64>)
    ensures
        valid_u64(s@) ==> r == Some(digits_val(num_body(s@)) as u64),
        !valid_u64(s@) ==> r is None,
{
    let n: usize = s.unicode_len();
    let start: usize = if n >= 1 && s.get_char(0) == '+' {
        1
    } else {
        0
    };
    proof {
        if start == 1 {
            assert(num_body(s@) =~= s@.skip(1));
        } else {
            assert(num_body(s@) =~= s@);
        }
    }
    if n == start {
        // No digits at all.
        return None;
    }
    let ghost body: Seq<char> = num_body(s@);
    let mut acc: u64 = 0;
    let mut i: usize = start;
    proof {
        assert(body.take(0) =~= Seq::<char>::empty());
    }
    while i < n
        invariant
            start <= i <= n,
            n == s@.len(),
            body == num_body(s@),
            body == s@.skip(start as int),
            start == 0 || start == 1,
            forall|j: int| 0 <= j < i - start ==> '0' <= #[trigger] body[j] <= '9',
            acc == digits_val(body.take(i - start)),
        decreases n - i,
    {
        let c: char = s.get_char(i);
        proof {
            assert(body[i - start] == s@[i as int]);
        }
        if !('0' <= c && c <= '9') {
            return None;
        }
        let d: u64 = (c as u32) as u64 - 48;
        let shifted: u64 = match acc.checked_mul(10) {
            Some(v) => v,
            None => {
                proof {
                    if all_digits(body) {
                        lemma_digits_val_prefix(body, i + 1 - start);
                        assert(body.take(i + 1 - start).drop_last() =~= body.take(i - start));
                        assert(body.take(i + 1 - start).last() == body[i - start]);
                    }
                }
                return None;
            },
        };
        let next: u64 = match shifted.checked_add(d) {
            Some(v) => v,
            None => {
                proof {
                    if all_digits(body) {
                        lemma_digits_val_prefix(body, i + 1 - start);
                        assert(body.take(i + 1 - start).drop_last() =~= body.take(i - start));
                        assert(body.take(i + 1 - start).last() == body[i - start]);
                    }
                }
                return None;
            },
        };
        proof {
            assert(body.take(i + 1 - start).drop_last() =~= body.take(i - start));
            assert(body.take(i + 1 - start).last() == body[i - start]);
        }
        acc = next;
        i = i + 1;
    }
    proof {
        assert(body.take(n - start) =~= body);
    }
    Some(acc)
}

/// Why the memory pseudo-file could not be read: a line with neither two
/// nor three fields, or a required value that is no number.
#[derive(Debug, Clone, Copy, PartialEq, Eq, Structural)]
pub enum MemInfoError {
    UnexpectedFormat,
    BadTotalRam,
    BadAvailableRam,
}

/// The two memory figures the timer listener needs, in the pseudo-file's
/// own unit.
#[derive(Debug, Clone, Copy, PartialEq, Eq, Structural)]
pub struct MemInfo {
    pub total: u64,
    pub available: u64,
}

/// Scan the lines of the memory pseudo-file, with the totals read so far
/// and how many of the two required fields are still missing. Scanning
/// stops once both are found or the lines run out; a three-field line
/// names a figure, a two-field line is skipped, any other shape is a
/// fatal format error, and a required figure that is no number is a fatal
/// value error.
pub open spec fn scan_meminfo(
    lines: Seq<Seq<char>>,
    total: u64,
    available: u64,
    remaining: int,
) -> Result<MemInfo, MemInfoError>
    decreases lines.len(),
{
    if remaining <= 0 || lines.len() == 0 {
        Result::Ok(MemInfo { total, available })
    } else {
        let toks = split_ws(lines[0]);
        if toks.len() == 3 {
            if toks[0] == "MemTotal:"@ {
                if valid_u64(toks[1]) {
                    scan_meminfo(
                        lines.skip(1),
                        digits_val(num_body(toks[1])) as u64,
                        available,
                        remaining - 1,
                    )
                } else {
                    Result::Err(MemInfoError::BadTotalRam)
                }
            } else if toks[0] == "MemAvailable:"@ {
                if valid_u64(toks[1]) {
                    scan_meminfo(
                        lines.skip(1),
                        total,
                        digits_val(num_body(toks[1])) as u64,
                        remaining - 1,
                    )
                } else {
                    Result::Err(MemInfoError::BadAvailableRam)
                }
            } else {
                scan_meminfo(lines.skip(1), total, available, remaining)
            }
        } else if toks.len() == 2 {
            scan_meminfo(lines.skip(1), total, available, remaining)
        } else {
            Result::Err(MemInfoError::UnexpectedFormat)
        }
    }
}

/// What parsing the memory pseudo-file yields: the scan started on a
/// total of one (so the usage fraction is defined even when the total
/// line is missing), no available memory, and both fields still missing.
pub open spec fn parsed_meminfo(lines: Seq<Seq<char>>) -> Result<MemInfo, MemInfoError> {
    scan_meminfo(lines, 1, 0, 2)
}

/// Parse the memory pseudo-file's lines into the two required figures,
/// stopping at the first fatal error or once both are found.
pub fn parse_meminfo(lines: &Vec<String>) -> (r: Result<MemInfo, MemInfoError>)
    ensures
        r == parsed_meminfo(views_of(lines@)),
{
    let n: usize = lines.len();
    let mut total: u64 = 1;
    let mut available: u64 = 0;
    let mut remaining: u64 = 2;
    let mut i: usize = 0;
    proof {
        assert(views_of(lines@).skip(0) =~= views_of(lines@));
    }
    while i < n && remaining > 0
        invariant
            0 <= i <= n,
            n == lines@.len(),
            0 <= remaining <= 2,
            parsed_meminfo(views_of(lines@)) == scan_meminfo(
                views_of(lines@).skip(i as int),
                total,
                available,
                remaining as int,
            ),
        decreases n - i,
    {
        let toks: Vec<String> = split_whitespace(lines[i].as_str());
        proof {
            assert(views_of(lines@).skip(i as int)[0] == lines@[i as int]@);
            assert(views_of(lines@).skip(i as int).skip(1) =~= views_of(lines@).skip(i + 1));
            assert(forall|k: int| 0 <= k < toks@.len()
                ==> views_of(toks@)[k] == #[trigger] toks@[k]@);
        }
        if toks.len() == 3 {
            if crate::text::str_eq(toks[0].as_str(), "MemTotal:") {
                match parse_u64(toks[1].as_str()) {
                    Some(v) => {
                        total = v;
                        remaining = remaining - 1;
                    },
                    None => {
                        return Err(MemInfoError::BadTotalRam);
                    },
                }
            } else if crate::text::str_eq(toks[0].as_str(), "MemAvailable:") {
                match parse_u64(toks[1].as_str()) {
                    Some(v) => {
                        available = v;
                        remaining = remaining - 1;
                    },
                    None => {
                        return Err(MemInfoError::BadAvailableRam);
                    },
                }
            }
        } else if toks.len() == 2 {
            // A two-field line carries no unit; it is skipped.
        } else {
            return Err(MemInfoError::UnexpectedFormat);
        }
        i = i + 1;
    }
    Ok(MemInfo { total, available })
}

/// The used fraction of memory in parts per million: one minus the
/// available share, in integer arithmetic.
pub fn memory_usage_ppm(total: u64, available: u64) -> (r: u64)
    requires
        1 <= total,
        available <= total,
    ensures
        r == 1000000 - available * 1000000 / (total as int),
{
    let frac: u128 = (available as u128) * 1000000 / (total as u128);
    proof {
        vstd::arithmetic::div_mod::lemma_div_is_ordered(
            available * 1000000,
            total * 1000000,
            total as int,
        );
        vstd::arithmetic::div_mod::lemma_div_by_multiple(1000000, total as int);
        assert(available * 1000000 <= total * 1000000) by (nonlinear_arith)
            requires available <= total;
    }
    1000000 - (frac as u64)
}

} // verus!

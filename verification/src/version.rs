//! Dotted version strings: parsing into numeric components and the
//! lexicographic comparison the version operators run on. A missing
//! component counts as zero, so `1.2` and `1.2.0` compare equal.

use vstd::prelude::*;
use vstd::string::StrSliceExecFns;

verus! {

/// The numeric components of a version string read from position `i`,
/// with `acc` the digits of the current component so far and `within`
/// whether that component has at least one digit. Only digits and dots
/// are accepted; a component must be nonempty and fit 64 bits.
pub open spec fn spec_version_nums_from(
    s: Seq<char>,
    i: int,
    acc: u64,
    within: bool,
) -> Option<Seq<u64>>
    decreases s.len() - i,
{
    if i < 0 || i > s.len() {
        None
    } else if i == s.len() {
        if within {
            Some(seq![acc])
        } else {
            None
        }
    } else if s[i] == '.' {
        if within {
            match spec_version_nums_from(s, i + 1, 0, false) {
                Some(rest) => Some(seq![acc] + rest),
                None => None,
            }
        } else {
            None
        }
    } else if '0' <= s[i] && s[i] <= '9' {
        let d = (s[i] as u64 - 48) as u64;
        if acc > (0xffff_ffff_ffff_ffff - d) / 10 {
            None
        } else {
            spec_version_nums_from(s, i + 1, (acc * 10 + d) as u64, true)
        }
    } else {
        None
    }
}

/// The numeric components of a version string, or `None` outside the
/// accepted shape.
pub open spec fn spec_version_nums(s: Seq<char>) -> Option<Seq<u64>> {
    spec_version_nums_from(s, 0, 0, false)
}

/// Strictly-less on component sequences, compared left to right with
/// missing components read as zero.
pub open spec fn spec_version_lt_from(a: Seq<u64>, b: Seq<u64>, i: int) -> bool
    decreases (if a.len() > b.len() {
        a.len()
    } else {
        b.len()
    }) - i,
{
    if i < 0 || (i >= a.len() && i >= b.len()) {
        false
    } else {
        let ah = if i < a.len() {
            a[i]
        } else {
            0
        };
        let bh = if i < b.len() {
            b[i]
        } else {
            0
        };
        if ah < bh {
            true
        } else if ah > bh {
            false
        } else {
            spec_version_lt_from(a, b, i + 1)
        }
    }
}

pub open spec fn spec_version_lt(a: Seq<u64>, b: Seq<u64>) -> bool {
    spec_version_lt_from(a, b, 0)
}

fn version_nums_from(s: &str, i: usize, acc: u64, within: bool) -> (r: Option<Vec<u64>>)
    requires
        i <= s@.len(),
    ensures
        match r {
            Some(v) => spec_version_nums_from(s@, i as int, acc, within) == Some(v@),
            None => spec_version_nums_from(s@, i as int, acc, within) is None,
        },
    decreases s@.len() - i,
{
    let n = s.unicode_len();
    if i == n {
        if within {
            let mut v: Vec<u64> = Vec::new();
            v.push(acc);
            proof {
                assert(v@ =~= seq![acc]);
            }
            Some(v)
        } else {
            None
        }
    } else {
        let c = s.get_char(i);
        if c == '.' {
            if within {
                match version_nums_from(s, i + 1, 0, false) {
                    Some(rest) => {
                        let mut v: Vec<u64> = Vec::new();
                        v.push(acc);
                        let mut tail = rest;
                        v.append(&mut tail);
                        proof {
                            assert(v@ =~= seq![acc] + rest@);
                        }
                        Some(v)
                    },
                    None => None,
                }
            } else {
                None
            }
        } else if c >= '0' && c <= '9' {
            let d = (c as u64) - 48;
            if acc > (0xffff_ffff_ffff_ffff - d) / 10 {
                None
            } else {
                version_nums_from(s, i + 1, acc * 10 + d, true)
            }
        } else {
            None
        }
    }
}

/// Parse a version string into its numeric components.
pub fn parse_version(s: &String) -> (r: Option<Vec<u64>>)
    ensures
        match r {
            Some(v) => spec_version_nums(s@) == Some(v@),
            None => spec_version_nums(s@) is None,
        },
{
    version_nums_from(s.as_str(), 0, 0, false)
}

fn version_lt_from(a: &Vec<u64>, b: &Vec<u64>, i: usize) -> (r: bool)
    ensures
        r == spec_version_lt_from(a@, b@, i as int),
    decreases (if a@.len() > b@.len() {
        a@.len()
    } else {
        b@.len()
    }) - i,
{
    let an = a.len();
    let bn = b.len();
    if i >= an && i >= bn {
        false
    } else {
        let ah = if i < an {
            a[i]
        } else {
            0
        };
        let bh = if i < bn {
            b[i]
        } else {
            0
        };
        if ah < bh {
            true
        } else if ah > bh {
            false
        } else {
            version_lt_from(a, b, i + 1)
        }
    }
}

/// Strictly-less on parsed versions.
pub fn version_lt(a: &Vec<u64>, b: &Vec<u64>) -> (r: bool)
    ensures
        r == spec_version_lt(a@, b@),
{
    version_lt_from(a, b, 0)
}

} // verus!

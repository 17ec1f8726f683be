//! Port scanner support: parsing the requested port set (a single port or
//! an inclusive `start-end` range) and pairing scan outcomes back with the
//! requested ports. Malformed or inverted ranges are rejected here, before
//! any connection is attempted.

use vstd::prelude::*;

verus! {

use crate::error::NetworkError;
use crate::text::{all_digits, dec_value, is_digit, lemma_dec_prefix_le};
use vstd::string::{StrSliceExecFns, StringExecFns};

/// Whether `s` is the decimal text of a port number.
pub open spec fn valid_port_text(s: Seq<char>) -> bool {
    s.len() > 0 && all_digits(s) && dec_value(s) <= 65535
}

/// Number of `-` separators in `s`.
pub open spec fn dash_count(s: Seq<char>) -> nat
    decreases s.len(),
{
    if s.len() == 0 {
        0
    } else {
        dash_count(s.drop_last()) + if s.last() == '-' {
            1nat
        } else {
            0nat
        }
    }
}

/// Index of the first `-` in `s`, or `-1` when there is none.
pub open spec fn first_dash(s: Seq<char>) -> int
    decreases s.len(),
{
    if s.len() == 0 {
        -1
    } else {
        let r = first_dash(s.drop_last());
        if r >= 0 {
            r
        } else if s.last() == '-' {
            s.len() - 1
        } else {
            -1
        }
    }
}

/// When `s` holds a dash, `first_dash` really is an in-range dash index.
proof fn lemma_first_dash_bounds(s: Seq<char>)
    requires
        dash_count(s) > 0,
    ensures
        0 <= first_dash(s) < s.len(),
        s[first_dash(s)] == '-',
    decreases s.len(),
{
    if s.len() > 0 {
        if dash_count(s.drop_last()) > 0 {
            lemma_first_dash_bounds(s.drop_last());
        } else if first_dash(s.drop_last()) >= 0 {
            lemma_first_dash_in_implies_dash(s.drop_last());
        }
    }
}

/// A non-negative `first_dash` can only come from an actual dash.
proof fn lemma_first_dash_in_implies_dash(s: Seq<char>)
    requires
        first_dash(s) >= 0,
    ensures
        dash_count(s) > 0,
    decreases s.len(),
{
    if s.len() > 0 {
        if first_dash(s.drop_last()) >= 0 {
            lemma_first_dash_in_implies_dash(s.drop_last());
        }
    }
}

/// The ports a range request stands for: a single valid port text names
/// itself, `start-end` with both ends valid and `start <= end` names the
/// inclusive run from `start` to `end`, and everything else is malformed.
pub open spec fn spec_ports_of_range(s: Seq<char>) -> Option<Seq<u16>> {
    if dash_count(s) == 0 {
        if valid_port_text(s) {
            Some(seq![dec_value(s) as u16])
        } else {
            None
        }
    } else if dash_count(s) == 1 {
        let i = first_dash(s);
        let lo = s.subrange(0, i);
        let hi = s.subrange(i + 1, s.len() as int);
        if valid_port_text(lo) && valid_port_text(hi) && dec_value(lo) <= dec_value(hi) {
            Some(
                Seq::new(
                    (dec_value(hi) - dec_value(lo) + 1) as nat,
                    |j: int| (dec_value(lo) + j) as u16,
                ),
            )
        } else {
            None
        }
    } else {
        None
    }
}

/// Parse one decimal port number. Accepts leading zeros, as the usual
/// integer parser does; rejects empty text, non-digits and values over
/// 65535.
pub fn parse_port(s: &str) -> (r: Option<u16>)
    ensures
        r is Some <==> valid_port_text(s@),
        r matches Some(p) ==> p == dec_value(s@),
{
    let n = s.unicode_len();
    if n == 0 {
        return None;
    }
    let mut i: usize = 0;
    let mut val: u32 = 0;
    while i < n
        invariant
            0 <= i <= n,
            n == s@.len(),
            all_digits(s@.subrange(0, i as int)),
            val == dec_value(s@.subrange(0, i as int)),
            val <= 65535,
        decreases n - i,
    {
        let c = s.get_char(i);
        proof {
            assert(s@.subrange(0, i + 1 as int).drop_last() =~= s@.subrange(0, i as int));
        }
        if c < '0' || c > '9' {
            return None;
        }
        let d = c as u32 - '0' as u32;
        let next = val * 10 + d;
        if next > 65535 {
            proof {
                if all_digits(s@) {
                    lemma_dec_prefix_le(s@, i + 1);
                }
            }
            return None;
        }
        val = next;
        i = i + 1;
    }
    proof {
        assert(s@.subrange(0, n as int) =~= s@);
    }
    Some(val as u16)
}

/// Parse the port set requested of the scanner: either a single port or an
/// inclusive `start-end` range. A malformed numeral, a second separator or
/// an inverted range is rejected as invalid input, before any connection
/// attempt.
pub fn parse_port_range(range: &str) -> (r: Result<Vec<u16>, NetworkError>)
    ensures
        r is Ok <==> spec_ports_of_range(range@) is Some,
        r matches Ok(v) ==> Some(v@) == spec_ports_of_range(range@),
        r matches Err(e) ==> e is InvalidInput,
{
    let n = range.unicode_len();
    let mut i: usize = 0;
    let mut fd: usize = 0;
    let mut seen: bool = false;
    let mut cnt: usize = 0;
    while i < n
        invariant
            0 <= i <= n,
            n == range@.len(),
            cnt <= i,
            cnt == dash_count(range@.subrange(0, i as int)),
            seen <==> cnt > 0,
            seen ==> fd == first_dash(range@.subrange(0, i as int)),
            !seen ==> first_dash(range@.subrange(0, i as int)) == -1,
            fd <= i,
        decreases n - i,
    {
        let c = range.get_char(i);
        proof {
            assert(range@.subrange(0, i + 1 as int).drop_last() =~= range@.subrange(0, i as int));
        }
        if c == '-' {
            if !seen {
                fd = i;
                seen = true;
            }
            cnt = cnt + 1;
        }
        i = i + 1;
    }
    proof {
        assert(range@.subrange(0, n as int) =~= range@);
    }
    if cnt == 0 {
        match parse_port(range) {
            Some(p) => {
                let mut v: Vec<u16> = Vec::new();
                v.push(p);
                proof {
                    assert(v@ =~= seq![dec_value(range@) as u16]);
                }
                Ok(v)
            },
            None => Err(
                NetworkError::InvalidInput(String::from_str("port is not a number in 0-65535")),
            ),
        }
    } else if cnt == 1 {
        proof {
            lemma_first_dash_bounds(range@);
        }
        let lo_text = range.substring_char(0, fd);
        let hi_text = range.substring_char(fd + 1, n);
        match (parse_port(lo_text), parse_port(hi_text)) {
            (Some(lo), Some(hi)) => {
                if lo > hi {
                    return Err(
                        NetworkError::InvalidInput(
                            String::from_str("invalid port range: start > end"),
                        ),
                    );
                }
                let mut v: Vec<u16> = Vec::new();
                let mut p: u32 = lo as u32;
                while p <= hi as u32
                    invariant
                        lo <= hi,
                        lo as u32 <= p <= hi as u32 + 1,
                        v@ =~= Seq::new((p - lo) as nat, |j: int| (lo + j) as u16),
                    decreases hi as int + 1 - p,
                {
                    let ghost prev = v@;
                    v.push(p as u16);
                    proof {
                        assert(v@ =~= Seq::new((p + 1 - lo) as nat, |j: int| (lo + j) as u16));
                    }
                    p = p + 1;
                }
                Ok(v)
            },
            _ => Err(
                NetworkError::InvalidInput(
                    String::from_str("port range bound is not a number in 0-65535"),
                ),
            ),
        }
    } else {
        Err(NetworkError::InvalidInput(String::from_str("invalid port range format")))
    }
}

/// The requested ports of a well-formed range text are pairwise distinct.
pub proof fn lemma_requested_ports_distinct(s: Seq<char>)
    requires
        spec_ports_of_range(s) is Some,
    ensures
        forall|i: int, j: int|
            0 <= i < j < spec_ports_of_range(s).unwrap().len()
                ==> spec_ports_of_range(s).unwrap()[i] != spec_ports_of_range(s).unwrap()[j],
{
}

/// Pair each requested port with the open/closed flag its independent
/// connection attempt produced, keeping the requested order.
pub fn pair_scan_results(ports: &Vec<u16>, open: &Vec<bool>) -> (r: Vec<(u16, bool)>)
    requires
        ports@.len() == open@.len(),
    ensures
        r@.len() == ports@.len(),
        forall|i: int| 0 <= i < r@.len() ==> r@[i].0 == ports@[i] && r@[i].1 == open@[i],
{
    let n = ports.len();
    let mut r: Vec<(u16, bool)> = Vec::new();
    let mut i: usize = 0;
    while i < n
        invariant
            0 <= i <= n,
            n == ports@.len() == open@.len(),
            r@.len() == i,
            forall|k: int| 0 <= k < i ==> r@[k].0 == ports@[k] && r@[k].1 == open@[k],
        decreases n - i,
    {
        r.push((ports[i], open[i]));
        i = i + 1;
    }
    r
}

/// The scan output names exactly the requested ports, in the requested
/// order: projecting the paired results onto their port component gives
/// back the requested sequence.
pub proof fn lemma_scan_covers_request(ports: Seq<u16>, results: Seq<(u16, bool)>)
    requires
        results.len() == ports.len(),
        forall|i: int| 0 <= i < results.len() ==> results[i].0 == ports[i],
    ensures
        results.map_values(|e: (u16, bool)| e.0) =~= ports,
{
}

/// Port scanner law: when the requested range text is well formed and
/// each requested port got its independent open/closed flag, the scan
/// output names exactly the requested port set, in the requested order,
/// with no duplicates.
pub proof fn lemma_scanner_output_exact(s: Seq<char>, results: Seq<(u16, bool)>)
    requires
        spec_ports_of_range(s) is Some,
        results.len() == spec_ports_of_range(s).unwrap().len(),
        forall|i: int|
            0 <= i < results.len() ==> (#[trigger] results[i]).0 == spec_ports_of_range(
                s,
            ).unwrap()[i],
    ensures
        results.map_values(|e: (u16, bool)| e.0) =~= spec_ports_of_range(s).unwrap(),
        forall|i: int, j: int|
            0 <= i < j < results.len() ==> (#[trigger] results[i]).0 != (#[trigger] results[j]).0,
{
    lemma_requested_ports_distinct(s);
    lemma_scan_covers_request(spec_ports_of_range(s).unwrap(), results);
}

} // verus!

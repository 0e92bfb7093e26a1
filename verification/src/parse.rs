//! The command-intake parser.
//!
//! A request arrives as one line of text: the bytes between the first
//! `/set/` and the first following ` HTTP/1.1` line break name a
//! channel and a desired state, separated by slashes, with blink phase
//! durations in milliseconds. The parser turns such a line into a
//! validated `Command` and rejects everything else.

use vstd::prelude::*;

use crate::command::{Channel, Command, DesiredState};

verus! {

/// `pat` occurs in `s` at position `i`.
pub open spec fn match_at(s: Seq<u8>, pat: Seq<u8>, i: int) -> bool {
    &&& 0 <= i
    &&& i + pat.len() <= s.len()
    &&& (forall|k: int| 0 <= k < pat.len() ==> s[i + k] == pat[k])
}

/// `i` is the first position at or after `from` where `pat` occurs.
pub open spec fn found_from(s: Seq<u8>, pat: Seq<u8>, from: int, i: int) -> bool {
    &&& match_at(s, pat, i)
    &&& from <= i
    &&& (forall|j: int| from <= j < i ==> !match_at(s, pat, j))
}

/// The position of the first occurrence of `pat` in `s` at or after
/// `from`, if there is any occurrence there at all.
pub open spec fn first_match_from(s: Seq<u8>, pat: Seq<u8>, from: int) -> Option<int> {
    if exists|i: int| #[trigger] match_at(s, pat, i) && i >= from {
        Some(choose|i: int| found_from(s, pat, from, i))
    } else {
        None
    }
}

/// A first occurrence is unique.
proof fn lemma_first_occurrence_unique(s: Seq<u8>, pat: Seq<u8>, from: int, i1: int, i2: int)
    requires
        found_from(s, pat, from, i1),
        found_from(s, pat, from, i2),
    ensures
        i1 == i2,
{
    if i1 < i2 {
        assert(!match_at(s, pat, i1));
    } else if i2 < i1 {
        assert(!match_at(s, pat, i2));
    }
}

/// Pins `first_match_from` down to a concrete witness.
proof fn lemma_first_match_is(s: Seq<u8>, pat: Seq<u8>, from: int, i: int)
    requires
        found_from(s, pat, from, i),
    ensures
        first_match_from(s, pat, from) == Some(i),
{
    assert(match_at(s, pat, i) && i >= from);
    let k = choose|k: int| found_from(s, pat, from, k);
    lemma_first_occurrence_unique(s, pat, from, k, i);
}

/// Whether `pat` occurs in `s` at position `i`, checked byte by byte.
fn match_here(s: &[u8], pat: &Vec<u8>, i: usize) -> (r: bool)
    requires
        i + pat@.len() <= s@.len(),
    ensures
        r == match_at(s@, pat@, i as int),
{
    let n = s.len();
    let mut k: usize = 0;
    while k < pat.len()
        invariant
            n == s@.len(),
            i + pat@.len() <= s@.len(),
            k <= pat@.len(),
            forall|m: int| 0 <= m < k ==> s@[i + m] == pat@[m],
        decreases pat@.len() - k,
    {
        if s[i + k] != pat[k] {
            assert(!match_at(s@, pat@, i as int));
            return false;
        }
        k += 1;
    }
    true
}

/// The position of the first occurrence of `pat` in `s` at or after
/// `from`, or `None` if it does not occur there.
fn find_from(s: &[u8], pat: &Vec<u8>, from: usize) -> (r: Option<usize>)
    ensures
        match r {
            Some(i) => from <= i && match_at(s@, pat@, i as int) && first_match_from(
                s@,
                pat@,
                from as int,
            ) == Some(i as int),
            None => first_match_from(s@, pat@, from as int) is None,
        },
{
    if pat.len() > s.len() {
        proof {
            assert(forall|j: int| !match_at(s@, pat@, j));
        }
        return None;
    }
    let mut i: usize = from;
    while i <= s.len() - pat.len()
        invariant
            from <= i,
            pat@.len() <= s@.len(),
            forall|j: int| from <= j < i ==> !match_at(s@, pat@, j),
        decreases s@.len() - i,
    {
        if match_here(s, pat, i) {
            proof {
                lemma_first_match_is(s@, pat@, from as int, i as int);
            }
            return Some(i);
        }
        i += 1;
    }
    proof {
        assert forall|j: int| j >= from implies !match_at(s@, pat@, j) by {
            if j >= i {
                assert(j + pat@.len() > s@.len());
            }
        }
        assert(!(exists|k: int| #[trigger] match_at(s@, pat@, k) && k >= from));
    }
    None
}

/// The marker that opens the command path.
pub open spec fn set_marker() -> Seq<u8> {
    seq![47u8, 115u8, 101u8, 116u8, 47u8]
}

/// The marker that closes the request line.
pub open spec fn line_end_marker() -> Seq<u8> {
    seq![32u8, 72u8, 84u8, 84u8, 80u8, 47u8, 49u8, 46u8, 49u8, 13u8, 10u8]
}

/// The separator between path segments.
pub open spec fn slash() -> Seq<u8> {
    seq![47u8]
}

pub open spec fn red_kw() -> Seq<u8> {
    seq![114u8, 101u8, 100u8]
}

pub open spec fn yellow_kw() -> Seq<u8> {
    seq![121u8, 101u8, 108u8, 108u8, 111u8, 119u8]
}

pub open spec fn green_kw() -> Seq<u8> {
    seq![103u8, 114u8, 101u8, 101u8, 110u8]
}

pub open spec fn off_kw() -> Seq<u8> {
    seq![111u8, 102u8, 102u8]
}

pub open spec fn on_kw() -> Seq<u8> {
    seq![111u8, 110u8]
}

pub open spec fn blinking_kw() -> Seq<u8> {
    seq![98u8, 108u8, 105u8, 110u8, 107u8, 105u8, 110u8, 103u8]
}

fn set_marker_vec() -> (r: Vec<u8>)
    ensures
        r@ == set_marker(),
{
    let mut v: Vec<u8> = Vec::new();
    v.push(47u8);
    v.push(115u8);
    v.push(101u8);
    v.push(116u8);
    v.push(47u8);
    proof {
        assert(v@ =~= set_marker());
    }
    v
}

fn line_end_marker_vec() -> (r: Vec<u8>)
    ensures
        r@ == line_end_marker(),
{
    let mut v: Vec<u8> = Vec::new();
    v.push(32u8);
    v.push(72u8);
    v.push(84u8);
    v.push(84u8);
    v.push(80u8);
    v.push(47u8);
    v.push(49u8);
    v.push(46u8);
    v.push(49u8);
    v.push(13u8);
    v.push(10u8);
    proof {
        assert(v@ =~= line_end_marker());
    }
    v
}

fn slash_vec() -> (r: Vec<u8>)
    ensures
        r@ == slash(),
{
    let mut v: Vec<u8> = Vec::new();
    v.push(47u8);
    proof {
        assert(v@ =~= slash());
    }
    v
}

fn red_kw_vec() -> (r: Vec<u8>)
    ensures
        r@ == red_kw(),
{
    let mut v: Vec<u8> = Vec::new();
    v.push(114u8);
    v.push(101u8);
    v.push(100u8);
    proof {
        assert(v@ =~= red_kw());
    }
    v
}

fn yellow_kw_vec() -> (r: Vec<u8>)
    ensures
        r@ == yellow_kw(),
{
    let mut v: Vec<u8> = Vec::new();
    v.push(121u8);
    v.push(101u8);
    v.push(108u8);
    v.push(108u8);
    v.push(111u8);
    v.push(119u8);
    proof {
        assert(v@ =~= yellow_kw());
    }
    v
}

fn green_kw_vec() -> (r: Vec<u8>)
    ensures
        r@ == green_kw(),
{
    let mut v: Vec<u8> = Vec::new();
    v.push(103u8);
    v.push(114u8);
    v.push(101u8);
    v.push(101u8);
    v.push(110u8);
    proof {
        assert(v@ =~= green_kw());
    }
    v
}

fn off_kw_vec() -> (r: Vec<u8>)
    ensures
        r@ == off_kw(),
{
    let mut v: Vec<u8> = Vec::new();
    v.push(111u8);
    v.push(102u8);
    v.push(102u8);
    proof {
        assert(v@ =~= off_kw());
    }
    v
}

fn on_kw_vec() -> (r: Vec<u8>)
    ensures
        r@ == on_kw(),
{
    let mut v: Vec<u8> = Vec::new();
    v.push(111u8);
    v.push(110u8);
    proof {
        assert(v@ =~= on_kw());
    }
    v
}

fn blinking_kw_vec() -> (r: Vec<u8>)
    ensures
        r@ == blinking_kw(),
{
    let mut v: Vec<u8> = Vec::new();
    v.push(98u8);
    v.push(108u8);
    v.push(105u8);
    v.push(110u8);
    v.push(107u8);
    v.push(105u8);
    v.push(110u8);
    v.push(103u8);
    proof {
        assert(v@ =~= blinking_kw());
    }
    v
}

/// An ASCII capital folded to its small form; every other byte kept.
pub open spec fn lower_byte(c: u8) -> u8 {
    if 65u8 <= c && c <= 90u8 {
        (c + 32) as u8
    } else {
        c
    }
}

pub open spec fn lower_bytes(s: Seq<u8>) -> Seq<u8> {
    s.map_values(|c: u8| lower_byte(c))
}

fn lower_u8(c: u8) -> (r: u8)
    ensures
        r == lower_byte(c),
{
    if 65u8 <= c && c <= 90u8 {
        c + 32
    } else {
        c
    }
}

/// Whether the bytes of `s` between `start` and `end`, folded to lower
/// case, spell exactly the keyword `kw`.
fn range_matches_kw(s: &Vec<u8>, start: usize, end: usize, kw: &Vec<u8>) -> (r: bool)
    requires
        start <= end,
        end <= s@.len(),
    ensures
        r == (lower_bytes(s@.subrange(start as int, end as int)) == kw@),
{
    let ghost tok = s@.subrange(start as int, end as int);
    if end - start != kw.len() {
        proof {
            assert(lower_bytes(tok).len() == tok.len());
        }
        return false;
    }
    let n = end - start;
    let slen = s.len();
    let mut k: usize = 0;
    while k < n
        invariant
            slen == s@.len(),
            n == end - start,
            start + n <= s@.len(),
            n == kw@.len(),
            k <= n,
            tok == s@.subrange(start as int, start + n),
            forall|m: int| 0 <= m < k ==> lower_byte(tok[m]) == kw@[m],
        decreases n - k,
    {
        proof {
            assert(tok[k as int] == s@[start + k]);
        }
        if lower_u8(s[start + k]) != kw[k] {
            proof {
                assert(lower_bytes(tok)[k as int] == lower_byte(tok[k as int]));
                assert(lower_bytes(tok)[k as int] != kw@[k as int]);
                assert(lower_bytes(tok) != kw@);
            }
            return false;
        }
        k += 1;
    }
    proof {
        assert(lower_bytes(tok) =~= kw@);
    }
    true
}

/// An ASCII decimal digit.
pub open spec fn is_digit(c: u8) -> bool {
    48 <= c && c <= 57
}

/// A non-empty run of decimal digits.
pub open spec fn all_digits(s: Seq<u8>) -> bool {
    s.len() > 0 && (forall|i: int| 0 <= i < s.len() ==> is_digit(#[trigger] s[i]))
}

/// The number a run of decimal digits denotes.
pub open spec fn digits_val(s: Seq<u8>) -> int
    decreases s.len(),
{
    if s.len() == 0 {
        0
    } else {
        digits_val(s.drop_last()) * 10 + (s.last() - 48)
    }
}

/// The digits of a numeric token: an optional leading plus sign is
/// not part of the number.
pub open spec fn numeric_token(s: Seq<u8>) -> Seq<u8> {
    if s.len() > 0 && s[0] == 43 {
        s.skip(1)
    } else {
        s
    }
}

/// Whether `s` spells an unsigned 64-bit number: an optional plus
/// sign, then digits only, denoting a value below 2^64.
pub open spec fn parses_u64(s: Seq<u8>) -> bool {
    all_digits(numeric_token(s)) && digits_val(numeric_token(s)) < 0x1_0000_0000_0000_0000
}

/// The number `s` spells, where `parses_u64(s)` holds.
pub open spec fn u64_value(s: Seq<u8>) -> int {
    digits_val(numeric_token(s))
}

proof fn lemma_digits_val_nonneg(s: Seq<u8>)
    requires
        forall|i: int| 0 <= i < s.len() ==> is_digit(#[trigger] s[i]),
    ensures
        digits_val(s) >= 0,
    decreases s.len(),
{
    if s.len() > 0 {
        lemma_digits_val_nonneg(s.drop_last());
    }
}

/// Extending a run of digits to the right never shrinks its value.
proof fn lemma_digits_val_prefix(s: Seq<u8>, k: int)
    requires
        0 <= k <= s.len(),
        forall|i: int| 0 <= i < s.len() ==> is_digit(#[trigger] s[i]),
    ensures
        digits_val(s) >= digits_val(s.take(k)),
    decreases s.len() - k,
{
    if k < s.len() {
        lemma_digits_val_prefix(s, k + 1);
        assert(s.take(k + 1).drop_last() =~= s.take(k));
        assert(s.take(k + 1).last() == s[k]);
        lemma_digits_val_nonneg(s.take(k));
    } else {
        assert(s.take(k) =~= s);
    }
}

/// The number the bytes of `s` between `start` and `end` spell, if
/// they spell one that fits in a `u64`.
fn parse_u64_range(s: &Vec<u8>, start: usize, end: usize) -> (r: Option<u64>)
    requires
        start <= end,
        end <= s@.len(),
    ensures
        match r {
            Some(v) => parses_u64(s@.subrange(start as int, end as int)) && v as int == u64_value(
                s@.subrange(start as int, end as int),
            ),
            None => !parses_u64(s@.subrange(start as int, end as int)),
        },
{
    let ghost tok = s@.subrange(start as int, end as int);
    let dstart: usize = if start < end && s[start] == 43u8 {
        start + 1
    } else {
        start
    };
    let ghost digits = s@.subrange(dstart as int, end as int);
    proof {
        assert(numeric_token(tok) =~= digits);
    }
    if dstart == end {
        // an empty digit run (including a lone plus sign) is no number
        return None;
    }
    let slen = s.len();
    let mut acc: u64 = 0;
    let mut k: usize = dstart;
    while k < end
        invariant
            slen == s@.len(),
            dstart <= k <= end,
            end <= s@.len(),
            start <= dstart,
            dstart < end,
            tok == s@.subrange(start as int, end as int),
            digits == numeric_token(tok),
            digits == s@.subrange(dstart as int, end as int),
            forall|i: int| dstart <= i < k ==> is_digit(#[trigger] s@[i]),
            acc as int == digits_val(s@.subrange(dstart as int, k as int)),
        decreases end - k,
    {
        let c = s[k];
        proof {
            assert(digits[k - dstart] == s@[k as int]);
        }
        if c < 48u8 || c > 57u8 {
            proof {
                assert(!is_digit(digits[k - dstart]));
                assert(!all_digits(digits));
            }
            return None;
        }
        let d = c - 48;
        proof {
            assert(s@.subrange(dstart as int, (k + 1) as int).drop_last() =~= s@.subrange(
                dstart as int,
                k as int,
            ));
            assert(s@.subrange(dstart as int, (k + 1) as int).last() == s@[k as int]);
        }
        if acc > (u64::MAX - d as u64) / 10 {
            // the digits seen so far already outgrow a u64; whatever
            // follows, the token denotes no 64-bit number
            proof {
                let grown = s@.subrange(dstart as int, (k + 1) as int);
                assert(digits_val(grown) == acc as int * 10 + d);
                assert(acc as int * 10 + d >= 0x1_0000_0000_0000_0000) by {
                    assert(acc as int >= (u64::MAX - d as u64) / 10 as int + 1);
                    assert(acc as int * 10 >= ((u64::MAX - d as u64) / 10 as int + 1) * 10) by (nonlinear_arith)
                        requires acc as int >= (u64::MAX - d as u64) / 10 as int + 1;
                }
                if all_digits(digits) {
                    lemma_digits_val_prefix(digits, k + 1 - dstart);
                    assert(digits.take(k + 1 - dstart) =~= grown);
                }
            }
            return None;
        }
        acc = acc * 10 + d as u64;
        k += 1;
    }
    proof {
        assert(digits =~= s@.subrange(dstart as int, k as int));
        assert(all_digits(digits));
        lemma_digits_val_nonneg(digits);
    }
    Some(acc)
}

/// A copy of the bytes of `s` between `start` and `end`.
fn copy_range(s: &[u8], start: usize, end: usize) -> (r: Vec<u8>)
    requires
        start <= end,
        end <= s@.len(),
    ensures
        r@ == s@.subrange(start as int, end as int),
{
    let mut v: Vec<u8> = Vec::new();
    let mut k: usize = start;
    while k < end
        invariant
            start <= k <= end,
            end <= s@.len(),
            v@ == s@.subrange(start as int, k as int),
        decreases end - k,
    {
        v.push(s[k]);
        proof {
            assert(v@ =~= s@.subrange(start as int, (k + 1) as int));
        }
        k += 1;
    }
    v
}

/// Where the path segment that starts at `from` ends: at the first
/// slash at or after `from`, or at the end of the path.
pub open spec fn tok_end(p: Seq<u8>, from: int) -> int {
    match first_match_from(p, slash(), from) {
        None => p.len() as int,
        Some(k) => k,
    }
}

/// The path segment that starts at `from`.
pub open spec fn tok_at(p: Seq<u8>, from: int) -> Seq<u8> {
    p.subrange(from, tok_end(p, from))
}

/// Where the segment after the one that starts at `from` begins, or
/// `None` if that segment is the last.
pub open spec fn tok_after(p: Seq<u8>, from: int) -> Option<int> {
    match first_match_from(p, slash(), from) {
        None => None,
        Some(k) => Some(k + 1),
    }
}

/// The channel a path segment names, compared without regard to ASCII
/// case.
pub open spec fn spec_channel_of(t: Seq<u8>) -> Option<Channel> {
    let l = lower_bytes(t);
    if l == red_kw() {
        Some(Channel::Red)
    } else if l == yellow_kw() {
        Some(Channel::Yellow)
    } else if l == green_kw() {
        Some(Channel::Green)
    } else {
        None
    }
}

/// The command a path spells: a channel segment, then a state segment,
/// and for `blinking` two further segments with positive phase
/// durations in milliseconds. Segments beyond those needed are
/// ignored.
pub open spec fn parse_path(p: Seq<u8>) -> Option<Command> {
    match spec_channel_of(tok_at(p, 0)) {
        None => None,
        Some(channel) => match tok_after(p, 0) {
            None => None,
            Some(p1) => {
                let t1 = lower_bytes(tok_at(p, p1));
                if t1 == off_kw() {
                    Some(Command { channel, state: DesiredState::Off })
                } else if t1 == on_kw() {
                    Some(Command { channel, state: DesiredState::On })
                } else if t1 == blinking_kw() {
                    match tok_after(p, p1) {
                        None => None,
                        Some(p2) => {
                            if !parses_u64(tok_at(p, p2)) {
                                None
                            } else {
                                match tok_after(p, p2) {
                                    None => None,
                                    Some(p3) => {
                                        if !parses_u64(tok_at(p, p3)) {
                                            None
                                        } else {
                                            let off_v = u64_value(tok_at(p, p2));
                                            let on_v = u64_value(tok_at(p, p3));
                                            if off_v > 0 && on_v > 0 {
                                                Some(
                                                    Command {
                                                        channel,
                                                        state: DesiredState::Blinking {
                                                            off_ms: off_v as u64,
                                                            on_ms: on_v as u64,
                                                        },
                                                    },
                                                )
                                            } else {
                                                None
                                            }
                                        }
                                    },
                                }
                            }
                        },
                    }
                } else {
                    None
                }
            },
        },
    }
}

/// The command a whole request line encodes: the path between the
/// first `/set/` and the first ` HTTP/1.1` line break after it,
/// parsed as above.
pub open spec fn spec_parse(s: Seq<u8>) -> Option<Command> {
    match first_match_from(s, set_marker(), 0) {
        None => None,
        Some(i) => match first_match_from(s, line_end_marker(), i + 5) {
            None => None,
            Some(j) => parse_path(s.subrange(i + 5, j)),
        },
    }
}

/// The command a path (the bytes between the two markers) spells.
pub fn parse_path_bytes(p: &Vec<u8>) -> (r: Option<Command>)
    ensures
        r == parse_path(p@),
        (match r {
            Some(cmd) => cmd.wf(),
            None => true,
        }),
{
    let slash_v = slash_vec();
    let n = p.len();
    let (e0, next0): (usize, Option<usize>) = match find_from(p.as_slice(), &slash_v, 0) {
        Some(k) => (k, Some(k + 1)),
        None => (n, None),
    };
    let red_v = red_kw_vec();
    let yellow_v = yellow_kw_vec();
    let green_v = green_kw_vec();
    let channel: Channel = if range_matches_kw(p, 0, e0, &red_v) {
        Channel::Red
    } else if range_matches_kw(p, 0, e0, &yellow_v) {
        Channel::Yellow
    } else if range_matches_kw(p, 0, e0, &green_v) {
        Channel::Green
    } else {
        return None;
    };
    let p1 = match next0 {
        Some(p1) => p1,
        None => {
            return None;
        },
    };
    let (e1, next1): (usize, Option<usize>) = match find_from(p.as_slice(), &slash_v, p1) {
        Some(k) => (k, Some(k + 1)),
        None => (n, None),
    };
    let off_v = off_kw_vec();
    let on_v = on_kw_vec();
    let blinking_v = blinking_kw_vec();
    if range_matches_kw(p, p1, e1, &off_v) {
        return Some(Command { channel, state: DesiredState::Off });
    }
    if range_matches_kw(p, p1, e1, &on_v) {
        return Some(Command { channel, state: DesiredState::On });
    }
    if !range_matches_kw(p, p1, e1, &blinking_v) {
        return None;
    }
    let p2 = match next1 {
        Some(p2) => p2,
        None => {
            return None;
        },
    };
    let (e2, next2): (usize, Option<usize>) = match find_from(p.as_slice(), &slash_v, p2) {
        Some(k) => (k, Some(k + 1)),
        None => (n, None),
    };
    let off_ms = match parse_u64_range(p, p2, e2) {
        Some(v) => v,
        None => {
            return None;
        },
    };
    let p3 = match next2 {
        Some(p3) => p3,
        None => {
            return None;
        },
    };
    let (e3, _next3): (usize, Option<usize>) = match find_from(p.as_slice(), &slash_v, p3) {
        Some(k) => (k, Some(k + 1)),
        None => (n, None),
    };
    let on_ms = match parse_u64_range(p, p3, e3) {
        Some(v) => v,
        None => {
            return None;
        },
    };
    if off_ms > 0 && on_ms > 0 {
        Some(Command { channel, state: DesiredState::Blinking { off_ms, on_ms } })
    } else {
        None
    }
}

/// The command a request line encodes, or `None` where the line
/// encodes none. A parsed command is always well formed: blink phase
/// durations are positive.
pub fn parse_request(req: &[u8]) -> (r: Option<Command>)
    ensures
        r == spec_parse(req@),
        (match r {
            Some(cmd) => cmd.wf(),
            None => true,
        }),
{
    let set_m = set_marker_vec();
    let i = match find_from(req, &set_m, 0) {
        Some(i) => i,
        None => {
            return None;
        },
    };
    let n = req.len();
    proof {
        assert(i + set_marker().len() <= n);
    }
    let end_m = line_end_marker_vec();
    let j = match find_from(req, &end_m, i + 5) {
        Some(j) => j,
        None => {
            return None;
        },
    };
    let path = copy_range(req, i + 5, j);
    parse_path_bytes(&path)
}

} // verus!

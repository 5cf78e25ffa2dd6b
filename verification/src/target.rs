//! The scrape-target address grammar.
//!
//! A target names a host — a domain, an IPv4 address, or a bracketed
//! IPv6 address — with an optional port. The parser normalises it to
//! `host:port`, filling in the default NUT port when none is given.

use vstd::prelude::*;

use crate::decimal::{all_digits, is_digit};

verus! {

/// First position at or after `i` holding `ch`, or the length.
pub open spec fn find_char(s: Seq<char>, i: int, ch: char) -> int
    decreases s.len() - i,
{
    if i < 0 || i >= s.len() {
        i
    } else if s[i] == ch {
        i
    } else {
        find_char(s, i + 1, ch)
    }
}

proof fn lemma_find_char(s: Seq<char>, i: int, ch: char)
    requires
        0 <= i <= s.len(),
    ensures
        i <= find_char(s, i, ch) <= s.len(),
        forall|j: int| i <= j < find_char(s, i, ch) ==> s[j] != ch,
        find_char(s, i, ch) < s.len() ==> s[find_char(s, i, ch)] == ch,
    decreases s.len() - i,
{
    if i < s.len() && s[i] != ch {
        lemma_find_char(s, i + 1, ch);
    }
}

fn find_char_exec(s: &str, start: usize, ch: char) -> (r: usize)
    requires
        start <= s@.len(),
    ensures
        r == find_char(s@, start as int, ch),
        start <= r <= s@.len(),
{
    proof {
        lemma_find_char(s@, start as int, ch);
    }
    let len = s.unicode_len();
    let mut i: usize = start;
    while i < len
        invariant
            start <= i <= len,
            len == s@.len(),
            find_char(s@, i as int, ch) == find_char(s@, start as int, ch),
        decreases len - i,
    {
        if s.get_char(i) == ch {
            return i;
        }
        i += 1;
    }
    i
}

fn all_digits_from(s: &str, from: usize) -> (r: bool)
    requires
        from <= s@.len(),
    ensures
        r == all_digits(s@.subrange(from as int, s@.len() as int)),
{
    let ghost part = s@.subrange(from as int, s@.len() as int);
    let len = s.unicode_len();
    let mut i: usize = from;
    while i < len
        invariant
            from <= i <= len,
            len == s@.len(),
            part == s@.subrange(from as int, s@.len() as int),
            forall|j: int| from <= j < i ==> is_digit(#[trigger] s@[j]),
        decreases len - i,
    {
        let c = s.get_char(i);
        if !((c as u32) >= ('0' as u32) && (c as u32) <= ('9' as u32)) {
            proof {
                assert(part[i - from as int] == s@[i as int]);
            }
            return false;
        }
        i += 1;
    }
    proof {
        assert(forall|j: int| 0 <= j < part.len() ==> part[j] == s@[j + from]);
    }
    true
}

/// The bracketed-host reading: `[` then at least one character other
/// than `]`, the first `]`, and then the end or a colon and a non-empty
/// run of digits.
pub open spec fn spec_target_bracketed(s: Seq<char>) -> Option<(Seq<char>, Seq<char>)> {
    if s.len() == 0 || s[0] != '[' {
        None
    } else {
        let k = find_char(s, 0, ']');
        if k < 2 || k >= s.len() {
            None
        } else if k == s.len() - 1 {
            Some((s.subrange(0, k + 1), Seq::<char>::empty()))
        } else if s[k + 1] == ':' && k + 2 < s.len() && all_digits(
            s.subrange(k + 2, s.len() as int),
        ) {
            Some((s.subrange(0, k + 1), s.subrange(k + 2, s.len() as int)))
        } else {
            None
        }
    }
}

/// The plain-host reading: everything before the first colon, which
/// must be non-empty; after a colon, a non-empty run of digits.
pub open spec fn spec_target_plain(s: Seq<char>) -> Option<(Seq<char>, Seq<char>)> {
    let c = find_char(s, 0, ':');
    if c >= s.len() {
        if s.len() > 0 {
            Some((s, Seq::<char>::empty()))
        } else {
            None
        }
    } else if c >= 1 && c + 1 < s.len() && all_digits(s.subrange(c + 1, s.len() as int)) {
        Some((s.subrange(0, c), s.subrange(c + 1, s.len() as int)))
    } else {
        None
    }
}

/// The target grammar: the bracketed reading where it applies, else the
/// plain one; the port is empty when none was given.
pub open spec fn spec_parse_target(s: Seq<char>) -> Option<(Seq<char>, Seq<char>)> {
    if spec_target_bracketed(s) is Some {
        spec_target_bracketed(s)
    } else {
        spec_target_plain(s)
    }
}

/// The normalised address `host:port` for a parsed target, with the
/// default NUT port for a target that named none.
pub open spec fn spec_target_address(host: Seq<char>, port: Seq<char>) -> Seq<char> {
    host + ":"@ + (if port.len() == 0 {
        "3493"@
    } else {
        port
    })
}

/// Parses a raw target and normalises it to `host:port`, `None` when
/// the text matches neither host form.
pub fn parse_target(target_raw: &str) -> (r: Option<String>)
    ensures
        r is Some <==> spec_parse_target(target_raw@) is Some,
        r is Some ==> r->0@ == spec_target_address(
            (spec_parse_target(target_raw@)->0).0,
            (spec_parse_target(target_raw@)->0).1,
        ),
{
    let len = target_raw.unicode_len();
    let mut host_end: usize = 0;
    let mut port_start: usize = 0;
    let mut matched = false;
    if len > 0 && target_raw.get_char(0) == '[' {
        let k = find_char_exec(target_raw, 0, ']');
        if k >= 2 && k < len {
            if k == len - 1 {
                host_end = k + 1;
                port_start = len;
                matched = true;
            } else if target_raw.get_char(k + 1) == ':' && k + 2 < len && all_digits_from(
                target_raw,
                k + 2,
            ) {
                host_end = k + 1;
                port_start = k + 2;
                matched = true;
            }
        }
    }
    if !matched {
        proof {
            assert(spec_target_bracketed(target_raw@) is None);
        }
        let c = find_char_exec(target_raw, 0, ':');
        if c >= len {
            if len > 0 {
                host_end = len;
                port_start = len;
                matched = true;
            }
        } else if c >= 1 && c + 1 < len && all_digits_from(target_raw, c + 1) {
            host_end = c;
            port_start = c + 1;
            matched = true;
        }
        if !matched {
            return None;
        }
    }
    let mut out = crate::strutil::substring_copy(target_raw, 0, host_end);
    out.append(":");
    if port_start >= len {
        out.append("3493");
    } else {
        let port = crate::strutil::substring_copy(target_raw, port_start, len);
        out.append(port.as_str());
    }
    proof {
        if target_raw@.len() > 0 && target_raw@[0] == '[' {
            lemma_find_char(target_raw@, 0, ']');
        }
        lemma_find_char(target_raw@, 0, ':');
        assert(target_raw@.subrange(0, target_raw@.len() as int) =~= target_raw@);
    }
    Some(out)
}

} // verus!

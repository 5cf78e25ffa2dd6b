//! Exact decimal numbers as digit strings.
//!
//! Raw NUT field values are decimal literals in text form. The renderer
//! must print them back in fixed decimal notation (17 fraction digits for
//! fractional metrics, none for integer metrics), so this module keeps the
//! digits exactly as parsed and does all arithmetic on the digit strings:
//! parsing, division by one hundred (a two-place shift), and rounding half
//! to even at the rendering cut.

use vstd::prelude::*;

verus! {

/// A signed decimal number: `int_digits . frac_digits`, negated when `neg`.
pub struct Decimal {
    pub neg: bool,
    pub int_digits: Vec<char>,
    pub frac_digits: Vec<char>,
}

pub open spec fn is_digit(c: char) -> bool {
    ('0' as u32) <= c as u32 <= ('9' as u32)
}

pub open spec fn all_digits(s: Seq<char>) -> bool {
    forall|i: int| 0 <= i < s.len() ==> is_digit(#[trigger] s[i])
}

impl Decimal {
    /// A well-formed decimal holds only digits and at least one of them.
    pub open spec fn wf(&self) -> bool {
        all_digits(self.int_digits@) && all_digits(self.frac_digits@) && self.int_digits@.len()
            + self.frac_digits@.len() >= 1
    }
}

/// First position at or after `i` that does not hold a digit.
pub open spec fn digit_run_end(s: Seq<char>, i: int) -> int
    decreases s.len() - i,
{
    if i < 0 || i >= s.len() {
        i
    } else if is_digit(s[i]) {
        digit_run_end(s, i + 1)
    } else {
        i
    }
}

proof fn lemma_digit_run_end(s: Seq<char>, i: int)
    requires
        0 <= i <= s.len(),
    ensures
        i <= digit_run_end(s, i) <= s.len(),
        forall|j: int| i <= j < digit_run_end(s, i) ==> is_digit(#[trigger] s[j]),
        digit_run_end(s, i) < s.len() ==> !is_digit(s[digit_run_end(s, i)]),
    decreases s.len() - i,
{
    if i < s.len() && is_digit(s[i]) {
        lemma_digit_run_end(s, i + 1);
    }
}

/// The grammar of a raw numeric field value: an optional sign, then
/// digits with at most one decimal point among them; at least one digit.
/// The result is the sign and the two digit runs.
pub open spec fn spec_parse_decimal(s: Seq<char>) -> Option<(bool, Seq<char>, Seq<char>)> {
    let neg = s.len() > 0 && s[0] == '-';
    let start: int = if s.len() > 0 && (s[0] == '-' || s[0] == '+') {
        1
    } else {
        0
    };
    let ie = digit_run_end(s, start);
    if ie == s.len() {
        if ie > start {
            Some((neg, s.subrange(start, ie), Seq::<char>::empty()))
        } else {
            None
        }
    } else if s[ie] == '.' {
        let fe = digit_run_end(s, ie + 1);
        if fe == s.len() && (ie > start || fe > ie + 1) {
            Some((neg, s.subrange(start, ie), s.subrange(ie + 1, fe)))
        } else {
            None
        }
    } else {
        None
    }
}

/// The parse result, as the view of a parsed `Decimal`.
pub open spec fn dec_view(d: Decimal) -> (bool, Seq<char>, Seq<char>) {
    (d.neg, d.int_digits@, d.frac_digits@)
}

fn digit_run(s: &str, start: usize) -> (r: usize)
    requires
        start <= s@.len(),
    ensures
        r == digit_run_end(s@, start as int),
        start <= r <= s@.len(),
{
    proof {
        lemma_digit_run_end(s@, start as int);
    }
    let len = s.unicode_len();
    let mut i: usize = start;
    while i < len
        invariant
            start <= i <= len,
            len == s@.len(),
            forall|j: int| start <= j < i ==> is_digit(#[trigger] s@[j]),
            digit_run_end(s@, i as int) == digit_run_end(s@, start as int),
        decreases len - i,
    {
        let c = s.get_char(i);
        if !((c as u32) >= ('0' as u32) && (c as u32) <= ('9' as u32)) {
            return i;
        }
        i += 1;
    }
    i
}

fn copy_digit_run(s: &str, from: usize, to: usize) -> (r: Vec<char>)
    requires
        from <= to <= s@.len(),
    ensures
        r@ == s@.subrange(from as int, to as int),
{
    let mut v: Vec<char> = Vec::new();
    let mut i: usize = from;
    while i < to
        invariant
            from <= i <= to <= s@.len(),
            v@ =~= s@.subrange(from as int, i as int),
        decreases to - i,
    {
        v.push(s.get_char(i));
        proof {
            assert(v@ =~= s@.subrange(from as int, i + 1));
        }
        i += 1;
    }
    v
}

/// Parses a raw field value as an exact decimal, `None` when the text is
/// not a plain decimal literal.
pub fn parse_decimal(s: &str) -> (r: Option<Decimal>)
    ensures
        r is Some <==> spec_parse_decimal(s@) is Some,
        r is Some ==> dec_view(r->0) == spec_parse_decimal(s@)->0 && r->0.wf(),
{
    proof {
        lemma_digit_run_end(s@, 0);
        if s@.len() > 0 {
            lemma_digit_run_end(s@, 1);
        }
    }
    let len = s.unicode_len();
    let mut neg = false;
    let mut start: usize = 0;
    if len > 0 {
        let c0 = s.get_char(0);
        if c0 == '-' {
            neg = true;
            start = 1;
        } else if c0 == '+' {
            start = 1;
        }
    }
    let ie = digit_run(s, start);
    proof {
        lemma_digit_run_end(s@, start as int);
    }
    if ie == len {
        if ie > start {
            let int_digits = copy_digit_run(s, start, ie);
            return Some(Decimal { neg, int_digits, frac_digits: Vec::new() });
        }
        return None;
    }
    if s.get_char(ie) == '.' {
        let fe = digit_run(s, ie + 1);
        proof {
            lemma_digit_run_end(s@, ie + 1);
        }
        if fe == len && (ie > start || fe > ie + 1) {
            let int_digits = copy_digit_run(s, start, ie);
            let frac_digits = copy_digit_run(s, ie + 1, fe);
            return Some(Decimal { neg, int_digits, frac_digits });
        }
        return None;
    }
    None
}

/// Division by one hundred: the two last integer digits move across the
/// decimal point, padding with zeros when fewer are there.
pub open spec fn spec_shift_right2(ip: Seq<char>, fp: Seq<char>) -> (Seq<char>, Seq<char>) {
    if ip.len() >= 2 {
        (ip.subrange(0, ip.len() - 2), ip.subrange(ip.len() - 2, ip.len() as int) + fp)
    } else if ip.len() == 1 {
        (Seq::<char>::empty(), seq!['0', ip[0]] + fp)
    } else {
        (Seq::<char>::empty(), seq!['0', '0'] + fp)
    }
}

/// The exact value of `d` divided by one hundred.
pub fn div_hundred(d: &Decimal) -> (r: Decimal)
    requires
        d.wf(),
    ensures
        r.neg == d.neg,
        (r.int_digits@, r.frac_digits@) == spec_shift_right2(d.int_digits@, d.frac_digits@),
        r.wf(),
{
    let n = d.int_digits.len();
    let mut int_digits: Vec<char> = Vec::new();
    let mut frac_digits: Vec<char> = Vec::new();
    if n >= 2 {
        let mut i: usize = 0;
        while i < n - 2
            invariant
                n == d.int_digits@.len(),
                n >= 2,
                i <= n - 2,
                int_digits@ =~= d.int_digits@.subrange(0, i as int),
            decreases n - 2 - i,
        {
            int_digits.push(d.int_digits[i]);
            proof {
                assert(int_digits@ =~= d.int_digits@.subrange(0, i + 1));
            }
            i += 1;
        }
        frac_digits.push(d.int_digits[n - 2]);
        frac_digits.push(d.int_digits[n - 1]);
    } else if n == 1 {
        frac_digits.push('0');
        frac_digits.push(d.int_digits[0]);
    } else {
        frac_digits.push('0');
        frac_digits.push('0');
    }
    let mut j: usize = 0;
    let ghost moved = frac_digits@;
    while j < d.frac_digits.len()
        invariant
            j <= d.frac_digits@.len(),
            frac_digits@ =~= moved + d.frac_digits@.subrange(0, j as int),
        decreases d.frac_digits@.len() - j,
    {
        frac_digits.push(d.frac_digits[j]);
        proof {
            assert(frac_digits@ =~= moved + d.frac_digits@.subrange(0, j + 1));
        }
        j += 1;
    }
    proof {
        assert(d.frac_digits@.subrange(0, d.frac_digits@.len() as int) =~= d.frac_digits@);
        if n >= 2 {
            assert(frac_digits@ =~= d.int_digits@.subrange(n - 2, n as int) + d.frac_digits@);
        } else if n == 1 {
            assert(frac_digits@ =~= seq!['0', d.int_digits@[0]] + d.frac_digits@);
        } else {
            assert(frac_digits@ =~= seq!['0', '0'] + d.frac_digits@);
        }
    }
    Decimal { neg: d.neg, int_digits, frac_digits }
}

pub open spec fn spec_next_digit(c: char) -> char {
    match c {
        '0' => '1',
        '1' => '2',
        '2' => '3',
        '3' => '4',
        '4' => '5',
        '5' => '6',
        '6' => '7',
        '7' => '8',
        _ => '9',
    }
}

fn next_digit(c: char) -> (r: char)
    requires
        is_digit(c),
        c != '9',
    ensures
        r == spec_next_digit(c),
{
    match c {
        '0' => '1',
        '1' => '2',
        '2' => '3',
        '3' => '4',
        '4' => '5',
        '5' => '6',
        '6' => '7',
        '7' => '8',
        _ => '9',
    }
}

pub open spec fn zeros(n: nat) -> Seq<char> {
    Seq::new(n, |i: int| '0')
}

/// The digit string of the successor: adding one to the last place, with
/// decimal carry, growing by one digit at most.
pub open spec fn spec_inc(s: Seq<char>) -> Seq<char>
    decreases s.len(),
{
    if s.len() == 0 {
        seq!['1']
    } else if s.last() == '9' {
        spec_inc(s.drop_last()).push('0')
    } else {
        s.drop_last().push(spec_next_digit(s.last()))
    }
}

proof fn lemma_inc_all_nines(s: Seq<char>)
    requires
        forall|j: int| 0 <= j < s.len() ==> s[j] == '9',
    ensures
        spec_inc(s) == seq!['1'] + zeros(s.len()),
    decreases s.len(),
{
    if s.len() == 0 {
        assert(spec_inc(s) =~= seq!['1'] + zeros(0));
    } else {
        lemma_inc_all_nines(s.drop_last());
        assert(spec_inc(s) =~= seq!['1'] + zeros(s.len()));
    }
}

proof fn lemma_inc_at(s: Seq<char>, k: int)
    requires
        0 <= k < s.len(),
        s[k] != '9',
        forall|j: int| k < j < s.len() ==> s[j] == '9',
    ensures
        spec_inc(s) == s.subrange(0, k).push(spec_next_digit(s[k])) + zeros(
            (s.len() - 1 - k) as nat,
        ),
    decreases s.len(),
{
    if k == s.len() - 1 {
        assert(s.drop_last() =~= s.subrange(0, k));
        assert(spec_inc(s) =~= s.subrange(0, k).push(spec_next_digit(s[k])) + zeros(0));
    } else {
        lemma_inc_at(s.drop_last(), k);
        assert(s.drop_last().subrange(0, k) =~= s.subrange(0, k));
        assert(spec_inc(s) =~= s.subrange(0, k).push(spec_next_digit(s[k])) + zeros(
            (s.len() - 1 - k) as nat,
        ));
    }
}

/// Adds one to a digit string.
pub fn inc_digits(v: &Vec<char>) -> (r: Vec<char>)
    requires
        all_digits(v@),
    ensures
        r@ == spec_inc(v@),
        all_digits(r@),
        v@.len() <= r@.len() <= v@.len() + 1,
{
    let n = v.len();
    let mut j: usize = n;
    while j > 0 && v[j - 1] == '9'
        invariant
            j <= n,
            n == v@.len(),
            forall|idx: int| j <= idx < n ==> v@[idx] == '9',
        decreases j,
    {
        j -= 1;
    }
    let mut r: Vec<char> = Vec::new();
    if j == 0 {
        r.push('1');
        proof {
            lemma_inc_all_nines(v@);
        }
    } else {
        let mut i: usize = 0;
        while i < j - 1
            invariant
                j >= 1,
                i <= j - 1,
                j <= n == v@.len(),
                r@ =~= v@.subrange(0, i as int),
            decreases j - 1 - i,
        {
            r.push(v[i]);
            proof {
                assert(r@ =~= v@.subrange(0, i + 1));
            }
            i += 1;
        }
        r.push(next_digit(v[j - 1]));
        proof {
            lemma_inc_at(v@, j - 1);
        }
    }
    let ghost head = r@;
    let ghost filled = n - j;
    let mut k: usize = j;
    while k < n
        invariant
            j <= k <= n,
            r@ =~= head + zeros((k - j) as nat),
        decreases n - k,
    {
        r.push('0');
        proof {
            assert(r@ =~= head + zeros((k + 1 - j) as nat));
        }
        k += 1;
    }
    proof {
        if j == 0 {
            assert(r@ =~= spec_inc(v@));
        } else {
            assert(head =~= v@.subrange(0, j - 1).push(spec_next_digit(v@[j - 1])));
            assert(r@ =~= spec_inc(v@));
        }
        assert forall|idx: int| 0 <= idx < r@.len() implies is_digit(#[trigger] r@[idx]) by {
            lemma_inc_digits(v@);
        }
    }
    r
}

proof fn lemma_inc_digits(s: Seq<char>)
    requires
        all_digits(s),
    ensures
        all_digits(spec_inc(s)),
        s.len() <= spec_inc(s).len() <= s.len() + 1,
    decreases s.len(),
{
    if s.len() > 0 {
        lemma_inc_digits(s.drop_last());
    }
}

pub open spec fn is_odd_digit(c: char) -> bool {
    c == '1' || c == '3' || c == '5' || c == '7' || c == '9'
}

/// Rounding half to even at a cut: `kept_last` is the digit kept just
/// before the cut ('0' when nothing is kept) and `dropped` the digits cut
/// away. True when the dropped part is over one half, or exactly one half
/// with an odd digit kept before it.
pub open spec fn spec_round_up(kept_last: char, dropped: Seq<char>) -> bool {
    dropped.len() > 0 && (dropped[0] as u32 > ('5' as u32) || (dropped[0] == '5' && ((exists|j: int|
        1 <= j < dropped.len() && dropped[j] != '0') || is_odd_digit(kept_last))))
}

fn round_up(kept_last: char, dropped: &Vec<char>, from: usize) -> (r: bool)
    requires
        from <= dropped@.len(),
    ensures
        r == spec_round_up(kept_last, dropped@.subrange(from as int, dropped@.len() as int)),
{
    let ghost d = dropped@.subrange(from as int, dropped@.len() as int);
    proof {
        assert(forall|j: int| 0 <= j < d.len() ==> d[j] == dropped@[j + from]);
    }
    let n = dropped.len();
    if from == n {
        return false;
    }
    let d0 = dropped[from];
    assert(d0 == d[0]);
    if (d0 as u32) > ('5' as u32) {
        return true;
    }
    if d0 != '5' {
        assert(!(d[0] as u32 > ('5' as u32)));
        return false;
    }
    if is_odd_digit_exec(kept_last) {
        return true;
    }
    let mut i: usize = from + 1;
    while i < n
        invariant
            from + 1 <= i <= n,
            n == dropped@.len(),
            d == dropped@.subrange(from as int, dropped@.len() as int),
            d.len() > 0,
            d[0] == '5',
            forall|j: int| from + 1 <= j < i ==> dropped@[j] == '0',
        decreases n - i,
    {
        if dropped[i] != '0' {
            proof {
                let w = i - from as int;
                assert(d[w] == dropped@[i as int]);
                assert(1 <= w < d.len() && d[w] != '0');
                assert(exists|j: int| 1 <= j < d.len() && d[j] != '0');
                assert(spec_round_up(kept_last, d));
            }
            return true;
        }
        i += 1;
    }
    assert(forall|j: int| 1 <= j < d.len() ==> d[j] == dropped@[j + from] && dropped@[j + from]
        == '0');
    false
}

fn is_odd_digit_exec(c: char) -> (r: bool)
    ensures
        r == is_odd_digit(c),
{
    c == '1' || c == '3' || c == '5' || c == '7' || c == '9'
}

/// Leading zeros removed.
pub open spec fn strip_zeros(s: Seq<char>) -> Seq<char>
    decreases s.len(),
{
    if s.len() > 0 && s[0] == '0' {
        strip_zeros(s.drop_first())
    } else {
        s
    }
}

proof fn lemma_strip_zeros_at(s: Seq<char>, k: int)
    requires
        0 <= k <= s.len(),
        forall|j: int| 0 <= j < k ==> s[j] == '0',
        k < s.len() ==> s[k] != '0',
    ensures
        strip_zeros(s) == s.subrange(k, s.len() as int),
    decreases k,
{
    if k == 0 {
        if s.len() > 0 && s[0] == '0' {
            assert(false);
        }
        assert(s.subrange(0, s.len() as int) =~= s);
    } else {
        lemma_strip_zeros_at(s.drop_first(), k - 1);
        assert(s.drop_first().subrange(k - 1, s.drop_first().len() as int) =~= s.subrange(
            k,
            s.len() as int,
        ));
    }
}

/// The integer digits as printed: leading zeros gone, a bare zero kept.
pub open spec fn printed_digits(s: Seq<char>) -> Seq<char> {
    if strip_zeros(s).len() == 0 {
        seq!['0']
    } else {
        strip_zeros(s)
    }
}

/// Appends `v[from..to]` to `out`.
pub fn append_chars(out: &mut String, v: &Vec<char>, from: usize, to: usize)
    requires
        from <= to <= v@.len(),
    ensures
        final(out)@ == old(out)@ + v@.subrange(from as int, to as int),
{
    let mut i: usize = from;
    while i < to
        invariant
            from <= i <= to <= v@.len(),
            out@ =~= old(out)@ + v@.subrange(from as int, i as int),
        decreases to - i,
    {
        crate::strutil::push_char(out, v[i]);
        proof {
            assert(out@ =~= old(out)@ + v@.subrange(from as int, i + 1));
        }
        i += 1;
    }
}

fn append_printed(out: &mut String, v: &Vec<char>)
    ensures
        final(out)@ == old(out)@ + printed_digits(v@),
{
    let n = v.len();
    let mut k: usize = 0;
    while k < n && v[k] == '0'
        invariant
            k <= n,
            n == v@.len(),
            forall|j: int| 0 <= j < k ==> v@[j] == '0',
        decreases n - k,
    {
        k += 1;
    }
    proof {
        lemma_strip_zeros_at(v@, k as int);
    }
    if k == n {
        crate::strutil::push_char(out, '0');
        proof {
            assert(v@.subrange(k as int, n as int) =~= Seq::<char>::empty());
            assert(old(out)@.push('0') =~= old(out)@ + seq!['0']);
        }
    } else {
        append_chars(out, v, k, n);
    }
}

/// How `d` prints with no fraction digits: the fraction is rounded away,
/// half to even, and the sign kept as parsed.
pub open spec fn spec_render_integer(neg: bool, ip: Seq<char>, fp: Seq<char>) -> Seq<char> {
    let kept_last: char = if ip.len() > 0 {
        ip.last()
    } else {
        '0'
    };
    let digits = if spec_round_up(kept_last, fp) {
        spec_inc(ip)
    } else {
        ip
    };
    (if neg {
        seq!['-']
    } else {
        Seq::<char>::empty()
    }) + printed_digits(digits)
}

/// How `d` prints with exactly seventeen fraction digits: padded with
/// zeros, or cut there with the tail rounded half to even.
pub open spec fn spec_render_fraction(neg: bool, ip: Seq<char>, fp: Seq<char>) -> Seq<char> {
    let sign: Seq<char> = if neg {
        seq!['-']
    } else {
        Seq::<char>::empty()
    };
    if fp.len() <= 17 {
        sign + printed_digits(ip) + seq!['.'] + fp + zeros((17 - fp.len()) as nat)
    } else {
        let kept = ip + fp.subrange(0, 17);
        let combined = if spec_round_up(fp[16], fp.subrange(17, fp.len() as int)) {
            spec_inc(kept)
        } else {
            kept
        };
        sign + printed_digits(combined.subrange(0, combined.len() - 17)) + seq!['.']
            + combined.subrange(combined.len() - 17, combined.len() as int)
    }
}

/// One rendered number: no fraction digits for integer metrics, a fixed
/// seventeen for the rest — never scientific notation.
pub open spec fn spec_render_number(neg: bool, ip: Seq<char>, fp: Seq<char>, integer: bool) -> Seq<
    char,
> {
    if integer {
        spec_render_integer(neg, ip, fp)
    } else {
        spec_render_fraction(neg, ip, fp)
    }
}

/// Renders `d` as the metrics document prints it.
pub fn render_number(d: &Decimal, integer: bool) -> (r: String)
    requires
        d.wf(),
    ensures
        r@ == spec_render_number(d.neg, d.int_digits@, d.frac_digits@, integer),
{
    let mut out = String::new();
    if d.neg {
        crate::strutil::push_char(&mut out, '-');
        proof {
            assert(out@ =~= seq!['-']);
        }
    }
    let ghost sign = out@;
    if integer {
        let kept_last: char = if d.int_digits.len() > 0 {
            d.int_digits[d.int_digits.len() - 1]
        } else {
            '0'
        };
        if round_up(kept_last, &d.frac_digits, 0) {
            proof {
                assert(d.frac_digits@.subrange(0, d.frac_digits@.len() as int) =~= d.frac_digits@);
            }
            let digits = inc_digits(&d.int_digits);
            append_printed(&mut out, &digits);
        } else {
            proof {
                assert(d.frac_digits@.subrange(0, d.frac_digits@.len() as int) =~= d.frac_digits@);
            }
            append_printed(&mut out, &d.int_digits);
        }
    } else {
        if d.frac_digits.len() <= 17 {
            append_printed(&mut out, &d.int_digits);
            crate::strutil::push_char(&mut out, '.');
            append_chars(&mut out, &d.frac_digits, 0, d.frac_digits.len());
            let ghost before = out@;
            let pad = 17 - d.frac_digits.len();
            let mut p: usize = 0;
            while p < pad
                invariant
                    p <= pad,
                    out@ =~= before + zeros(p as nat),
                decreases pad - p,
            {
                crate::strutil::push_char(&mut out, '0');
                proof {
                    assert(out@ =~= before + zeros((p + 1) as nat));
                }
                p += 1;
            }
            proof {
                assert(d.frac_digits@.subrange(0, d.frac_digits@.len() as int) =~= d.frac_digits@);
                assert(out@ =~= sign + printed_digits(d.int_digits@) + seq!['.'] + d.frac_digits@
                    + zeros((17 - d.frac_digits@.len()) as nat));
            }
        } else {
            let mut kept: Vec<char> = Vec::new();
            let mut i: usize = 0;
            let n = d.int_digits.len();
            while i < n
                invariant
                    i <= n,
                    n == d.int_digits@.len(),
                    kept@ =~= d.int_digits@.subrange(0, i as int),
                decreases n - i,
            {
                kept.push(d.int_digits[i]);
                proof {
                    assert(kept@ =~= d.int_digits@.subrange(0, i + 1));
                }
                i += 1;
            }
            proof {
                assert(kept@ =~= d.int_digits@);
            }
            let mut f: usize = 0;
            while f < 17
                invariant
                    f <= 17,
                    17 < d.frac_digits@.len(),
                    kept@ =~= d.int_digits@ + d.frac_digits@.subrange(0, f as int),
                decreases 17 - f,
            {
                kept.push(d.frac_digits[f]);
                proof {
                    assert(kept@ =~= d.int_digits@ + d.frac_digits@.subrange(0, f + 1));
                }
                f += 1;
            }
            let combined = if round_up(d.frac_digits[16], &d.frac_digits, 17) {
                inc_digits(&kept)
            } else {
                kept
            };
            let cut = combined.len() - 17;
            let head: Vec<char> = copy_subvec(&combined, 0, cut);
            append_printed(&mut out, &head);
            crate::strutil::push_char(&mut out, '.');
            append_chars(&mut out, &combined, cut, combined.len());
        }
    }
    out
}

fn copy_subvec(v: &Vec<char>, from: usize, to: usize) -> (r: Vec<char>)
    requires
        from <= to <= v@.len(),
    ensures
        r@ == v@.subrange(from as int, to as int),
{
    let mut r: Vec<char> = Vec::new();
    let mut i: usize = from;
    while i < to
        invariant
            from <= i <= to <= v@.len(),
            r@ =~= v@.subrange(from as int, i as int),
        decreases to - i,
    {
        r.push(v[i]);
        proof {
            assert(r@ =~= v@.subrange(from as int, i + 1));
        }
        i += 1;
    }
    r
}

} // verus!

use vstd::prelude::*;
use vstd::string::*;

verus! {

/// A UTC calendar date as year, month and day.
#[derive(Clone, Copy, PartialEq, Eq, Structural, Debug)]
pub struct CalDate {
    pub year: i32,
    pub month: u32,
    pub day: u32,
}

impl CalDate {
    /// Month and day lie in their calendar ranges.
    pub open spec fn wf(self) -> bool {
        1 <= self.month <= 12 && 1 <= self.day <= 31
    }
}

/// The character of a decimal digit.
pub open spec fn digit_char(d: nat) -> char {
    if d == 0 { '0' }
    else if d == 1 { '1' }
    else if d == 2 { '2' }
    else if d == 3 { '3' }
    else if d == 4 { '4' }
    else if d == 5 { '5' }
    else if d == 6 { '6' }
    else if d == 7 { '7' }
    else if d == 8 { '8' }
    else { '9' }
}

/// The decimal digits of a number, without leading zeros.
pub open spec fn dec(n: nat) -> Seq<char>
    decreases n,
{
    if n < 10 {
        seq![digit_char(n)]
    } else {
        dec(n / 10).push(digit_char(n % 10))
    }
}

/// The text preceded by zeros up to the width `w`.
pub open spec fn zero_pad(s: Seq<char>, w: nat) -> Seq<char> {
    if s.len() >= w {
        s
    } else {
        Seq::new((w - s.len()) as nat, |i: int| '0') + s
    }
}

/// A year written with at least four characters, sign included.
pub open spec fn year_text(y: int) -> Seq<char> {
    if y < 0 {
        seq!['-'] + zero_pad(dec((-y) as nat), 3)
    } else {
        zero_pad(dec(y as nat), 4)
    }
}

/// A date written as `<YYYY>-<MM>-<DD>`.
pub open spec fn date_text(d: CalDate) -> Seq<char> {
    year_text(d.year as int) + seq!['-'] + zero_pad(dec(d.month as nat), 2) + seq!['-']
        + zero_pad(dec(d.day as nat), 2)
}

/// The name of the log file of an application for a date:
/// `<app>_<YYYY>-<MM>-<DD>.log`.
pub open spec fn dated_name(app: Seq<char>, d: CalDate) -> Seq<char> {
    app + seq!['_'] + date_text(d) + seq!['.', 'l', 'o', 'g']
}

/// The value of a decimal digit character.
pub open spec fn char_val(c: char) -> nat {
    if c == '1' { 1 }
    else if c == '2' { 2 }
    else if c == '3' { 3 }
    else if c == '4' { 4 }
    else if c == '5' { 5 }
    else if c == '6' { 6 }
    else if c == '7' { 7 }
    else if c == '8' { 8 }
    else if c == '9' { 9 }
    else { 0 }
}

/// The number that a string of decimal digits reads as.
pub open spec fn dec_val(s: Seq<char>) -> nat
    decreases s.len(),
{
    if s.len() == 0 {
        0
    } else {
        dec_val(s.drop_last()) * 10 + char_val(s.last())
    }
}

/// Decimal digits read back as the number they were written from.
pub proof fn lemma_dec_val(n: nat)
    ensures
        dec_val(dec(n)) == n,
        dec(n).len() >= 1,
        forall|i: int| 0 <= i < dec(n).len() ==> #[trigger] dec(n)[i] != '-',
    decreases n,
{
    if n < 10 {
        assert(seq![digit_char(n)].drop_last() =~= Seq::<char>::empty());
        assert(char_val(digit_char(n)) == n);
        assert(dec_val(dec(n)) == dec_val(Seq::<char>::empty()) * 10 + char_val(digit_char(n)));
    } else {
        lemma_dec_val(n / 10);
        assert(dec(n).drop_last() =~= dec(n / 10));
        assert(char_val(digit_char(n % 10)) == n % 10);
        assert(dec_val(dec(n)) == dec_val(dec(n / 10)) * 10 + char_val(digit_char(n % 10)));
    }
}

/// Leading zeros do not change what a string of digits reads as.
pub proof fn lemma_zeros_val(k: nat, s: Seq<char>)
    ensures
        dec_val(Seq::new(k, |i: int| '0') + s) == dec_val(s),
    decreases s.len() + k,
{
    if s.len() == 0 {
        if k > 0 {
            assert((Seq::new(k, |i: int| '0') + s).drop_last() =~= Seq::new((k - 1) as nat, |i: int| '0') + s);
            lemma_zeros_val((k - 1) as nat, s);
        } else {
            assert(Seq::new(k, |i: int| '0') + s =~= s);
        }
    } else {
        assert((Seq::new(k, |i: int| '0') + s).drop_last() =~= Seq::new(k, |i: int| '0') + s.drop_last());
        lemma_zeros_val(k, s.drop_last());
    }
}

/// A padded number reads back as the number, and holds no sign.
pub proof fn lemma_padded(n: nat, w: nat)
    ensures
        dec_val(zero_pad(dec(n), w)) == n,
        zero_pad(dec(n), w).len() >= 1,
        zero_pad(dec(n), w)[0] != '-',
{
    lemma_dec_val(n);
    if dec(n).len() < w {
        lemma_zeros_val((w - dec(n).len()) as nat, dec(n));
    }
}

/// Two numbers below 100 are written with exactly two digits.
pub proof fn lemma_two_digits(n: nat)
    requires
        n < 100,
    ensures
        zero_pad(dec(n), 2).len() == 2,
{
    if n >= 10 {
        assert(dec(n / 10).len() == 1);
    }
}

/// Distinct years are written differently.
pub proof fn lemma_year_text_injective(y1: int, y2: int)
    requires
        year_text(y1) == year_text(y2),
    ensures
        y1 == y2,
{
    lemma_padded((-y1) as nat, 3);
    lemma_padded((-y2) as nat, 3);
    lemma_padded(y1 as nat, 4);
    lemma_padded(y2 as nat, 4);
    if y1 < 0 && y2 < 0 {
        assert(year_text(y1).drop_first() =~= zero_pad(dec((-y1) as nat), 3));
        assert(year_text(y2).drop_first() =~= zero_pad(dec((-y2) as nat), 3));
    } else if y1 < 0 {
        assert(year_text(y1)[0] == '-');
    } else if y2 < 0 {
        assert(year_text(y2)[0] == '-');
    }
}

/// Distinct dates give an application distinct file names.
pub proof fn lemma_dated_name_injective(app: Seq<char>, d1: CalDate, d2: CalDate)
    requires
        d1.wf(),
        d2.wf(),
        dated_name(app, d1) == dated_name(app, d2),
    ensures
        d1 == d2,
{
    let n = dated_name(app, d1);
    let l = app.len() as int + 1;
    lemma_two_digits(d1.month as nat);
    lemma_two_digits(d2.month as nat);
    lemma_two_digits(d1.day as nat);
    lemma_two_digits(d2.day as nat);
    lemma_padded(d1.month as nat, 2);
    lemma_padded(d2.month as nat, 2);
    lemma_padded(d1.day as nat, 2);
    lemma_padded(d2.day as nat, 2);
    assert(n.subrange(l, n.len() - 10) =~= year_text(d1.year as int));
    assert(n.subrange(l, n.len() - 10) =~= year_text(d2.year as int));
    lemma_year_text_injective(d1.year as int, d2.year as int);
    assert(n.subrange(n.len() - 9, n.len() - 7) =~= zero_pad(dec(d1.month as nat), 2));
    assert(n.subrange(n.len() - 9, n.len() - 7) =~= zero_pad(dec(d2.month as nat), 2));
    assert(n.subrange(n.len() - 6, n.len() - 4) =~= zero_pad(dec(d1.day as nat), 2));
    assert(n.subrange(n.len() - 6, n.len() - 4) =~= zero_pad(dec(d2.day as nat), 2));
}

fn digit_str(d: u64) -> (r: &'static str)
    requires
        d < 10,
    ensures
        r@ == seq![digit_char(d as nat)],
{
    proof {
        reveal_strlit("0");
        reveal_strlit("1");
        reveal_strlit("2");
        reveal_strlit("3");
        reveal_strlit("4");
        reveal_strlit("5");
        reveal_strlit("6");
        reveal_strlit("7");
        reveal_strlit("8");
        reveal_strlit("9");
    }
    if d == 0 { "0" }
    else if d == 1 { "1" }
    else if d == 2 { "2" }
    else if d == 3 { "3" }
    else if d == 4 { "4" }
    else if d == 5 { "5" }
    else if d == 6 { "6" }
    else if d == 7 { "7" }
    else if d == 8 { "8" }
    else { "9" }
}

fn push_dec(out: &mut String, n: u64)
    ensures
        final(out)@ == old(out)@ + dec(n as nat),
    decreases n,
{
    if n >= 10 {
        push_dec(out, n / 10);
        out.append(digit_str(n % 10));
        assert(final(out)@ =~= old(out)@ + dec(n as nat));
    } else {
        out.append(digit_str(n));
    }
}

fn dec_len(n: u64) -> (r: u64)
    ensures
        r == dec(n as nat).len(),
        r <= n + 1,
    decreases n,
{
    if n >= 10 {
        let k = dec_len(n / 10);
        k + 1
    } else {
        1
    }
}

fn push_padded(out: &mut String, n: u64, w: u64)
    ensures
        final(out)@ == old(out)@ + zero_pad(dec(n as nat), w as nat),
{
    proof {
        reveal_strlit("0");
    }
    let k = dec_len(n);
    if k < w {
        let ghost start = out@;
        let mut i: u64 = 0;
        while i < w - k
            invariant
                i <= w - k,
                out@ == start + Seq::new(i as nat, |j: int| '0'),
            decreases w - k - i,
        {
            proof {
                reveal_strlit("0");
            }
            out.append("0");
            i = i + 1;
            assert(out@ =~= start + Seq::new(i as nat, |j: int| '0'));
        }
        push_dec(out, n);
        assert(out@ =~= start + zero_pad(dec(n as nat), w as nat));
    } else {
        push_dec(out, n);
    }
}

/// The name of the log file of the application `app` for the date `d`.
pub fn file_name(app: &str, d: CalDate) -> (r: String)
    ensures
        r@ == dated_name(app@, d),
{
    proof {
        reveal_strlit("_");
        reveal_strlit("-");
        reveal_strlit(".log");
    }
    let mut out = String::from_str(app);
    out.append("_");
    if d.year < 0 {
        out.append("-");
        let mag: i64 = -(d.year as i64);
        push_padded(&mut out, mag as u64, 3);
    } else {
        push_padded(&mut out, d.year as u64, 4);
    }
    out.append("-");
    push_padded(&mut out, d.month as u64, 2);
    out.append("-");
    push_padded(&mut out, d.day as u64, 2);
    out.append(".log");
    assert(out@ =~= dated_name(app@, d));
    out
}

} // verus!

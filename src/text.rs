//! How numbers and optional fields are written out.
use vstd::prelude::*;

verus! {

pub open spec fn digit(d: nat) -> char {
    if d == 0 { '0' } else if d == 1 { '1' } else if d == 2 { '2' } else if d == 3 { '3' }
    else if d == 4 { '4' } else if d == 5 { '5' } else if d == 6 { '6' } else if d == 7 { '7' }
    else if d == 8 { '8' } else { '9' }
}

/// A natural number in decimal, without leading zeros.
pub open spec fn nat_text(n: nat) -> Seq<char>
    decreases n,
{
    if n < 10 {
        seq![digit(n)]
    } else {
        nat_text(n / 10).push(digit(n % 10))
    }
}

/// An integer in decimal, with a minus sign where it is negative.
pub open spec fn int_text(n: int) -> Seq<char> {
    if n < 0 { seq!['-'] + nat_text((-n) as nat) } else { nat_text(n as nat) }
}

/// A number below a hundred written with two digits.
pub open spec fn two_digits(n: nat) -> Seq<char> {
    if n < 10 { seq!['0'] + nat_text(n) } else { nat_text(n) }
}

/// A count of hundredths as a decimal with two places (`1234` is `12.34`).
pub open spec fn fixed2_text(n: nat) -> Seq<char> {
    nat_text(n / 100) + seq!['.'] + two_digits(n % 100)
}

/// A count of hundredths as a decimal with no trailing zeros (`1250` is
/// `12.5`, `1200` is `12`).
pub open spec fn short_text(n: nat) -> Seq<char> {
    let f = n % 100;
    if f == 0 {
        nat_text(n / 100)
    } else if f % 10 == 0 {
        nat_text(n / 100) + seq!['.'] + nat_text(f / 10)
    } else {
        nat_text(n / 100) + seq!['.'] + two_digits(f)
    }
}

/// The lower case of a text, as `str::to_lowercase` gives it.
pub uninterp spec fn lower_of(s: Seq<char>) -> Seq<char>;

/// The text without leading and trailing white space, as `str::trim` gives it.
pub uninterp spec fn trimmed_of(s: Seq<char>) -> Seq<char>;

/// Relies on `str::to_lowercase`: the result depends on the characters alone.
#[verifier::external_body]
pub(crate) fn lowercase(s: &str) -> (r: String)
    ensures
        r@ == lower_of(s@),
{
    s.to_lowercase()
}

/// Relies on `str::trim`: the result depends on the characters alone.
#[verifier::external_body]
pub(crate) fn trim(s: &str) -> (r: &str)
    ensures
        r@ == trimmed_of(s@),
{
    s.trim()
}

/// The one-character text of a decimal digit.
fn digit_str(d: u128) -> (r: &'static str)
    requires
        d < 10,
    ensures
        r@ == seq![digit(d as nat)],
{
    proof {
        reveal_strlit("0");
        reveal_strlit("1");
        reveal_strlit("2");
        reveal_strlit("3");
        reveal_strlit("4");
        reveal_strlit("5");
        reveal_strlit("6");
        reveal_strlit("7");
        reveal_strlit("8");
        reveal_strlit("9");
    }
    if d == 0 { "0" } else if d == 1 { "1" } else if d == 2 { "2" } else if d == 3 { "3" }
    else if d == 4 { "4" } else if d == 5 { "5" } else if d == 6 { "6" } else if d == 7 { "7" }
    else if d == 8 { "8" } else { "9" }
}

/// The decimal digits of a number, with no sign and no padding.
pub fn u128_text(n: u128) -> (r: String)
    ensures
        r@ == nat_text(n as nat),
{
    let mut m = n;
    let mut acc = String::new();
    while m >= 10
        invariant
            nat_text(n as nat) == nat_text(m as nat) + acc@,
        decreases m,
    {
        let d = String::from_str(digit_str(m % 10));
        let ghost old_acc = acc@;
        acc = d.concat(acc.as_str());
        assert(nat_text(m as nat) == nat_text((m / 10) as nat).push(digit((m % 10) as nat)));
        assert(nat_text(m as nat) + old_acc =~= nat_text((m / 10) as nat) + acc@);
        m = m / 10;
    }
    let d = String::from_str(digit_str(m));
    let r = d.concat(acc.as_str());
    assert(r@ =~= nat_text(m as nat) + acc@);
    r
}

pub fn u64_text(n: u64) -> (r: String)
    ensures
        r@ == nat_text(n as nat),
{
    u128_text(n as u128)
}

/// The decimal digits of a number, after a minus sign where it is negative.
pub fn i64_text(n: i64) -> (r: String)
    ensures
        r@ == int_text(n as int),
{
    if n < 0 {
        let digits = u128_text((0 - (n as i128)) as u128);
        let r = String::from_str("-").concat(digits.as_str());
        proof {
            reveal_strlit("-");
        }
        r
    } else {
        u128_text(n as u128)
    }
}

pub fn fixed2(n: u64) -> (r: String)
    ensures
        r@ == fixed2_text(n as nat),
{
    let mut r = u64_text(n / 100);
    r.append(".");
    let f = n % 100;
    if f < 10 {
        r.append("0");
    }
    let d = u64_text(f);
    r.append(d.as_str());
    proof {
        reveal_strlit(".");
        reveal_strlit("0");
    }
    r
}

pub fn short(n: u64) -> (r: String)
    ensures
        r@ == short_text(n as nat),
{
    let mut r = u64_text(n / 100);
    let f = n % 100;
    if f != 0 {
        r.append(".");
        if f % 10 == 0 {
            let d = u64_text(f / 10);
            r.append(d.as_str());
        } else {
            if f < 10 {
                r.append("0");
            }
            let d = u64_text(f);
            r.append(d.as_str());
        }
    }
    proof {
        reveal_strlit(".");
        reveal_strlit("0");
    }
    r
}

/// The separator written before a field: none before the first one.
pub open spec fn separator(first: bool) -> Seq<char> {
    if first { Seq::empty() } else { seq![',', ' '] }
}

/// The text so far and whether no field has been written yet, after one
/// more optional field.
pub open spec fn with_field(acc: (Seq<char>, bool), field: Option<Seq<char>>) -> (Seq<char>, bool) {
    match field {
        Some(t) => (acc.0 + separator(acc.1) + t, false),
        None => acc,
    }
}

/// Appends a time of completion, where there is one, as `Main Story - 12.5 hours`.
pub fn format_time(f: &mut String, name: &str, opt: &Option<u64>, first: &mut bool)
    ensures
        opt is None ==> *final(f) == *old(f) && *final(first) == *old(first),
        opt is Some ==> {
            &&& final(f)@ == old(f)@ + separator(*old(first)) + name@ + seq![' ', '-', ' ']
                + short_text(opt->Some_0 as nat) + seq![' ', 'h', 'o', 'u', 'r', 's']
            &&& !*final(first)
        },
{
    if let Some(time) = opt {
        if !*first {
            f.append(", ");
        }
        f.append(name);
        f.append(" - ");
        let t = short(*time);
        f.append(t.as_str());
        f.append(" hours");
        *first = false;
        proof {
            reveal_strlit(", ");
            reveal_strlit(" - ");
            reveal_strlit(" hours");
        }
    }
}

/// Appends a score, where there is one, with two decimals and its
/// description after it, as `85.50 average score`.
pub fn format_num(f: &mut String, desc: &str, opt: &Option<u64>, first: &mut bool)
    ensures
        opt is None ==> *final(f) == *old(f) && *final(first) == *old(first),
        opt is Some ==> {
            &&& final(f)@ == old(f)@ + separator(*old(first)) + fixed2_text(opt->Some_0 as nat) + desc@
            &&& !*final(first)
        },
{
    if let Some(num) = opt {
        if !*first {
            f.append(", ");
        }
        let t = fixed2(*num);
        f.append(t.as_str());
        f.append(desc);
        *first = false;
        proof {
            reveal_strlit(", ");
        }
    }
}

/// A line with a service's label and its summary, or `Not found`.
pub open spec fn line_text(name: Seq<char>, v: Option<Seq<char>>) -> Seq<char> {
    name + seq![':', ' '] + (if v is Some { v->Some_0 } else { "Not found"@ }) + seq!['\n']
}

/// Appends a line with a service's label and its summary, or `Not found`.
pub fn format_option(f: &mut String, name: &str, opt: &Option<String>)
    ensures
        final(f)@ == old(f)@ + line_text(name@, if opt is Some { Some(opt->Some_0@) } else { None }),
{
    f.append(name);
    f.append(": ");
    if let Some(v) = opt {
        f.append(v.as_str());
    } else {
        f.append("Not found");
    }
    f.append("\n");
    proof {
        reveal_strlit(": ");
        reveal_strlit("\n");
    }
}

} // verus!

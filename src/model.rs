use vstd::prelude::*;

verus! {

/// A logical CPU core, numbered from 0.
#[derive(Debug, Clone, Copy, PartialEq, Eq, Structural)]
pub struct CpuId(pub u8);

/// The placeholder in a path template that stands for the core number.
pub open spec fn placeholder() -> Seq<char> {
    seq!['{', '}']
}

/// `s` with every occurrence of `from`, found from left to right without
/// overlap, replaced by `to`.
pub open spec fn replace_all(s: Seq<char>, from: Seq<char>, to: Seq<char>) -> Seq<char>
    decreases s.len(),
{
    if s.len() == 0 {
        s
    } else if 0 < from.len() <= s.len() && s.take(from.len() as int) == from {
        to + replace_all(s.skip(from.len() as int), from, to)
    } else {
        seq![s[0]] + replace_all(s.drop_first(), from, to)
    }
}

/// The decimal digit for `d`, which is below ten.
pub open spec fn digit_char(d: nat) -> char {
    seq!['0', '1', '2', '3', '4', '5', '6', '7', '8', '9'][d as int]
}

/// The decimal digits of `n`, without leading zeros.
pub open spec fn decimal_text(n: nat) -> Seq<char>
    decreases n,
{
    if n < 10 {
        seq![digit_char(n)]
    } else {
        decimal_text(n / 10) + seq![digit_char(n % 10)]
    }
}

/// The one-character text of decimal digit `d`.
fn digit_str(d: u8) -> (r: &'static str)
    requires
        d < 10,
    ensures
        r@ == seq![digit_char(d as nat)],
{
    proof {
        reveal_strlit("0");
        reveal_strlit("1");
        reveal_strlit("2");
        reveal_strlit("3");
        reveal_strlit("4");
        reveal_strlit("5");
        reveal_strlit("6");
        reveal_strlit("7");
        reveal_strlit("8");
        reveal_strlit("9");
    }
    let r = if d == 0 {
        "0"
    } else if d == 1 {
        "1"
    } else if d == 2 {
        "2"
    } else if d == 3 {
        "3"
    } else if d == 4 {
        "4"
    } else if d == 5 {
        "5"
    } else if d == 6 {
        "6"
    } else if d == 7 {
        "7"
    } else if d == 8 {
        "8"
    } else {
        "9"
    };
    assert(r@ =~= seq![digit_char(d as nat)]);
    r
}

/// The decimal digits of `n`, with no sign and no leading zeros.
fn decimal_string(n: u8) -> (r: String)
    ensures
        r@ == decimal_text(n as nat),
{
    let mut s = String::new();
    if n >= 100 {
        s.append(digit_str(n / 100));
    }
    if n >= 10 {
        s.append(digit_str(n / 10 % 10));
    }
    s.append(digit_str(n % 10));
    proof {
        reveal_with_fuel(decimal_text, 3);
        if n >= 100 {
            assert((n / 10) as nat / 10 == (n / 100) as nat);
            assert(s@ =~= decimal_text(n as nat));
        } else if n >= 10 {
            assert(s@ =~= decimal_text(n as nat));
        } else {
            assert(s@ =~= decimal_text(n as nat));
        }
    }
    s
}

/// Relies on `str::replace`: every match of `from`, taken from left to right
/// without overlap, becomes `to`.
#[verifier::external_body]
fn replace_text(s: &str, from: &str, to: &str) -> (r: String)
    requires
        from@.len() > 0,
    ensures
        r@ == replace_all(s@, from@, to@),
{
    s.replace(from, to)
}

impl CpuId {
    /// The path for this core: `path` with each `{}` replaced by the core number.
    pub fn path_for(&self, path: &str) -> (r: String)
        ensures
            r@ == replace_all(path@, placeholder(), decimal_text(self.0 as nat)),
    {
        let digits = decimal_string(self.0);
        let from = "{}";
        proof {
            reveal_strlit("{}");
            assert(from@ =~= placeholder());
        }
        replace_text(path, from, digits.as_str())
    }
}

} // verus!

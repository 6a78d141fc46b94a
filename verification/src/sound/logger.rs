//! The text of the periodic audio status report.
use vstd::prelude::*;
use vstd::string::StringExecFns;

verus! {

pub open spec fn digit_char(d: nat) -> char {
    if d == 0 { '0' }
    else if d == 1 { '1' }
    else if d == 2 { '2' }
    else if d == 3 { '3' }
    else if d == 4 { '4' }
    else if d == 5 { '5' }
    else if d == 6 { '6' }
    else if d == 7 { '7' }
    else if d == 8 { '8' }
    else { '9' }
}

/// The decimal digits of `n`, without leading zeros.
pub open spec fn decimal(n: nat) -> Seq<char>
    decreases n,
{
    if n < 10 {
        seq![digit_char(n)]
    } else {
        decimal(n / 10).push(digit_char(n % 10))
    }
}

fn digit_str(d: usize) -> (r: &'static str)
    requires
        d < 10,
    ensures
        r@ == seq![digit_char(d as nat)],
{
    proof {
        reveal_strlit("0");
        reveal_strlit("1");
        reveal_strlit("2");
        reveal_strlit("3");
        reveal_strlit("4");
        reveal_strlit("5");
        reveal_strlit("6");
        reveal_strlit("7");
        reveal_strlit("8");
        reveal_strlit("9");
    }
    let r = if d == 0 {
        "0"
    } else if d == 1 {
        "1"
    } else if d == 2 {
        "2"
    } else if d == 3 {
        "3"
    } else if d == 4 {
        "4"
    } else if d == 5 {
        "5"
    } else if d == 6 {
        "6"
    } else if d == 7 {
        "7"
    } else if d == 8 {
        "8"
    } else {
        "9"
    };
    assert(r@ =~= seq![digit_char(d as nat)]);
    r
}

/// `n` written in decimal.
pub fn decimal_string(n: usize) -> (r: String)
    ensures
        r@ == decimal(n as nat),
    decreases n,
{
    if n < 10 {
        String::from_str(digit_str(n))
    } else {
        let mut s = decimal_string(n / 10);
        s.append(digit_str(n % 10));
        assert(s@ =~= decimal(n as nat));
        s
    }
}

/// The report for a period with `xruns` buffer under- or overruns, in
/// which the output was clipped or not; nothing when all went well.
pub open spec fn summary_text(xruns: nat, clipping: bool) -> Option<Seq<char>> {
    if xruns > 0 && clipping {
        Some("xruns: "@ + decimal(xruns) + ", "@ + "output was clipped"@)
    } else if xruns > 0 {
        Some("xruns: "@ + decimal(xruns))
    } else if clipping {
        Some("output was clipped"@)
    } else {
        None
    }
}

/// The message of a status report (the caller puts a timestamp before it).
pub fn log_summary(xruns: usize, clipping: bool) -> (r: Option<String>)
    ensures
        match r {
            Some(s) => summary_text(xruns as nat, clipping) == Some(s@),
            None => summary_text(xruns as nat, clipping) is None,
        },
{
    let mut message = String::new();
    if xruns > 0 {
        message.append("xruns: ");
        let count = decimal_string(xruns);
        message.append(count.as_str());
    }
    if clipping {
        if xruns > 0 {
            message.append(", ");
        }
        message.append("output was clipped");
    }
    if xruns > 0 || clipping {
        proof {
            if xruns > 0 && clipping {
                assert(message@ =~= "xruns: "@ + decimal(xruns as nat) + ", "@
                    + "output was clipped"@);
            }
        }
        Some(message)
    } else {
        None
    }
}

} // verus!

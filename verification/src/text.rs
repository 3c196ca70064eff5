//! Plain-text rendering of numbers, durations and resource summaries.

use vstd::prelude::*;

use crate::resources::Resources;

verus! {

use vstd::string::StringExecFns;

/// The character of one decimal digit.
pub open spec fn spec_digit(d: nat) -> char {
    if d == 0 {
        '0'
    } else if d == 1 {
        '1'
    } else if d == 2 {
        '2'
    } else if d == 3 {
        '3'
    } else if d == 4 {
        '4'
    } else if d == 5 {
        '5'
    } else if d == 6 {
        '6'
    } else if d == 7 {
        '7'
    } else if d == 8 {
        '8'
    } else {
        '9'
    }
}

/// The decimal rendering of a number, most significant digit first.
pub open spec fn spec_dec(n: nat) -> Seq<char>
    decreases n,
{
    if n < 10 {
        seq![spec_digit(n)]
    } else {
        spec_dec(n / 10) + seq![spec_digit(n % 10)]
    }
}

/// A number rendered into two places, padded on the left with `pad`.
pub open spec fn spec_pad2(n: nat, pad: char) -> Seq<char> {
    if n < 10 {
        seq![pad] + spec_dec(n)
    } else {
        spec_dec(n)
    }
}

/// One decimal digit as text.
fn digit_str(d: usize) -> (r: &'static str)
    requires
        d < 10,
    ensures
        r@ == seq![spec_digit(d as nat)],
{
    proof {
        reveal_strlit("0");
        reveal_strlit("1");
        reveal_strlit("2");
        reveal_strlit("3");
        reveal_strlit("4");
        reveal_strlit("5");
        reveal_strlit("6");
        reveal_strlit("7");
        reveal_strlit("8");
        reveal_strlit("9");
    }
    let r = if d == 0 {
        "0"
    } else if d == 1 {
        "1"
    } else if d == 2 {
        "2"
    } else if d == 3 {
        "3"
    } else if d == 4 {
        "4"
    } else if d == 5 {
        "5"
    } else if d == 6 {
        "6"
    } else if d == 7 {
        "7"
    } else if d == 8 {
        "8"
    } else {
        "9"
    };
    proof {
        assert(r@ =~= seq![spec_digit(d as nat)]);
    }
    r
}

/// Render a number in decimal.
pub fn usize_to_string(n: usize) -> (r: String)
    ensures
        r@ == spec_dec(n as nat),
    decreases n,
{
    if n < 10 {
        String::from_str(digit_str(n))
    } else {
        let mut s = usize_to_string(n / 10);
        s.append(digit_str(n % 10));
        proof {
            assert(s@ =~= spec_dec(n as nat));
        }
        s
    }
}

/// Render a number into at least two places, padded with `zero` when
/// `zero` is true and with a space otherwise.
fn pad2_string(n: usize, zero: bool) -> (r: String)
    ensures
        r@ == spec_pad2(n as nat, if zero { '0' } else { ' ' }),
{
    proof {
        reveal_strlit("0");
        reveal_strlit(" ");
    }
    let mut s = if zero {
        String::from_str("0")
    } else {
        String::from_str(" ")
    };
    if n < 10 {
        let d = usize_to_string(n);
        s.append(d.as_str());
        proof {
            assert(s@ =~= spec_pad2(n as nat, if zero { '0' } else { ' ' }));
        }
        s
    } else {
        let r = usize_to_string(n);
        r
    }
}

/// The text of a duration: `h:mm:ss` when there are whole hours, else
/// `mm:ss` with the minutes padded to two places with spaces.
pub open spec fn spec_seconds_to_readable(seconds: nat) -> Seq<char> {
    let hours = seconds / 3600;
    let minutes = (seconds % 3600) / 60;
    let secs = seconds % 60;
    if hours > 0 {
        spec_dec(hours) + ":"@ + spec_pad2(minutes, '0') + ":"@ + spec_pad2(secs, '0')
    } else {
        spec_pad2(minutes, ' ') + ":"@ + spec_pad2(secs, '0')
    }
}

/// Convert seconds into a human readable format.
pub fn seconds_to_readable(seconds: usize) -> (r: String)
    ensures
        r@ == spec_seconds_to_readable(seconds as nat),
{
    let hours = seconds / 3600;
    let minutes = (seconds % 3600) / 60;
    let secs = seconds % 60;
    if hours > 0 {
        let mut s = usize_to_string(hours);
        s.append(":");
        let m = pad2_string(minutes, true);
        s.append(m.as_str());
        s.append(":");
        let x = pad2_string(secs, true);
        s.append(x.as_str());
        proof {
            assert(s@ =~= spec_seconds_to_readable(seconds as nat));
        }
        s
    } else {
        let mut s = pad2_string(minutes, false);
        s.append(":");
        let x = pad2_string(secs, true);
        s.append(x.as_str());
        proof {
            assert(s@ =~= spec_seconds_to_readable(seconds as nat));
        }
        s
    }
}

/// The text of the standard resource table: current holdings of the
/// three resources, then their production rates.
pub open spec fn spec_resource_table(resources: Resources, production: Resources) -> Seq<char> {
    "<table width=600 border=1 cellspacing=0 cellpadding=3><tr><td>💰 "@ + spec_dec(
        resources.metal as nat,
    ) + "</td><td>🧑 "@ + spec_dec(resources.crew as nat) + "</td><td>💧 "@ + spec_dec(
        resources.water as nat,
    ) + "</td><td>🏃 "@ + spec_dec(production.metal as nat) + "/"@ + spec_dec(
        production.crew as nat,
    ) + "/"@ + spec_dec(production.water as nat) + "</td></tr></table>"@
}

/// Return a standardized HTML table for displaying resources.
pub fn resource_table(resources: &Resources, production: &Resources) -> (r: String)
    ensures
        r@ == spec_resource_table(*resources, *production),
{
    let mut s = String::from_str("<table width=600 border=1 cellspacing=0 cellpadding=3><tr><td>💰 ");
    let t = usize_to_string(resources.metal);
    s.append(t.as_str());
    s.append("</td><td>🧑 ");
    let t = usize_to_string(resources.crew);
    s.append(t.as_str());
    s.append("</td><td>💧 ");
    let t = usize_to_string(resources.water);
    s.append(t.as_str());
    s.append("</td><td>🏃 ");
    let t = usize_to_string(production.metal);
    s.append(t.as_str());
    s.append("/");
    let t = usize_to_string(production.crew);
    s.append(t.as_str());
    s.append("/");
    let t = usize_to_string(production.water);
    s.append(t.as_str());
    s.append("</td></tr></table>");
    proof {
        assert(s@ =~= spec_resource_table(*resources, *production));
    }
    s
}

} // verus!

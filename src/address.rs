//! The loopback address that the transcoder reports its progress to.
use vstd::prelude::*;

verus! {

pub open spec fn digit_char(d: nat) -> char {
    if d == 0 { '0' }
    else if d == 1 { '1' }
    else if d == 2 { '2' }
    else if d == 3 { '3' }
    else if d == 4 { '4' }
    else if d == 5 { '5' }
    else if d == 6 { '6' }
    else if d == 7 { '7' }
    else if d == 8 { '8' }
    else { '9' }
}

/// The decimal digits of `n`, without leading zeros.
pub open spec fn decimal(n: nat) -> Seq<char>
    decreases n,
{
    if n < 10 {
        seq![digit_char(n)]
    } else {
        decimal(n / 10).push(digit_char(n % 10))
    }
}

/// `tcp://127.0.0.1:` followed by the port in decimal.
pub open spec fn progress_address(port: u16) -> Seq<char> {
    seq!['t', 'c', 'p', ':', '/', '/', '1', '2', '7', '.', '0', '.', '0', '.', '1', ':']
        + decimal(port as nat)
}

fn digit_text(d: u16) -> (r: &'static str)
    requires
        d < 10,
    ensures
        r@ == seq![digit_char(d as nat)],
{
    proof {
        reveal_strlit("0");
        reveal_strlit("1");
        reveal_strlit("2");
        reveal_strlit("3");
        reveal_strlit("4");
        reveal_strlit("5");
        reveal_strlit("6");
        reveal_strlit("7");
        reveal_strlit("8");
        reveal_strlit("9");
    }
    let r = match d {
        0 => "0",
        1 => "1",
        2 => "2",
        3 => "3",
        4 => "4",
        5 => "5",
        6 => "6",
        7 => "7",
        8 => "8",
        _ => "9",
    };
    assert(r@ =~= seq![digit_char(d as nat)]);
    r
}

fn decimal_text(n: u16) -> (r: String)
    ensures
        r@ == decimal(n as nat),
    decreases n,
{
    if n < 10 {
        digit_text(n).to_owned()
    } else {
        let mut s = decimal_text(n / 10);
        s.append(digit_text(n % 10));
        assert(s@ =~= decimal(n as nat));
        s
    }
}

/// The address of the local listener on `port`, as the transcoder's
/// `progress` option takes it.
pub fn progress_url(port: u16) -> (r: String)
    ensures
        r@ == progress_address(port),
{
    let mut s = "tcp://127.0.0.1:".to_owned();
    proof {
        reveal_strlit("tcp://127.0.0.1:");
    }
    let d = decimal_text(port);
    s.append(d.as_str());
    assert(s@ =~= progress_address(port));
    s
}

} // verus!

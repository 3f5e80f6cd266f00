//! The directives sent to the compositor: enabling or disabling an output
//! by name, and setting the positions of all active outputs in one call.
use vstd::prelude::*;
use crate::registry::ActiveOutput;

verus! {

pub open spec fn digit_char(d: int) -> char {
    if d == 0 {
        '0'
    } else if d == 1 {
        '1'
    } else if d == 2 {
        '2'
    } else if d == 3 {
        '3'
    } else if d == 4 {
        '4'
    } else if d == 5 {
        '5'
    } else if d == 6 {
        '6'
    } else if d == 7 {
        '7'
    } else if d == 8 {
        '8'
    } else {
        '9'
    }
}

/// The decimal digits of `n`, without leading zeros.
pub open spec fn digits(n: nat) -> Seq<char>
    decreases n,
{
    if n < 10 {
        seq![digit_char(n as int)]
    } else {
        digits(n / 10) + seq![digit_char((n % 10) as int)]
    }
}

/// `v` in decimal, with a leading `-` where it is negative.
pub open spec fn decimal(v: int) -> Seq<char> {
    if v < 0 {
        seq!['-'] + digits((-v) as nat)
    } else {
        digits(v as nat)
    }
}

/// `output <name> pos <x> <y>;`
pub open spec fn position_directive(o: ActiveOutput) -> Seq<char> {
    "output "@ + o.name@ + " pos "@ + decimal(o.rect.x as int) + " "@ + decimal(o.rect.y as int)
        + ";"@
}

/// The position directives of the first `n` outputs, separated by spaces.
pub open spec fn position_command_upto(s: Seq<ActiveOutput>, n: int) -> Seq<char>
    decreases n,
{
    if n <= 0 {
        Seq::empty()
    } else if n == 1 {
        position_directive(s[0])
    } else {
        position_command_upto(s, n - 1) + " "@ + position_directive(s[n - 1])
    }
}

fn digit_str(d: u64) -> (r: &'static str)
    requires
        d < 10,
    ensures
        r@ == seq![digit_char(d as int)],
{
    if d == 0 {
        proof { reveal_strlit("0"); }
        "0"
    } else if d == 1 {
        proof { reveal_strlit("1"); }
        "1"
    } else if d == 2 {
        proof { reveal_strlit("2"); }
        "2"
    } else if d == 3 {
        proof { reveal_strlit("3"); }
        "3"
    } else if d == 4 {
        proof { reveal_strlit("4"); }
        "4"
    } else if d == 5 {
        proof { reveal_strlit("5"); }
        "5"
    } else if d == 6 {
        proof { reveal_strlit("6"); }
        "6"
    } else if d == 7 {
        proof { reveal_strlit("7"); }
        "7"
    } else if d == 8 {
        proof { reveal_strlit("8"); }
        "8"
    } else {
        proof { reveal_strlit("9"); }
        "9"
    }
}

fn append_digits(s: &mut String, n: u64)
    ensures
        final(s)@ == old(s)@ + digits(n as nat),
    decreases n,
{
    if n >= 10 {
        append_digits(s, n / 10);
        s.append(digit_str(n % 10));
        assert(final(s)@ =~= old(s)@ + digits(n as nat));
    } else {
        s.append(digit_str(n));
    }
}

fn append_decimal(s: &mut String, v: i32)
    ensures
        final(s)@ == old(s)@ + decimal(v as int),
{
    if v < 0 {
        proof { reveal_strlit("-"); }
        s.append("-");
        append_digits(s, (-(v as i64)) as u64);
        assert(final(s)@ =~= old(s)@ + decimal(v as int));
    } else {
        append_digits(s, v as u64);
    }
}

fn append_position_directive(s: &mut String, o: &ActiveOutput)
    ensures
        final(s)@ == old(s)@ + position_directive(*o),
{
    s.append("output ");
    s.append(o.name.as_str());
    s.append(" pos ");
    append_decimal(s, o.rect.x);
    s.append(" ");
    append_decimal(s, o.rect.y);
    s.append(";");
    assert(final(s)@ =~= old(s)@ + position_directive(*o));
}

/// One call that sets every output to its position:
/// `output <name> pos <x> <y>;` for each, in order, separated by spaces.
pub fn position_command(outputs: &[ActiveOutput]) -> (r: String)
    ensures
        r@ == position_command_upto(outputs@, outputs.len() as int),
{
    let mut s = String::new();
    let mut i: usize = 0;
    while i < outputs.len()
        invariant
            i <= outputs.len(),
            s@ == position_command_upto(outputs@, i as int),
        decreases outputs.len() - i,
    {
        if i > 0 {
            s.append(" ");
        }
        append_position_directive(&mut s, &outputs[i]);
        proof {
            if i == 0 {
                assert(s@ =~= position_command_upto(outputs@, 1));
            } else {
                assert(s@ =~= position_command_upto(outputs@, i + 1));
            }
        }
        i = i + 1;
    }
    s
}

/// `output <name> enable`
pub fn enable_command(name: &String) -> (r: String)
    ensures
        r@ == "output "@ + name@ + " enable"@,
{
    let mut s = String::new();
    s.append("output ");
    s.append(name.as_str());
    s.append(" enable");
    assert(s@ =~= "output "@ + name@ + " enable"@);
    s
}

/// `output <name> disable`
pub fn disable_command(name: &String) -> (r: String)
    ensures
        r@ == "output "@ + name@ + " disable"@,
{
    let mut s = String::new();
    s.append("output ");
    s.append(name.as_str());
    s.append(" disable");
    assert(s@ =~= "output "@ + name@ + " disable"@);
    s
}

} // verus!

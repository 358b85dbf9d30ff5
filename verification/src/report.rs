//! The diagnostic lines that the run loop prints for cursor and button
//! events.

use vstd::prelude::*;
use vstd::string::StringExecFns;
use crate::event::MouseButton;

verus! {

/// The character for one decimal digit.
pub open spec fn digit(d: int) -> char
    recommends
        0 <= d <= 9,
{
    if d == 0 {
        '0'
    } else if d == 1 {
        '1'
    } else if d == 2 {
        '2'
    } else if d == 3 {
        '3'
    } else if d == 4 {
        '4'
    } else if d == 5 {
        '5'
    } else if d == 6 {
        '6'
    } else if d == 7 {
        '7'
    } else if d == 8 {
        '8'
    } else {
        '9'
    }
}

/// A natural number in decimal, without leading zeros.
pub open spec fn natural(n: nat) -> Seq<char>
    decreases n,
{
    if n < 10 {
        seq![digit(n as int)]
    } else {
        natural(n / 10).push(digit((n % 10) as int))
    }
}

/// An integer in decimal, with a minus sign where it is negative.
pub open spec fn decimal(i: int) -> Seq<char> {
    if i < 0 {
        seq!['-'] + natural((-i) as nat)
    } else {
        natural(i as nat)
    }
}

/// Two integers in decimal with an `x` between them, after `label`.
pub open spec fn pair_line(label: Seq<char>, a: int, b: int) -> Seq<char> {
    label + decimal(a) + seq!['x'] + decimal(b)
}

/// The line that reports how far the cursor moved.
pub open spec fn delta_line(delta: (i32, i32)) -> Seq<char> {
    pair_line("Delta mouse position: "@, delta.0 as int, delta.1 as int)
}

/// The line that reports where the cursor is.
pub open spec fn position_line(position: (i16, i16)) -> Seq<char> {
    pair_line("Mouse position: "@, position.0 as int, position.1 as int)
}

/// How a button is named in a report.
pub open spec fn button_name(button: MouseButton) -> Seq<char> {
    match button {
        MouseButton::Left => "Left"@,
        MouseButton::Right => "Right"@,
        MouseButton::Middle => "Middle"@,
        MouseButton::Back => "Back"@,
        MouseButton::Forward => "Forward"@,
        MouseButton::Other(n) => "Other("@ + natural(n as nat) + ")"@,
    }
}

/// The line that reports a pressed button.
pub open spec fn click_line(button: MouseButton) -> Seq<char> {
    "Mouse clicked: "@ + button_name(button)
}

/// One decimal digit as text.
fn digit_text(d: u32) -> (text: &'static str)
    requires
        d < 10,
    ensures
        text@ == seq![digit(d as int)],
{
    proof {
        reveal_strlit("0");
        reveal_strlit("1");
        reveal_strlit("2");
        reveal_strlit("3");
        reveal_strlit("4");
        reveal_strlit("5");
        reveal_strlit("6");
        reveal_strlit("7");
        reveal_strlit("8");
        reveal_strlit("9");
    }
    let text = if d == 0 {
        "0"
    } else if d == 1 {
        "1"
    } else if d == 2 {
        "2"
    } else if d == 3 {
        "3"
    } else if d == 4 {
        "4"
    } else if d == 5 {
        "5"
    } else if d == 6 {
        "6"
    } else if d == 7 {
        "7"
    } else if d == 8 {
        "8"
    } else {
        "9"
    };
    assert(text@ =~= seq![digit(d as int)]);
    text
}

/// Appends `n` in decimal.
fn push_natural(out: &mut String, n: u32)
    ensures
        final(out)@ == old(out)@ + natural(n as nat),
    decreases n,
{
    if n >= 10 {
        push_natural(out, n / 10);
    }
    out.append(digit_text(n % 10));
    assert(out@ =~= old(out)@ + natural(n as nat));
}

/// Appends `i` in decimal, with its sign where it is negative.
fn push_decimal(out: &mut String, i: i32)
    ensures
        final(out)@ == old(out)@ + decimal(i as int),
{
    if i < 0 {
        out.append("-");
        proof {
            reveal_strlit("-");
        }
        let magnitude: i64 = -(i as i64);
        push_natural(out, magnitude as u32);
        assert(out@ =~= old(out)@ + decimal(i as int));
    } else {
        push_natural(out, i as u32);
    }
}

/// Renders `label` followed by `a`, an `x`, and `b`.
fn pair_text(label: &str, a: i32, b: i32) -> (line: String)
    ensures
        line@ == pair_line(label@, a as int, b as int),
{
    let mut line = String::from_str(label);
    push_decimal(&mut line, a);
    line.append("x");
    proof {
        reveal_strlit("x");
    }
    push_decimal(&mut line, b);
    assert(line@ =~= pair_line(label@, a as int, b as int));
    line
}

/// Renders the line that reports how far the cursor moved.
pub fn delta_text(delta: (i32, i32)) -> (line: String)
    ensures
        line@ == delta_line(delta),
{
    pair_text("Delta mouse position: ", delta.0, delta.1)
}

/// Renders the line that reports where the cursor is.
pub fn position_text(position: (i16, i16)) -> (line: String)
    ensures
        line@ == position_line(position),
{
    pair_text("Mouse position: ", position.0 as i32, position.1 as i32)
}

/// Renders the line that reports a pressed button.
pub fn click_text(button: MouseButton) -> (line: String)
    ensures
        line@ == click_line(button),
{
    let mut line = String::from_str("Mouse clicked: ");
    match button {
        MouseButton::Left => line.append("Left"),
        MouseButton::Right => line.append("Right"),
        MouseButton::Middle => line.append("Middle"),
        MouseButton::Back => line.append("Back"),
        MouseButton::Forward => line.append("Forward"),
        MouseButton::Other(n) => {
            line.append("Other(");
            push_natural(&mut line, n as u32);
            line.append(")");
        },
    }
    assert(line@ =~= click_line(button));
    line
}

} // verus!

//! Numbers and addresses as text.

use crate::pci::address::PCIAddress;
use vstd::prelude::*;
use vstd::string::StringExecFns;

verus! {

/// The digit `d` of a decimal or hexadecimal number, in lower case.
pub open spec fn digit(d: int) -> Seq<char> {
    if d == 0 {
        seq!['0']
    } else if d == 1 {
        seq!['1']
    } else if d == 2 {
        seq!['2']
    } else if d == 3 {
        seq!['3']
    } else if d == 4 {
        seq!['4']
    } else if d == 5 {
        seq!['5']
    } else if d == 6 {
        seq!['6']
    } else if d == 7 {
        seq!['7']
    } else if d == 8 {
        seq!['8']
    } else if d == 9 {
        seq!['9']
    } else if d == 10 {
        seq!['a']
    } else if d == 11 {
        seq!['b']
    } else if d == 12 {
        seq!['c']
    } else if d == 13 {
        seq!['d']
    } else if d == 14 {
        seq!['e']
    } else {
        seq!['f']
    }
}

/// `n` in decimal, without leading zeros.
pub open spec fn decimal(n: nat) -> Seq<char>
    decreases n,
{
    if n < 10 {
        digit(n as int)
    } else {
        decimal(n / 10) + digit((n % 10) as int)
    }
}

/// `n` in decimal, with a leading zero if it has one digit only.
pub open spec fn two_digits(n: nat) -> Seq<char> {
    if n < 10 {
        digit(0) + decimal(n)
    } else {
        decimal(n)
    }
}

/// `n` in hexadecimal, in lower case and without leading zeros.
pub open spec fn lower_hex(n: nat) -> Seq<char>
    decreases n,
{
    if n < 16 {
        digit(n as int)
    } else {
        lower_hex(n / 16) + digit((n % 16) as int)
    }
}

/// An address as `bus:device.function`, bus and device with two digits at
/// least.
pub open spec fn address_text(addr: PCIAddress) -> Seq<char> {
    two_digits(addr.bus as nat) + seq![':'] + two_digits(addr.dev as nat) + seq!['.'] + decimal(
        addr.fun as nat,
    )
}

/// The digit `d` as a string.
pub fn digit_str(d: u8) -> (text: &'static str)
    requires
        d < 16,
    ensures
        text@ == digit(d as int),
{
    let text = match d {
        0 => "0",
        1 => "1",
        2 => "2",
        3 => "3",
        4 => "4",
        5 => "5",
        6 => "6",
        7 => "7",
        8 => "8",
        9 => "9",
        10 => "a",
        11 => "b",
        12 => "c",
        13 => "d",
        14 => "e",
        _ => "f",
    };
    proof {
        reveal_strlit("0");
        reveal_strlit("1");
        reveal_strlit("2");
        reveal_strlit("3");
        reveal_strlit("4");
        reveal_strlit("5");
        reveal_strlit("6");
        reveal_strlit("7");
        reveal_strlit("8");
        reveal_strlit("9");
        reveal_strlit("a");
        reveal_strlit("b");
        reveal_strlit("c");
        reveal_strlit("d");
        reveal_strlit("e");
        reveal_strlit("f");
        assert(text@ =~= digit(d as int));
    }
    text
}

/// Appends `n` in decimal to `text`.
pub fn push_decimal(text: &mut String, n: u8)
    ensures
        final(text)@ == old(text)@ + decimal(n as nat),
{
    proof {
        reveal_with_fuel(decimal, 3);
    }
    if n >= 100 {
        text.append(digit_str(n / 100));
    }
    if n >= 10 {
        text.append(digit_str((n / 10) % 10));
    }
    text.append(digit_str(n % 10));
    assert(text@ =~= old(text)@ + decimal(n as nat));
}

/// Appends `n` in decimal to `text`, with two digits at least.
pub fn push_two_digits(text: &mut String, n: u8)
    ensures
        final(text)@ == old(text)@ + two_digits(n as nat),
{
    if n < 10 {
        text.append(digit_str(0));
    }
    push_decimal(text, n);
    assert(text@ =~= old(text)@ + two_digits(n as nat));
}

/// Appends `n` in lower-case hexadecimal to `text`.
pub fn push_lower_hex(text: &mut String, n: u16)
    ensures
        final(text)@ == old(text)@ + lower_hex(n as nat),
{
    proof {
        reveal_with_fuel(lower_hex, 4);
    }
    if n >= 0x1000 {
        text.append(digit_str((n / 0x1000) as u8));
    }
    if n >= 0x100 {
        text.append(digit_str(((n / 0x100) % 16) as u8));
    }
    if n >= 0x10 {
        text.append(digit_str(((n / 0x10) % 16) as u8));
    }
    text.append(digit_str((n % 16) as u8));
    assert(text@ =~= old(text)@ + lower_hex(n as nat));
}

impl PCIAddress {
    /// The address as `bus:device.function`, bus and device with two digits
    /// at least.
    pub fn to_text(&self) -> (text: String)
        ensures
            text@ == address_text(*self),
    {
        let mut text = String::new();
        push_two_digits(&mut text, self.bus);
        text.append(":");
        push_two_digits(&mut text, self.dev);
        text.append(".");
        push_decimal(&mut text, self.fun);
        proof {
            reveal_strlit(":");
            reveal_strlit(".");
            assert(text@ =~= address_text(*self));
        }
        text
    }
}

} // verus!

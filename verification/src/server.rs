//! What the dispatcher knows of the connection that a message came over.

use vstd::prelude::*;
use vstd::string::StringExecFns;

verus! {

/// The connection a message came over.
pub struct VPadMessageContext {
    /// The peer's address as text: host, a colon, port.
    pub addr: String,
}

/// The character of a decimal digit.
pub open spec fn digit(d: int) -> char {
    if d == 0 {
        '0'
    } else if d == 1 {
        '1'
    } else if d == 2 {
        '2'
    } else if d == 3 {
        '3'
    } else if d == 4 {
        '4'
    } else if d == 5 {
        '5'
    } else if d == 6 {
        '6'
    } else if d == 7 {
        '7'
    } else if d == 8 {
        '8'
    } else {
        '9'
    }
}

/// A natural number in decimal, without leading zeros.
pub open spec fn decimal_digits(n: nat) -> Seq<char>
    decreases n,
{
    if n < 10 {
        seq![digit(n as int)]
    } else {
        decimal_digits(n / 10).push(digit((n % 10) as int))
    }
}

/// An integer in decimal, with a minus sign where it is negative.
pub open spec fn decimal(n: int) -> Seq<char> {
    if n < 0 {
        seq!['-'] + decimal_digits((-n) as nat)
    } else {
        decimal_digits(n as nat)
    }
}

/// The identifier of the gesture on `note` from the peer at `addr`: the
/// address, the word "on" between spaces, the note in decimal.
pub open spec fn gesture_identifier(addr: Seq<char>, note: i8) -> Seq<char> {
    addr + " on "@ + decimal(note as int)
}

fn digit_text(d: u8) -> (text: &'static str)
    requires
        d < 10,
    ensures
        text@ == seq![digit(d as int)],
{
    proof {
        reveal_strlit("0");
        reveal_strlit("1");
        reveal_strlit("2");
        reveal_strlit("3");
        reveal_strlit("4");
        reveal_strlit("5");
        reveal_strlit("6");
        reveal_strlit("7");
        reveal_strlit("8");
        reveal_strlit("9");
    }
    let text = if d == 0 {
        "0"
    } else if d == 1 {
        "1"
    } else if d == 2 {
        "2"
    } else if d == 3 {
        "3"
    } else if d == 4 {
        "4"
    } else if d == 5 {
        "5"
    } else if d == 6 {
        "6"
    } else if d == 7 {
        "7"
    } else if d == 8 {
        "8"
    } else {
        "9"
    };
    assert(text@ =~= seq![digit(d as int)]);
    text
}

impl VPadMessageContext {
    /// The identifier of the gesture that the peer plays on `note`.
    pub fn identifier(&self, note: i8) -> (id: String)
        ensures
            id@ == gesture_identifier(self.addr@, note),
    {
        proof {
            reveal_strlit("-");
        }
        let mut id = self.addr.clone();
        id.append(" on ");
        let magnitude: u8 = if note < 0 {
            id.append("-");
            (-(note as i16)) as u8
        } else {
            note as u8
        };
        let ghost sign = id@;
        assert(sign =~= self.addr@ + " on "@ + if note < 0 {
            seq!['-']
        } else {
            Seq::<char>::empty()
        });
        if magnitude >= 100 {
            id.append(digit_text(magnitude / 100));
        }
        if magnitude >= 10 {
            id.append(digit_text((magnitude / 10) % 10));
        }
        id.append(digit_text(magnitude % 10));
        assert(id@ =~= sign + decimal_digits(magnitude as nat)) by {
            reveal_with_fuel(decimal_digits, 3);
        }
        assert(id@ =~= gesture_identifier(self.addr@, note));
        id
    }
}

} // verus!

use vstd::prelude::*;

use crate::color::Color;

verus! {

/// One line of the message log as the contracts see it.
pub type LogLine = (Seq<char>, Color);

pub open spec fn digit_char(d: nat) -> char {
    if d == 0 {
        '0'
    } else if d == 1 {
        '1'
    } else if d == 2 {
        '2'
    } else if d == 3 {
        '3'
    } else if d == 4 {
        '4'
    } else if d == 5 {
        '5'
    } else if d == 6 {
        '6'
    } else if d == 7 {
        '7'
    } else if d == 8 {
        '8'
    } else {
        '9'
    }
}

/// The decimal digits of `n`, most significant first, without leading zeros.
pub open spec fn digits(n: nat) -> Seq<char>
    decreases n,
{
    if n < 10 {
        seq![digit_char(n)]
    } else {
        digits(n / 10).push(digit_char(n % 10))
    }
}

/// `n` written in decimal, with a leading `-` when negative.
pub open spec fn decimal(n: int) -> Seq<char> {
    if n < 0 {
        seq!['-'] + digits((-n) as nat)
    } else {
        digits(n as nat)
    }
}

fn digit_str(d: u64) -> (s: &'static str)
    requires
        d < 10,
    ensures
        s@ == seq![digit_char(d as nat)],
{
    proof {
        reveal_strlit("0");
        reveal_strlit("1");
        reveal_strlit("2");
        reveal_strlit("3");
        reveal_strlit("4");
        reveal_strlit("5");
        reveal_strlit("6");
        reveal_strlit("7");
        reveal_strlit("8");
        reveal_strlit("9");
    }
    if d == 0 {
        "0"
    } else if d == 1 {
        "1"
    } else if d == 2 {
        "2"
    } else if d == 3 {
        "3"
    } else if d == 4 {
        "4"
    } else if d == 5 {
        "5"
    } else if d == 6 {
        "6"
    } else if d == 7 {
        "7"
    } else if d == 8 {
        "8"
    } else {
        "9"
    }
}

fn append_digits(s: &mut String, n: u64)
    ensures
        final(s)@ == old(s)@ + digits(n as nat),
    decreases n,
{
    if n >= 10 {
        append_digits(s, n / 10);
    }
    s.append(digit_str(n % 10));
    assert(final(s)@ =~= old(s)@ + digits(n as nat));
}

/// Appends `n` in decimal to `s`.
pub fn append_decimal(s: &mut String, n: i32)
    ensures
        final(s)@ == old(s)@ + decimal(n as int),
{
    if n < 0 {
        proof {
            reveal_strlit("-");
        }
        s.append("-");
        append_digits(s, (-(n as i64)) as u64);
        assert(final(s)@ =~= old(s)@ + decimal(n as int));
    } else {
        append_digits(s, n as u64);
    }
}

/// The message log: text lines with their colours, oldest first. Lines are
/// only ever added.
pub struct Messages {
    messages: Vec<(String, Color)>,
}

impl View for Messages {
    type V = Seq<LogLine>;

    closed spec fn view(&self) -> Seq<LogLine> {
        self.messages@.map_values(|m: (String, Color)| (m.0@, m.1))
    }
}

impl Messages {
    pub fn new() -> (m: Messages)
        ensures
            m@ == Seq::<LogLine>::empty(),
    {
        let m = Messages { messages: Vec::new() };
        assert(m@ =~= Seq::<LogLine>::empty());
        m
    }

    /// Appends one line.
    pub fn add(&mut self, message: String, color: Color)
        ensures
            final(self)@ == old(self)@.push((message@, color)),
    {
        let ghost text = message@;
        self.messages.push((message, color));
        assert(final(self)@ =~= old(self)@.push((text, color)));
    }

    pub fn len(&self) -> (n: usize)
        ensures
            n == self@.len(),
    {
        self.messages.len()
    }

    /// The line at position `i`, counted from the oldest.
    pub fn get(&self, i: usize) -> (r: (&str, Color))
        requires
            i < self@.len(),
        ensures
            r.0@ == self@[i as int].0,
            r.1 == self@[i as int].1,
    {
        let line = &self.messages[i];
        (line.0.as_str(), line.1)
    }
}

} // verus!

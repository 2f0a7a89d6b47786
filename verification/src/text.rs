//! Message text: decimal numbers and concatenation, with exact contents.
use vstd::prelude::*;

verus! {

/// The character of a single decimal digit.
pub open spec fn digit(d: nat) -> char {
    ('0' as u8 + d) as u8 as char
}

/// The decimal text of `n`, without leading zeros.
#[verifier::opaque]
pub open spec fn decimal(n: nat) -> Seq<char>
    decreases n,
{
    if n < 10 {
        seq![digit(n)]
    } else {
        decimal(n / 10).push(digit(n % 10))
    }
}

/// The decimal text of `n`, with a leading minus sign where `n` is negative.
pub open spec fn signed_decimal(n: int) -> Seq<char> {
    if n < 0 {
        "-"@ + decimal((-n) as nat)
    } else {
        decimal(n as nat)
    }
}

/// The literal of one decimal digit.
fn digit_str(d: usize) -> (s: &'static str)
    requires
        d < 10,
    ensures
        s@ == seq![digit(d as nat)],
{
    proof {
        reveal_strlit("0");
        reveal_strlit("1");
        reveal_strlit("2");
        reveal_strlit("3");
        reveal_strlit("4");
        reveal_strlit("5");
        reveal_strlit("6");
        reveal_strlit("7");
        reveal_strlit("8");
        reveal_strlit("9");
    }
    if d == 0 {
        "0"
    } else if d == 1 {
        "1"
    } else if d == 2 {
        "2"
    } else if d == 3 {
        "3"
    } else if d == 4 {
        "4"
    } else if d == 5 {
        "5"
    } else if d == 6 {
        "6"
    } else if d == 7 {
        "7"
    } else if d == 8 {
        "8"
    } else {
        "9"
    }
}

/// Appends the decimal text of `n`.
pub fn append_decimal(text: &mut String, n: usize)
    ensures
        final(text)@ == old(text)@ + decimal(n as nat),
    decreases n,
{
    reveal(decimal);
    if n >= 10 {
        append_decimal(text, n / 10);
    }
    text.append(digit_str(n % 10));
    proof {
        let before = old(text)@;
        if n >= 10 {
            assert(before + decimal(n as nat) =~= before + decimal((n / 10) as nat) + seq![
                digit((n % 10) as nat),
            ]);
        }
    }
}

/// Text under construction; each method appends one piece and hands the text back.
pub struct Text {
    chars: String,
}

impl View for Text {
    type V = Seq<char>;

    closed spec fn view(&self) -> Seq<char> {
        self.chars@
    }
}

/// Text that holds `s`.
pub fn text(s: &str) -> (t: Text)
    ensures
        t@ == s@,
{
    Text { chars: String::from_str(s) }
}

impl Text {
    /// Appends `s`.
    pub fn lit(self, s: &str) -> (t: Text)
        ensures
            t@ == self@ + s@,
    {
        Text { chars: self.chars.concat(s) }
    }

    /// Appends the decimal text of `n`.
    pub fn num(self, n: usize) -> (t: Text)
        ensures
            t@ == self@ + decimal(n as nat),
    {
        let mut chars = self.chars;
        append_decimal(&mut chars, n);
        Text { chars }
    }

    /// Appends the decimal text of `n`, signed.
    pub fn signed(self, n: i32) -> (t: Text)
        ensures
            t@ == self@ + signed_decimal(n as int),
    {
        let mut chars = self.chars;
        if n < 0 {
            let magnitude: usize = (-(n as i64)) as usize;
            chars.append("-");
            append_decimal(&mut chars, magnitude);
            proof {
                assert(self@ + "-"@ + decimal(magnitude as nat) =~= self@ + ("-"@ + decimal(
                    magnitude as nat,
                )));
            }
        } else {
            append_decimal(&mut chars, n as usize);
        }
        Text { chars }
    }

    /// The finished text.
    pub fn done(self) -> (s: String)
        ensures
            s@ == self@,
    {
        self.chars
    }
}

} // verus!

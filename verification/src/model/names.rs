//! Names of weights: the layer that a name belongs to, and what it says of that layer.
use crate::text::{decimal, digit};
use vstd::prelude::*;

verus! {

/// The value of a decimal digit.
pub open spec fn digit_value(c: char) -> nat {
    (c as nat - '0' as nat) as nat
}

/// Whether a character is a decimal digit.
pub open spec fn is_digit(c: char) -> bool {
    '0' <= c <= '9'
}

/// The number that decimal digits stand for.
pub open spec fn number(digits: Seq<char>) -> nat
    decreases digits.len(),
{
    if digits.len() == 0 {
        0
    } else {
        number(digits.drop_last()) * 10 + digit_value(digits.last())
    }
}

/// Whether text is one or more decimal digits.
pub open spec fn all_digits(text: Seq<char>) -> bool {
    text.len() > 0 && forall|i: int| 0 <= i < text.len() ==> is_digit(#[trigger] text[i])
}

/// Text without a leading plus sign.
pub open spec fn unsigned(text: Seq<char>) -> Seq<char> {
    if text.len() > 0 && text[0] == '+' {
        text.skip(1)
    } else {
        text
    }
}

/// The machine integer that text stands for: decimal digits, with or without a plus sign.
pub open spec fn parsed_index(text: Seq<char>) -> Option<usize> {
    let digits = unsigned(text);
    if all_digits(digits) && number(digits) <= usize::MAX {
        Some(number(digits) as usize)
    } else {
        None
    }
}

/// Position of the first dot from `i` on; the length where there is none.
pub open spec fn dot_at(text: Seq<char>, i: nat) -> nat
    decreases text.len() - i,
{
    if i >= text.len() {
        text.len()
    } else if text[i as int] == '.' {
        i
    } else {
        dot_at(text, i + 1)
    }
}

/// Whether text starts with another.
pub open spec fn starts(text: Seq<char>, prefix: Seq<char>) -> bool {
    prefix.len() <= text.len() && text.take(prefix.len() as int) == prefix
}

/// The part of a name behind `blocks.`.
pub open spec fn behind_blocks(name: Seq<char>) -> Option<Seq<char>> {
    if starts(name, "blocks."@) {
        Some(name.skip("blocks."@.len() as int))
    } else {
        None
    }
}

/// The layer that a name belongs to, where it belongs to one.
pub open spec fn layer_of(name: Seq<char>) -> Option<usize> {
    match behind_blocks(name) {
        Some(rest) => parsed_index(rest.take(dot_at(rest, 0) as int)),
        None => None,
    }
}

/// What a name says of its layer: the part behind the dot that follows the layer.
pub open spec fn suffix_of(name: Seq<char>) -> Seq<char> {
    let rest = name.skip("blocks."@.len() as int);
    let dot = dot_at(rest, 0);
    if dot < rest.len() {
        rest.skip(dot as int + 1)
    } else {
        Seq::empty()
    }
}

/// The decimal text of a number is digits that stand for the number.
proof fn lemma_decimal(n: nat)
    ensures
        all_digits(decimal(n)),
        number(decimal(n)) == n,
    decreases n,
{
    reveal(decimal);
    let d = digit(n % 10);
    assert(is_digit(d) && digit_value(d) == n % 10);
    if n < 10 {
        let one = seq![digit(n)];
        assert(decimal(n) == one);
        assert(one.drop_last() =~= Seq::<char>::empty());
        assert(number(one.drop_last()) == 0);
        assert(one.last() == digit(n));
    } else {
        lemma_decimal(n / 10);
        let rest = decimal(n / 10);
        assert(decimal(n) == rest.push(d));
        assert(rest.push(d).drop_last() =~= rest);
        assert forall|i: int| 0 <= i < decimal(n).len() implies is_digit(
            #[trigger] decimal(n)[i],
        ) by {
            if i < rest.len() {
                assert(rest[i] == decimal(n)[i]);
            }
        }
    }
}

/// The first dot behind digits is the one that follows them.
proof fn lemma_dot_behind(digits: Seq<char>, rest: Seq<char>, i: nat)
    requires
        all_digits(digits),
        i <= digits.len(),
    ensures
        dot_at(digits.push('.') + rest, i) == digits.len(),
    decreases digits.len() - i,
{
    let text = digits.push('.') + rest;
    if i < digits.len() {
        assert(text[i as int] == digits[i as int]);
        lemma_dot_behind(digits, rest, i + 1);
    } else {
        assert(text[i as int] == '.');
    }
}

/// A name that is put together from a layer and what it says of the layer is taken apart into
/// the same two.
pub proof fn law_layer_names_round_trip(layer: usize, suffix: Seq<char>)
    ensures
        layer_of("blocks."@ + decimal(layer as nat) + "."@ + suffix) == Some(layer),
        suffix_of("blocks."@ + decimal(layer as nat) + "."@ + suffix) == suffix,
{
    reveal_strlit("blocks.");
    reveal_strlit(".");
    let digits = decimal(layer as nat);
    let name = "blocks."@ + digits + "."@ + suffix;
    let rest = name.skip(7);
    lemma_decimal(layer as nat);
    lemma_dot_behind(digits, suffix, 0);
    assert(name.take(7) =~= "blocks."@);
    assert(rest =~= digits.push('.') + suffix);
    assert(rest.take(digits.len() as int) =~= digits);
    assert(is_digit(digits[0]));
    assert(unsigned(digits) == digits);
    assert(rest.skip(digits.len() as int + 1) =~= suffix);
}

/// The characters of a text.
pub fn chars_of(s: &str) -> (v: Vec<char>)
    ensures
        v@ == s@,
{
    let n: usize = s.unicode_len();
    let mut v: Vec<char> = Vec::new();
    let mut i: usize = 0;
    while i < n
        invariant
            i <= n == s@.len(),
            v@ == s@.take(i as int),
        decreases n - i,
    {
        v.push(s.get_char(i));
        assert(v@ =~= s@.take(i + 1));
        i += 1;
    }
    assert(s@.take(i as int) =~= s@);
    v
}

/// Digits that stand for too much stay too much with more digits behind them.
proof fn lemma_number_grows(digits: Seq<char>, k: int)
    requires
        0 <= k <= digits.len(),
    ensures
        number(digits.take(k)) <= number(digits),
    decreases digits.len() - k,
{
    if k < digits.len() {
        lemma_number_grows(digits, k + 1);
        assert(digits.take(k + 1).drop_last() =~= digits.take(k));
    } else {
        assert(digits.take(k) =~= digits);
    }
}

/// The machine integer that a part of text stands for.
pub fn parse_index(text: &Vec<char>, from: usize, to: usize) -> (r: Option<usize>)
    requires
        from <= to <= text@.len(),
    ensures
        r == parsed_index(text@.subrange(from as int, to as int)),
{
    let ghost part = text@.subrange(from as int, to as int);
    let start: usize = if from < to && text[from] == '+' {
        from + 1
    } else {
        from
    };
    let ghost digits = unsigned(part);
    assert(digits =~= text@.subrange(start as int, to as int));
    if start == to {
        return None;
    }
    let mut n: usize = 0;
    let mut i: usize = start;
    let mut over = false;
    while i < to
        invariant
            start <= i <= to <= text@.len(),
            digits == text@.subrange(start as int, to as int),
            forall|k: int| 0 <= k < i - start ==> is_digit(#[trigger] digits[k]),
            over ==> number(digits) > usize::MAX,
            !over ==> n == number(digits.take(i - start)),
            part == text@.subrange(from as int, to as int),
            digits == unsigned(part),
        decreases to - i,
    {
        let c = text[i];
        assert(digits[i - start] == c);
        if c < '0' || c > '9' {
            assert(!is_digit(digits[i - start]));
            return None;
        }
        let d: usize = (c as u32 - '0' as u32) as usize;
        proof {
            let k = i - start;
            assert(digits.take(k + 1).drop_last() =~= digits.take(k));
            assert(digits.take(k + 1).last() == c);
            lemma_number_grows(digits, k + 1);
        }
        if !over {
            match n.checked_mul(10) {
                Some(m) => match m.checked_add(d) {
                    Some(s) => {
                        n = s;
                    },
                    None => {
                        over = true;
                    },
                },
                None => {
                    over = true;
                },
            }
        }
        i += 1;
    }
    assert(digits.take(i - start) =~= digits);
    if over {
        None
    } else {
        Some(n)
    }
}

/// Whether text starts with another.
pub fn starts_with(text: &Vec<char>, prefix: &str) -> (b: bool)
    ensures
        b == starts(text@, prefix@),
{
    assert(text@.skip(0) =~= text@);
    same_part(text, 0, prefix, true)
}

/// Whether the part of text from `from` on is, or where `open` starts with, another.
fn same_part(text: &Vec<char>, from: usize, other: &str, open: bool) -> (b: bool)
    requires
        from <= text@.len(),
    ensures
        b == (if open {
            starts(text@.skip(from as int), other@)
        } else {
            text@.skip(from as int) == other@
        }),
{
    let n: usize = other.unicode_len();
    let size: usize = text.len();
    let ghost part = text@.skip(from as int);
    if text.len() - from < n || (!open && text.len() - from != n) {
        return false;
    }
    let mut i: usize = 0;
    while i < n
        invariant
            from <= size == text@.len(),
            i <= n == other@.len(),
            n <= text@.len() - from,
            !open ==> n == text@.len() - from,
            part == text@.skip(from as int),
            forall|k: int| 0 <= k < i ==> #[trigger] part[k] == other@[k],
        decreases n - i,
    {
        let c = text[from + i];
        assert(part[i as int] == c);
        if c != other.get_char(i) {
            assert(open ==> part.take(n as int)[i as int] != other@[i as int]);
            return false;
        }
        i += 1;
    }
    proof {
        assert(part.take(n as int) =~= other@);
        if !open {
            assert(part =~= other@);
        }
    }
    true
}

/// Whether the part of text from `from` on is another.
pub fn ends_as(text: &Vec<char>, from: usize, other: &str) -> (b: bool)
    requires
        from <= text@.len(),
    ensures
        b == (text@.skip(from as int) == other@),
{
    same_part(text, from, other, false)
}

/// Position of the first dot from `from` on; the length where there is none.
fn find_dot(text: &Vec<char>, from: usize) -> (at: usize)
    requires
        from <= text@.len(),
    ensures
        from <= at <= text@.len(),
        at - from == dot_at(text@.skip(from as int), 0),
{
    let ghost rest = text@.skip(from as int);
    let mut i: usize = from;
    while i < text.len()
        invariant
            from <= i <= text@.len(),
            rest == text@.skip(from as int),
            dot_at(rest, 0) == dot_at(rest, (i - from) as nat),
        decreases text@.len() - i,
    {
        assert(rest[i - from] == text@[i as int]);
        if text[i] == '.' {
            return i;
        }
        i += 1;
    }
    i
}

/// A name taken apart: its layer, where it belongs to one, and where the part behind starts.
pub struct LayerName {
    pub chars: Vec<char>,
    pub layer: Option<usize>,
    pub suffix: usize,
}

/// Takes a name apart.
pub fn split_name(name: &str) -> (n: LayerName)
    ensures
        n.chars@ == name@,
        n.layer == layer_of(name@),
        n.suffix <= name@.len(),
        n.layer is Some ==> name@.skip(n.suffix as int) == suffix_of(name@),
{
    let chars = chars_of(name);
    let end: usize = chars.len();
    proof {
        reveal_strlit("blocks.");
    }
    if !starts_with(&chars, "blocks.") {
        return LayerName { chars, layer: None, suffix: end };
    }
    let from: usize = 7;
    let dot: usize = find_dot(&chars, from);
    let layer = parse_index(&chars, from, dot);
    let suffix: usize = if dot < chars.len() {
        dot + 1
    } else {
        dot
    };
    proof {
        let rest = name@.skip(7);
        let d = dot_at(rest, 0);
        assert(rest.take(d as int) =~= name@.subrange(7, dot as int));
        if d < rest.len() {
            assert(rest.skip(d as int + 1) =~= name@.skip(suffix as int));
        } else {
            assert(name@.skip(suffix as int) =~= Seq::empty());
        }
    }
    LayerName { chars, layer, suffix }
}

} // verus!

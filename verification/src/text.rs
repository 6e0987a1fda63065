//! Small text functions shared by the rest of the crate.

use vstd::prelude::*;
use vstd::std_specs::iter::IteratorSpec;

verus! {

/// Length of the longest prefix of `s` that holds no line feed.
pub open spec fn line_end(s: Seq<char>) -> nat
    decreases s.len(),
{
    if s.len() == 0 || s[0] == '\n' {
        0
    } else {
        1 + line_end(s.drop_first())
    }
}

/// The first line of `s`, without its line feed.
pub open spec fn first_line(s: Seq<char>) -> Seq<char> {
    s.take(line_end(s) as int)
}

/// What stands for a message on a changelog line: a fixed placeholder for the
/// empty message, else the message's first line.
pub open spec fn description_text(s: Seq<char>) -> Seq<char> {
    if s.len() == 0 {
        "<No description>"@
    } else {
        first_line(s)
    }
}

/// `line_end(s)` is the position of the first line feed, or the length of `s`
/// where it holds none.
pub proof fn lemma_line_end(s: Seq<char>)
    ensures
        line_end(s) <= s.len(),
        forall|i: int| 0 <= i < line_end(s) ==> s[i] != '\n',
        line_end(s) < s.len() ==> s[line_end(s) as int] == '\n',
    decreases s.len(),
{
    if s.len() == 0 || s[0] == '\n' {
    } else {
        let t = s.drop_first();
        lemma_line_end(t);
        assert forall|i: int| 0 <= i < line_end(s) implies s[i] != '\n' by {
            if i > 0 {
                assert(s[i] == t[i - 1]);
            }
        }
        if line_end(s) < s.len() {
            assert(s[line_end(s) as int] == t[line_end(t) as int]);
        }
    }
}

/// A position that is reached without meeting a line feed, and that ends the
/// text or holds a line feed, is `line_end(s)`.
pub proof fn lemma_line_end_is(s: Seq<char>, n: int)
    requires
        0 <= n <= s.len(),
        forall|i: int| 0 <= i < n ==> s[i] != '\n',
        n < s.len() ==> s[n] == '\n',
    ensures
        line_end(s) == n,
{
    lemma_line_end(s);
    let m = line_end(s) as int;
    if m < n {
        assert(s[m] == '\n');
    } else if n < m {
        assert(s[n] == '\n');
    }
}

/// The summary of a commit message: its first line, or `<No description>` for
/// an empty message.
pub fn description(input: &str) -> (summary: &str)
    ensures
        summary@ == description_text(input@),
{
    broadcast use {vstd::string::axiom_spec_iter, vstd::string::next_postcondition};

    let n = input.unicode_len();
    if n == 0 {
        "<No description>"
    } else {
        let mut rest = input.chars();
        let mut end: usize = 0;
        loop
            invariant_except_break
                rest.remaining() == input@.skip(end as int),
            invariant
                n == input@.len(),
                0 <= end <= n,
                forall|j: int| 0 <= j < end ==> input@[j] != '\n',
            ensures
                0 <= end <= input@.len(),
                forall|j: int| 0 <= j < end ==> input@[j] != '\n',
                end < input@.len() ==> input@[end as int] == '\n',
            decreases input@.len() - end,
        {
            match rest.next() {
                Some(c) => {
                    assert(c == input@[end as int]);
                    if c == '\n' {
                        break;
                    }
                    assert(input@.skip(end as int).drop_first() =~= input@.skip(end + 1));
                    end += 1;
                },
                None => {
                    break;
                },
            }
        }
        proof {
            lemma_line_end_is(input@, end as int);
        }
        input.substring_char(0, end)
    }
}

/// The decimal digit `d`, for `d` below ten.
pub open spec fn digit_char(d: nat) -> char {
    if d == 0 {
        '0'
    } else if d == 1 {
        '1'
    } else if d == 2 {
        '2'
    } else if d == 3 {
        '3'
    } else if d == 4 {
        '4'
    } else if d == 5 {
        '5'
    } else if d == 6 {
        '6'
    } else if d == 7 {
        '7'
    } else if d == 8 {
        '8'
    } else {
        '9'
    }
}

/// `n` in decimal, without sign or leading zeros.
pub open spec fn decimal_text(n: nat) -> Seq<char>
    decreases n,
{
    if n < 10 {
        seq![digit_char(n)]
    } else {
        decimal_text(n / 10).push(digit_char(n % 10))
    }
}

fn digit_str(d: u64) -> (text: &'static str)
    requires
        d < 10,
    ensures
        text@ == seq![digit_char(d as nat)],
{
    proof {
        reveal_strlit("0");
        reveal_strlit("1");
        reveal_strlit("2");
        reveal_strlit("3");
        reveal_strlit("4");
        reveal_strlit("5");
        reveal_strlit("6");
        reveal_strlit("7");
        reveal_strlit("8");
        reveal_strlit("9");
    }
    let text = if d == 0 {
        "0"
    } else if d == 1 {
        "1"
    } else if d == 2 {
        "2"
    } else if d == 3 {
        "3"
    } else if d == 4 {
        "4"
    } else if d == 5 {
        "5"
    } else if d == 6 {
        "6"
    } else if d == 7 {
        "7"
    } else if d == 8 {
        "8"
    } else {
        "9"
    };
    assert(text@ =~= seq![digit_char(d as nat)]);
    text
}

/// Writes `n` in decimal.
pub fn decimal(n: u64) -> (text: String)
    ensures
        text@ == decimal_text(n as nat),
    decreases n,
{
    if n < 10 {
        String::from_str(digit_str(n))
    } else {
        let mut text = decimal(n / 10);
        text.append(digit_str(n % 10));
        assert(text@ =~= decimal_text(n as nat));
        text
    }
}

/// How many characters of an identifier its short form keeps.
pub const SHORT_ID_LEN: usize = 7;

/// The short form of an identifier: its first seven characters, or all of it
/// where it has fewer.
pub open spec fn short_id_text(id: Seq<char>) -> Seq<char> {
    if id.len() <= SHORT_ID_LEN {
        id
    } else {
        id.take(SHORT_ID_LEN as int)
    }
}

/// The short form of an identifier.
pub fn short_id(id: &str) -> (short: &str)
    ensures
        short@ == short_id_text(id@),
{
    let n = id.unicode_len();
    if n <= SHORT_ID_LEN {
        id
    } else {
        id.substring_char(0, SHORT_ID_LEN)
    }
}

/// `n` in decimal, with a minus sign where it is negative.
pub open spec fn signed_decimal_text(n: int) -> Seq<char> {
    if n < 0 {
        "-"@ + decimal_text((-n) as nat)
    } else {
        decimal_text(n as nat)
    }
}

/// Writes `n` in decimal.
pub fn signed_decimal(n: i64) -> (text: String)
    ensures
        text@ == signed_decimal_text(n as int),
{
    if n < 0 {
        let magnitude: u64 = ((-(n + 1)) as u64) + 1;
        let mut text = String::from_str("-");
        text.append(decimal(magnitude).as_str());
        text
    } else {
        decimal(n as u64)
    }
}

} // verus!

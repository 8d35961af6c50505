use vstd::prelude::*;

verus! {

/// The character of a decimal digit.
pub open spec fn digit_char(d: nat) -> char {
    if d == 0 {
        '0'
    } else if d == 1 {
        '1'
    } else if d == 2 {
        '2'
    } else if d == 3 {
        '3'
    } else if d == 4 {
        '4'
    } else if d == 5 {
        '5'
    } else if d == 6 {
        '6'
    } else if d == 7 {
        '7'
    } else if d == 8 {
        '8'
    } else {
        '9'
    }
}

/// The decimal text of a natural number, without leading zeros.
pub open spec fn decimal(n: nat) -> Seq<char>
    decreases n,
{
    if n < 10 {
        seq![digit_char(n)]
    } else {
        decimal(n / 10) + seq![digit_char(n % 10)]
    }
}

/// The text a character of a metadata key becomes inside a quoted element of
/// an array literal that itself stands in a single-quoted SQL string: `\` and
/// `"` take a backslash, `'` is doubled.
pub open spec fn key_char_text(c: char) -> Seq<char> {
    if c == '\\' {
        "\\\\"@
    } else if c == '"' {
        "\\\""@
    } else if c == '\'' {
        "''"@
    } else {
        seq![c]
    }
}

/// The text a character of a quoted identifier becomes: `"` is doubled.
pub open spec fn ident_char_text(c: char) -> Seq<char> {
    if c == '"' {
        "\"\""@
    } else {
        seq![c]
    }
}

/// A metadata key escaped character by character.
pub open spec fn escape_key(s: Seq<char>) -> Seq<char>
    decreases s.len(),
{
    if s.len() == 0 {
        Seq::empty()
    } else {
        escape_key(s.subrange(0, s.len() - 1)) + key_char_text(s[s.len() - 1])
    }
}

/// The body of a quoted identifier, escaped character by character.
pub open spec fn escape_ident(s: Seq<char>) -> Seq<char>
    decreases s.len(),
{
    if s.len() == 0 {
        Seq::empty()
    } else {
        escape_ident(s.subrange(0, s.len() - 1)) + ident_char_text(s[s.len() - 1])
    }
}

/// An identifier in double quotes: any name can stand in statement text.
pub open spec fn quote_ident(s: Seq<char>) -> Seq<char> {
    "\""@ + escape_ident(s) + "\""@
}

fn digit_str(d: u64) -> (r: &'static str)
    requires
        d < 10,
    ensures
        r@ == seq![digit_char(d as nat)],
{
    proof {
        reveal_strlit("0");
        reveal_strlit("1");
        reveal_strlit("2");
        reveal_strlit("3");
        reveal_strlit("4");
        reveal_strlit("5");
        reveal_strlit("6");
        reveal_strlit("7");
        reveal_strlit("8");
        reveal_strlit("9");
    }
    if d == 0 {
        "0"
    } else if d == 1 {
        "1"
    } else if d == 2 {
        "2"
    } else if d == 3 {
        "3"
    } else if d == 4 {
        "4"
    } else if d == 5 {
        "5"
    } else if d == 6 {
        "6"
    } else if d == 7 {
        "7"
    } else if d == 8 {
        "8"
    } else {
        "9"
    }
}

/// Appends the decimal text of `n`.
pub fn push_decimal(out: &mut String, n: u64)
    ensures
        final(out)@ == old(out)@ + decimal(n as nat),
    decreases n,
{
    if n >= 10 {
        push_decimal(out, n / 10);
        out.append(digit_str(n % 10));
        assert(final(out)@ =~= old(out)@ + decimal(n as nat));
    } else {
        out.append(digit_str(n));
    }
}

/// Appends `s` escaped as a metadata key (`key`) or as an identifier body.
pub fn push_escaped(out: &mut String, s: &str, key: bool)
    ensures
        final(out)@ == old(out)@ + if key {
            escape_key(s@)
        } else {
            escape_ident(s@)
        },
{
    let n = s.unicode_len();
    let mut i: usize = 0;
    while i < n
        invariant
            n == s@.len(),
            i <= n,
            out@ == old(out)@ + if key {
                escape_key(s@.subrange(0, i as int))
            } else {
                escape_ident(s@.subrange(0, i as int))
            },
        decreases n - i,
    {
        let c = s.get_char(i);
        let ghost before = out@;
        if key && c == '\\' {
            out.append("\\\\");
        } else if key && c == '\'' {
            out.append("''");
        } else if key && c == '"' {
            out.append("\\\"");
        } else if !key && c == '"' {
            out.append("\"\"");
        } else {
            out.append(s.substring_char(i, i + 1));
            assert(s@.subrange(i as int, i + 1) =~= seq![c]);
        }
        let ghost next = s@.subrange(0, i + 1);
        assert(next.subrange(0, next.len() - 1) =~= s@.subrange(0, i as int));
        assert(out@ =~= old(out)@ + if key {
            escape_key(next)
        } else {
            escape_ident(next)
        });
        i = i + 1;
    }
    assert(s@.subrange(0, n as int) =~= s@);
}

/// Appends `s` as a double-quoted identifier.
pub fn push_quoted_ident(out: &mut String, s: &str)
    ensures
        final(out)@ == old(out)@ + quote_ident(s@),
{
    out.append("\"");
    push_escaped(out, s, false);
    out.append("\"");
    assert(final(out)@ =~= old(out)@ + quote_ident(s@));
}

/// Whether `s` reads exactly as the text `lit`.
pub fn text_is(s: &String, lit: &str) -> (r: bool)
    ensures
        r == (s@ == lit@),
{
    *s == String::from_str(lit)
}

} // verus!

use vstd::prelude::*;
use vstd::string::StringExecFns;

verus! {

/// The decimal digit character for a value below ten.
pub open spec fn digit_char(d: int) -> char {
    if d == 0 {
        '0'
    } else if d == 1 {
        '1'
    } else if d == 2 {
        '2'
    } else if d == 3 {
        '3'
    } else if d == 4 {
        '4'
    } else if d == 5 {
        '5'
    } else if d == 6 {
        '6'
    } else if d == 7 {
        '7'
    } else if d == 8 {
        '8'
    } else {
        '9'
    }
}

/// The shortest decimal text of a natural number, as JSON writes an unsigned integer.
pub open spec fn decimal(n: nat) -> Seq<char>
    decreases n,
{
    if n < 10 {
        seq![digit_char(n as int)]
    } else {
        decimal(n / 10) + seq![digit_char((n % 10) as int)]
    }
}

/// The JSON text of a signed 64-bit integer.
pub open spec fn decimal_i64(n: i64) -> Seq<char> {
    if n < 0 {
        seq!['-'] + decimal((-n) as nat)
    } else {
        decimal(n as nat)
    }
}

/// The items joined by commas.
pub open spec fn comma_join(items: Seq<Seq<char>>) -> Seq<char>
    decreases items.len(),
{
    if items.len() == 0 {
        seq![]
    } else if items.len() == 1 {
        items[0]
    } else {
        comma_join(items.drop_last()) + seq![','] + items.last()
    }
}

/// A JSON array whose elements have the given texts.
pub open spec fn json_array(items: Seq<Seq<char>>) -> Seq<char> {
    seq!['['] + comma_join(items) + seq![']']
}

/// The texts of the bytes as JSON numbers.
pub open spec fn byte_texts(bytes: Seq<u8>) -> Seq<Seq<char>> {
    Seq::new(bytes.len(), |i: int| decimal(bytes[i] as nat))
}

/// A byte sequence written as a JSON array of numbers.
pub open spec fn json_bytes(bytes: Seq<u8>) -> Seq<char> {
    json_array(byte_texts(bytes))
}

/// One more item joined on the right.
pub proof fn lemma_comma_join_push(items: Seq<Seq<char>>, item: Seq<char>)
    ensures
        comma_join(items.push(item)) == if items.len() == 0 {
            item
        } else {
            comma_join(items) + seq![','] + item
        },
{
    assert(items.push(item).drop_last() =~= items);
}

fn push_digit(out: &mut String, d: u64)
    requires
        d < 10,
    ensures
        final(out)@ == old(out)@ + seq![digit_char(d as int)],
{
    proof {
        reveal_strlit("0");
        reveal_strlit("1");
        reveal_strlit("2");
        reveal_strlit("3");
        reveal_strlit("4");
        reveal_strlit("5");
        reveal_strlit("6");
        reveal_strlit("7");
        reveal_strlit("8");
        reveal_strlit("9");
    }
    if d == 0 {
        out.append("0");
    } else if d == 1 {
        out.append("1");
    } else if d == 2 {
        out.append("2");
    } else if d == 3 {
        out.append("3");
    } else if d == 4 {
        out.append("4");
    } else if d == 5 {
        out.append("5");
    } else if d == 6 {
        out.append("6");
    } else if d == 7 {
        out.append("7");
    } else if d == 8 {
        out.append("8");
    } else {
        out.append("9");
    }
}

/// Appends the decimal text of `n`.
pub fn push_decimal(out: &mut String, n: u64)
    ensures
        final(out)@ == old(out)@ + decimal(n as nat),
    decreases n,
{
    if n < 10 {
        push_digit(out, n);
    } else {
        push_decimal(out, n / 10);
        push_digit(out, n % 10);
        assert(final(out)@ =~= old(out)@ + decimal(n as nat));
    }
}

/// Appends the decimal text of a signed integer, with a leading minus sign when it is negative.
pub fn push_i64(out: &mut String, n: i64)
    ensures
        final(out)@ == old(out)@ + decimal_i64(n),
{
    if n < 0 {
        proof {
            reveal_strlit("-");
        }
        out.append("-");
        let magnitude: u64 = if n == i64::MIN {
            9223372036854775808u64
        } else {
            (-n) as u64
        };
        push_decimal(out, magnitude);
        assert(final(out)@ =~= old(out)@ + decimal_i64(n));
    } else {
        push_decimal(out, n as u64);
    }
}

/// Appends the bytes as a JSON array of numbers.
pub fn push_bytes(out: &mut String, bytes: &[u8])
    ensures
        final(out)@ == old(out)@ + json_bytes(bytes@),
{
    let ghost start = out@;
    let ghost texts = byte_texts(bytes@);
    proof {
        reveal_strlit("[");
        reveal_strlit(",");
        reveal_strlit("]");
    }
    out.append("[");
    let mut i: usize = 0;
    while i < bytes.len()
        invariant
            i <= bytes@.len(),
            texts == byte_texts(bytes@),
            out@ == start + seq!['['] + comma_join(texts.take(i as int)),
        decreases bytes@.len() - i,
    {
        let ghost before = out@;
        proof {
            reveal_strlit(",");
        }
        if i > 0 {
            out.append(",");
        }
        push_decimal(out, bytes[i] as u64);
        proof {
            assert(texts[i as int] == decimal(bytes@[i as int] as nat));
            if i > 0 {
                assert(out@ =~= before + seq![','] + texts[i as int]);
            } else {
                assert(out@ =~= before + texts[i as int]);
            }
            lemma_comma_join_push(texts.take(i as int), texts[i as int]);
            assert(texts.take(i as int).push(texts[i as int]) =~= texts.take(i + 1));
        }
        i = i + 1;
    }
    out.append("]");
    assert(texts.take(bytes@.len() as int) =~= texts);
}

} // verus!

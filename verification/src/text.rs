//! Texts: lists of them, and the decimal numbers and base-58 bytes that they hold.
use vstd::prelude::*;
use vstd::string::StringExecFns;

verus! {

/// The views of a list of texts.
pub open spec fn texts_view(texts: Seq<String>) -> Seq<Seq<char>> {
    texts.map_values(|text: String| text@)
}

/// The same texts once more.
pub fn clone_texts(texts: &Vec<String>) -> (copy: Vec<String>)
    ensures
        texts_view(copy@) == texts_view(texts@),
{
    let mut copy: Vec<String> = Vec::new();
    let mut i: usize = 0;
    while i < texts.len()
        invariant
            i <= texts@.len(),
            copy@.len() == i,
            forall|j: int| 0 <= j < i ==> (#[trigger] copy@[j])@ == texts@[j]@,
        decreases texts@.len() - i,
    {
        copy.push(texts[i].clone());
        i += 1;
    }
    assert(texts_view(copy@) =~= texts_view(texts@));
    copy
}

/// The character of a decimal digit.
pub open spec fn digit_char(digit: nat) -> char {
    ('0' as u32 + digit) as char
}

/// A number in decimal, without leading zeros.
pub open spec fn decimal(n: nat) -> Seq<char>
    decreases n,
{
    if n < 10 {
        seq![digit_char(n)]
    } else {
        decimal(n / 10).push(digit_char(n % 10))
    }
}

/// The number that decimal digits stand for.
pub open spec fn decimal_value(digits: Seq<char>) -> int
    decreases digits.len(),
{
    if digits.len() == 0 {
        0
    } else {
        10 * decimal_value(digits.drop_last()) + (digits.last() as int - '0' as int)
    }
}

/// Reading the decimal digits of a number gives the number back.
pub proof fn law_decimal_value(n: nat)
    ensures
        decimal_value(decimal(n)) == n,
        decimal(n).len() > 0,
    decreases n,
{
    if n < 10 {
        assert(decimal(n).drop_last() =~= Seq::<char>::empty());
        assert(decimal_value(Seq::<char>::empty()) == 0);
    } else {
        law_decimal_value(n / 10);
        assert(decimal(n).drop_last() =~= decimal(n / 10));
    }
}

/// These characters spell a number as people write it: decimal digits, no zero in front of others,
/// and the value is the number.
pub open spec fn spells(digits: Seq<char>, n: int) -> bool {
    &&& digits.len() > 0
    &&& forall|i: int| 0 <= i < digits.len() ==> '0' <= #[trigger] digits[i] <= '9'
    &&& digits.len() > 1 ==> digits[0] != '0'
    &&& decimal_value(digits) == n
}

/// A number in decimal is how the number is spelled.
pub proof fn law_decimal_spells(n: nat)
    ensures
        spells(decimal(n), n as int),
    decreases n,
{
    law_decimal_value(n);
    if n >= 10 {
        law_decimal_spells(n / 10);
        let front = decimal(n / 10);
        assert(decimal(n) == front.push(digit_char(n % 10)));
        assert(decimal(n)[0] == front[0]);
        if front.len() == 1 {
            assert(front.drop_last() =~= Seq::<char>::empty());
            assert(decimal_value(Seq::<char>::empty()) == 0);
            assert(decimal_value(front) == front[0] as int - '0' as int);
        }
        assert forall|i: int| 0 <= i < decimal(n).len() implies '0' <= #[trigger] decimal(n)[i]
            <= '9' by {
            if i < front.len() {
                assert(decimal(n)[i] == front[i]);
            }
        }
    }
}

/// A number is spelled in one way only.
pub proof fn law_spelling_is_unique(a: Seq<char>, b: Seq<char>, n: int)
    requires
        spells(a, n),
        spells(b, n),
    ensures
        a == b,
    decreases a.len(),
{
    lemma_spelled_value(a);
    lemma_spelled_value(b);
    let front_a = a.drop_last();
    let front_b = b.drop_last();
    assert(a[a.len() - 1] == a.last() && b[b.len() - 1] == b.last());
    assert(a.last() == b.last());
    assert(a =~= front_a.push(a.last()));
    assert(b =~= front_b.push(b.last()));
    if a.len() > 1 && b.len() > 1 {
        assert forall|i: int| 0 <= i < front_a.len() implies '0' <= #[trigger] front_a[i]
            <= '9' by {
            assert(front_a[i] == a[i]);
        }
        assert forall|i: int| 0 <= i < front_b.len() implies '0' <= #[trigger] front_b[i]
            <= '9' by {
            assert(front_b[i] == b[i]);
        }
        law_spelling_is_unique(front_a, front_b, decimal_value(front_a));
    } else {
        assert(a.len() == 1 && b.len() == 1);
        assert(front_a =~= front_b);
    }
}

/// Several digits without a leading zero stand for at least ten, and one digit for less.
proof fn lemma_spelled_value(digits: Seq<char>)
    requires
        digits.len() > 0,
        forall|i: int| 0 <= i < digits.len() ==> '0' <= #[trigger] digits[i] <= '9',
        digits.len() > 1 ==> digits[0] != '0',
    ensures
        decimal_value(digits) >= 0,
        digits.len() == 1 <==> decimal_value(digits) < 10,
        digits[0] != '0' ==> decimal_value(digits) > 0,
        decimal_value(digits) == 10 * decimal_value(digits.drop_last()) + (digits.last() as int
            - '0' as int),
    decreases digits.len(),
{
    let front = digits.drop_last();
    assert('0' <= digits[digits.len() - 1] <= '9');
    if digits.len() == 1 {
        assert(front =~= Seq::<char>::empty());
        assert(decimal_value(Seq::<char>::empty()) == 0);
    } else {
        assert forall|i: int| 0 <= i < front.len() implies '0' <= #[trigger] front[i] <= '9' by {
            assert(front[i] == digits[i]);
        }
        assert(front[0] == digits[0]);
        lemma_spelled_value(front);
    }
}

/// Cloned texts are the same texts, each in its place.
pub proof fn law_clones_are_the_same(texts: &Vec<String>, copy: Vec<String>)
    requires
        call_ensures(clone_texts, (texts,), copy),
    ensures
        copy@.len() == texts@.len(),
        forall|i: int| 0 <= i < texts@.len() ==> (#[trigger] copy@[i])@ == texts@[i]@,
{
    assert(texts_view(copy@).len() == copy@.len());
    assert(texts_view(texts@).len() == texts@.len());
    assert forall|i: int| 0 <= i < texts@.len() implies (#[trigger] copy@[i])@ == texts@[i]@ by {
        assert(texts_view(copy@)[i] == copy@[i]@);
        assert(texts_view(texts@)[i] == texts@[i]@);
    }
}

/// The text of one decimal digit.
fn digit_text(digit: u64) -> (text: &'static str)
    requires
        digit < 10,
    ensures
        text@ == seq![digit_char(digit as nat)],
{
    proof {
        reveal_strlit("0");
        reveal_strlit("1");
        reveal_strlit("2");
        reveal_strlit("3");
        reveal_strlit("4");
        reveal_strlit("5");
        reveal_strlit("6");
        reveal_strlit("7");
        reveal_strlit("8");
        reveal_strlit("9");
    }
    let text = match digit {
        0 => "0",
        1 => "1",
        2 => "2",
        3 => "3",
        4 => "4",
        5 => "5",
        6 => "6",
        7 => "7",
        8 => "8",
        _ => "9",
    };
    assert(text@ =~= seq![digit_char(digit as nat)]);
    text
}

/// Appends a number in decimal.
pub fn append_decimal(text: &mut String, n: u64)
    ensures
        final(text)@ == old(text)@ + decimal(n as nat),
    decreases n,
{
    if n < 10 {
        text.append(digit_text(n));
    } else {
        append_decimal(text, n / 10);
        text.append(digit_text(n % 10));
        assert(text@ =~= old(text)@ + decimal(n as nat));
    }
}

/// The character of a digit in base 58.
pub open spec fn base58_char(digit: nat) -> char {
    "123456789ABCDEFGHJKLMNPQRSTUVWXYZabcdefghijkmnopqrstuvwxyz"@[digit as int]
}

/// The number that bytes stand for, the highest first.
pub open spec fn big_endian(bytes: Seq<u8>) -> nat
    decreases bytes.len(),
{
    if bytes.len() == 0 {
        0
    } else {
        256 * big_endian(bytes.drop_last()) + bytes.last() as nat
    }
}

/// A number in base 58, without leading zeros; nothing for the number 0.
pub open spec fn base58_digits(n: nat) -> Seq<char>
    decreases n,
{
    if n == 0 {
        Seq::empty()
    } else {
        base58_digits(n / 58).push(base58_char(n % 58))
    }
}

/// How many zero bytes come before all others.
pub open spec fn leading_zeros(bytes: Seq<u8>) -> nat
    decreases bytes.len(),
{
    if bytes.len() > 0 && bytes[0] == 0 {
        1 + leading_zeros(bytes.drop_first())
    } else {
        0
    }
}

/// Bytes in base 58: a zero digit for each leading zero byte, and then the number that the bytes
/// stand for.
pub open spec fn base58(bytes: Seq<u8>) -> Seq<char> {
    Seq::new(leading_zeros(bytes), |i: int| base58_char(0)) + base58_digits(big_endian(bytes))
}

/// The number that a text in base 58 stands for.
pub open spec fn base58_value(text: Seq<char>) -> int
    decreases text.len(),
{
    if text.len() == 0 {
        0
    } else {
        58 * base58_value(text.drop_last())
            + "123456789ABCDEFGHJKLMNPQRSTUVWXYZabcdefghijkmnopqrstuvwxyz"@.index_of(text.last())
    }
}

/// The digit of a base-58 character can be told from it.
proof fn lemma_base58_char(digit: nat)
    requires
        digit < 58,
    ensures
        "123456789ABCDEFGHJKLMNPQRSTUVWXYZabcdefghijkmnopqrstuvwxyz"@.index_of(base58_char(digit))
            == digit,
{
    reveal_strlit("123456789ABCDEFGHJKLMNPQRSTUVWXYZabcdefghijkmnopqrstuvwxyz");
    let alphabet = "123456789ABCDEFGHJKLMNPQRSTUVWXYZabcdefghijkmnopqrstuvwxyz"@;
    assert(alphabet.len() == 58);
    assert(alphabet.contains(alphabet[digit as int]));
    let found = alphabet.index_of(base58_char(digit));
    assert(alphabet[found] == alphabet[digit as int]);
}

/// The digits of a number, behind zeros, stand for the number.
proof fn lemma_base58_value(zeros: nat, n: nat)
    ensures
        base58_value(Seq::new(zeros, |i: int| base58_char(0)) + base58_digits(n)) == n,
    decreases zeros, n,
{
    let padding = Seq::new(zeros, |i: int| base58_char(0));
    let text = padding + base58_digits(n);
    if n > 0 {
        lemma_base58_value(zeros, n / 58);
        lemma_base58_char(n % 58);
        assert(text.drop_last() =~= padding + base58_digits(n / 58));
        assert(text.last() == base58_char(n % 58));
    } else if zeros > 0 {
        let fewer = (zeros - 1) as nat;
        lemma_base58_value(fewer, 0);
        lemma_base58_char(0);
        assert(text.drop_last() =~= Seq::new(fewer, |i: int| base58_char(0)) + base58_digits(0));
        assert(text.last() == base58_char(0));
    }
}

/// Equally many bytes that stand for the same number are the same bytes.
proof fn lemma_big_endian_injective(a: Seq<u8>, b: Seq<u8>)
    requires
        a.len() == b.len(),
        big_endian(a) == big_endian(b),
    ensures
        a == b,
    decreases a.len(),
{
    if a.len() > 0 {
        assert(a.last() == b.last());
        lemma_big_endian_injective(a.drop_last(), b.drop_last());
        assert(a =~= a.drop_last().push(a.last()));
        assert(b =~= b.drop_last().push(b.last()));
    } else {
        assert(a =~= b);
    }
}

/// Equally many bytes with the same text in base 58 are the same bytes: no two signatures read
/// the same.
pub proof fn law_base58_fixes_bytes(a: Seq<u8>, b: Seq<u8>)
    requires
        a.len() == b.len(),
        base58(a) == base58(b),
    ensures
        a == b,
{
    lemma_base58_value(leading_zeros(a), big_endian(a));
    lemma_base58_value(leading_zeros(b), big_endian(b));
    lemma_big_endian_injective(a, b);
}

} // verus!

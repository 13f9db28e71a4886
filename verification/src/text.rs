//! Text, as errors are described in.
use vstd::prelude::*;
use vstd::string::*;

verus! {

/// The digit of a value under sixteen.
pub open spec fn digit(value: nat) -> char {
    seq![
        '0', '1', '2', '3', '4', '5', '6', '7', '8', '9', 'a', 'b', 'c', 'd', 'e', 'f',
    ][value as int]
}

/// A number in decimal.
pub open spec fn decimal(n: nat) -> Seq<char>
    decreases n,
{
    if n < 10 {
        seq![digit(n)]
    } else {
        decimal(n / 10).push(digit(n % 10))
    }
}

/// Bytes in hexadecimal.
pub open spec fn hex(bytes: Seq<u8>) -> Seq<char>
    decreases bytes.len(),
{
    if bytes.len() == 0 {
        seq![]
    } else {
        hex(bytes.drop_last()) + seq![
            digit(bytes.last() as nat / 16),
            digit(bytes.last() as nat % 16),
        ]
    }
}

/// Whether a text holds another, as consecutive characters of it.
pub open spec fn holds(text: Seq<char>, part: Seq<char>) -> bool {
    exists|i: int| #[trigger] holds_at(text, part, i)
}

/// Whether a text holds another from its `i`th character on.
pub open spec fn holds_at(text: Seq<char>, part: Seq<char>, i: int) -> bool {
    &&& 0 <= i
    &&& i + part.len() <= text.len()
    &&& text.subrange(i, i + part.len()) == part
}

/// Append the digit of a value under sixteen.
fn push_digit(text: &mut String, value: u8)
    requires
        value < 16,
    ensures
        final(text)@ == old(text)@.push(digit(value as nat)),
{
    let ghost before = text@;
    let c: &str = match value {
        0 => "0",
        1 => "1",
        2 => "2",
        3 => "3",
        4 => "4",
        5 => "5",
        6 => "6",
        7 => "7",
        8 => "8",
        9 => "9",
        10 => "a",
        11 => "b",
        12 => "c",
        13 => "d",
        14 => "e",
        _ => "f",
    };
    proof {
        reveal_strlit("0");
        reveal_strlit("1");
        reveal_strlit("2");
        reveal_strlit("3");
        reveal_strlit("4");
        reveal_strlit("5");
        reveal_strlit("6");
        reveal_strlit("7");
        reveal_strlit("8");
        reveal_strlit("9");
        reveal_strlit("a");
        reveal_strlit("b");
        reveal_strlit("c");
        reveal_strlit("d");
        reveal_strlit("e");
        reveal_strlit("f");
        assert(c@ =~= seq![digit(value as nat)]);
    }
    text.append(c);
    assert(text@ =~= before.push(digit(value as nat)));
}

/// Append a number in decimal.
pub fn push_decimal(text: &mut String, n: u64)
    ensures
        final(text)@ == old(text)@ + decimal(n as nat),
    decreases n,
{
    let ghost before = text@;
    if n >= 10 {
        push_decimal(text, n / 10);
    }
    push_digit(text, (n % 10) as u8);
    assert(text@ =~= before + decimal(n as nat));
}

/// Append bytes in hexadecimal.
pub fn push_hex(text: &mut String, bytes: &[u8])
    ensures
        final(text)@ == old(text)@ + hex(bytes@),
{
    let ghost before = text@;
    assert(text@ =~= before + hex(bytes@.take(0)));
    let mut i: usize = 0;
    while i < bytes.len()
        invariant
            i <= bytes.len(),
            text@ == before + hex(bytes@.take(i as int)),
        decreases bytes.len() - i,
    {
        let byte: u8 = bytes[i];
        push_digit(text, byte / 16);
        push_digit(text, byte % 16);
        proof {
            assert(bytes@.take(i + 1).drop_last() =~= bytes@.take(i as int));
            assert(text@ =~= before + hex(bytes@.take(i + 1)));
        }
        i += 1;
    }
    assert(bytes@.take(i as int) =~= bytes@);
}

/// The characters of a text.
fn characters(text: &str) -> (characters: Vec<char>)
    ensures
        characters@ == text@,
{
    let mut characters: Vec<char> = Vec::new();
    for c in it: text.chars()
        invariant
            it.seq() == text@,
            characters@ == text@.take(it.index()),
    {
        let ghost i = it.index();
        characters.push(c);
        assert(text@.take(i + 1) =~= text@.take(i).push(text@[i]));
    }
    assert(text@.take(text@.len() as int) =~= text@);
    characters
}

/// Whether a text holds another, as consecutive characters of it.
pub fn contains(text: &str, part: &str) -> (contains: bool)
    ensures
        contains == holds(text@, part@),
{
    let text_characters = characters(text);
    let part_characters = characters(part);
    if part_characters.len() > text_characters.len() {
        return false;
    }
    let last: usize = text_characters.len() - part_characters.len();
    let mut i: usize = 0;
    loop
        invariant
            i <= last,
            text_characters@ == text@,
            part_characters@ == part@,
            last == text_characters.len() - part_characters.len(),
            forall|k: int| 0 <= k < i ==> !#[trigger] holds_at(text@, part@, k),
        decreases last - i,
    {
        let mut j: usize = 0;
        while j < part_characters.len() && text_characters[i + j] == part_characters[j]
            invariant
                j <= part_characters.len(),
                i + part_characters.len() <= text_characters.len(),
                text_characters@ == text@,
                part_characters@ == part@,
                forall|k: int| 0 <= k < j ==> text@[i + k] == part@[k],
            decreases part_characters.len() - j,
        {
            j += 1;
        }
        if j == part_characters.len() {
            assert(text@.subrange(i as int, i + part@.len()) =~= part@);
            assert(holds_at(text@, part@, i as int));
            return true;
        }
        assert(!holds_at(text@, part@, i as int)) by {
            assert(text@.subrange(i as int, i + part@.len())[j as int] == text@[i + j]);
        }
        if i == last {
            return false;
        }
        i += 1;
    }
}

} // verus!

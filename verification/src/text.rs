//! Text that the library writes: hexadecimal renderings and messages with a
//! placeholder.

use vstd::prelude::*;

verus! {

/// The lower-case hexadecimal digit for a value below sixteen.
pub open spec fn hex_digit(n: int) -> char {
    if n == 0 {
        '0'
    } else if n == 1 {
        '1'
    } else if n == 2 {
        '2'
    } else if n == 3 {
        '3'
    } else if n == 4 {
        '4'
    } else if n == 5 {
        '5'
    } else if n == 6 {
        '6'
    } else if n == 7 {
        '7'
    } else if n == 8 {
        '8'
    } else if n == 9 {
        '9'
    } else if n == 10 {
        'a'
    } else if n == 11 {
        'b'
    } else if n == 12 {
        'c'
    } else if n == 13 {
        'd'
    } else if n == 14 {
        'e'
    } else {
        'f'
    }
}

/// The bytes in hexadecimal, two digits for each byte, the first byte first.
pub open spec fn hex_of_bytes(bytes: Seq<u8>) -> Seq<char>
    decreases bytes.len(),
{
    if bytes.len() == 0 {
        Seq::empty()
    } else {
        hex_of_bytes(bytes.drop_last()).push(hex_digit(bytes.last() as int / 16)).push(
            hex_digit(bytes.last() as int % 16),
        )
    }
}

/// The lowest `width` hexadecimal digits of `value`, the highest of them first.
pub open spec fn hex_of_number(value: u128, width: nat) -> Seq<char>
    decreases width,
{
    if width == 0 {
        Seq::empty()
    } else {
        hex_of_number(value / 16, (width - 1) as nat).push(hex_digit(value as int % 16))
    }
}

/// The digit for `n` as a string of one character.
fn digit_text(n: u8) -> (text: &'static str)
    requires
        n < 16,
    ensures
        text@ == seq![hex_digit(n as int)],
{
    proof {
        reveal_strlit("0");
        reveal_strlit("1");
        reveal_strlit("2");
        reveal_strlit("3");
        reveal_strlit("4");
        reveal_strlit("5");
        reveal_strlit("6");
        reveal_strlit("7");
        reveal_strlit("8");
        reveal_strlit("9");
        reveal_strlit("a");
        reveal_strlit("b");
        reveal_strlit("c");
        reveal_strlit("d");
        reveal_strlit("e");
        reveal_strlit("f");
    }
    let text = if n == 0 {
        "0"
    } else if n == 1 {
        "1"
    } else if n == 2 {
        "2"
    } else if n == 3 {
        "3"
    } else if n == 4 {
        "4"
    } else if n == 5 {
        "5"
    } else if n == 6 {
        "6"
    } else if n == 7 {
        "7"
    } else if n == 8 {
        "8"
    } else if n == 9 {
        "9"
    } else if n == 10 {
        "a"
    } else if n == 11 {
        "b"
    } else if n == 12 {
        "c"
    } else if n == 13 {
        "d"
    } else if n == 14 {
        "e"
    } else {
        "f"
    };
    assert(text@ =~= seq![hex_digit(n as int)]);
    text
}

/// Writes bytes in hexadecimal.
pub fn bytes_to_hex(bytes: &Vec<u8>) -> (text: String)
    ensures
        text@ == hex_of_bytes(bytes@),
{
    let mut text = String::new();
    let mut i: usize = 0;
    while i < bytes.len()
        invariant
            i <= bytes.len(),
            text@ == hex_of_bytes(bytes@.take(i as int)),
        decreases bytes.len() - i,
    {
        let b = bytes[i];
        proof {
            assert(bytes@.take(i + 1).drop_last() == bytes@.take(i as int));
        }
        let ghost before = text@;
        text.append(digit_text(b / 16));
        text.append(digit_text(b % 16));
        proof {
            assert(text@ =~= before.push(hex_digit(b as int / 16)).push(hex_digit(b as int % 16)));
        }
        i += 1;
    }
    proof {
        assert(bytes@.take(i as int) == bytes@);
    }
    text
}

/// Appends the lowest `width` hexadecimal digits of `value` to `text`.
fn append_hex(text: &mut String, value: u128, width: u8)
    ensures
        final(text)@ == old(text)@ + hex_of_number(value, width as nat),
    decreases width,
{
    if width == 0 {
        assert(old(text)@ + hex_of_number(value, 0) =~= old(text)@);
        return ;
    }
    append_hex(text, value / 16, width - 1);
    let ghost before = text@;
    text.append(digit_text((value % 16) as u8));
    proof {
        assert(text@ =~= old(text)@ + hex_of_number(value, width as nat));
    }
}

/// Writes a number as `width` hexadecimal digits.
pub fn number_to_hex(value: u128, width: u8) -> (text: String)
    ensures
        text@ == hex_of_number(value, width as nat),
{
    let mut text = String::new();
    append_hex(&mut text, value, width);
    proof {
        assert(Seq::<char>::empty() + hex_of_number(value, width as nat) =~= hex_of_number(
            value,
            width as nat,
        ));
    }
    text
}

/// Whether the placeholder `{}` stands at position `i` of `template`.
pub open spec fn placeholder_at(template: Seq<char>, i: int) -> bool {
    0 <= i && i + 1 < template.len() && template[i] == '{' && template[i + 1] == '}'
}

/// Position of the first placeholder of `template`, or the length of
/// `template` where it has none.
pub open spec fn first_placeholder(template: Seq<char>) -> int {
    if exists|i: int| placeholder_at(template, i) {
        choose|i: int|
            placeholder_at(template, i) && forall|j: int| 0 <= j < i ==> !placeholder_at(template, j)
    } else {
        template.len() as int
    }
}

/// The template with its first placeholder replaced by `argument`. A
/// template without a placeholder stays as it is.
pub open spec fn filled(template: Seq<char>, argument: Seq<char>) -> Seq<char> {
    let at = first_placeholder(template);
    if at < template.len() {
        template.take(at) + argument + template.skip(at + 2)
    } else {
        template
    }
}

/// Where a placeholder stands at `i` and none before it, `i` is the first.
pub proof fn lemma_first_placeholder(template: Seq<char>, i: int)
    requires
        placeholder_at(template, i),
        forall|j: int| 0 <= j < i ==> !placeholder_at(template, j),
    ensures
        first_placeholder(template) == i,
{
    let k = first_placeholder(template);
    assert(exists|m: int|
        placeholder_at(template, m) && forall|j: int| 0 <= j < m ==> !placeholder_at(template, j));
    if k < i {
        assert(!placeholder_at(template, k));
    } else if i < k {
        assert(!placeholder_at(template, i));
    }
}

/// Where no placeholder stands anywhere, the first is the length.
pub proof fn lemma_no_placeholder(template: Seq<char>)
    requires
        forall|j: int| 0 <= j < template.len() ==> !placeholder_at(template, j),
    ensures
        first_placeholder(template) == template.len(),
{
    if exists|i: int| placeholder_at(template, i) {
        let i = choose|i: int| placeholder_at(template, i);
        assert(!placeholder_at(template, i));
    }
}

/// Puts `argument` in the place of the first `{}` of `template`.
pub fn fill(template: &str, argument: &str) -> (text: String)
    ensures
        text@ == filled(template@, argument@),
{
    let n = template.unicode_len();
    let limit: usize = if n >= 2 {
        n - 1
    } else {
        0
    };
    let mut i: usize = 0;
    let mut found = false;
    while i < limit
        invariant_except_break
            !found,
        invariant
            n == template@.len(),
            limit == (if n >= 2 {
                n - 1
            } else {
                0
            }),
            i <= limit,
            forall|j: int| 0 <= j < i ==> !placeholder_at(template@, j),
        ensures
            found ==> placeholder_at(template@, i as int),
            !found ==> i >= limit,
        decreases limit - i,
    {
        if template.get_char(i) == '{' && template.get_char(i + 1) == '}' {
            found = true;
            break ;
        }
        i += 1;
    }
    if found {
        proof {
            lemma_first_placeholder(template@, i as int);
        }
        let mut text = String::from_str(template.substring_char(0, i));
        text.append(argument);
        text.append(template.substring_char(i + 2, n));
        proof {
            assert(text@ =~= template@.take(i as int) + argument@ + template@.skip(i + 2));
        }
        text
    } else {
        proof {
            lemma_no_placeholder(template@);
        }
        String::from_str(template)
    }
}

} // verus!

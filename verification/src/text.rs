//! Text: UTF-8 bytes, joined lists and decimal numbers.
use vstd::prelude::*;
use vstd::utf8::{
    decode_utf8, decode_utf8_encode_utf8, encode_utf8, encode_utf8_decode_utf8,
    encode_utf8_valid_utf8, valid_utf8,
};

verus! {

/// The text that bytes hold when they are valid UTF-8.
pub open spec fn utf8_text(bytes: Seq<u8>) -> Option<Seq<char>> {
    if valid_utf8(bytes) {
        Some(decode_utf8(bytes))
    } else {
        None
    }
}

/// The parts one after the other, with the separator between neighbours.
pub open spec fn joined(parts: Seq<Seq<char>>, separator: Seq<char>) -> Seq<char> {
    if parts.len() == 0 {
        Seq::empty()
    } else {
        parts.skip(1).fold_left(
            parts[0],
            |text: Seq<char>, part: Seq<char>| text + separator + part,
        )
    }
}

/// The decimal digit of a number below ten.
pub open spec fn digit(n: nat) -> char {
    (48 + n) as char
}

/// A number in decimal, without leading zeros.
pub open spec fn decimal(n: nat) -> Seq<char>
    decreases n,
{
    if n < 10 {
        seq![digit(n)]
    } else {
        decimal(n / 10).push(digit(n % 10))
    }
}

/// The views of a list of strings.
pub open spec fn texts(list: Seq<String>) -> Seq<Seq<char>> {
    list.map_values(|s: String| s@)
}

/// `core::str::Utf8Error`, which says where bytes stop being valid UTF-8.
#[verifier::external_type_specification]
#[verifier::external_body]
pub struct ExUtf8Error(core::str::Utf8Error);

/// `core::str::from_utf8` checks that bytes are valid UTF-8. The contract says that it
/// succeeds on exactly those bytes, with the string that they encode.
pub assume_specification[ core::str::from_utf8 ](v: &[u8]) -> (res: Result<
    &str,
    core::str::Utf8Error,
>)
    ensures
        res is Ok <==> valid_utf8(v@),
        res matches Ok(s) ==> s@ == decode_utf8(v@),
;

/// Reads bytes as text, if they are valid UTF-8.
pub(crate) fn utf8_str(bytes: &[u8]) -> (text: Option<&str>)
    ensures
        text matches Some(s) ==> utf8_text(bytes@) == Some(s@),
        text is None ==> utf8_text(bytes@) is None,
{
    match core::str::from_utf8(bytes) {
        Ok(s) => Some(s),
        Err(_) => None,
    }
}

/// Joins the parts with the separator between neighbours.
pub(crate) fn join(parts: &Vec<String>, separator: &str) -> (text: String)
    ensures
        text@ == joined(texts(parts@), separator@),
{
    if parts.len() == 0 {
        return String::new();
    }
    let ghost whole = texts(parts@);
    let ghost glue = |text: Seq<char>, part: Seq<char>| text + separator@ + part;
    let mut text: String = parts[0].clone();
    let mut i: usize = 1;
    assert(whole.skip(1).take(0) =~= Seq::empty());
    while i < parts.len()
        invariant
            1 <= i <= parts.len(),
            whole == texts(parts@),
            glue == |text: Seq<char>, part: Seq<char>| text + separator@ + part,
            text@ == whole.skip(1).take(i - 1).fold_left(whole[0], glue),
        decreases parts.len() - i,
    {
        text.append(separator);
        text.append(parts[i].as_str());
        proof {
            let longer = whole.skip(1).take(i as int);
            assert(longer.drop_last() =~= whole.skip(1).take(i - 1));
            assert(longer.last() == parts@[i as int]@);
        }
        i = i + 1;
    }
    assert(whole.skip(1).take(i - 1) =~= whole.skip(1));
    text
}

fn digit_str(n: u64) -> (text: &'static str)
    requires
        n < 10,
    ensures
        text@ == seq![digit(n as nat)],
{
    let text = match n {
        0 => "0",
        1 => "1",
        2 => "2",
        3 => "3",
        4 => "4",
        5 => "5",
        6 => "6",
        7 => "7",
        8 => "8",
        _ => "9",
    };
    proof {
        reveal_strlit("0");
        reveal_strlit("1");
        reveal_strlit("2");
        reveal_strlit("3");
        reveal_strlit("4");
        reveal_strlit("5");
        reveal_strlit("6");
        reveal_strlit("7");
        reveal_strlit("8");
        reveal_strlit("9");
    }
    assert(text@ =~= seq![digit(n as nat)]);
    text
}

/// Writes a number in decimal.
pub(crate) fn decimal_string(n: u64) -> (text: String)
    ensures
        text@ == decimal(n as nat),
    decreases n,
{
    if n < 10 {
        digit_str(n).to_owned()
    } else {
        let mut text = decimal_string(n / 10);
        text.append(digit_str(n % 10));
        assert(text@ =~= decimal(n as nat));
        text
    }
}

/// Reading bytes as text undoes encoding: every text is read back from its encoding, a text
/// that is read encodes to the bytes it was read from, and nothing is read from exactly the
/// bytes that are no valid UTF-8.
pub proof fn law_text_is_read_as_encoded(chars: Seq<char>, bytes: Seq<u8>)
    ensures
        utf8_text(encode_utf8(chars)) == Some(chars),
        utf8_text(bytes) matches Some(text) ==> encode_utf8(text) == bytes && text == decode_utf8(
            bytes,
        ),
        utf8_text(bytes) is None <==> !valid_utf8(bytes),
{
    encode_utf8_valid_utf8(chars);
    encode_utf8_decode_utf8(chars);
    if valid_utf8(bytes) {
        decode_utf8_encode_utf8(bytes);
    }
}

/// Nothing joined is empty, one part joined is that part, and a further part comes behind a
/// separator. So no part is lost, moved or repeated, and no separator stands at an end.
pub proof fn law_joined_part_by_part(parts: Seq<Seq<char>>, part: Seq<char>, separator: Seq<char>)
    ensures
        joined(Seq::empty(), separator) == Seq::<char>::empty(),
        joined(seq![part], separator) == part,
        parts.len() > 0 ==> joined(parts.push(part), separator) == joined(parts, separator)
            + separator + part,
{
    let one = seq![part];
    assert(one.skip(1) =~= Seq::empty());
    if parts.len() > 0 {
        let more = parts.push(part);
        assert(more.skip(1) =~= parts.skip(1).push(part));
        assert(more.skip(1).drop_last() =~= parts.skip(1));
    }
}

/// A number below ten is written as its digit, and a digit behind a number other than zero
/// as that digit behind the number.
pub proof fn law_decimal_digit_by_digit(n: nat, d: nat)
    requires
        d < 10,
    ensures
        decimal(d) == seq![(48 + d) as char],
        n > 0 ==> decimal(10 * n + d) == decimal(n).push((48 + d) as char),
{
    if n > 0 {
        let whole: nat = 10 * n + d;
        assert(whole / 10 == n && whole % 10 == d);
    }
}

/// The views of a list of strings are those of its strings, in order.
pub proof fn law_texts_one_by_one(list: Seq<String>)
    ensures
        texts(list).len() == list.len(),
        forall|i: int| 0 <= i < list.len() ==> #[trigger] texts(list)[i] == list[i]@,
{
}

} // verus!

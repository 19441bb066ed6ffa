//! Names and paths: hexadecimal encoding, random names and the joining of
//! path components.

use vstd::prelude::*;

verus! {

/// The sixteen digits of lowercase hexadecimal.
pub open spec fn spec_hex_digits() -> Seq<char> {
    seq!['0', '1', '2', '3', '4', '5', '6', '7', '8', '9', 'a', 'b', 'c', 'd', 'e', 'f']
}

/// Lowercase hexadecimal of `data`: two digits per byte, the high half first.
pub open spec fn spec_hex(data: Seq<u8>) -> Seq<char> {
    Seq::new(
        2 * data.len(),
        |i: int|
            if i % 2 == 0 {
                spec_hex_digits()[data[i / 2] as int / 16]
            } else {
                spec_hex_digits()[data[i / 2] as int % 16]
            },
    )
}

/// `hex::encode`: each byte of the input becomes two lowercase hexadecimal
/// digits, in order, so that the text is twice as long as the input.
#[verifier::external_body]
pub(crate) fn hex_encode(data: &[u8]) -> (text: String)
    ensures
        text@ == spec_hex(data@),
{
    hex::encode(data)
}

/// `rand::random` at four bytes: four bytes of which nothing is known.
#[verifier::external_body]
pub(crate) fn random_bytes() -> (bytes: Vec<u8>)
    ensures
        bytes@.len() == 4,
{
    rand::random::<[u8; 4]>().to_vec()
}

/// `petname::petname`: a random name of up to `words` words from the built-in
/// word lists, joined by `separator`, or `None` where the lists yield no
/// name. The generator returns `None` in place of an empty name, so a name
/// that it returns is not empty; nothing else is known of it.
#[verifier::external_body]
pub(crate) fn petname(words: u8, separator: &str) -> (pet: Option<String>)
    ensures
        pet matches Some(name) ==> name@.len() > 0,
{
    petname::petname(words, separator)
}

/// The pet name where there is one, else the hexadecimal of `bytes`.
pub fn name_or_hex(pet: Option<String>, bytes: &[u8]) -> (name: String)
    ensures
        name@ == match pet {
            Some(given) => given@,
            None => spec_hex(bytes@),
        },
{
    match pet {
        Some(given) => given,
        None => hex_encode(bytes),
    }
}

/// View of an optional text.
pub open spec fn option_text_view(text: Option<String>) -> Option<Seq<char>> {
    match text {
        Some(given) => Some(given@),
        None => None,
    }
}

/// What a random name is made of: a pet name, if the generator had one, and
/// four bytes to fall back on. A pet name is never empty.
pub open spec fn spec_is_random_name(
    name: Seq<char>,
    pet: Option<Seq<char>>,
    bytes: Seq<u8>,
) -> bool {
    &&& bytes.len() == 4
    &&& name == match pet {
        Some(given) => given,
        None => spec_hex(bytes),
    }
    &&& pet matches Some(given) ==> given.len() > 0
}

/// A random name: two words joined by a hyphen, or eight hexadecimal digits
/// where no words are to be had. Either way the name is not empty.
pub fn random_name() -> (name: String)
    ensures
        exists|pet: Option<Seq<char>>, bytes: Seq<u8>| spec_is_random_name(name@, pet, bytes),
        name@.len() > 0,
{
    let bytes = random_bytes();
    let pet = petname(2, "-");
    let ghost drawn = option_text_view(pet);
    let name = name_or_hex(pet, bytes.as_slice());
    assert(spec_is_random_name(name@, drawn, bytes@));
    name
}

/// `name` adjoined to `dir` as a relative component: a separator stands
/// between them unless `dir` is empty or already ends in one.
pub open spec fn spec_join(dir: Seq<char>, name: Seq<char>) -> Seq<char> {
    if dir.len() == 0 || dir.last() == '/' {
        dir + name
    } else {
        dir + seq!['/'] + name
    }
}

/// Adjoins the relative component `name` to the path `dir`.
pub fn join_path(dir: &str, name: &str) -> (path: String)
    ensures
        path@ == spec_join(dir@, name@),
{
    let mut path = String::from_str(dir);
    let len = dir.unicode_len();
    if len > 0 && dir.get_char(len - 1) != '/' {
        proof {
            reveal_strlit("/");
            assert("/"@ =~= seq!['/']);
        }
        path.append("/");
    }
    path.append(name);
    path
}

/// Copies an optional text.
pub fn clone_option_text(value: &Option<String>) -> (copy: Option<String>)
    ensures
        match (copy, *value) {
            (Some(a), Some(b)) => a@ == b@,
            (None, None) => true,
            _ => false,
        },
{
    match value {
        Some(text) => Some(text.clone()),
        None => None,
    }
}

/// Whether two texts are the same.
pub fn same_text(a: &str, b: &str) -> (same: bool)
    ensures
        same == (a@ == b@),
{
    let left = String::from_str(a);
    let right = String::from_str(b);
    left == right
}

/// The texts `a`, `b` and `c` in a row.
pub fn concat3(a: &str, b: &str, c: &str) -> (text: String)
    ensures
        text@ == a@ + b@ + c@,
{
    let mut text = String::from_str(a);
    text.append(b);
    text.append(c);
    text
}

/// The ten decimal digits.
pub open spec fn spec_digits() -> Seq<char> {
    seq!['0', '1', '2', '3', '4', '5', '6', '7', '8', '9']
}

/// A number in decimal, without leading zeros.
pub open spec fn spec_decimal(number: nat) -> Seq<char>
    decreases number,
{
    if number < 10 {
        seq![spec_digits()[number as int]]
    } else {
        spec_decimal(number / 10).push(spec_digits()[(number % 10) as int])
    }
}

/// One decimal digit as a text.
fn digit(value: u32) -> (text: &'static str)
    requires
        value < 10,
    ensures
        text@ == seq![spec_digits()[value as int]],
{
    proof {
        reveal_strlit("0");
        reveal_strlit("1");
        reveal_strlit("2");
        reveal_strlit("3");
        reveal_strlit("4");
        reveal_strlit("5");
        reveal_strlit("6");
        reveal_strlit("7");
        reveal_strlit("8");
        reveal_strlit("9");
    }
    let text = if value == 0 {
        "0"
    } else if value == 1 {
        "1"
    } else if value == 2 {
        "2"
    } else if value == 3 {
        "3"
    } else if value == 4 {
        "4"
    } else if value == 5 {
        "5"
    } else if value == 6 {
        "6"
    } else if value == 7 {
        "7"
    } else if value == 8 {
        "8"
    } else {
        "9"
    };
    assert(text@ =~= seq![spec_digits()[value as int]]);
    text
}

/// Writes a number in decimal.
pub fn decimal(number: u32) -> (text: String)
    ensures
        text@ == spec_decimal(number as nat),
    decreases number,
{
    if number < 10 {
        String::from_str(digit(number))
    } else {
        let mut text = decimal(number / 10);
        text.append(digit(number % 10));
        assert(text@ =~= spec_decimal(number as nat));
        text
    }
}

/// The character `character`, `count` times.
pub open spec fn spec_repeat(character: char, count: nat) -> Seq<char> {
    Seq::new(count, |i: int| character)
}

/// The verbosity flag for a level: `-vv` for none, else a hyphen and as many
/// `v` as the level.
pub open spec fn spec_verbosity_flag(level: u8) -> Seq<char> {
    if level == 0 {
        "-vv"@
    } else {
        seq!['-'] + spec_repeat('v', level as nat)
    }
}

pub fn verbosity_flag(level: u8) -> (flag: String)
    ensures
        flag@ == spec_verbosity_flag(level),
{
    if level == 0 {
        return String::from_str("-vv");
    }
    proof {
        reveal_strlit("-");
        reveal_strlit("v");
    }
    let mut flag = String::from_str("-");
    let mut i: u8 = 0;
    while i < level
        invariant
            0 <= i <= level,
            "v"@ == seq!['v'],
            flag@ == seq!['-'] + spec_repeat('v', i as nat),
        decreases level - i,
    {
        flag.append("v");
        assert(flag@ =~= seq!['-'] + spec_repeat('v', (i + 1) as nat));
        i += 1;
    }
    flag
}

} // verus!

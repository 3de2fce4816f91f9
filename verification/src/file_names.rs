//! Names of the file to read and of the file to write.

use vstd::prelude::*;
use vstd::string::StrSliceExecFns;
use vstd::string::StringExecFns;

verus! {

/// Whether `part` stands somewhere in `text`, character for character.
pub open spec fn occurs_in(part: Seq<char>, text: Seq<char>) -> bool {
    exists|at: int|
        0 <= at && at + part.len() <= text.len() && #[trigger] text.subrange(
            at,
            at + part.len(),
        ) == part
}

/// The characters of `name` before its last `.`; all of them where it has
/// none.
pub open spec fn without_extension(name: Seq<char>) -> Seq<char> {
    match name.index_of_last('.') {
        Some(dot) => name.take(dot),
        None => name,
    }
}

/// The characters of `text`, one by one.
fn chars_of(text: &str) -> (chars: Vec<char>)
    ensures
        chars@ == text@,
{
    broadcast use vstd::string::group_string_axioms;

    let mut chars: Vec<char> = Vec::new();
    for c in it: text.chars()
        invariant
            it.seq() == text@,
            chars@ == it.seq().take(it.index()),
    {
        chars.push(c);
    }
    chars
}

/// Whether `part` stands in `text` from position `at` on.
fn occurs_at(part: &Vec<char>, text: &Vec<char>, at: usize) -> (found: bool)
    requires
        at + part.len() <= text.len(),
    ensures
        found == (text@.subrange(at as int, at + part.len()) == part@),
{
    let mut index: usize = 0;
    while index < part.len()
        invariant
            at + part.len() <= text.len(),
            index <= part.len(),
            forall|k: int| 0 <= k < index ==> text@[at + k] == part@[k],
        decreases part.len() - index,
    {
        if text[at + index] != part[index] {
            assert(text@.subrange(at as int, at + part.len())[index as int] != part@[index as int]);
            return false;
        }
        index += 1;
    }
    assert(text@.subrange(at as int, at + part.len()) =~= part@);
    true
}

/// Whether `part` stands somewhere in `text`.
pub fn contains_part(text: &str, part: &str) -> (found: bool)
    ensures
        found == occurs_in(part@, text@),
{
    let text_chars = chars_of(text);
    let part_chars = chars_of(part);
    if part_chars.len() > text_chars.len() {
        return false;
    }
    let last: usize = text_chars.len() - part_chars.len();
    let mut at: usize = 0;
    loop
        invariant
            text_chars@ == text@,
            part_chars@ == part@,
            last == text_chars.len() - part_chars.len(),
            at <= last,
            forall|k: int| 0 <= k < at ==> #[trigger] text@.subrange(k, k + part@.len()) != part@,
        decreases last - at,
    {
        if occurs_at(&part_chars, &text_chars, at) {
            return true;
        }
        if at == last {
            return false;
        }
        at += 1;
    }
}

/// The number of characters of `name` before its last `.`.
fn len_without_extension(name: &str) -> (len: usize)
    ensures
        len <= name@.len(),
        name@.take(len as int) == without_extension(name@),
{
    let chars = chars_of(name);
    let mut end: usize = chars.len();
    while end > 0 && chars[end - 1] != '.'
        invariant
            end <= chars.len(),
            forall|k: int| end <= k < chars.len() ==> chars@[k] != '.',
        decreases end,
    {
        end -= 1;
    }
    proof {
        chars@.index_of_last_ensures('.');
    }
    if end == 0 {
        chars.len()
    } else {
        end - 1
    }
}

/// The name of the file to read and the name of the file to write.
///
/// The first is `input`. The second is `output` where one is given; else it
/// is `input` with `.json` in place of its extension, that is of its last `.`
/// and what follows it.
pub fn get_file_names(input: String, output: Option<String>) -> (names: (String, String))
    requires
        occurs_in(".csv"@, input@),
        output matches Some(name) ==> occurs_in(".json"@, name@),
    ensures
        names.0@ == input@,
        names.1@ == match output {
            Some(name) => name@,
            None => without_extension(input@) + ".json"@,
        },
{
    let dest = match output {
        Some(name) => name,
        None => {
            let len = len_without_extension(input.as_str());
            String::from_str(input.as_str().substring_char(0, len)).concat(".json")
        },
    };
    (input, dest)
}

} // verus!

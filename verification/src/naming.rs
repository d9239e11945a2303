//! The names of units and of their temporary files. Every name carries the
//! unit's identifier, so that units running at once never share a file.

use crate::text::{
    decimal_digits, decimal_string, is_digit, lemma_decimal_digits, lemma_decimal_digits_injective,
};
use vstd::prelude::*;
use vstd::string::*;

verus! {

/// What the files of a unit hold.
#[derive(Debug, Clone, Copy, PartialEq, Eq, Structural)]
pub enum FileKind {
    /// A line of text.
    Text,
    /// A record with hash, payload and timestamp.
    Record,
}

/// The ending of the name of a file of the given kind.
pub open spec fn extension(kind: FileKind) -> Seq<char> {
    match kind {
        FileKind::Text => ".txt"@,
        FileKind::Record => ".dat"@,
    }
}

/// The identifier of the unit with the given index.
pub open spec fn task_id_text(unit: nat) -> Seq<char> {
    "task"@ + decimal_digits(unit)
}

/// The name of the file with the given index of a unit.
pub open spec fn file_name_text(task_id: Seq<char>, index: nat, kind: FileKind) -> Seq<char> {
    "temp_"@ + task_id + "_"@ + decimal_digits(index) + extension(kind)
}

/// The seed of the content of the file with the given index of a unit.
pub open spec fn seed_text(task_id: Seq<char>, index: nat) -> Seq<char> {
    task_id + "_"@ + decimal_digits(index)
}

/// The content of the text file with the given index: the index and a
/// number, handed in as text.
pub open spec fn text_content(index: nat, number: Seq<char>) -> Seq<char> {
    "Test file "@ + decimal_digits(index) + " content with some data: "@ + number
}

/// The names of the first `count` files of a unit, in order.
pub open spec fn file_name_texts(task_id: Seq<char>, count: nat, kind: FileKind) -> Seq<Seq<char>> {
    Seq::new(count, |i: int| file_name_text(task_id, i as nat, kind))
}

/// Makes the identifier of the unit with the given index.
pub fn task_id(unit: usize) -> (id: String)
    ensures
        id@ == task_id_text(unit as nat),
{
    let mut id = String::from_str("task");
    let number = decimal_string(unit);
    id.append(number.as_str());
    id
}

/// Makes the name of the file with the given index of a unit.
pub fn file_name(task_id: &str, index: usize, kind: FileKind) -> (name: String)
    ensures
        name@ == file_name_text(task_id@, index as nat, kind),
{
    let mut name = String::from_str("temp_");
    name.append(task_id);
    name.append("_");
    let number = decimal_string(index);
    name.append(number.as_str());
    match kind {
        FileKind::Text => {
            name.append(".txt");
        },
        FileKind::Record => {
            name.append(".dat");
        },
    }
    name
}

/// Makes the names of the first `count` files of a unit: the files that the
/// unit writes, reads back and removes.
pub fn file_names(task_id: &str, count: usize, kind: FileKind) -> (names: Vec<String>)
    ensures
        names.len() == count,
        forall|i: int|
            0 <= i < count ==> (#[trigger] names[i])@ == file_name_text(task_id@, i as nat, kind),
{
    let mut names: Vec<String> = Vec::new();
    let mut i: usize = 0;
    while i < count
        invariant
            i <= count,
            names.len() == i,
            forall|k: int|
                0 <= k < i ==> (#[trigger] names[k])@ == file_name_text(task_id@, k as nat, kind),
        decreases count - i,
    {
        names.push(file_name(task_id, i, kind));
        i = i + 1;
    }
    names
}

/// Makes the seed of the content of the file with the given index of a unit.
pub fn content_seed(task_id: &str, index: usize) -> (seed: String)
    ensures
        seed@ == seed_text(task_id@, index as nat),
{
    let mut seed = String::from_str(task_id);
    seed.append("_");
    let number = decimal_string(index);
    seed.append(number.as_str());
    seed
}

/// Makes the content of the text file with the given index.
pub fn text_file_content(index: usize, number: &str) -> (content: String)
    ensures
        content@ == text_content(index as nat, number@),
{
    let mut content = String::from_str("Test file ");
    let index_text = decimal_string(index);
    content.append(index_text.as_str());
    content.append(" content with some data: ");
    content.append(number);
    content
}

/// Two numbers joined by an underscore can be told apart again.
proof fn lemma_joined_numbers(a: nat, b: nat, c: nat, d: nat)
    requires
        decimal_digits(a) + "_"@ + decimal_digits(b) == decimal_digits(c) + "_"@ + decimal_digits(d),
    ensures
        a == c,
        b == d,
{
    reveal_strlit("_");
    let left = decimal_digits(a) + "_"@ + decimal_digits(b);
    let right = decimal_digits(c) + "_"@ + decimal_digits(d);
    let m = decimal_digits(a).len() as int;
    let n = decimal_digits(c).len() as int;
    lemma_decimal_digits(a);
    lemma_decimal_digits(b);
    lemma_decimal_digits(c);
    lemma_decimal_digits(d);
    assert(left[m] == '_');
    assert(right[n] == '_');
    if m < n {
        assert(right[m] == decimal_digits(c)[m]);
        assert(is_digit(decimal_digits(c)[m]));
    }
    if n < m {
        assert(left[n] == decimal_digits(a)[n]);
        assert(is_digit(decimal_digits(a)[n]));
    }
    assert(decimal_digits(a) =~= left.take(m));
    assert(decimal_digits(c) =~= right.take(n));
    assert(decimal_digits(b) =~= left.skip(m + 1));
    assert(decimal_digits(d) =~= right.skip(n + 1));
    lemma_decimal_digits_injective(a, c);
    lemma_decimal_digits_injective(b, d);
}

/// No two files of the units of a run share a name: the name tells the unit
/// and the index of the file.
pub proof fn lemma_file_names_are_unique(
    unit: nat,
    index: nat,
    other_unit: nat,
    other_index: nat,
    kind: FileKind,
)
    requires
        file_name_text(task_id_text(unit), index, kind) == file_name_text(
            task_id_text(other_unit),
            other_index,
            kind,
        ),
    ensures
        unit == other_unit,
        index == other_index,
{
    let head = "temp_"@ + "task"@;
    let tail = extension(kind);
    let mid = decimal_digits(unit) + "_"@ + decimal_digits(index);
    let other_mid = decimal_digits(other_unit) + "_"@ + decimal_digits(other_index);
    let name = file_name_text(task_id_text(unit), index, kind);
    let other_name = file_name_text(task_id_text(other_unit), other_index, kind);
    assert(name =~= head + mid + tail);
    assert(other_name =~= head + other_mid + tail);
    assert(mid.len() == other_mid.len());
    assert(mid =~= name.subrange(head.len() as int, (head.len() + mid.len()) as int));
    assert(other_mid =~= other_name.subrange(head.len() as int, (head.len() + other_mid.len()) as int));
    lemma_joined_numbers(unit, index, other_unit, other_index);
}

} // verus!

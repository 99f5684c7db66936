//! Word lists: which lines of a file make a list, and in what order.

use vstd::prelude::*;
use vstd::string::StringExecFns;
use crate::error::WordError;
use crate::text::{string_of, trimmed, trimmed_chars};
use crate::wordle::texts;

verus! {

/// Whether text `a` comes before text `b`, or is the same: the order of a
/// dictionary, with characters ordered by their code points.
pub open spec fn text_le(a: Seq<char>, b: Seq<char>) -> bool
    decreases a.len(),
{
    if a.len() == 0 {
        true
    } else if b.len() == 0 {
        false
    } else if a[0] != b[0] {
        a[0] < b[0]
    } else {
        text_le(a.drop_first(), b.drop_first())
    }
}

/// Whether no text of the list comes before an earlier one.
pub open spec fn sorted(list: Seq<Seq<char>>) -> bool {
    forall|i: int, j: int|
        0 <= i <= j < list.len() ==> text_le(#[trigger] list[i], #[trigger] list[j])
}

/// The words that the lines of a file give: each line without the white
/// space around it, where that leaves exactly five characters.
pub open spec fn kept(lines: Seq<Seq<char>>) -> Seq<Seq<char>>
    decreases lines.len(),
{
    if lines.len() == 0 {
        Seq::empty()
    } else if trimmed(lines.last()).len() == 5 {
        kept(lines.drop_last()).push(trimmed(lines.last()))
    } else {
        kept(lines.drop_last())
    }
}

/// `sort` of a slice of strings puts them in ascending order and neither
/// adds nor drops one. Strings compare by their bytes, which for text is the
/// order of a dictionary over code points.
#[verifier::external_body]
fn sort_words(list: &mut Vec<String>)
    ensures
        texts(final(list)@).to_multiset() == texts(old(list)@).to_multiset(),
        sorted(texts(final(list)@)),
{
    list.sort();
}

/// Makes a word list of the lines of a file: the lines that are words of
/// five characters once trimmed, in sorted order. Lines that give no word
/// are an error.
pub fn word_list_of_lines(lines: &Vec<String>) -> (r: Result<Vec<String>, WordError>)
    ensures
        match r {
            Ok(list) => {
                &&& kept(texts(lines@)).len() > 0
                &&& texts(list@).to_multiset() == kept(texts(lines@)).to_multiset()
                &&& sorted(texts(list@))
            },
            Err(e) => kept(texts(lines@)).len() == 0 && e.is_custom(
                "input file is empty or invalid"@,
            ),
        },
{
    let mut list: Vec<String> = Vec::new();
    let mut i: usize = 0;
    assert(texts(lines@).take(0) =~= Seq::<Seq<char>>::empty());
    assert(texts(list@) =~= Seq::<Seq<char>>::empty());
    while i < lines.len()
        invariant
            i <= lines.len(),
            texts(list@) == kept(texts(lines@).take(i as int)),
        decreases lines.len() - i,
    {
        let word = trimmed_chars(lines[i].as_str());
        proof {
            assert(texts(lines@).take(i + 1).drop_last() =~= texts(lines@).take(i as int));
            assert(texts(lines@).take(i + 1).last() == lines@[i as int]@);
        }
        if word.len() == 5 {
            let ghost before = texts(list@);
            list.push(string_of(&word));
            assert(texts(list@) =~= before.push(word@));
        }
        i += 1;
    }
    assert(texts(lines@).take(lines.len() as int) =~= texts(lines@));
    if list.len() == 0 {
        return Err(WordError::CustomError(String::from_str("input file is empty or invalid")));
    }
    assert(texts(list@).len() == list@.len());
    sort_words(&mut list);
    assert(kept(texts(lines@)).to_multiset().len() == kept(texts(lines@)).len()) by {
        kept(texts(lines@)).to_multiset_ensures();
    }
    Ok(list)
}

} // verus!

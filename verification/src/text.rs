//! Texts as sequences of symbols.

use crate::alphabet::{index_of, index_of_spec, is_symbol, symbol, symbol_at};
use crate::packer::groups_in_range;
use vstd::prelude::*;
use vstd::string::axiom_spec_iter;

verus! {

/// Every character of `text` is a symbol of the alphabet.
pub open spec fn all_symbols(text: Seq<char>) -> bool {
    forall|i: int| 0 <= i < text.len() ==> is_symbol(#[trigger] text[i])
}

/// The values that the symbols of `text` stand for.
pub open spec fn indices_of(text: Seq<char>) -> Seq<u16> {
    Seq::new(text.len(), |i: int| index_of_spec(text[i]).unwrap())
}

/// The text that spells `groups`, a symbol for each.
pub open spec fn symbols_of(groups: Seq<u16>) -> Seq<char> {
    Seq::new(groups.len(), |j: int| symbol(groups[j] as int))
}

/// The characters of a string, in order.
pub fn chars_of(text: &str) -> (symbols: Vec<char>)
    ensures
        symbols@ == text@,
{
    broadcast use axiom_spec_iter;

    let mut symbols: Vec<char> = Vec::new();
    for c in it: text.chars()
        invariant
            it.seq() == text@,
            symbols@ == it.seq().take(it.index()),
    {
        symbols.push(c);
        assert(symbols@ =~= it.seq().take(it.index() + 1));
    }
    assert(symbols@ =~= text@);
    symbols
}

/// Appends the symbol of each group to `text`.
pub fn push_symbols(groups: &[u16], text: &mut String)
    requires
        groups_in_range(groups@),
    ensures
        final(text)@ == old(text)@ + symbols_of(groups@),
{
    let mut j: usize = 0;
    while j < groups.len()
        invariant
            j <= groups@.len(),
            groups_in_range(groups@),
            text@ == old(text)@ + symbols_of(groups@.take(j as int)),
        decreases groups@.len() - j,
    {
        text.push(symbol_at(groups[j]));
        j += 1;
        assert(text@ =~= old(text)@ + symbols_of(groups@.take(j as int)));
    }
    assert(groups@.take(j as int) =~= groups@);
}

/// The values of the symbols of `symbols` from position `from` on, or `None`
/// as soon as a character is no symbol of the alphabet.
pub fn read_indices(symbols: &[char], from: usize) -> (r: Option<Vec<u16>>)
    requires
        from <= symbols@.len(),
    ensures
        match r {
            Some(groups) => all_symbols(symbols@.skip(from as int)) && groups@ == indices_of(
                symbols@.skip(from as int),
            ) && groups_in_range(groups@),
            None => !all_symbols(symbols@.skip(from as int)),
        },
{
    let mut groups: Vec<u16> = Vec::new();
    let mut i: usize = from;
    while i < symbols.len()
        invariant
            from <= i <= symbols@.len(),
            groups@.len() == i - from,
            forall|k: int|
                from <= k < i ==> is_symbol(#[trigger] symbols@[k]) && index_of_spec(symbols@[k])
                    == Some(groups@[k - from]),
        decreases symbols@.len() - i,
    {
        match index_of(symbols[i]) {
            Some(g) => {
                groups.push(g);
            },
            None => {
                assert(!is_symbol(symbols@.skip(from as int)[i - from]));
                return None;
            },
        }
        i += 1;
    }
    assert(groups@ =~= indices_of(symbols@.skip(from as int)));
    Some(groups)
}

} // verus!

//! The card codex: the data manifest mapping card IDs to card names,
//! script paths, rarities and deck-building limits.

use vstd::prelude::*;

verus! {

/// How rare a card is.
#[derive(Debug, Clone, Copy, PartialEq, Eq, Structural)]
pub enum Rarity {
    Common,
    Uncommon,
    Rare,
    UltraRare,
}

/// One card of the codex manifest.
#[derive(Debug, Clone)]
pub struct CodexEntry {
    pub id: i64,
    pub name: String,
    pub path: String,
    pub limited: bool,
    pub rarity: Rarity,
}

/// The whole codex manifest.
#[derive(Debug, Clone)]
pub struct CodexDataFile {
    pub max_id: i64,
    pub cards: Vec<CodexEntry>,
}

/// The entry for `id` among `entries`; when several entries carry the same
/// ID, the last one wins.
pub open spec fn codex_lookup(entries: Seq<CodexEntry>, id: i64) -> Option<CodexEntry>
    decreases entries.len(),
{
    if entries.len() == 0 {
        None
    } else if entries.last().id == id {
        Some(entries.last())
    } else {
        codex_lookup(entries.drop_last(), id)
    }
}

/// Finds the codex entry for `id`.
pub fn lookup_entry<'a>(entries: &'a Vec<CodexEntry>, id: i64) -> (r: Option<&'a CodexEntry>)
    ensures
        match r {
            Some(e) => codex_lookup(entries@, id) == Some(*e),
            None => codex_lookup(entries@, id) is None,
        },
{
    proof {
        assert(entries@.subrange(0, entries@.len() as int) =~= entries@);
    }
    let mut i = entries.len();
    while i > 0
        invariant
            i <= entries@.len(),
            codex_lookup(entries@, id) == codex_lookup(entries@.subrange(0, i as int), id),
        decreases i,
    {
        i = i - 1;
        let ghost upto = entries@.subrange(0, i + 1 as int);
        proof {
            assert(upto.last() == entries@[i as int]);
            assert(upto.drop_last() =~= entries@.subrange(0, i as int));
        }
        if entries[i].id == id {
            return Some(&entries[i]);
        }
    }
    proof {
        assert(entries@.subrange(0, 0) =~= Seq::<CodexEntry>::empty());
    }
    None
}

} // verus!

use vstd::prelude::*;
use crate::text::trim;
use crate::token::spec_char_token;
use crate::token::InifTokens;

verus! {

/// One parsed category record: its name and its key/value entries.
#[verifier::ext_equal]
pub struct CatView {
    pub name: Seq<char>,
    pub entries: Map<Seq<char>, Seq<char>>,
}

/// The full parser state: the categories accumulated so far, the three
/// scanning flags and the three pending buffers that the state machine
/// carries from one character to the next.
#[verifier::ext_equal]
pub struct StoreView {
    pub cats: Seq<CatView>,
    pub category_start: bool,
    pub category_data: bool,
    pub key_data: bool,
    pub category_name: Seq<char>,
    pub key: Seq<char>,
    pub data: Seq<char>,
}

/// The state of a store that has parsed nothing yet.
pub open spec fn initial_state() -> StoreView {
    StoreView {
        cats: Seq::empty(),
        category_start: false,
        category_data: false,
        key_data: false,
        category_name: Seq::empty(),
        key: Seq::empty(),
        data: Seq::empty(),
    }
}

/// Commit the pending pair on a newline seen while value characters were
/// accumulating: the key is trimmed, the value kept as it is; when the last
/// record's name equals the pending category name the pair goes into that
/// record (overwriting the key if present), otherwise a fresh record is
/// appended, even if an older record of the same name exists.
pub open spec fn commit_entry(v: StoreView) -> StoreView {
    let k = trim(v.key);
    let cats = if v.cats.len() > 0 && v.cats.last().name == v.category_name {
        v.cats.update(
            v.cats.len() - 1,
            CatView { name: v.cats.last().name, entries: v.cats.last().entries.insert(k, v.data) },
        )
    } else {
        v.cats.push(CatView { name: v.category_name, entries: map![k => v.data] })
    };
    StoreView { cats, key_data: false, key: Seq::empty(), data: Seq::empty(), ..v }
}

/// One transition of the character-driven state machine, with the branches
/// tried in the machine's priority order: value accumulation first, then
/// category-name accumulation, then classification by token.
pub open spec fn step(v: StoreView, ch: char) -> StoreView {
    if v.key_data {
        if ch != '\n' {
            StoreView { data: v.data.push(ch), ..v }
        } else {
            commit_entry(v)
        }
    } else if v.category_start {
        if ch != ']' {
            StoreView { category_name: v.category_name.push(ch), ..v }
        } else {
            StoreView { category_start: false, category_data: true, ..v }
        }
    } else {
        match spec_char_token(ch) {
            InifTokens::CategoryStart => StoreView {
                category_name: Seq::empty(),
                category_start: true,
                ..v
            },
            InifTokens::Eq => {
                if v.category_data && v.key.len() > 0 {
                    StoreView { key_data: true, ..v }
                } else {
                    v
                }
            },
            _ => {
                if v.category_data && ch != ' ' {
                    StoreView { key: v.key.push(ch), ..v }
                } else {
                    v
                }
            },
        }
    }
}

/// The state reached after scanning a whole character sequence, first
/// character first.
pub open spec fn scan(v: StoreView, s: Seq<char>) -> StoreView
    decreases s.len(),
{
    if s.len() == 0 {
        v
    } else {
        step(scan(v, s.drop_last()), s.last())
    }
}

/// The literal two-character sentinel that a failed lookup returns.
pub open spec fn sentinel() -> Seq<char> {
    seq!['"', '"']
}

/// First-match lookup: the first record with the requested name decides
/// the whole lookup; a store without such a record, or whose first such
/// record lacks the key, yields the sentinel.
pub open spec fn lookup(cats: Seq<CatView>, category: Seq<char>, key: Seq<char>) -> Seq<char>
    decreases cats.len(),
{
    if cats.len() == 0 {
        sentinel()
    } else if cats.first().name == category {
        if cats.first().entries.contains_key(key) {
            cats.first().entries[key]
        } else {
            sentinel()
        }
    } else {
        lookup(cats.drop_first(), category, key)
    }
}

} // verus!

use vstd::prelude::*;
use crate::machine::initial_state;
use crate::machine::lookup;
use crate::machine::scan;
use crate::machine::sentinel;
use crate::machine::step;
use crate::machine::CatView;
use crate::machine::StoreView;
use crate::text::trim;

verus! {

/// Parsing is a function of the input alone: two stores that scanned the
/// same text from the empty state answer every lookup alike.
pub proof fn lemma_parse_deterministic(
    input: Seq<char>,
    v1: StoreView,
    v2: StoreView,
    category: Seq<char>,
    key: Seq<char>,
)
    requires
        v1 == scan(initial_state(), input),
        v2 == scan(initial_state(), input),
    ensures
        lookup(v1.cats, category, key) == lookup(v2.cats, category, key),
{
}

/// A lookup misses exactly with the sentinel: when no record with the
/// requested name holds the key, `lookup` yields the two-character
/// sentinel.
pub proof fn lemma_lookup_missing(cats: Seq<CatView>, category: Seq<char>, key: Seq<char>)
    requires
        forall|i: int|
            0 <= i < cats.len() && cats[i].name == category ==> !cats[i].entries.contains_key(key),
    ensures
        lookup(cats, category, key) == sentinel(),
    decreases cats.len(),
{
    if cats.len() == 0 {
    } else if cats.first().name == category {
        assert(!cats[0].entries.contains_key(key));
    } else {
        assert forall|i: int|
            0 <= i < cats.drop_first().len() && cats.drop_first()[i].name
                == category implies !cats.drop_first()[i].entries.contains_key(key) by {
            assert(cats.drop_first()[i] == cats[i + 1]);
        }
        lemma_lookup_missing(cats.drop_first(), category, key);
    }
}

/// First match wins: when the record at `i` is the first one with the
/// requested name, that record alone decides the lookup — a key it lacks
/// yields the sentinel even when a later record of the same name holds the
/// key.
pub proof fn lemma_lookup_first_match(
    cats: Seq<CatView>,
    i: int,
    category: Seq<char>,
    key: Seq<char>,
)
    requires
        0 <= i < cats.len(),
        cats[i].name == category,
        forall|j: int| 0 <= j < i ==> cats[j].name != category,
    ensures
        lookup(cats, category, key) == (if cats[i].entries.contains_key(key) {
            cats[i].entries[key]
        } else {
            sentinel()
        }),
    decreases i,
{
    if i == 0 {
    } else {
        assert(cats[0].name != category);
        assert forall|j: int| 0 <= j < i - 1 implies cats.drop_first()[j].name != category by {
            assert(cats.drop_first()[j] == cats[j + 1]);
        }
        assert(cats.drop_first()[i - 1] == cats[i]);
        lemma_lookup_first_match(cats.drop_first(), i - 1, category, key);
    }
}

/// A committing newline trims the pending key: the pair lands in the last
/// record under the white-space-trimmed key, with the value exactly as it
/// was accumulated.
pub proof fn lemma_commit_trims_key(v: StoreView)
    requires
        v.key_data,
    ensures
        step(v, '\n').cats.len() > 0,
        step(v, '\n').cats.last().entries.contains_key(trim(v.key)),
        step(v, '\n').cats.last().entries[trim(v.key)] == v.data,
{
}

/// A space never enters the pending key: scanning a space leaves the key
/// buffer as it was, whatever state the machine is in, so a stored key
/// holds no space, wherever the space stood in the written key.
pub proof fn lemma_space_never_in_key(v: StoreView)
    ensures
        step(v, ' ').key == v.key,
{
}

/// A category reopened right after itself merges: when the last record
/// already carries the pending category name, the committing newline
/// extends that record in place and appends nothing.
pub proof fn lemma_adjacent_same_name_merges(v: StoreView)
    requires
        v.key_data,
        v.cats.len() > 0,
        v.cats.last().name == v.category_name,
    ensures
        step(v, '\n').cats.len() == v.cats.len(),
        step(v, '\n').cats.last().name == v.cats.last().name,
        step(v, '\n').cats.last().entries == v.cats.last().entries.insert(trim(v.key), v.data),
        forall|j: int| 0 <= j < v.cats.len() - 1 ==> step(v, '\n').cats[j] == v.cats[j],
{
}

/// A category separated from its namesake does not merge: when the last
/// record's name differs from the pending category name, the committing
/// newline appends a fresh record, even if an older record of the same
/// name exists.
pub proof fn lemma_separated_name_appends(v: StoreView)
    requires
        v.key_data,
        v.cats.len() == 0 || v.cats.last().name != v.category_name,
    ensures
        step(v, '\n').cats == v.cats.push(
            CatView { name: v.category_name, entries: map![trim(v.key) => v.data] },
        ),
{
}

/// Only a newline seen during value accumulation commits anything: every
/// other character leaves the stored records untouched.
pub proof fn lemma_only_newline_commits(v: StoreView, ch: char)
    requires
        !(v.key_data && ch == '\n'),
    ensures
        step(v, ch).cats == v.cats,
{
}

/// Text without a newline commits nothing, whatever else it contains; in
/// particular a final entry whose terminating newline is missing is
/// dropped.
pub proof fn lemma_no_newline_no_commit(v: StoreView, s: Seq<char>)
    requires
        forall|i: int| 0 <= i < s.len() ==> s[i] != '\n',
    ensures
        scan(v, s).cats == v.cats,
    decreases s.len(),
{
    if s.len() == 0 {
    } else {
        lemma_no_newline_no_commit(v, s.drop_last());
        lemma_only_newline_commits(scan(v, s.drop_last()), s.last());
    }
}

} // verus!

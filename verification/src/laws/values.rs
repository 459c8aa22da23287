//! Laws of maps and JSON values.

use vstd::prelude::*;

use crate::json::{compact, gathered, normal, normal_entries, normal_items, notation, JsonView};
use crate::keymap::{in_order, with_entry};
use crate::text::{lemma_before_total, text_before};

verus! {

/// A key that comes after all others is put at the end.
proof fn lemma_put_last(entries: Seq<(Seq<char>, JsonView)>, key: Seq<char>, value: JsonView)
    requires
        forall|i: int| 0 <= i < entries.len() ==> text_before((#[trigger] entries[i]).0, key),
    ensures
        with_entry(entries, key, value) == entries.push((key, value)),
    decreases entries.len(),
{
    if entries.len() > 0 {
        lemma_before_total(entries[0].0, key);
        let rest = entries.drop_first();
        assert forall|i: int| 0 <= i < rest.len() implies text_before((#[trigger] rest[i]).0, key) by {
            assert(rest[i] == entries[i + 1]);
        }
        lemma_put_last(rest, key, value);
        assert(text_before(entries[0].0, key));
        assert(seq![entries[0]] + rest.push((key, value)) =~= entries.push((key, value)));
    } else {
        assert(entries.push((key, value)) =~= seq![(key, value)]);
    }
}

/// Entries that are in order stay as they are when they are put in one after
/// another.
proof fn lemma_gathered_in_order(entries: Seq<(Seq<char>, JsonView)>)
    requires
        in_order(entries),
    ensures
        gathered(entries) == entries,
    decreases entries.len(),
{
    if entries.len() > 0 {
        let rest = entries.drop_last();
        assert forall|i: int, j: int| 0 <= i < j < rest.len() implies text_before(
            #[trigger] rest[i].0,
            #[trigger] rest[j].0,
        ) by {
            assert(rest[i] == entries[i] && rest[j] == entries[j]);
        }
        lemma_gathered_in_order(rest);
        let last = entries[entries.len() - 1];
        assert forall|i: int| 0 <= i < rest.len() implies text_before(
            (#[trigger] rest[i]).0,
            last.0,
        ) by {
            assert(rest[i] == entries[i]);
        }
        lemma_put_last(rest, last.0, last.1);
        assert(entries =~= rest.push(last));
    }
}

/// A well-formed value is its own normal form, so that its notation is that of
/// the value itself.
pub proof fn law_well_formed_values_are_normal(value: JsonView)
    requires
        value.wf(),
    ensures
        normal(value) == value,
        compact(value) == notation(value),
    decreases value,
{
    match value {
        JsonView::Array(items) => {
            assert forall|i: int| 0 <= i < items.len() implies normal(#[trigger] items[i])
                == items[i] by {
                law_well_formed_values_are_normal(items[i]);
            }
            assert(normal_items(items) =~= items);
        },
        JsonView::Object(entries) => {
            assert forall|i: int| 0 <= i < entries.len() implies normal((#[trigger] entries[i]).1)
                == entries[i].1 by {
                assert(entries[i].1.wf());
                law_well_formed_values_are_normal(entries[i].1);
            }
            assert(normal_entries(entries) =~= entries);
            lemma_gathered_in_order(entries);
        },
        _ => {},
    }
}

} // verus!

//! Rendering keeps the order it is given: the selections of a set and the
//! arguments of a field stand in the text in the order of the tree.

use vstd::prelude::*;
use crate::ast::Field;
use crate::ast::SelectionSet;
use crate::ast::Value;
use crate::join::concat_offset;
use crate::join::joined;
use crate::join::joined_offset;
use crate::join::lemma_concat_order;
use crate::join::lemma_joined_order;
use crate::render::argument_texts;
use crate::render::arguments_text;
use crate::render::selection_texts;
use crate::render::value_texts;
use crate::render::Displayable;

verus! {

/// Where the text of selection `i` begins in the text of the selections of
/// `set`.
pub open spec fn selection_offset(set: &SelectionSet, width: nat, depth: nat, i: int) -> int {
    concat_offset(selection_texts(set.items@, width, depth), i)
}

/// Where the text of argument `i` begins in the text of the arguments
/// `args`.
pub open spec fn argument_offset(
    args: Seq<(String, Value)>,
    width: nat,
    depth: nat,
    i: int,
) -> int {
    joined_offset(argument_texts(args, width, depth), ", "@, i)
}

/// Where the text of item `i` begins in the text of the list `items`,
/// between its brackets.
pub open spec fn list_item_offset(items: Seq<Value>, width: nat, depth: nat, i: int) -> int {
    joined_offset(value_texts(items, width, depth), ", "@, i)
}

/// The selections of a set are rendered in the order of the set: the text
/// of each stands unchanged in the text of all, and that of an earlier
/// selection ends before that of a later one begins.
pub proof fn lemma_selections_in_order(set: &SelectionSet, width: nat, depth: nat, i: int, j: int)
    requires
        0 <= i <= j < set.items@.len(),
    ensures
        0 <= selection_offset(set, width, depth, j),
        selection_offset(set, width, depth, j) + set.items@[j].text(width, depth).len()
            <= set.items_text(width, depth).len(),
        set.items_text(width, depth).subrange(
            selection_offset(set, width, depth, j),
            selection_offset(set, width, depth, j) + set.items@[j].text(width, depth).len(),
        ) == set.items@[j].text(width, depth),
        i < j ==> selection_offset(set, width, depth, i) + set.items@[i].text(width, depth).len()
            <= selection_offset(set, width, depth, j),
{
    lemma_concat_order(selection_texts(set.items@, width, depth), i, j);
}

/// The arguments of a field are rendered in the order of the field: each
/// `name: value` stands unchanged in the text of all, and an earlier one
/// ends, with the comma behind it, before a later one begins.
pub proof fn lemma_arguments_in_order(field: &Field, width: nat, depth: nat, i: int, j: int)
    requires
        0 <= i <= j < field.arguments@.len(),
    ensures
        0 <= argument_offset(field.arguments@, width, depth, j),
        argument_offset(field.arguments@, width, depth, j) + argument_texts(
            field.arguments@,
            width,
            depth,
        )[j].len() <= arguments_text(field.arguments@, width, depth).len(),
        arguments_text(field.arguments@, width, depth).subrange(
            argument_offset(field.arguments@, width, depth, j),
            argument_offset(field.arguments@, width, depth, j) + argument_texts(
                field.arguments@,
                width,
                depth,
            )[j].len(),
        ) == field.arguments@[j].0@ + ": "@ + field.arguments@[j].1.text(width, depth),
        i < j ==> argument_offset(field.arguments@, width, depth, i) + argument_texts(
            field.arguments@,
            width,
            depth,
        )[i].len() + ", "@.len() <= argument_offset(field.arguments@, width, depth, j),
{
    lemma_joined_order(argument_texts(field.arguments@, width, depth), ", "@, i, j);
}

/// The items of a list value are rendered in the order of the list.
pub proof fn lemma_list_items_in_order(items: Seq<Value>, width: nat, depth: nat, i: int, j: int)
    requires
        0 <= i <= j < items.len(),
    ensures
        0 <= list_item_offset(items, width, depth, j),
        list_item_offset(items, width, depth, j) + items[j].text(width, depth).len() <= joined(
            value_texts(items, width, depth),
            ", "@,
        ).len(),
        joined(value_texts(items, width, depth), ", "@).subrange(
            list_item_offset(items, width, depth, j),
            list_item_offset(items, width, depth, j) + items[j].text(width, depth).len(),
        ) == items[j].text(width, depth),
        i < j ==> list_item_offset(items, width, depth, i) + items[i].text(width, depth).len()
            + ", "@.len() <= list_item_offset(items, width, depth, j),
{
    lemma_joined_order(value_texts(items, width, depth), ", "@, i, j);
}

} // verus!

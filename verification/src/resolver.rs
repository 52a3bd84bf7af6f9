//! What resolution makes of a program: the functions move into a table, in the order
//! in which they were declared, and each leaves its place in the table behind.

use vstd::prelude::*;
use crate::model::{FunctionModel, ItemModel, ProgramModel, TopLevelModel};
use crate::paint::Marks;
use crate::render::{
    items_depth, program_depth, program_resolves, render_items, render_program, render_top_levels,
    top_levels_depth,
};

verus! {

/// The resolved form of a sequence of top-level items.
pub open spec fn resolve(things: Seq<TopLevelModel>) -> ProgramModel
    decreases things.len(),
{
    if things.len() == 0 {
        ProgramModel { things: Seq::empty(), functions: Seq::empty() }
    } else {
        let before = resolve(things.drop_last());
        match things.last() {
            TopLevelModel::Function(function) => ProgramModel {
                things: before.things.push(ItemModel::Function(before.functions.len())),
                functions: before.functions.push(function),
            },
            TopLevelModel::Comment(text) => ProgramModel {
                things: before.things.push(ItemModel::Comment(text)),
                functions: before.functions,
            },
        }
    }
}

/// The functions among top-level items, in the order in which they stand.
pub open spec fn declared_functions(things: Seq<TopLevelModel>) -> Seq<FunctionModel>
    decreases things.len(),
{
    if things.len() == 0 {
        Seq::empty()
    } else {
        match things.last() {
            TopLevelModel::Function(function) => declared_functions(things.drop_last()).push(
                function,
            ),
            TopLevelModel::Comment(_) => declared_functions(things.drop_last()),
        }
    }
}

/// The identifiers that items name, in the order of the items.
pub open spec fn named_functions(items: Seq<ItemModel>) -> Seq<nat>
    decreases items.len(),
{
    if items.len() == 0 {
        Seq::empty()
    } else {
        match items.last() {
            ItemModel::Function(id) => named_functions(items.drop_last()).push(id),
            ItemModel::Comment(_) => named_functions(items.drop_last()),
        }
    }
}

/// The item that holds what an item of a resolved program names.
pub open spec fn unresolved_item(item: ItemModel, functions: Seq<FunctionModel>) -> TopLevelModel {
    match item {
        ItemModel::Function(id) => TopLevelModel::Function(functions[id as int]),
        ItemModel::Comment(text) => TopLevelModel::Comment(text),
    }
}

/// The items of a resolved program, each function back in its place.
pub open spec fn unresolve(program: ProgramModel) -> Seq<TopLevelModel> {
    Seq::new(program.things.len(), |i: int| unresolved_item(program.things[i], program.functions))
}

/// Resolution keeps every item in its place and puts the functions into the table in
/// the order of their declaration.
pub proof fn lemma_resolve_shape(things: Seq<TopLevelModel>)
    ensures
        resolve(things).things.len() == things.len(),
        resolve(things).functions == declared_functions(things),
        resolve(things).functions.len() <= things.len(),
    decreases things.len(),
{
    if things.len() > 0 {
        lemma_resolve_shape(things.drop_last());
    }
}

/// What resolution makes of the first items of a program does not depend on the items
/// that follow.
pub proof fn lemma_resolve_prefix(things: Seq<TopLevelModel>, count: int)
    requires
        0 <= count <= things.len(),
    ensures
        resolve(things.take(count)).things == resolve(things).things.take(count),
        resolve(things.take(count)).functions == resolve(things).functions.take(
            declared_functions(things.take(count)).len() as int,
        ),
        declared_functions(things.take(count)).len() <= declared_functions(things).len(),
    decreases things.len(),
{
    lemma_resolve_shape(things);
    lemma_resolve_shape(things.take(count));
    if count == things.len() {
        assert(things.take(count) =~= things);
    } else {
        let shorter = things.drop_last();
        lemma_resolve_prefix(shorter, count);
        lemma_resolve_shape(shorter);
        assert(shorter.take(count) =~= things.take(count));
    }
}

/// Identifier stability: the function declared at a place of the program gets as its
/// identifier the number of functions declared before that place, and the table holds
/// the function under that identifier. So the identifiers count up from zero without
/// a gap, and no two functions share one.
pub proof fn law_identifier_stability(things: Seq<TopLevelModel>, place: int)
    requires
        0 <= place < things.len(),
    ensures
        resolve(things).things.len() == things.len(),
        (match things[place] {
            TopLevelModel::Function(function) => {
                let id = declared_functions(things.take(place)).len();
                &&& resolve(things).things[place] == ItemModel::Function(id)
                &&& id < resolve(things).functions.len()
                &&& resolve(things).functions[id as int] == function
            },
            TopLevelModel::Comment(text) => resolve(things).things[place] == ItemModel::Comment(
                text,
            ),
        }),
{
    let upto = things.take(place + 1);
    lemma_resolve_shape(things);
    lemma_resolve_prefix(things, place + 1);
    lemma_resolve_shape(upto);
    lemma_resolve_shape(upto.drop_last());
    assert(upto.drop_last() =~= things.take(place));
    assert(resolve(things).things[place] == resolve(upto).things[place]);
    match things[place] {
        TopLevelModel::Function(function) => {
            let id = declared_functions(things.take(place)).len() as int;
            assert(resolve(upto).functions[id] == function);
        },
        TopLevelModel::Comment(text) => {},
    }
}

/// Order preservation: read in the order of the items, the identifiers that a resolved
/// program names are zero, one, two and so on, none of them twice, and the table holds
/// the functions in the order in which the source declared them.
pub proof fn law_order_preservation(things: Seq<TopLevelModel>)
    ensures
        resolve(things).functions == declared_functions(things),
        named_functions(resolve(things).things) == Seq::new(
            declared_functions(things).len(),
            |i: int| i as nat,
        ),
        named_functions(resolve(things).things).no_duplicates(),
    decreases things.len(),
{
    lemma_resolve_shape(things);
    if things.len() > 0 {
        let shorter = things.drop_last();
        law_order_preservation(shorter);
        lemma_resolve_shape(shorter);
        let before = resolve(shorter);
        match things.last() {
            TopLevelModel::Function(function) => {
                let items = before.things.push(ItemModel::Function(before.functions.len()));
                assert(items.drop_last() =~= before.things);
            },
            TopLevelModel::Comment(text) => {
                let items = before.things.push(ItemModel::Comment(text));
                assert(items.drop_last() =~= before.things);
            },
        }
    }
}

/// Resolution loses nothing: with every function put back in the place of its
/// identifier, a resolved program is the program it was made from. Every identifier
/// names a function that the table holds.
pub proof fn law_resolve_is_faithful(things: Seq<TopLevelModel>)
    ensures
        program_resolves(resolve(things)),
        unresolve(resolve(things)) == things,
{
    lemma_resolve_shape(things);
    let program = resolve(things);
    assert forall|i: int| 0 <= i < program.things.len() implies (#[trigger] program.things[i]
        matches ItemModel::Function(id) ==> id < program.functions.len()) by {
        law_identifier_stability(things, i);
    }
    assert forall|i: int| 0 <= i < things.len() implies #[trigger] unresolve(program)[i]
        == things[i] by {
        law_identifier_stability(things, i);
    }
}

/// Resolution changes neither the text of a program nor its depth.
pub proof fn law_resolve_keeps_rendering(things: Seq<TopLevelModel>, level: nat, marks: Marks)
    ensures
        render_program(resolve(things), level, marks) == render_top_levels(things, level, marks),
        program_depth(resolve(things)) == top_levels_depth(things),
{
    lemma_rendering_of_prefix(things, things.len() as int, level, marks);
    assert(things.take(things.len() as int) =~= things);
    lemma_resolve_shape(things);
    assert(resolve(things).things.take(things.len() as int) =~= resolve(things).things);
}

/// The first items of a resolved program render as the first items of the program it
/// was made from, and are as deep.
proof fn lemma_rendering_of_prefix(things: Seq<TopLevelModel>, count: int, level: nat, marks: Marks)
    requires
        0 <= count <= things.len(),
    ensures
        render_items(resolve(things).things.take(count), resolve(things).functions, level, marks)
            == render_top_levels(things.take(count), level, marks),
        items_depth(resolve(things).things.take(count), resolve(things).functions)
            == top_levels_depth(things.take(count)),
    decreases count,
{
    lemma_resolve_shape(things);
    let program = resolve(things);
    if count > 0 {
        lemma_rendering_of_prefix(things, count - 1, level, marks);
        law_identifier_stability(things, count - 1);
        assert(program.things.take(count).drop_last() =~= program.things.take(count - 1));
        assert(things.take(count).drop_last() =~= things.take(count - 1));
    }
}

/// Idempotence: formatting what was formatted gives the same text again, for every
/// parser that reads a program back from its canonical text.
pub proof fn law_idempotence(
    program: Seq<TopLevelModel>,
    parse: spec_fn(Seq<char>) -> Seq<TopLevelModel>,
    marks: Marks,
)
    requires
        parse(render_top_levels(program, 0, marks)) == program,
    ensures
        render_program(resolve(parse(render_program(resolve(program), 0, marks))), 0, marks)
            == render_program(resolve(program), 0, marks),
{
    law_resolve_keeps_rendering(program, 0, marks);
}

} // verus!

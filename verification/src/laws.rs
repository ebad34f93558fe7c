//! What holds of pairing, coercion and page reading, whatever the input.

use crate::error::{Failure, Field};
use crate::page::{
    dl_outcome, locate_from, page_outcome, pairing_step, pairing_walk, ChildModel,
    PageModel, Pairing, PanelModel,
};
use crate::fields::{lemma_ects_is_numeral, CapacityModel, Degree};
use crate::record::{
    coerce_outcome, field_outcome, finalize, names, pass_outcome, target, Pass, Record, Slots,
    Value,
};
use vstd::prelude::*;

verus! {

/// The position of the last pair of `pairs` whose label names `field`.
pub open spec fn last_naming(pairs: Seq<(Seq<char>, Seq<char>)>, field: Field) -> Option<int>
    decreases pairs.len(),
{
    if pairs.len() == 0 {
        None
    } else if names(pairs.last().0, field) {
        Some(pairs.len() - 1)
    } else {
        last_naming(pairs.drop_last(), field)
    }
}

/// Whether every value of `pairs` fits the grammar of each field that its
/// label names.
pub open spec fn all_values_fit(pairs: Seq<(Seq<char>, Seq<char>)>) -> bool {
    forall|i: int, field: Field|
        0 <= i < pairs.len() && names(#[trigger] pairs[i].0, field) ==> (#[trigger] field_outcome(
            field,
            pairs[i].1,
        )) is Ok
}

/// The value that `record` holds for `field`.
pub open spec fn field_of(record: Record, field: Field) -> Value {
    match field {
        Field::Id => Value::Id(record.id),
        Field::Ects => Value::Ects(record.ects),
        Field::Block => Value::Block(record.block),
        Field::Schedule => Value::Schedule(record.schedule),
        Field::Language => Value::Language(record.language),
        Field::Duration => Value::Duration(record.duration),
        Field::Degree => Value::Degree(record.degree),
        Field::Capacity => Value::Capacity(record.capacity),
    }
}

/// Whether `value` is one that the grammar of its field can yield.
pub open spec fn value_wf(value: Value) -> bool {
    match value {
        Value::Id(v) => v.len() > 0,
        Value::Ects(v) => crate::fields::is_numeral(v),
        Value::Block(v) => v.len() > 0,
        Value::Schedule(v) => v.len() > 0,
        Value::Language(_) => true,
        Value::Duration(_) => true,
        Value::Degree(v) => crate::fields::is_level_set(v) && v.len() > 0 && !v.contains(
            Degree::Phd,
        ),
        Value::Capacity(v) => v is Text ==> v == CapacityModel::Text(crate::fields::unlimited()),
    }
}

/// Whether `pass` is the pass that reads `field`.
pub open spec fn reads(pass: Pass, field: Field) -> bool {
    match pass {
        Pass::BlockFirst => field == Field::Block,
        Pass::Generic => field != Field::Block,
    }
}

/// `last_naming` gives a pair that names the field, and no later pair does;
/// it gives none only if no pair names the field.
pub proof fn lemma_last_naming(pairs: Seq<(Seq<char>, Seq<char>)>, field: Field)
    ensures
        match last_naming(pairs, field) {
            Some(i) => 0 <= i < pairs.len() && names(pairs[i].0, field) && forall|j: int|
                i < j < pairs.len() ==> !names(#[trigger] pairs[j].0, field),
            None => forall|j: int| 0 <= j < pairs.len() ==> !names(#[trigger] pairs[j].0, field),
        },
    decreases pairs.len(),
{
    if pairs.len() > 0 && !names(pairs.last().0, field) {
        lemma_last_naming(pairs.drop_last(), field);
        assert forall|j: int| 0 <= j < pairs.len() - 1 implies pairs[j] == pairs.drop_last()[j] by {}
    }
}

/// A value that a grammar yields belongs to the field of that grammar and
/// is well formed.
pub proof fn lemma_field_outcome(field: Field, text: Seq<char>)
    ensures
        field_outcome(field, text) matches Ok(value) ==> value.field() == field && value_wf(value),
{
    lemma_ects_is_numeral(text);
    crate::fields::law_degree_levels(
        text,
        text.take(crate::fields::alphabetic_run_end(text, 0)),
    );
}

/// What `pass` leaves in the slot of `field` where it succeeds on `pairs`:
/// for a field that it reads and that some pair names, the value of the last
/// such pair; what `start` held otherwise.
pub open spec fn slot_after(
    pass: Pass,
    pairs: Seq<(Seq<char>, Seq<char>)>,
    start: Slots,
    field: Field,
) -> Option<Value> {
    if reads(pass, field) && last_naming(pairs, field) is Some {
        Some(field_outcome(field, pairs[last_naming(pairs, field)->0].1)->Ok_0)
    } else {
        start.get(field)
    }
}

/// Over pairs whose values all fit, a pass succeeds, and it leaves in each
/// slot what `slot_after` says.
pub proof fn lemma_pass_reads_last(pass: Pass, pairs: Seq<(Seq<char>, Seq<char>)>, start: Slots)
    requires
        all_values_fit(pairs),
    ensures
        pass_outcome(pass, pairs, start) is Ok,
        forall|field: Field|
            (#[trigger] pass_outcome(pass, pairs, start)->Ok_0.get(field)) == slot_after(
                pass,
                pairs,
                start,
                field,
            ),
    decreases pairs.len(),
{
    if pairs.len() > 0 {
        let init = pairs.drop_last();
        let last = pairs.last();
        assert forall|i: int, field: Field|
            0 <= i < init.len() && names(#[trigger] init[i].0, field) implies (
        #[trigger] field_outcome(field, init[i].1)) is Ok by {
            assert(init[i] == pairs[i]);
            assert(names(pairs[i].0, field));
        }
        lemma_pass_reads_last(pass, init, start);
        let before = pass_outcome(pass, init, start)->Ok_0;
        let read = target(pass, last.0);
        if read is Some {
            assert(names(pairs[pairs.len() - 1].0, read->0));
            assert(field_outcome(read->0, pairs[pairs.len() - 1].1) is Ok);
            lemma_field_outcome(read->0, last.1);
        }
        let after = pass_outcome(pass, pairs, start)->Ok_0;
        assert forall|field: Field| (#[trigger] after.get(field)) == slot_after(
            pass,
            pairs,
            start,
            field,
        ) by {
            assert(before.get(field) == slot_after(pass, init, start, field));
            if read == Some(field) {
                assert(after.get(field) == Some(field_outcome(field, last.1)->Ok_0));
            } else {
                assert(after.get(field) == before.get(field));
                if reads(pass, field) && last_naming(init, field) is Some {
                    lemma_last_naming(init, field);
                    assert(init[last_naming(init, field)->0] == pairs[last_naming(init, field)->0]);
                }
            }
        }
    }
}

/// Whether every value in `slots` is well formed.
pub open spec fn slots_wf(slots: Slots) -> bool {
    forall|field: Field| (#[trigger] slots.get(field)) matches Some(value) ==> value_wf(value)
}

/// A pass stores well-formed values only.
pub proof fn lemma_pass_keeps_wf(pass: Pass, pairs: Seq<(Seq<char>, Seq<char>)>, start: Slots)
    requires
        slots_wf(start),
    ensures
        pass_outcome(pass, pairs, start) matches Ok(slots) ==> slots_wf(slots),
    decreases pairs.len(),
{
    if pairs.len() > 0 {
        lemma_pass_keeps_wf(pass, pairs.drop_last(), start);
        if let Ok(before) = pass_outcome(pass, pairs.drop_last(), start) {
            if let Some(read) = target(pass, pairs.last().0) {
                lemma_field_outcome(read, pairs.last().1);
                if let Ok(value) = field_outcome(read, pairs.last().1) {
                    assert forall|field: Field|
                        (#[trigger] before.put(value).get(field)) is Some implies value_wf(
                        before.put(value).get(field)->0,
                    ) by {
                        if field != read {
                            assert(before.put(value).get(field) == before.get(field));
                        }
                    }
                }
            }
        }
    }
}

/// Every record that coercion yields is well formed: the course code is not
/// empty, the credit weight is a decimal numeral, there is at least one
/// block and schedule group, the degree levels are Bachelor, Master or both,
/// sorted and each once, never `Phd`, and a capacity in words is the marker
/// for no limit.
pub proof fn law_record_is_well_formed(pairs: Seq<(Seq<char>, Seq<char>)>)
    ensures
        coerce_outcome(pairs) matches Ok(record) ==> record.wf(),
{
    assert(slots_wf(Slots::empty())) by {
        assert forall|field: Field| (#[trigger] Slots::empty().get(field)) is None by {}
    }
    lemma_pass_keeps_wf(Pass::BlockFirst, pairs, Slots::empty());
    if let Ok(blocks) = pass_outcome(Pass::BlockFirst, pairs, Slots::empty()) {
        lemma_pass_keeps_wf(Pass::Generic, pairs, blocks);
        if let Ok(slots) = pass_outcome(Pass::Generic, pairs, blocks) {
            if let Ok(record) = finalize(slots) {
                assert(value_wf(slots.get(Field::Id)->0));
                assert(value_wf(slots.get(Field::Ects)->0));
                assert(value_wf(slots.get(Field::Block)->0));
                assert(value_wf(slots.get(Field::Schedule)->0));
                assert(value_wf(slots.get(Field::Degree)->0));
                assert(value_wf(slots.get(Field::Capacity)->0));
            }
        }
    }
}

/// Where the values of all pairs fit their grammars, the slots after both
/// passes hold, for each field, the value of the last pair that names it,
/// and nothing for a field that no pair names.
pub proof fn lemma_passes_read_last(pairs: Seq<(Seq<char>, Seq<char>)>)
    requires
        all_values_fit(pairs),
    ensures
        pass_outcome(Pass::BlockFirst, pairs, Slots::empty()) matches Ok(blocks) && pass_outcome(
            Pass::Generic,
            pairs,
            blocks,
        ) matches Ok(slots) && forall|field: Field|
            (#[trigger] slots.get(field)) == (match last_naming(pairs, field) {
                Some(i) => Some(field_outcome(field, pairs[i].1)->Ok_0),
                None => None,
            }),
{
    lemma_pass_reads_last(Pass::BlockFirst, pairs, Slots::empty());
    let blocks = pass_outcome(Pass::BlockFirst, pairs, Slots::empty())->Ok_0;
    lemma_pass_reads_last(Pass::Generic, pairs, blocks);
    let slots = pass_outcome(Pass::Generic, pairs, blocks)->Ok_0;
    assert forall|field: Field|
        (#[trigger] slots.get(field)) == (match last_naming(pairs, field) {
            Some(i) => Some(field_outcome(field, pairs[i].1)->Ok_0),
            None => None,
        }) by {
        assert(slots.get(field) == slot_after(Pass::Generic, pairs, blocks, field));
        assert(blocks.get(field) == slot_after(Pass::BlockFirst, pairs, Slots::empty(), field));
        assert(Slots::empty().get(field) is None);
    }
}

/// Complete input yields the record of its values: if every value fits the
/// grammar of the field that its label names, and every one of the eight
/// fields is named by some pair, then coercion succeeds, and each field of
/// the record is what the grammar of the field makes of the value of the
/// last pair that names it.
pub proof fn law_complete_pairs_yield_record(pairs: Seq<(Seq<char>, Seq<char>)>)
    requires
        all_values_fit(pairs),
        forall|field: Field| (#[trigger] last_naming(pairs, field)) is Some,
    ensures
        coerce_outcome(pairs) is Ok,
        forall|field: Field|
            Ok::<Value, Failure>(#[trigger] field_of(coerce_outcome(pairs)->Ok_0, field))
                == field_outcome(field, pairs[last_naming(pairs, field)->0].1),
{
    lemma_passes_read_last(pairs);
    let blocks = pass_outcome(Pass::BlockFirst, pairs, Slots::empty())->Ok_0;
    let slots = pass_outcome(Pass::Generic, pairs, blocks)->Ok_0;
    assert(last_naming(pairs, Field::Id) is Some && slots.get(Field::Id) is Some);
    assert(last_naming(pairs, Field::Ects) is Some && slots.get(Field::Ects) is Some);
    assert(last_naming(pairs, Field::Block) is Some && slots.get(Field::Block) is Some);
    assert(last_naming(pairs, Field::Schedule) is Some && slots.get(Field::Schedule) is Some);
    assert(last_naming(pairs, Field::Language) is Some && slots.get(Field::Language) is Some);
    assert(last_naming(pairs, Field::Duration) is Some && slots.get(Field::Duration) is Some);
    assert(last_naming(pairs, Field::Degree) is Some && slots.get(Field::Degree) is Some);
    assert(last_naming(pairs, Field::Capacity) is Some && slots.get(Field::Capacity) is Some);
    let record = finalize(slots)->Ok_0;
    assert(coerce_outcome(pairs) == Ok::<Record, Failure>(record));
    assert forall|field: Field|
        Ok::<Value, Failure>(#[trigger] field_of(coerce_outcome(pairs)->Ok_0, field))
            == field_outcome(field, pairs[last_naming(pairs, field)->0].1) by {
        let i = last_naming(pairs, field)->0;
        lemma_last_naming(pairs, field);
        assert(names(pairs[i].0, field));
        assert(field_outcome(field, pairs[i].1) is Ok);
        assert(slots.get(field) == Some(field_outcome(field, pairs[i].1)->Ok_0));
        assert(field_of(record, field) == slots.get(field)->0);
    }
}

/// A field without a label is reported missing: if every value fits the
/// grammar of the field that its label names, no pair names `field`, and
/// every field that stands before `field` in the record is named by some
/// pair, then coercion fails with `MissingField(field)`.
pub proof fn law_unnamed_field_is_missing(pairs: Seq<(Seq<char>, Seq<char>)>, field: Field)
    requires
        all_values_fit(pairs),
        last_naming(pairs, field) is None,
        forall|other: Field|
            other.position() < field.position() ==> (#[trigger] last_naming(pairs, other)) is Some,
    ensures
        coerce_outcome(pairs) == Err::<Record, Failure>(Failure::MissingField(field)),
{
    lemma_passes_read_last(pairs);
    let blocks = pass_outcome(Pass::BlockFirst, pairs, Slots::empty())->Ok_0;
    let slots = pass_outcome(Pass::Generic, pairs, blocks)->Ok_0;
    assert(slots.get(field) is None);
    assert(Field::Id.position() < field.position() ==> last_naming(pairs, Field::Id) is Some
        && slots.get(Field::Id) is Some);
    assert(Field::Ects.position() < field.position() ==> last_naming(pairs, Field::Ects) is Some
        && slots.get(Field::Ects) is Some);
    assert(Field::Block.position() < field.position() ==> last_naming(pairs, Field::Block) is Some
        && slots.get(Field::Block) is Some);
    assert(Field::Schedule.position() < field.position() ==> last_naming(pairs, Field::Schedule)
        is Some && slots.get(Field::Schedule) is Some);
    assert(Field::Language.position() < field.position() ==> last_naming(pairs, Field::Language)
        is Some && slots.get(Field::Language) is Some);
    assert(Field::Duration.position() < field.position() ==> last_naming(pairs, Field::Duration)
        is Some && slots.get(Field::Duration) is Some);
    assert(Field::Degree.position() < field.position() ==> last_naming(pairs, Field::Degree)
        is Some && slots.get(Field::Degree) is Some);
}

// ----------------------------------------------------------------- pairing

/// Whether `child` is a label or a value element.
pub open spec fn is_entry(child: ChildModel) -> bool {
    child matches ChildModel::Element { name, .. } && (name == "dt"@ || name == "dd"@)
}

/// The number of label and value elements among `children`.
pub open spec fn entry_count(children: Seq<ChildModel>) -> nat
    decreases children.len(),
{
    if children.len() == 0 {
        0
    } else if is_entry(children.last()) {
        entry_count(children.drop_last()) + 1
    } else {
        entry_count(children.drop_last())
    }
}

/// A walk fails with a structural error only; where it succeeds, every label
/// and value element is either part of a pair or the label that waits.
pub proof fn lemma_walk_accounts(children: Seq<ChildModel>)
    ensures
        match pairing_walk(children) {
            Ok(state) => (if state.pending is Some {
                1nat
            } else {
                0nat
            }) + 2 * state.pairs.len() == entry_count(children),
            Err(e) => e is StructuralError,
        },
    decreases children.len(),
{
    if children.len() > 0 {
        lemma_walk_accounts(children.drop_last());
    }
}

/// A definition list with an odd number of label and value elements yields
/// a structural error, whatever the elements hold and whatever else stands
/// among them.
pub proof fn law_odd_count_is_structural_error(children: Seq<ChildModel>)
    requires
        entry_count(children) % 2 == 1,
    ensures
        dl_outcome(children) matches Err(e) && e is StructuralError,
{
    lemma_walk_accounts(children);
}

/// The children of a list in which each pair of `pairs` stands as a label
/// element followed by a value element.
pub open spec fn alternating(pairs: Seq<(Seq<char>, Seq<char>)>) -> Seq<ChildModel>
    decreases pairs.len(),
{
    if pairs.len() == 0 {
        Seq::empty()
    } else {
        alternating(pairs.drop_last()).push(
            ChildModel::Element { name: "dt"@, text: pairs.last().0 },
        ).push(ChildModel::Element { name: "dd"@, text: pairs.last().1 })
    }
}

/// A list of labels that are each followed by their value yields exactly
/// those pairs, in document order.
pub proof fn law_alternating_children_pair_up(pairs: Seq<(Seq<char>, Seq<char>)>)
    ensures
        pairing_walk(alternating(pairs)) == Ok::<Pairing, Failure>(Pairing { pairs, pending: None }),
        dl_outcome(alternating(pairs)) == Ok::<Seq<(Seq<char>, Seq<char>)>, Failure>(pairs),
    decreases pairs.len(),
{
    reveal_strlit("dt");
    reveal_strlit("dd");
    if pairs.len() == 0 {
        assert(pairs == Seq::<(Seq<char>, Seq<char>)>::empty());
    } else {
        let init = pairs.drop_last();
        law_alternating_children_pair_up(init);
        let label = ChildModel::Element { name: "dt"@, text: pairs.last().0 };
        let value = ChildModel::Element { name: "dd"@, text: pairs.last().1 };
        let with_label = alternating(init).push(label);
        assert(with_label.drop_last() == alternating(init));
        assert(alternating(pairs).drop_last() == with_label);
        let waiting = Pairing { pairs: init, pending: Some(pairs.last().0) };
        assert(pairing_walk(with_label) == Ok::<Pairing, Failure>(waiting));
        assert(init.push((pairs.last().0, pairs.last().1)) == pairs);
        assert("dd"@[1] != "dt"@[1]);
        assert(pairing_step(waiting, value) == Ok::<Pairing, Failure>(
            Pairing { pairs, pending: None },
        ));
    }
}

/// The children of a list without the filler among them.
pub open spec fn elements(children: Seq<ChildModel>) -> Seq<ChildModel>
    decreases children.len(),
{
    if children.len() == 0 {
        Seq::empty()
    } else if children.last() is Filler {
        elements(children.drop_last())
    } else {
        elements(children.drop_last()).push(children.last())
    }
}

/// The label that waits, as the element that it came from.
pub open spec fn waiting_label(pending: Option<Seq<char>>) -> Seq<ChildModel> {
    match pending {
        Some(label) => seq![ChildModel::Element { name: "dt"@, text: label }],
        None => Seq::empty(),
    }
}

/// Filler makes no difference to a walk.
pub proof fn lemma_walk_ignores_filler(children: Seq<ChildModel>)
    ensures
        pairing_walk(children) == pairing_walk(elements(children)),
    decreases children.len(),
{
    if children.len() > 0 {
        lemma_walk_ignores_filler(children.drop_last());
        if !(children.last() is Filler) {
            let kept = elements(children.drop_last()).push(children.last());
            assert(kept.drop_last() == elements(children.drop_last()));
            assert(kept.last() == children.last());
        }
    }
}

/// Where a walk succeeds, the elements that it has passed are the pairs that
/// it has made, each as a label followed by its value, and then the label
/// that waits.
pub proof fn lemma_walk_shape(children: Seq<ChildModel>)
    ensures
        pairing_walk(children) matches Ok(state) ==> elements(children) == alternating(
            state.pairs,
        ) + waiting_label(state.pending),
    decreases children.len(),
{
    if children.len() == 0 {
        assert(elements(children) == alternating(Seq::empty()) + waiting_label(None));
    } else {
        lemma_walk_shape(children.drop_last());
        if let Ok(before) = pairing_walk(children.drop_last()) {
            if let Ok(state) = pairing_step(before, children.last()) {
                match children.last() {
                    ChildModel::Filler => {},
                    ChildModel::Missing => {},
                    ChildModel::Element { name, text } => {
                        if name == "dt"@ {
                            assert(elements(children) == alternating(state.pairs) + waiting_label(
                                state.pending,
                            ));
                        } else {
                            let label = before.pending->0;
                            assert(state.pairs.drop_last() == before.pairs);
                            assert(state.pairs.last() == (label, text));
                            assert(elements(children) == alternating(state.pairs) + waiting_label(
                                state.pending,
                            ));
                        }
                    },
                }
            }
        }
    }
}

/// A definition list yields pairs exactly when its elements alternate: the
/// result is `Ok(pairs)` if and only if the children, filler aside, are the
/// label of the first pair, its value, the label of the second pair, its
/// value and so on, and nothing else. Two labels in a row, two values in a
/// row, a value first and a label last all fail.
pub proof fn law_pairs_iff_children_alternate(
    children: Seq<ChildModel>,
    pairs: Seq<(Seq<char>, Seq<char>)>,
)
    ensures
        dl_outcome(children) == Ok::<Seq<(Seq<char>, Seq<char>)>, Failure>(pairs) <==> elements(
            children,
        ) == alternating(pairs),
{
    if elements(children) == alternating(pairs) {
        lemma_walk_ignores_filler(children);
        law_alternating_children_pair_up(pairs);
    }
    if dl_outcome(children) == Ok::<Seq<(Seq<char>, Seq<char>)>, Failure>(pairs) {
        lemma_walk_shape(children);
        assert(alternating(pairs) + waiting_label(None) == alternating(pairs));
    }
}

// -------------------------------------------------------------- page shape

/// A pass fails only because a value does not fit the grammar of its field.
pub proof fn lemma_pass_failure_kind(pass: Pass, pairs: Seq<(Seq<char>, Seq<char>)>, start: Slots)
    ensures
        pass_outcome(pass, pairs, start) matches Err(e) ==> e is FieldParse,
    decreases pairs.len(),
{
    if pairs.len() > 0 {
        lemma_pass_failure_kind(pass, pairs.drop_last(), start);
    }
}

/// The search for the definition list fails with a structural error only.
pub proof fn lemma_locate_failure_kind(panels: Seq<PanelModel>, from: int)
    ensures
        locate_from(panels, from) matches Err(e) ==> e is StructuralError,
    decreases panels.len() - from,
{
    if 0 <= from < panels.len() {
        lemma_locate_failure_kind(panels, from + 1);
    }
}

/// A page yields `UnrecognizedPageShape` exactly when it has no content
/// region: a page without one yields nothing else, whatever it holds, and a
/// page with one fails, if it fails, with a structural error, a value that
/// does not fit, or a missing field.
pub proof fn law_unrecognized_shape_means_no_content(page: PageModel)
    ensures
        !page.has_content ==> page_outcome(page) == Err::<Record, Failure>(
            Failure::UnrecognizedPageShape,
        ),
        page.has_content ==> (page_outcome(page) matches Err(e) ==> e is StructuralError || e
            is FieldParse || e is MissingField),
{
    if page.has_content {
        lemma_locate_failure_kind(page.panels, 0);
        if let Ok(children) = locate_from(page.panels, 0) {
            lemma_walk_accounts(children);
            if let Ok(pairs) = dl_outcome(children) {
                lemma_pass_failure_kind(Pass::BlockFirst, pairs, Slots::empty());
                if let Ok(blocks) = pass_outcome(Pass::BlockFirst, pairs, Slots::empty()) {
                    lemma_pass_failure_kind(Pass::Generic, pairs, blocks);
                }
            }
        }
    }
}

} // verus!

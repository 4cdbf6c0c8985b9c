use crate::chars::{
    append, append_str, ascii_upper, chars_eq, join, joined, string_of, to_ascii_uppercase,
    trim_start_matches, views, without_leading,
};
use crate::isa::{BitSetEnum, BitSetEnumValue, ISA};
use crate::text::{chars_of, spec_upper_camel_case, strip, stripped, to_upper_camel_case};
use vstd::prelude::*;
use vstd::utf8::encode_utf8;

verus! {

/// Whether `a` comes before `b` in the order of strings by their bytes.
pub open spec fn bytes_lt(a: Seq<u8>, b: Seq<u8>) -> bool
    decreases a.len(),
{
    if b.len() == 0 {
        false
    } else if a.len() == 0 {
        true
    } else if a[0] != b[0] {
        a[0] < b[0]
    } else {
        bytes_lt(a.drop_first(), b.drop_first())
    }
}

/// Whether the string `a` comes before `b`: in the order by bytes, as the
/// standard library orders strings.
pub fn str_lt(a: &str, b: &str) -> (r: bool)
    ensures
        r == bytes_lt(encode_utf8(a@), encode_utf8(b@)),
{
    let x = a.as_bytes();
    let y = b.as_bytes();
    let mut i: usize = 0;
    proof {
        assert(x@.skip(0) =~= x@);
        assert(y@.skip(0) =~= y@);
    }
    while i < x.len() && i < y.len()
        invariant
            i <= x@.len(),
            i <= y@.len(),
            x@ == encode_utf8(a@),
            y@ == encode_utf8(b@),
            bytes_lt(x@, y@) == bytes_lt(x@.skip(i as int), y@.skip(i as int)),
        decreases x@.len() - i,
    {
        if x[i] != y[i] {
            assert(x@.skip(i as int)[0] == x@[i as int]);
            assert(y@.skip(i as int)[0] == y@[i as int]);
            return x[i] < y[i];
        }
        assert(x@.skip(i as int).drop_first() =~= x@.skip(i + 1));
        assert(y@.skip(i as int).drop_first() =~= y@.skip(i + 1));
        i += 1;
    }
    assert(i < y@.len() ==> y@.skip(i as int).len() > 0 && x@.skip(i as int).len() == 0);
    assert(i >= y@.len() ==> y@.skip(i as int).len() == 0);
    i < y.len()
}

/// The name that stands for a value of an enum in the grammar: its name,
/// or its display where it has no name.
pub open spec fn label(value: BitSetEnumValue) -> Seq<char> {
    match value.name {
        Some(n) => n@,
        None => value.display@,
    }
}

/// Whether a value of an enum takes part in the grammar: its display is
/// neither empty nor the placeholder.
pub open spec fn is_listed(value: BitSetEnumValue) -> bool {
    value.display@.len() > 0 && value.display@ != ".____"@
}

/// What `format_enum_value_str` makes of the name of an enum and of a value.
pub open spec fn spec_enum_value_str(enum_name: Seq<char>, enum_value: Seq<char>) -> Seq<char> {
    ascii_upper(enum_name + seq!['_'] + stripped(enum_value))
}

/// Formats an enum value as a string in uppercase with underscores
///
/// The name of the enum, an underscore, and the value without dots and
/// square brackets, all with their ASCII letters in upper case.
pub fn format_enum_value_str(enum_name: &str, enum_value: &str) -> (r: String)
    ensures
        r@ == spec_enum_value_str(enum_name@, enum_value@),
{
    let mut text = chars_of(enum_name);
    text.push('_');
    let value = strip(enum_value);
    append(&mut text, value.as_slice());
    let upper = to_ascii_uppercase(text.as_slice());
    assert(text@ =~= enum_name@ + seq!['_'] + stripped(enum_value@));
    string_of(upper.as_slice())
}

/// Retrieves and formats the enum value string from a `BitSetEnumValue`
pub fn get_enum_value_str(enum_name: &str, enum_value: &BitSetEnumValue) -> (r: String)
    ensures
        r@ == spec_enum_value_str(enum_name@, label(*enum_value)),
{
    match &enum_value.name {
        Some(name) => format_enum_value_str(enum_name, name.as_str()),
        None => format_enum_value_str(enum_name, enum_value.display.as_str()),
    }
}

/// The place of a new value among values that are in descending order of
/// their displays: before the first whose display comes before its own.
pub open spec fn place_of(sorted: Seq<BitSetEnumValue>, value: BitSetEnumValue) -> nat
    decreases sorted.len(),
{
    if sorted.len() == 0 || bytes_lt(sort_key(sorted[0]), sort_key(value)) {
        0
    } else {
        1 + place_of(sorted.drop_first(), value)
    }
}

/// The place of a value lies among the values.
pub proof fn lemma_place_bound(sorted: Seq<BitSetEnumValue>, value: BitSetEnumValue)
    ensures
        place_of(sorted, value) <= sorted.len(),
    decreases sorted.len(),
{
    if sorted.len() > 0 && !bytes_lt(
        encode_utf8(sorted[0].display@),
        encode_utf8(value.display@),
    ) {
        lemma_place_bound(sorted.drop_first(), value);
    }
}

/// The values of an enum that take part in the grammar, in descending order
/// of their displays; values with the same display keep their order. The
/// first alternative of a choice wins, so that a display which starts with
/// another one has to come before it.
pub open spec fn listed_sorted(values: Seq<BitSetEnumValue>) -> Seq<BitSetEnumValue>
    decreases values.len(),
{
    if values.len() == 0 {
        Seq::empty()
    } else {
        let before = listed_sorted(values.drop_last());
        if is_listed(values.last()) {
            before.insert(place_of(before, values.last()) as int, values.last())
        } else {
            before
        }
    }
}

/// The order of strings by their bytes is transitive.
pub proof fn lemma_bytes_lt_transitive(a: Seq<u8>, b: Seq<u8>, c: Seq<u8>)
    requires
        bytes_lt(a, b),
        bytes_lt(b, c),
    ensures
        bytes_lt(a, c),
    decreases a.len(),
{
    if a.len() > 0 && a[0] == c[0] {
        lemma_bytes_lt_transitive(a.drop_first(), b.drop_first(), c.drop_first());
    }
}

/// The display of a value, in bytes: what the values are ordered by.
pub open spec fn sort_key(value: BitSetEnumValue) -> Seq<u8> {
    encode_utf8(value.display@)
}

/// No value comes before a value that precedes it: the displays descend.
pub open spec fn descending(values: Seq<BitSetEnumValue>) -> bool {
    forall|i: int, j: int|
        0 <= i < j < values.len() ==> !bytes_lt(
            sort_key(#[trigger] values[i]),
            sort_key(#[trigger] values[j]),
        )
}

/// The place of a new value lies after every value whose display does not
/// come before its own, and before a value whose display does.
pub proof fn lemma_place(sorted: Seq<BitSetEnumValue>, value: BitSetEnumValue)
    ensures
        place_of(sorted, value) <= sorted.len(),
        forall|i: int|
            0 <= i < place_of(sorted, value) ==> !bytes_lt(
                sort_key(#[trigger] sorted[i]),
                sort_key(value),
            ),
        place_of(sorted, value) < sorted.len() ==> bytes_lt(
            sort_key(sorted[place_of(sorted, value) as int]),
            sort_key(value),
        ),
    decreases sorted.len(),
{
    if sorted.len() > 0 && !bytes_lt(sort_key(sorted[0]), sort_key(value)) {
        lemma_place(sorted.drop_first(), value);
        let p = place_of(sorted.drop_first(), value) as int;
        assert forall|i: int| 0 <= i < p + 1 implies !bytes_lt(
            sort_key(#[trigger] sorted[i]),
            sort_key(value),
        ) by {
            if i > 0 {
                assert(sorted[i] == sorted.drop_first()[i - 1]);
            }
        }
        if p < sorted.drop_first().len() {
            assert(sorted[p + 1] == sorted.drop_first()[p]);
        }
    }
}

/// The test of whether a value takes part in the grammar.
pub open spec fn listing() -> spec_fn(BitSetEnumValue) -> bool {
    |v: BitSetEnumValue| is_listed(v)
}

/// The values that the grammar lists for an enum are exactly the values of
/// the enum that take part in the grammar, each as often as the enum has
/// it, and their displays descend.
pub proof fn lemma_listed_sorted(values: Seq<BitSetEnumValue>)
    ensures
        listed_sorted(values).to_multiset() == values.filter(listing()).to_multiset(),
        descending(listed_sorted(values)),
    decreases values.len(),
{
    let keep = listing();
    reveal(Seq::filter);
    if values.len() > 0 {
        let before = listed_sorted(values.drop_last());
        let last = values.last();
        lemma_listed_sorted(values.drop_last());
        if is_listed(last) {
            let p = place_of(before, last) as int;
            lemma_place(before, last);
            vstd::seq_lib::to_multiset_insert(before, p, last);
            vstd::seq_lib::to_multiset_build(values.drop_last().filter(keep), last);
            assert(keep(last));
            assert(values.filter(keep) == values.drop_last().filter(keep).push(last));
            let now = before.insert(p, last);
            assert(listed_sorted(values) == now);
            assert(now.to_multiset() == before.to_multiset().insert(last));
            assert(values.filter(keep).to_multiset() == values.drop_last().filter(
                keep,
            ).to_multiset().insert(last));
            assert(listed_sorted(values).to_multiset() == values.filter(keep).to_multiset());
            assert forall|i: int, j: int| 0 <= i < j < now.len() implies !bytes_lt(
                sort_key(#[trigger] now[i]),
                sort_key(#[trigger] now[j]),
            ) by {
                if j < p {
                    assert(now[i] == before[i] && now[j] == before[j]);
                } else if j == p {
                    assert(now[i] == before[i]);
                } else if i < p {
                    assert(now[i] == before[i] && now[j] == before[j - 1]);
                } else if i == p {
                    assert(now[j] == before[j - 1]);
                    if bytes_lt(sort_key(last), sort_key(before[j - 1])) {
                        lemma_bytes_lt_transitive(
                            sort_key(before[p]),
                            sort_key(last),
                            sort_key(before[j - 1]),
                        );
                        if j - 1 > p {
                            assert(!bytes_lt(sort_key(before[p]), sort_key(before[j - 1])));
                        } else {
                            lemma_bytes_lt_irreflexive(sort_key(before[p]));
                        }
                    }
                } else {
                    assert(now[i] == before[i - 1] && now[j] == before[j - 1]);
                }
            }
        } else {
            assert(!keep(last));
            assert(values.filter(keep) == values.drop_last().filter(keep));
            assert(listed_sorted(values) == before);
        }
    } else {
        assert(listed_sorted(values) == values.filter(keep));
    }
}

/// No string comes before itself.
pub proof fn lemma_bytes_lt_irreflexive(a: Seq<u8>)
    ensures
        !bytes_lt(a, a),
    decreases a.len(),
{
    if a.len() > 0 {
        lemma_bytes_lt_irreflexive(a.drop_first());
    }
}

/// The values at the indices `order`.
pub open spec fn picked(values: Seq<BitSetEnumValue>, order: Seq<usize>) -> Seq<BitSetEnumValue> {
    Seq::new(order.len(), |k: int| values[order[k] as int])
}

/// Whether a value of an enum takes part in the grammar.
pub fn listed(value: &BitSetEnumValue) -> (r: bool)
    ensures
        r == is_listed(*value),
{
    let display = chars_of(value.display.as_str());
    display.len() > 0 && !chars_eq(display.as_slice(), ".____")
}

/// The indices of the values of an enum that take part in the grammar, in
/// the order in which the grammar lists them.
pub fn sort_listed(values: &Vec<BitSetEnumValue>) -> (order: Vec<usize>)
    ensures
        forall|k: int| 0 <= k < order@.len() ==> #[trigger] order@[k] < values@.len(),
        picked(values@, order@) == listed_sorted(values@),
{
    let mut order: Vec<usize> = Vec::new();
    let mut i: usize = 0;
    assert(picked(values@, order@) =~= listed_sorted(values@.take(0)));
    while i < values.len()
        invariant
            i <= values@.len(),
            forall|k: int| 0 <= k < order@.len() ==> #[trigger] order@[k] < values@.len(),
            picked(values@, order@) == listed_sorted(values@.take(i as int)),
        decreases values@.len() - i,
    {
        let ghost before = listed_sorted(values@.take(i as int));
        let value = &values[i];
        proof {
            assert(values@.take(i + 1).drop_last() =~= values@.take(i as int));
            assert(values@.take(i + 1).last() == values@[i as int]);
        }
        if listed(value) {
            let mut p: usize = 0;
            proof {
                assert(before.skip(0) =~= before);
                lemma_place_bound(before, *value);
            }
            while p < order.len() && !str_lt(
                values[order[p]].display.as_str(),
                value.display.as_str(),
            )
                invariant
                    p <= order@.len(),
                    order@.len() == before.len(),
                    i < values@.len(),
                    *value == values@[i as int],
                    forall|k: int| 0 <= k < order@.len() ==> #[trigger] order@[k] < values@.len(),
                    picked(values@, order@) == before,
                    place_of(before, *value) == p + place_of(before.skip(p as int), *value),
                decreases order@.len() - p,
            {
                assert(before.skip(p as int).drop_first() =~= before.skip(p + 1));
                assert(before.skip(p as int)[0] == before[p as int]);
                assert(before[p as int] == values@[order@[p as int] as int]);
                p += 1;
            }
            proof {
                if p < order@.len() {
                    assert(before.skip(p as int)[0] == before[p as int]);
                    assert(before[p as int] == values@[order@[p as int] as int]);
                }
                assert(place_of(before.skip(p as int), *value) == 0);
            }
            let ghost prior = order@;
            order.insert(p, i);
            proof {
                assert(order@ == prior.insert(p as int, i));
                assert(picked(values@, order@) =~= before.insert(p as int, *value)) by {
                    assert forall|k: int| 0 <= k < order@.len() implies picked(values@, order@)[k]
                        == before.insert(p as int, *value)[k] by {
                        if k < p {
                            assert(order@[k] == prior[k]);
                            assert(before[k] == picked(values@, prior)[k]);
                        } else if k > p {
                            assert(order@[k] == prior[k - 1]);
                            assert(before[k - 1] == picked(values@, prior)[k - 1]);
                        }
                    }
                }
                assert forall|k: int| 0 <= k < order@.len() implies #[trigger] order@[k]
                    < values@.len() by {
                    if k < p {
                        assert(order@[k] == prior[k]);
                    } else if k > p {
                        assert(order@[k] == prior[k - 1]);
                    }
                }
            }
        }
        i += 1;
    }
    assert(values@.take(i as int) =~= values@);
    order
}

/// The name of the rule of a value of an enum.
pub open spec fn value_rule(value: BitSetEnumValue) -> Seq<char> {
    spec_upper_camel_case(label(value), false)
}

/// The names of the rules of the values.
pub open spec fn value_rules(values: Seq<BitSetEnumValue>) -> Seq<Seq<char>> {
    Seq::new(values.len(), |k: int| value_rule(values[k]))
}

/// The line that defines the rule of a value: it matches the display of the
/// value.
pub open spec fn value_line(value: BitSetEnumValue) -> Seq<char> {
    "    "@ + value_rule(value) + " = { \""@ + value.display@ + "\" }\n"@
}

/// The lines of the values, one after the other.
pub open spec fn value_lines(values: Seq<BitSetEnumValue>) -> Seq<char>
    decreases values.len(),
{
    if values.len() == 0 {
        Seq::empty()
    } else {
        value_lines(values.drop_last()) + value_line(values.last())
    }
}

/// The rules of an enum: one that offers the rules of its values as
/// alternatives, under the name of the enum without its leading hashes, then
/// the rule of each value, then an empty line.
pub open spec fn enum_block(e: BitSetEnum) -> Seq<char> {
    spec_upper_camel_case(without_leading(e.name@, '#'), true) + " = { "@ + joined(
        value_rules(listed_sorted(e.values@)),
        " | "@,
    ) + " }\n"@ + value_lines(listed_sorted(e.values@)) + "\n"@
}

/// The rules of the enums, one after the other.
pub open spec fn enums_grammar(enums: Seq<BitSetEnum>) -> Seq<char>
    decreases enums.len(),
{
    if enums.len() == 0 {
        Seq::empty()
    } else {
        enums_grammar(enums.drop_last()) + enum_block(enums.last())
    }
}

/// The name of the rule of a value of an enum.
pub fn value_rule_of(value: &BitSetEnumValue) -> (r: Vec<char>)
    ensures
        r@ == value_rule(*value),
{
    let name = match &value.name {
        Some(name) => to_upper_camel_case(name.as_str(), false),
        None => to_upper_camel_case(value.display.as_str(), false),
    };
    chars_of(name.as_str())
}

/// The rules of an enum.
pub fn enum_rules(e: &BitSetEnum) -> (r: Vec<char>)
    ensures
        r@ == enum_block(*e),
{
    let order = sort_listed(&e.values);
    let ghost values = listed_sorted(e.values@);
    let mut names: Vec<Vec<char>> = Vec::new();
    let mut lines: Vec<char> = Vec::new();
    let mut k: usize = 0;
    assert(views(names@) =~= value_rules(values.take(0)));
    while k < order.len()
        invariant
            k <= order@.len(),
            values == listed_sorted(e.values@),
            picked(e.values@, order@) == values,
            forall|j: int| 0 <= j < order@.len() ==> #[trigger] order@[j] < e.values@.len(),
            views(names@) == value_rules(values.take(k as int)),
            lines@ == value_lines(values.take(k as int)),
        decreases order@.len() - k,
    {
        let value = &e.values[order[k]];
        assert(*value == values[k as int]) by {
            assert(picked(e.values@, order@)[k as int] == e.values@[order@[k as int] as int]);
        }
        let rule = value_rule_of(value);
        let ghost before_names = names@;
        append_str(&mut lines, "    ");
        append(&mut lines, rule.as_slice());
        append_str(&mut lines, " = { \"");
        append_str(&mut lines, value.display.as_str());
        append_str(&mut lines, "\" }\n");
        names.push(rule);
        proof {
            assert(values.take(k + 1).drop_last() =~= values.take(k as int));
            assert(values.take(k + 1).last() == values[k as int]);
            assert(picked(e.values@, order@).len() == order@.len());
            assert(values.take(k + 1).len() == k + 1);
            assert(names@ == before_names.push(rule));
            assert(views(before_names).len() == k);
            assert(views(names@).len() == k + 1);
            assert forall|j: int| 0 <= j < k + 1 implies views(names@)[j] == value_rules(
                values.take(k + 1),
            )[j] by {
                if j < k {
                    assert(views(names@)[j] == names@[j]@);
                    assert(views(before_names)[j] == before_names[j]@);
                    assert(value_rules(values.take(k as int))[j] == value_rule(values[j]));
                } else {
                    assert(views(names@)[j] == rule@);
                }
            }
            assert(views(names@) =~= value_rules(values.take(k + 1)));
            assert(lines@ =~= value_lines(values.take(k as int)) + value_line(values[k as int]));
        }
        k += 1;
    }
    assert(values.take(k as int) =~= values);
    let bare = trim_start_matches(chars_of(e.name.as_str()).as_slice(), '#');
    let rule = to_upper_camel_case(string_of(bare.as_slice()).as_str(), true);
    let mut out = chars_of(rule.as_str());
    append_str(&mut out, " = { ");
    append(&mut out, join(&names, " | ").as_slice());
    append_str(&mut out, " }\n");
    append(&mut out, lines.as_slice());
    append_str(&mut out, "\n");
    assert(out@ =~= enum_block(*e));
    out
}

/// Generates PEG grammar rules for enums
///
/// For each enum of the ISA, in the order in which they were inserted, the
/// rules of `enum_block`.
pub fn generate_peg_grammar_enums(isa: &ISA) -> (grammar: String)
    ensures
        grammar@ == enums_grammar(isa.enums.values()),
{
    let mut grammar: Vec<char> = Vec::new();
    let mut i: usize = 0;
    while i < isa.enums.len()
        invariant
            i <= isa.enums.values().len(),
            grammar@ == enums_grammar(isa.enums.values().take(i as int)),
        decreases isa.enums.values().len() - i,
    {
        let block = enum_rules(isa.enums.get_by_index(i));
        append(&mut grammar, block.as_slice());
        proof {
            let now = isa.enums.values().take(i + 1);
            assert(now.drop_last() =~= isa.enums.values().take(i as int));
            assert(now.last() == isa.enums.values()[i as int]);
        }
        i += 1;
    }
    assert(isa.enums.values().take(i as int) =~= isa.enums.values());
    string_of(grammar.as_slice())
}

} // verus!

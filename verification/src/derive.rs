use crate::chars::{append_str, str_eq, string_of, trim_start_matches, without_leading};
use crate::grammar::{
    format_enum_value_str, get_enum_value_str, is_listed, label, listed, spec_enum_value_str,
    value_rule, value_rule_of,
};
use crate::instructions::{instruction, is_instruction};
use crate::isa::{BitSetEnum, BitSetEnumValue, Bitset, ISA};
use crate::text::{chars_of, spec_upper_camel_case, to_upper_camel_case};
use vstd::prelude::*;

verus! {

/// What stands behind the name of an attribute.
pub enum AttrValue {
    /// `name = "..."`: a string.
    Str(String),
    /// `name = ...`: anything but a string.
    Other,
    /// The attribute is not of the form `name = ...`.
    NotNameValue,
}

/// An attribute of the item that the parser is derived for.
pub struct Attr {
    pub name: String,
    pub value: AttrValue,
}

/// Why a parser cannot be derived for an item.
#[derive(Clone, Copy, Debug, PartialEq, Eq, Structural)]
pub enum DeriveError {
    /// No attribute names the ISA file.
    MissingIsa,
    /// No attribute names the file of static rules.
    MissingStaticRules,
    /// The attribute is a string, but its name is not one that names a file.
    NotAPath,
    /// The attribute is not a string.
    NotAString,
    /// The attribute is not of the form `key = "..."`.
    NotNameValue,
}

impl DeriveError {
    /// The words in which the error is reported.
    pub fn message(&self) -> (r: String)
        ensures
            r@ == (match *self {
                DeriveError::MissingIsa =>
                    "An ISA file needs to be provided with the #[isa = \"PATH\"] attribute"@,
                DeriveError::MissingStaticRules =>
                    "A static pest rules file needs to be provided with the #[static_rules_file = \"PATH\"] attribute"@,
                DeriveError::NotAPath => "Attribute must be a file path"@,
                DeriveError::NotAString => "Attribute must be a string"@,
                DeriveError::NotNameValue => "Attribute must be of the form `key = \"...\"`"@,
            }),
    {
        match self {
            DeriveError::MissingIsa => String::from_str(
                "An ISA file needs to be provided with the #[isa = \"PATH\"] attribute",
            ),
            DeriveError::MissingStaticRules => String::from_str(
                "A static pest rules file needs to be provided with the #[static_rules_file = \"PATH\"] attribute",
            ),
            DeriveError::NotAPath => String::from_str("Attribute must be a file path"),
            DeriveError::NotAString => String::from_str("Attribute must be a string"),
            DeriveError::NotNameValue => String::from_str(
                "Attribute must be of the form `key = \"...\"`",
            ),
        }
    }
}

/// The string of an attribute that names a file.
pub open spec fn spec_get_attribute(attr: Attr) -> Result<Seq<char>, DeriveError> {
    match attr.value {
        AttrValue::Str(s) => if attr.name@ == "isa"@ || attr.name@ == "static_rules_file"@ {
            Ok(s@)
        } else {
            Err(DeriveError::NotAPath)
        },
        AttrValue::Other => Err(DeriveError::NotAString),
        AttrValue::NotNameValue => Err(DeriveError::NotNameValue),
    }
}

/// Index of the first attribute of the name `name`, or the number of
/// attributes where none has it.
pub open spec fn first_named(attrs: Seq<Attr>, name: Seq<char>) -> nat
    decreases attrs.len(),
{
    if attrs.len() == 0 || attrs[0].name@ == name {
        0
    } else {
        1 + first_named(attrs.drop_first(), name)
    }
}

/// The file of the first attribute of the name `name`; `missing` where no
/// attribute has that name.
pub open spec fn spec_named_path(attrs: Seq<Attr>, name: Seq<char>, missing: DeriveError) -> Result<
    Seq<char>,
    DeriveError,
> {
    if first_named(attrs, name) < attrs.len() {
        spec_get_attribute(attrs[first_named(attrs, name) as int])
    } else {
        Err(missing)
    }
}

/// The paths to the ISA file and to the file of static rules that the
/// attributes of an item name: each by the first attribute of its name, the
/// ISA first.
pub open spec fn spec_parse_derive(attrs: Seq<Attr>) -> Result<(Seq<char>, Seq<char>), DeriveError> {
    match spec_named_path(attrs, "isa"@, DeriveError::MissingIsa) {
        Err(e) => Err(e),
        Ok(isa) => match spec_named_path(
            attrs,
            "static_rules_file"@,
            DeriveError::MissingStaticRules,
        ) {
            Err(e) => Err(e),
            Ok(rules) => Ok((isa, rules)),
        },
    }
}

/// Extracts the string value from a name-value attribute
pub fn get_attribute(attr: &Attr) -> (r: Result<String, DeriveError>)
    ensures
        match spec_get_attribute(*attr) {
            Ok(s) => r.is_ok() && r.unwrap()@ == s,
            Err(e) => r == Err::<String, DeriveError>(e),
        },
{
    match &attr.value {
        AttrValue::Str(s) => {
            if str_eq(attr.name.as_str(), "isa") || str_eq(attr.name.as_str(), "static_rules_file") {
                Ok(s.clone())
            } else {
                Err(DeriveError::NotAPath)
            }
        },
        AttrValue::Other => Err(DeriveError::NotAString),
        AttrValue::NotNameValue => Err(DeriveError::NotNameValue),
    }
}

fn named_path(attrs: &Vec<Attr>, name: &str, missing: DeriveError) -> (r: Result<
    String,
    DeriveError,
>)
    ensures
        match spec_named_path(attrs@, name@, missing) {
            Ok(s) => r.is_ok() && r.unwrap()@ == s,
            Err(e) => r == Err::<String, DeriveError>(e),
        },
{
    let mut i: usize = 0;
    assert(attrs@.skip(0) =~= attrs@);
    while i < attrs.len()
        invariant
            i <= attrs@.len(),
            first_named(attrs@, name@) == i + first_named(attrs@.skip(i as int), name@),
        decreases attrs@.len() - i,
    {
        assert(attrs@.skip(i as int)[0] == attrs@[i as int]);
        if str_eq(attrs[i].name.as_str(), name) {
            return get_attribute(&attrs[i]);
        }
        assert(attrs@.skip(i as int).drop_first() =~= attrs@.skip(i + 1));
        i += 1;
    }
    Err(missing)
}

/// Parses the derive input to extract file paths from attributes
pub fn parse_derive(attrs: &Vec<Attr>) -> (r: Result<(String, String), DeriveError>)
    ensures
        match spec_parse_derive(attrs@) {
            Ok((isa, rules)) => r.is_ok() && r.unwrap().0@ == isa && r.unwrap().1@ == rules,
            Err(e) => r == Err::<(String, String), DeriveError>(e),
        },
{
    let isa_path = named_path(attrs, "isa", DeriveError::MissingIsa)?;
    let static_rules_path = named_path(
        attrs,
        "static_rules_file",
        DeriveError::MissingStaticRules,
    )?;
    Ok((isa_path, static_rules_path))
}

/// One arm of a conversion from rules: the rule and the variant that it
/// stands for.
pub struct RuleArm {
    pub rule: String,
    pub variant: String,
}

/// A conversion from the rules of the grammar to the variants of a type.
pub struct FromRule {
    pub target: String,
    pub arms: Vec<RuleArm>,
}

/// The name of the type that an enum of the ISA is converted to.
pub open spec fn enum_target(e: BitSetEnum) -> Seq<char> {
    "isa_"@ + without_leading(e.name@, '#')
}

/// The arms of the conversion for the values of an enum that take part in
/// the grammar, as pairs of rule and variant.
pub open spec fn enum_arms(target: Seq<char>, values: Seq<BitSetEnumValue>) -> Seq<
    (Seq<char>, Seq<char>),
>
    decreases values.len(),
{
    if values.len() == 0 {
        Seq::empty()
    } else if is_listed(values.last()) {
        enum_arms(target, values.drop_last()).push(
            (value_rule(values.last()), spec_enum_value_str(target, label(values.last()))),
        )
    } else {
        enum_arms(target, values.drop_last())
    }
}

/// The arms of the conversion for the instructions among the bitsets, as
/// pairs of rule and variant.
pub open spec fn opc_arms(bitsets: Seq<Bitset>) -> Seq<(Seq<char>, Seq<char>)>
    decreases bitsets.len(),
{
    if bitsets.len() == 0 {
        Seq::empty()
    } else if is_instruction(bitsets.last()) {
        opc_arms(bitsets.drop_last()).push(
            (
                spec_upper_camel_case("Opc_"@ + bitsets.last().name@, true),
                spec_enum_value_str("isa_opc"@, bitsets.last().name@),
            ),
        )
    } else {
        opc_arms(bitsets.drop_last())
    }
}

/// The arms as pairs of rule and variant.
pub open spec fn arm_views(arms: Seq<RuleArm>) -> Seq<(Seq<char>, Seq<char>)> {
    Seq::new(arms.len(), |i: int| (arms[i].rule@, arms[i].variant@))
}

/// The conversion from rules for one enum of the ISA.
pub fn from_rule_enum(e: &BitSetEnum) -> (r: FromRule)
    ensures
        r.target@ == enum_target(*e),
        arm_views(r.arms@) == enum_arms(enum_target(*e), e.values@),
{
    let mut name = chars_of("isa_");
    let bare = trim_start_matches(chars_of(e.name.as_str()).as_slice(), '#');
    crate::chars::append(&mut name, bare.as_slice());
    let target = string_of(name.as_slice());
    let mut arms: Vec<RuleArm> = Vec::new();
    let mut i: usize = 0;
    assert(arm_views(arms@) =~= enum_arms(target@, e.values@.take(0)));
    while i < e.values.len()
        invariant
            i <= e.values@.len(),
            target@ == enum_target(*e),
            arm_views(arms@) == enum_arms(target@, e.values@.take(i as int)),
        decreases e.values@.len() - i,
    {
        let value = &e.values[i];
        proof {
            assert(e.values@.take(i + 1).drop_last() =~= e.values@.take(i as int));
            assert(e.values@.take(i + 1).last() == *value);
        }
        if listed(value) {
            let variant = get_enum_value_str(target.as_str(), value);
            let rule = string_of(value_rule_of(value).as_slice());
            let ghost before = arms@;
            arms.push(RuleArm { rule, variant });
            assert(arm_views(arms@) =~= arm_views(before).push((rule@, variant@)));
        }
        i += 1;
    }
    assert(e.values@.take(i as int) =~= e.values@);
    FromRule { target, arms }
}

/// The conversions from rules for the enums of the ISA, in the order in
/// which they were inserted.
pub fn generate_from_rule_impl_enums(isa: &ISA) -> (r: Vec<FromRule>)
    ensures
        r@.len() == isa.enums.values().len(),
        forall|i: int|
            0 <= i < r@.len() ==> (#[trigger] r@[i]).target@ == enum_target(
                isa.enums.values()[i],
            ) && arm_views(r@[i].arms@) == enum_arms(
                enum_target(isa.enums.values()[i]),
                isa.enums.values()[i].values@,
            ),
{
    let mut out: Vec<FromRule> = Vec::new();
    let mut i: usize = 0;
    while i < isa.enums.len()
        invariant
            i <= isa.enums.values().len(),
            out@.len() == i,
            forall|j: int|
                0 <= j < out@.len() ==> (#[trigger] out@[j]).target@ == enum_target(
                    isa.enums.values()[j],
                ) && arm_views(out@[j].arms@) == enum_arms(
                    enum_target(isa.enums.values()[j]),
                    isa.enums.values()[j].values@,
                ),
        decreases isa.enums.values().len() - i,
    {
        out.push(from_rule_enum(isa.enums.get_by_index(i)));
        i += 1;
    }
    out
}

/// The conversion from rules for the opcodes of the ISA: one arm for each
/// instruction, in the order in which the bitsets were inserted.
pub fn generate_from_rule_impl_opc(isa: &ISA) -> (r: FromRule)
    ensures
        r.target@ == "isa_opc"@,
        arm_views(r.arms@) == opc_arms(isa.bitsets.values()),
{
    let mut arms: Vec<RuleArm> = Vec::new();
    let mut i: usize = 0;
    assert(arm_views(arms@) =~= opc_arms(isa.bitsets.values().take(0)));
    while i < isa.bitsets.len()
        invariant
            i <= isa.bitsets.values().len(),
            arm_views(arms@) == opc_arms(isa.bitsets.values().take(i as int)),
        decreases isa.bitsets.values().len() - i,
    {
        let bitset = isa.bitsets.get_by_index(i);
        proof {
            let now = isa.bitsets.values().take(i + 1);
            assert(now.drop_last() =~= isa.bitsets.values().take(i as int));
            assert(now.last() == *bitset);
        }
        if instruction(bitset) {
            let variant = format_enum_value_str("isa_opc", bitset.name.as_str());
            let mut pest_rule = chars_of("Opc_");
            append_str(&mut pest_rule, bitset.name.as_str());
            let rule = to_upper_camel_case(string_of(pest_rule.as_slice()).as_str(), true);
            let ghost before = arms@;
            arms.push(RuleArm { rule, variant });
            assert(arm_views(arms@) =~= arm_views(before).push((rule@, variant@)));
        }
        i += 1;
    }
    assert(isa.bitsets.values().take(i as int) =~= isa.bitsets.values());
    FromRule { target: String::from_str("isa_opc"), arms }
}

} // verus!

use crate::chars::{
    append, append_str, ascii_upper, blank, chars_eq, is_blank, join, joined, parse_usize, pieces,
    spec_parse_usize, split, string_of, to_ascii_uppercase, trim, trimmed, views,
};
use crate::grammar::{enums_grammar, generate_peg_grammar_enums};
use crate::isa::{Bitset, ISA};
use crate::strmap::StrMap;
use crate::text::{chars_of, spec_upper_camel_case, to_upper_camel_case};
use vstd::prelude::*;

verus! {

/// Whether a bitset is an instruction: its name does not start with a hash.
pub open spec fn is_instruction(bitset: Bitset) -> bool {
    !(bitset.name@.len() > 0 && bitset.name@[0] == '#')
}

/// The name of the rule of an instruction.
pub open spec fn opcode(bitset: Bitset) -> Seq<char> {
    "Opc"@ + spec_upper_camel_case(bitset.name@, true)
}

/// The names of the rules of the instructions among the bitsets.
pub open spec fn opcodes(bitsets: Seq<Bitset>) -> Seq<Seq<char>>
    decreases bitsets.len(),
{
    if bitsets.len() == 0 {
        Seq::empty()
    } else if is_instruction(bitsets.last()) {
        opcodes(bitsets.drop_last()).push(opcode(bitsets.last()))
    } else {
        opcodes(bitsets.drop_last())
    }
}

/// The value of `key` in the metadata, or nothing.
pub open spec fn lookup(meta: Map<Seq<char>, Seq<char>>, key: Seq<char>) -> Seq<char> {
    if meta.contains_key(key) {
        meta[key]
    } else {
        Seq::empty()
    }
}

/// The optional rule of a flag of a template. The rounding mode goes by
/// another name in the grammar.
pub open spec fn flag_rule(flag: Seq<char>) -> Seq<char> {
    spec_upper_camel_case(
        if flag == "RMODE"@ {
            "Rounding"@
        } else {
            flag
        },
        false,
    ) + "?"@
}

/// Whether a piece of the display of a template is a flag: not blank, and
/// not the name of the instruction.
pub open spec fn is_flag(piece: Seq<char>) -> bool {
    !is_blank(piece) && piece != "NAME"@
}

/// The optional rules of the flags among the pieces of the display of a
/// template.
pub open spec fn flag_rules(pieces: Seq<Seq<char>>) -> Seq<Seq<char>>
    decreases pieces.len(),
{
    if pieces.len() == 0 {
        Seq::empty()
    } else if is_flag(pieces.last()) {
        flag_rules(pieces.drop_last()).push(flag_rule(pieces.last()))
    } else {
        flag_rules(pieces.drop_last())
    }
}

/// The rule of the destination of an instruction, with the comma after it.
pub open spec fn dest_rule(has_dest: bool, kind: Seq<char>) -> Seq<char> {
    if has_dest && kind == "load_store"@ {
        "(Dest | DstMemAddr) ~ \",\""@
    } else if has_dest {
        "Dest ~ \",\""@
    } else {
        "DestVoid ~ \",\""@
    }
}

/// Whether one of the tokens writes the number `i`.
pub open spec fn names_source(tokens: Seq<Seq<char>>, i: usize) -> bool {
    exists|k: int| 0 <= k < tokens.len() && #[trigger] spec_parse_usize(tokens[k]) == Some(i)
}

/// The rules of the first `n` of `possible` sources, with a comma between
/// each two: a source that the tokens name is a source, any other is void.
pub open spec fn source_rules(tokens: Seq<Seq<char>>, possible: usize, n: nat) -> Seq<Seq<char>>
    decreases n,
{
    if n == 0 {
        Seq::empty()
    } else {
        let before = source_rules(tokens, possible, (n - 1) as nat);
        let source = if names_source(tokens, (n - 1) as usize) {
            "Src"@
        } else {
            "SrcVoid"@
        };
        if n < possible {
            before.push(source).push("\",\""@)
        } else {
            before.push(source)
        }
    }
}

/// Number of sources that an instruction of a kind can have.
pub open spec fn possible_sources(kind: Seq<char>) -> usize {
    if kind == "cf"@ {
        2
    } else {
        3
    }
}

/// The flags of the template of a kind of instruction: the display of the
/// template `INSTR_` and the kind in upper case, trimmed, or nothing where
/// there is no such template.
pub open spec fn flags_of(isa: ISA, kind: Seq<char>) -> Seq<char> {
    match isa.templates.spec_get("INSTR_"@ + ascii_upper(kind)) {
        Some(template) => trimmed(template.display@),
        None => Seq::empty(),
    }
}

/// The parts of the rule of an instruction, from the metadata `meta` that
/// was collected for it: its name in quotes, the optional rules of the flags
/// of its kind, the rule of its destination, for a texture instruction the
/// texture source, the rules of its sources, and for a control-flow
/// instruction the target.
pub open spec fn rule_parts(isa: ISA, bitset: Bitset, meta: Map<Seq<char>, Seq<char>>) -> Seq<
    Seq<char>,
> {
    let kind = lookup(meta, "type"@);
    seq!["\""@ + bitset.name@ + "\""@] + flag_rules(pieces(flags_of(isa, kind), '{', '}')) + seq![
        dest_rule(lookup(meta, "has_dest"@) == "true"@, kind),
    ] + (if kind == "tex"@ {
        seq!["TexSrc ~ \",\""@]
    } else {
        Seq::empty()
    }) + source_rules(
        pieces(lookup(meta, "valid_srcs"@), '|', '|'),
        possible_sources(kind),
        possible_sources(kind) as nat,
    ) + (if kind == "cf"@ {
        seq!["\",\""@, "Target"@]
    } else {
        Seq::empty()
    })
}

/// The line that defines the rule of an instruction: its parts in sequence.
pub open spec fn instruction_rule(isa: ISA, bitset: Bitset) -> Seq<char> {
    "    "@ + opcode(bitset) + " = { "@ + joined(
        rule_parts(
            isa,
            bitset,
            isa.spec_collect_meta(bitset.name@, isa.bitsets.values().len()),
        ),
        " ~ "@,
    ) + " }\n"@
}

/// The lines of the instructions among the bitsets, one after the other.
pub open spec fn instruction_rules(isa: ISA, bitsets: Seq<Bitset>) -> Seq<char>
    decreases bitsets.len(),
{
    if bitsets.len() == 0 {
        Seq::empty()
    } else if is_instruction(bitsets.last()) {
        instruction_rules(isa, bitsets.drop_last()) + instruction_rule(isa, bitsets.last())
    } else {
        instruction_rules(isa, bitsets.drop_last())
    }
}

/// The rules of the instructions: one that offers the rule of every
/// instruction as an alternative, then the rule of each instruction.
pub open spec fn instructions_grammar(isa: ISA) -> Seq<char> {
    "instruction = _{ "@ + joined(opcodes(isa.bitsets.values()), " | "@) + " }\n"@
        + instruction_rules(isa, isa.bitsets.values())
}

/// The whole grammar that is generated from an ISA: the rules of its enums,
/// the rules of its instructions, and the rule of a list of instructions.
pub open spec fn peg_grammar(isa: ISA) -> Seq<char> {
    enums_grammar(isa.enums.values()) + instructions_grammar(isa)
        + "instructions = _{ SOI ~ (instruction ~ NEWLINE?)* ~ EOI }"@
}

/// Adding a part adds its view.
pub proof fn lemma_views_push(parts: Seq<Vec<char>>, part: Vec<char>)
    ensures
        views(parts.push(part)) == views(parts).push(part@),
{
    assert(views(parts.push(part)) =~= views(parts).push(part@));
}

/// Adds the text `text` to the parts.
pub fn push_text(parts: &mut Vec<Vec<char>>, text: &str)
    ensures
        views(final(parts)@) == views(old(parts)@).push(text@),
{
    let part = chars_of(text);
    proof {
        lemma_views_push(parts@, part);
    }
    parts.push(part);
}

/// Adds the characters `part` to the parts.
pub fn push_part(parts: &mut Vec<Vec<char>>, part: Vec<char>)
    ensures
        views(final(parts)@) == views(old(parts)@).push(part@),
{
    proof {
        lemma_views_push(parts@, part);
    }
    parts.push(part);
}

/// Whether a bitset is an instruction.
pub fn instruction(bitset: &Bitset) -> (r: bool)
    ensures
        r == is_instruction(*bitset),
{
    let name = chars_of(bitset.name.as_str());
    !(name.len() > 0 && name[0] == '#')
}

/// The name of the rule of an instruction.
pub fn opcode_of(bitset: &Bitset) -> (r: Vec<char>)
    ensures
        r@ == opcode(*bitset),
{
    let mut out = chars_of("Opc");
    append_str(&mut out, to_upper_camel_case(bitset.name.as_str(), true).as_str());
    out
}

/// The value of `key` in the metadata, or nothing.
pub fn lookup_in(meta: &StrMap, key: &str) -> (r: Vec<char>)
    ensures
        r@ == lookup(meta@, key@),
{
    match meta.get(key) {
        Some(value) => chars_of(value.as_str()),
        None => Vec::new(),
    }
}

/// Adds the optional rules of the flags of a template to the parts.
pub fn push_flag_rules(parts: &mut Vec<Vec<char>>, flags: &[char])
    ensures
        views(final(parts)@) == views(old(parts)@) + flag_rules(pieces(flags@, '{', '}')),
{
    let found = split(flags, '{', '}');
    let ghost all = views(found@);
    let mut i: usize = 0;
    assert(views(parts@) =~= views(old(parts)@) + flag_rules(all.take(0)));
    while i < found.len()
        invariant
            i <= found@.len(),
            all == views(found@),
            views(parts@) == views(old(parts)@) + flag_rules(all.take(i as int)),
        decreases found@.len() - i,
    {
        let piece = &found[i];
        proof {
            assert(all.take(i + 1).drop_last() =~= all.take(i as int));
            assert(all.take(i + 1).last() == piece@);
        }
        if !blank(piece.as_slice()) && !chars_eq(piece.as_slice(), "NAME") {
            let name = if chars_eq(piece.as_slice(), "RMODE") {
                to_upper_camel_case("Rounding", false)
            } else {
                to_upper_camel_case(string_of(piece.as_slice()).as_str(), false)
            };
            let mut rule = chars_of(name.as_str());
            append_str(&mut rule, "?");
            let ghost before = views(parts@);
            push_part(parts, rule);
            assert(views(parts@) =~= views(old(parts)@) + flag_rules(all.take(i + 1)));
        }
        i += 1;
    }
    assert(all.take(i as int) =~= all);
}

/// Whether one of the tokens writes the number `i`.
pub fn source_named(tokens: &Vec<Vec<char>>, i: usize) -> (r: bool)
    ensures
        r == names_source(views(tokens@), i),
{
    let mut k: usize = 0;
    while k < tokens.len()
        invariant
            k <= tokens@.len(),
            forall|j: int| 0 <= j < k ==> #[trigger] spec_parse_usize(views(tokens@)[j]) != Some(i),
        decreases tokens@.len() - k,
    {
        assert(views(tokens@)[k as int] == tokens@[k as int]@);
        match parse_usize(tokens[k].as_slice()) {
            Some(v) => {
                if v == i {
                    return true;
                }
            },
            None => {},
        }
        k += 1;
    }
    false
}

/// Adds the rules of the sources of an instruction to the parts.
pub fn push_source_rules(parts: &mut Vec<Vec<char>>, valid_srcs: &[char], possible: usize)
    ensures
        views(final(parts)@) == views(old(parts)@) + source_rules(
            pieces(valid_srcs@, '|', '|'),
            possible,
            possible as nat,
        ),
{
    let tokens = split(valid_srcs, '|', '|');
    let mut i: usize = 0;
    assert(views(parts@) =~= views(old(parts)@) + source_rules(views(tokens@), possible, 0));
    while i < possible
        invariant
            i <= possible,
            views(tokens@) == pieces(valid_srcs@, '|', '|'),
            views(parts@) == views(old(parts)@) + source_rules(views(tokens@), possible, i as nat),
        decreases possible - i,
    {
        let ghost before = views(parts@);
        if source_named(&tokens, i) {
            push_text(parts, "Src");
        } else {
            push_text(parts, "SrcVoid");
        }
        if i + 1 < possible {
            push_text(parts, "\",\"");
        }
        assert(views(parts@) =~= views(old(parts)@) + source_rules(
            views(tokens@),
            possible,
            (i + 1) as nat,
        ));
        i += 1;
    }
}

/// The parts of the rule of an instruction, from the metadata that was
/// collected for it.
pub fn rule_parts_of(isa: &ISA, bitset: &Bitset, meta: &StrMap) -> (r: Vec<Vec<char>>)
    ensures
        views(r@) == rule_parts(*isa, *bitset, meta@),
{
    let kind = lookup_in(meta, "type");
    let mut parts: Vec<Vec<char>> = Vec::new();
    let mut quoted = chars_of("\"");
    append_str(&mut quoted, bitset.name.as_str());
    append_str(&mut quoted, "\"");
    push_part(&mut parts, quoted);
    assert(views(parts@) =~= seq!["\""@ + bitset.name@ + "\""@]);

    let mut key = chars_of("INSTR_");
    append(&mut key, to_ascii_uppercase(kind.as_slice()).as_slice());
    let flags = match isa.templates.get_by_key(string_of(key.as_slice()).as_str()) {
        Some(template) => trim(chars_of(template.display.as_str()).as_slice()),
        None => Vec::new(),
    };
    assert(flags@ == flags_of(*isa, kind@));
    push_flag_rules(&mut parts, flags.as_slice());

    let has_dest = chars_eq(lookup_in(meta, "has_dest").as_slice(), "true");
    let dest = if has_dest && chars_eq(kind.as_slice(), "load_store") {
        "(Dest | DstMemAddr) ~ \",\""
    } else if has_dest {
        "Dest ~ \",\""
    } else {
        "DestVoid ~ \",\""
    };
    push_text(&mut parts, dest);

    if chars_eq(kind.as_slice(), "tex") {
        push_text(&mut parts, "TexSrc ~ \",\"");
    }
    let ghost head = views(parts@);
    assert(head =~= seq!["\""@ + bitset.name@ + "\""@] + flag_rules(
        pieces(flags_of(*isa, kind@), '{', '}'),
    ) + seq![dest_rule(lookup(meta@, "has_dest"@) == "true"@, kind@)] + (if kind@ == "tex"@ {
        seq!["TexSrc ~ \",\""@]
    } else {
        Seq::empty()
    }));

    let is_cf = chars_eq(kind.as_slice(), "cf");
    let possible: usize = if is_cf {
        2
    } else {
        3
    };
    let valid_srcs = lookup_in(meta, "valid_srcs");
    push_source_rules(&mut parts, valid_srcs.as_slice(), possible);
    let ghost body = views(parts@);

    if is_cf {
        push_text(&mut parts, "\",\"");
        push_text(&mut parts, "Target");
        assert(views(parts@) =~= body + seq!["\",\""@, "Target"@]);
    } else {
        assert(views(parts@) =~= body + Seq::<Seq<char>>::empty());
    }
    parts
}

/// The line that defines the rule of an instruction.
pub fn instruction_rule_of(isa: &ISA, bitset: &Bitset) -> (r: Vec<char>)
    ensures
        r@ == instruction_rule(*isa, *bitset),
{
    let meta = isa.collect_meta(bitset.name.as_str());
    let parts = rule_parts_of(isa, bitset, &meta);
    let mut out = chars_of("    ");
    append(&mut out, opcode_of(bitset).as_slice());
    append_str(&mut out, " = { ");
    append(&mut out, join(&parts, " ~ ").as_slice());
    append_str(&mut out, " }\n");
    out
}

/// Generates PEG grammar rules for instructions
///
/// The bitsets of the ISA whose names do not start with a hash are its
/// instructions; they are taken in the order in which they were inserted.
pub fn generate_peg_grammar_instructions(isa: &ISA) -> (grammar: String)
    ensures
        grammar@ == instructions_grammar(*isa),
{
    let mut names: Vec<Vec<char>> = Vec::new();
    let mut rules: Vec<char> = Vec::new();
    let mut i: usize = 0;
    assert(views(names@) =~= opcodes(isa.bitsets.values().take(0)));
    while i < isa.bitsets.len()
        invariant
            i <= isa.bitsets.values().len(),
            views(names@) == opcodes(isa.bitsets.values().take(i as int)),
            rules@ == instruction_rules(*isa, isa.bitsets.values().take(i as int)),
        decreases isa.bitsets.values().len() - i,
    {
        let bitset = isa.bitsets.get_by_index(i);
        proof {
            let now = isa.bitsets.values().take(i + 1);
            assert(now.drop_last() =~= isa.bitsets.values().take(i as int));
            assert(now.last() == *bitset);
        }
        if instruction(bitset) {
            push_part(&mut names, opcode_of(bitset));
            append(&mut rules, instruction_rule_of(isa, bitset).as_slice());
        }
        i += 1;
    }
    assert(isa.bitsets.values().take(i as int) =~= isa.bitsets.values());
    let mut out = chars_of("instruction = _{ ");
    append(&mut out, join(&names, " | ").as_slice());
    append_str(&mut out, " }\n");
    append(&mut out, rules.as_slice());
    string_of(out.as_slice())
}

/// Combines the PEG grammar rules for enums and instructions
pub fn generate_peg_grammar(isa: &ISA) -> (grammar: String)
    ensures
        grammar@ == peg_grammar(*isa),
{
    let mut grammar = String::new();
    grammar.append(generate_peg_grammar_enums(isa).as_str());
    grammar.append(generate_peg_grammar_instructions(isa).as_str());
    grammar.append("instructions = _{ SOI ~ (instruction ~ NEWLINE?)* ~ EOI }");
    assert(grammar@ =~= peg_grammar(*isa));
    grammar
}

} // verus!

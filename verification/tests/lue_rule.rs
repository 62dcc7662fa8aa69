use arc700::soc::lue::port::Quad;
use arc700::soc::lue::rule::{
    Action, ActionPayload, Clause, Entry, Field, Link, Op, LINK_AND_NEXT,
};

fn observed_clauses() -> Vec<Clause> {
    vec![
        Clause { field: Field::from_code(0x02), op: Op::Eq, shift: 0x30, anchor: 0, operand: 0x8809 },
        Clause { field: Field::from_code(0x02), op: Op::Eq, shift: 0x30, anchor: 0, operand: 0x8808 },
        Clause { field: Field::from_code(0x02), op: Op::Eq, shift: 0x00, anchor: 0, operand: 0x888E },
        Clause { field: Field::from_code(0x03), op: Op::NotExists, shift: 0x3F, anchor: 0, operand: 0 },
        Clause { field: Field::from_code(0x04), op: Op::NotExists, shift: 0x3F, anchor: 0, operand: 0 },
        Clause { field: Field::from_code(0x10), op: Op::Eq, shift: 0x30, anchor: 8, operand: 0x0300 },
        Clause { field: Field::from_code(0x0F), op: Op::Ge, shift: 0x38, anchor: 0, operand: 0x20 },
        Clause { field: Field::from_code(0x10), op: Op::Le, shift: 0x30, anchor: 0, operand: 6 },
    ]
}

const OBSERVED_HEADERS: [u32; 8] = [
    0xF030_0021, 0xF030_0021, 0xF000_0021, 0xF03F_0036,
    0xF03F_0046, 0xF030_2101, 0xF038_00F4, 0xF030_0103,
];

#[test]
fn clause_headers_match_the_ones_hardware_returned() {
    for (clause, expected) in observed_clauses().iter().zip(OBSERVED_HEADERS) {
        assert_eq!(clause.header(), expected, "for {clause:?}");
    }
}

#[test]
fn every_observed_clause_round_trips() {
    for clause in observed_clauses() {
        let entry = Entry::Clause { clause, link: Link::AndNext };
        assert_eq!(Entry::decode(entry.encode()), entry);
    }
}

#[test]
fn operator_and_field_codes_round_trip() {
    for code in 0..16u8 {
        assert_eq!(Op::from_code(code).code(), code);
    }
    for code in 0..64u8 {
        assert_eq!(Field::from_code(code).code(), code);
    }
    assert_eq!(Field::from_code(0x02), Field::EtherType);
    assert!(matches!(Field::from_code(0x10), Field::Observed(0x10)));
    assert!(matches!(Field::from_code(0x3F), Field::Unknown(0x3F)));
}

#[test]
fn the_shift_field_says_how_wide_the_comparison_is() {
    let wide = observed_clauses()[2];
    assert_eq!(wide.compared_bits(), 64);
    let narrow = observed_clauses()[0];
    assert_eq!(narrow.compared_bits(), 16);
}

#[test]
fn the_two_observed_action_words_decode_to_one_type_at_two_priorities() {
    let a = Action::decode(0x0270_0000);
    let b = Action::decode(0x0070_0000);
    assert_eq!(a.payload, ActionPayload::Simple { type_code: 6 });
    assert_eq!(b.payload, ActionPayload::Simple { type_code: 6 });
    assert_eq!(a.priority, 2);
    assert_eq!(b.priority, 0);
    assert_eq!(a.encode(), 0x0270_0000);
    assert_eq!(b.encode(), 0x0070_0000);
}

#[test]
fn an_unrecognised_entry_survives_verbatim() {
    for words in [
        [0x0123_4567u32, 0x89AB_CDEF, 0x0000_0000, 0xFFFF_FFFF],
        [0x0000_0000, 0, 0, 0],
        [0xE000_0000, 0xDEAD_BEEF, 0xCAFE_F00D, 0x5A5A_5A5A],
    ] {
        let q = Quad::new(words);
        let entry = Entry::decode(q);
        assert!(matches!(entry, Entry::Raw(_)));
        assert_eq!(entry.encode(), q);
    }
}

#[test]
fn every_action_word_round_trips_even_undecoded() {
    for word in [
        0x0270_0000u32, 0x0070_0000, 0x0F60_0000, 0xE000_0000, 0xE300_0000,
        0x2001_2345, 0x8F01_2345, 0x1000_0000, 0xFFFF_FFFF, 0x0000_0001,
    ] {
        assert_eq!(Action::decode(word).encode(), word, "for {word:#010x}");
    }
}

#[test]
fn a_rule_chains_until_a_word_that_is_not_the_link() {
    let clause = observed_clauses()[0];
    let linked = Entry::Clause { clause, link: Link::AndNext };
    assert_eq!(linked.encode().words[3], LINK_AND_NEXT);

    let terminal = Entry::Clause {
        clause,
        link: Link::Terminal(Action {
            priority: 2,
            payload: ActionPayload::Simple { type_code: 6 },
        }),
    };
    assert_eq!(terminal.encode().words[3], 0x0270_0000);
    assert_eq!(Entry::decode(terminal.encode()), terminal);
}

#[test]
fn an_entry_with_reserved_header_bits_survives_verbatim() {
    let quad = Quad::new([0xFFC0_0021, 0, 0x8809, 0x0270_0000]);
    assert_eq!(Entry::decode(quad), Entry::Raw(quad));
    assert_eq!(Entry::decode(quad).encode(), quad);
    assert!(Clause::from_header(0xF040_0021, 0).is_none());
    assert!(Clause::from_header(0xF030_0021, 0).is_some());
}

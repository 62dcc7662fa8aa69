use arc700::soc::lue::engine::{compare, Engine, EngineCounters, RuleStart, Verdict};
use arc700::soc::lue::fallback::{EtherType, Slot};
use arc700::soc::lue::port::{LuePort, Quad, CMD_GO, CMD_WRITE};
use arc700::soc::lue::rule::{
    Action, ActionPayload, Clause, Entry, Field, Link, Op, Rule, LINK_AND_NEXT,
};

fn program(port: &mut LuePort, table: u8, index: u16, entry: Entry) {
    for (i, w) in entry.encode().to_regs().iter().enumerate() {
        port.write_data(i, *w);
    }
    port.write_cmd(CMD_GO | CMD_WRITE | ((table as u32) << 12) | index as u32);
}

fn frame_with_ethertype(et: u16) -> Vec<u8> {
    let mut f = vec![0u8; 64];
    f[12] = (et >> 8) as u8;
    f[13] = et as u8;
    f
}

fn ethertype_rule(et: u16, priority: u8) -> Entry {
    Entry::Clause {
        clause: Clause {
            field: Field::EtherType,
            op: Op::Eq,
            shift: 0x30,
            anchor: 0,
            operand: et as u64,
        },
        link: Link::Terminal(Action {
            priority,
            payload: ActionPayload::Simple { type_code: 6 },
        }),
    }
}

#[test]
fn a_single_clause_rule_matches_its_ethertype_and_nothing_else() {
    let mut port = LuePort::new();
    program(&mut port, 3, 0x40, ethertype_rule(0x8809, 2));
    let rules = [RuleStart { table: 3, index: 0x40 }];
    let mut c = EngineCounters::default();

    let v = Engine::classify(&port, &rules, &frame_with_ethertype(0x8809), &mut c);
    assert!(matches!(v, Verdict::Match { priority: 2, .. }));

    let v = Engine::classify(&port, &rules, &frame_with_ethertype(0x8808), &mut c);
    assert_eq!(v, Verdict::NoMatch);
    assert!(c.verdicts_accounted_for(), "{c:?}");
}

#[test]
fn chained_clauses_must_all_match() {
    let mut port = LuePort::new();
    program(&mut port, 3, 0x10, Entry::Clause {
        clause: Clause {
            field: Field::EtherType,
            op: Op::Eq,
            shift: 0x30,
            anchor: 0,
            operand: 0x8809,
        },
        link: Link::AndNext,
    });
    program(&mut port, 3, 0x11, Entry::Clause {
        clause: Clause {
            field: Field::from_code(0x00),
            op: Op::Eq,
            shift: 0x10,
            anchor: 0,
            operand: 0x0180_C200_0001,
        },
        link: Link::Terminal(Action {
            priority: 1,
            payload: ActionPayload::Simple { type_code: 6 },
        }),
    });
    let rules = [RuleStart { table: 3, index: 0x10 }];
    let mut c = EngineCounters::default();

    let mut good = frame_with_ethertype(0x8809);
    good[0..6].copy_from_slice(&[0x01, 0x80, 0xC2, 0x00, 0x00, 0x01]);
    assert!(matches!(
        Engine::classify(&port, &rules, &good, &mut c),
        Verdict::Match { .. }
    ));

    let bad = frame_with_ethertype(0x8809);
    assert_eq!(Engine::classify(&port, &rules, &bad, &mut c), Verdict::NoMatch);
}

#[test]
fn an_unexplained_field_is_undecidable_and_counted() {
    let mut port = LuePort::new();
    for code in [0x03u8, 0x04, 0x0F] {
        program(&mut port, 3, 0x20, Entry::Clause {
            clause: Clause {
                field: Field::from_code(code),
                op: Op::Eq,
                shift: 0x3F,
                anchor: 0,
                operand: 0,
            },
            link: Link::Terminal(Action {
                priority: 0,
                payload: ActionPayload::Simple { type_code: 6 },
            }),
        });
        let mut c = EngineCounters::default();
        let v = Engine::classify(
            &port,
            &[RuleStart { table: 3, index: 0x20 }],
            &frame_with_ethertype(0x8809),
            &mut c,
        );
        assert!(matches!(v, Verdict::Undecidable { .. }), "field {code:#04x}");
        assert_eq!(c.undecidable_field, 1);
        assert!(c.verdicts_accounted_for(), "{c:?}");
    }
}

#[test]
fn the_default_extractor_reads_the_two_octets_after_the_type_field() {
    let mut frame = frame_with_ethertype(0x8808);
    for (word, opcode_in_range) in [(2u16, true), (6, true), (1, false), (7, false)] {
        frame[14] = (word >> 8) as u8;
        frame[15] = word as u8;
        let lower = Clause {
            field: Field::from_code(0x10),
            op: Op::Ge,
            shift: 0x30,
            anchor: 0,
            operand: 2,
        };
        let upper = Clause { op: Op::Le, operand: 6, ..lower };
        let got = Engine::test_clause(&lower, &frame).unwrap()
            && Engine::test_clause(&upper, &frame).unwrap();
        assert_eq!(got, opcode_in_range, "opcode {word}");
    }

    let subtype = Clause {
        field: Field::from_code(0x10),
        op: Op::Eq,
        shift: 0x30,
        anchor: 8,
        operand: 0x0300,
    };
    let mut slow = frame_with_ethertype(0x8809);
    for (hi, lo, expected) in [(0x03u8, 0x00u8, true), (0x03, 0xFF, true), (0x01, 0x00, false)]
    {
        slow[14] = hi;
        slow[15] = lo;
        assert_eq!(Engine::test_clause(&subtype, &slow), Ok(expected), "{hi:#04x}{lo:02x}");
    }

    let mut tagged = frame_with_ethertype(0x8100);
    tagged[14] = 0;
    tagged[15] = 2;
    assert!(Engine::test_clause(&subtype, &tagged).is_err());

    for code in [0x11u8, 0x12, 0x16] {
        let c = Clause { field: Field::from_code(code), ..subtype };
        assert!(Engine::test_clause(&c, &slow).is_err(), "field {code:#04x}");
    }
}

#[test]
fn the_window_ends_reproduce_the_address_blocks_they_encode() {
    let v4 = Clause {
        field: Field::from_code(0x00),
        op: Op::Eq,
        shift: 0,
        anchor: 23,
        operand: 0x0000_0100_5E00_0100,
    };
    assert_eq!(v4.compared_bits(), 41);
    let v6 = Clause { anchor: 32, operand: 0x0000_3333_0000_0100, ..v4 };
    assert_eq!(v6.compared_bits(), 32);
    let group = Clause { shift: 23, anchor: 40, operand: 0x0000_0100_0000_0000, ..v4 };
    assert_eq!(group.compared_bits(), 1);

    let mac = |m: [u8; 6]| m.iter().fold(0u64, |a, &b| (a << 8) | b as u64);
    for (clause, addr, expected, what) in [
        (v4, [0x01, 0x00, 0x5E, 0x00, 0x00, 0x00], true, "block start"),
        (v4, [0x01, 0x00, 0x5E, 0x7F, 0xFF, 0xFF], true, "block end"),
        (v4, [0x01, 0x00, 0x5E, 0x80, 0x00, 0x00], false, "just past the block"),
        (v4, [0x01, 0x00, 0x5F, 0x00, 0x00, 0x00], false, "neighbouring prefix"),
        (v6, [0x33, 0x33, 0x00, 0x00, 0x00, 0x01], true, "IPv6 block"),
        (v6, [0x33, 0x33, 0xFF, 0xFF, 0xFF, 0xFF], true, "IPv6 block end"),
        (v6, [0x33, 0x34, 0x00, 0x00, 0x00, 0x00], false, "IPv6 neighbour"),
        (group, [0x01, 0x00, 0x00, 0x00, 0x00, 0x00], true, "group bit set"),
        (group, [0x00, 0x00, 0x00, 0x00, 0x00, 0x00], false, "group bit clear"),
        (group, [0xFF; 6], true, "broadcast is a group address"),
    ] {
        let got = compare(
            clause.op,
            mac(addr),
            clause.operand,
            clause.anchor as u32,
            clause.compared_bits(),
        );
        assert_eq!(got, Some(expected), "{what}: {addr:02X?}");
    }
}

#[test]
fn an_anchored_clause_selects_the_octet_it_was_written_for() {
    let subtype = Clause {
        field: Field::EtherType,
        op: Op::Eq,
        shift: 0x30,
        anchor: 8,
        operand: 0x0300,
    };
    assert_eq!(subtype.compared_bits(), 8, "one octet, not two");
    let test = |v: u64| {
        compare(subtype.op, v, subtype.operand, subtype.anchor as u32, subtype.compared_bits())
    };
    assert_eq!(test(0x0300), Some(true));
    assert_eq!(test(0x0350), Some(true), "the flags octet is outside the window");
    assert_eq!(test(0x03FF), Some(true));
    assert_eq!(test(0x0100), Some(false), "LACP is subtype 0x01");
    assert_eq!(test(0x0200), Some(false));
}

#[test]
fn a_zero_anchor_compares_the_same_bits_it_always_did() {
    for shift in [0u8, 0x10, 0x30, 0x38, 0x3F] {
        let c = Clause {
            field: Field::EtherType,
            op: Op::Eq,
            shift,
            anchor: 0,
            operand: 0,
        };
        assert_eq!(c.compared_bits(), 64 - shift as u32);
    }
}

#[test]
fn an_empty_window_is_undecidable_and_counted() {
    let mut port = LuePort::new();
    program(&mut port, 3, 0x30, Entry::Clause {
        clause: Clause {
            field: Field::EtherType,
            op: Op::Eq,
            shift: 0x30,
            anchor: 0x30,
            operand: 0x8809,
        },
        link: Link::Terminal(Action {
            priority: 0,
            payload: ActionPayload::Simple { type_code: 6 },
        }),
    });
    let mut c = EngineCounters::default();
    let v = Engine::classify(
        &port,
        &[RuleStart { table: 3, index: 0x30 }],
        &frame_with_ethertype(0x8809),
        &mut c,
    );
    assert!(matches!(v, Verdict::Undecidable { .. }));
    assert_eq!(c.undecidable_window, 1);
    assert!(c.verdicts_accounted_for(), "{c:?}");
}

#[test]
fn an_empty_table_is_undecidable_not_a_miss() {
    let port = LuePort::new();
    let mut c = EngineCounters::default();
    let v = Engine::classify(
        &port,
        &[RuleStart { table: 3, index: 0 }],
        &frame_with_ethertype(0x8809),
        &mut c,
    );
    assert!(matches!(v, Verdict::Undecidable { .. }));
    assert_eq!(c.unterminated_rules, 1);
    assert_eq!(c.matched, 0, "an empty table must never match");
}

#[test]
fn a_rule_set_where_the_two_readings_disagree() {
    let mut port = LuePort::new();
    program(&mut port, 3, 0x50, ethertype_rule(0x8809, 1));
    program(&mut port, 3, 0x51, ethertype_rule(0x8809, 3));
    let mut c = EngineCounters::default();
    let v = Engine::classify(
        &port,
        &[RuleStart { table: 3, index: 0x50 }, RuleStart { table: 3, index: 0x51 }],
        &frame_with_ethertype(0x8809),
        &mut c,
    );
    assert_eq!(
        v,
        Verdict::Match {
            priority: 3,
            actions: vec![Action {
                priority: 3,
                payload: ActionPayload::Simple { type_code: 6 }
            }]
        },
        "highest priority wins; stop-at-first would have said 1"
    );
}

#[test]
fn the_queue_result_is_found_past_the_first_action_word() {
    let queue = Action {
        priority: 1,
        payload: ActionPayload::Selected { sel: 2, sub: 0, field: 0x010, wide: true },
    };
    let rule = Rule {
        clauses: vec![Clause {
            field: Field::EtherType,
            op: Op::Eq,
            shift: 0x30,
            anchor: 0,
            operand: 0x8808,
        }],
        actions: vec![
            Action { priority: 1, payload: ActionPayload::Simple { type_code: 7 } },
            Action { priority: 1, payload: ActionPayload::Simple { type_code: 3 } },
            queue,
        ],
    };
    assert_eq!(rule.destination_queue(), Some(0x10));

    let mut port = LuePort::new();
    for (step, quad) in rule.encode().iter().enumerate() {
        for (i, w) in quad.to_regs().iter().enumerate() {
            port.write_data(i, *w);
        }
        port.write_cmd(CMD_GO | CMD_WRITE | (8 << 12) | (0x34 + step as u32));
    }
    assert_eq!(port.entry_count(8), 2);
    assert_eq!(port.rule_starts(8), vec![0x34]);

    let mut c = EngineCounters::default();
    let v = Engine::classify(
        &port,
        &[RuleStart { table: 8, index: 0x34 }],
        &frame_with_ethertype(0x8808),
        &mut c,
    );
    let Verdict::Match { actions, .. } = v else { panic!("expected a match, got {v:?}") };
    assert_eq!(actions.len(), 3, "the whole list survives classification");
    assert_eq!(actions.iter().find_map(Action::destination_queue), Some(0x10));
    assert_eq!(actions[0].destination_queue(), None);
}

#[test]
fn the_verdict_and_the_ethertype_fallback_are_compared_not_conflated() {
    let mut port = LuePort::new();
    program(&mut port, 3, 0x60, ethertype_rule(0x8809, 2));
    let rules = [RuleStart { table: 3, index: 0x60 }];
    let mut c = EngineCounters::default();

    let control = frame_with_ethertype(EtherType::SlowProtocol.as_u16());
    assert_eq!(Slot::for_frame(&control), Slot::Control);
    assert!(matches!(
        Engine::classify(&port, &rules, &control, &mut c),
        Verdict::Match { .. }
    ));

    let data = frame_with_ethertype(0x0800);
    assert_eq!(Slot::for_frame(&data), Slot::Data);
    assert_eq!(Engine::classify(&port, &rules, &data, &mut c), Verdict::NoMatch);
    assert!(c.verdicts_accounted_for(), "{c:?}");
}

#[test]
fn an_entry_that_is_not_a_clause_is_undecidable() {
    let mut port = LuePort::new();
    for (i, w) in Quad::new([0x0123_4567, 0, 0, LINK_AND_NEXT]).to_regs().iter().enumerate() {
        port.write_data(i, *w);
    }
    port.write_cmd(CMD_GO | CMD_WRITE | (3 << 12) | 0x70);
    let mut c = EngineCounters::default();
    let v = Engine::classify(
        &port,
        &[RuleStart { table: 3, index: 0x70 }],
        &frame_with_ethertype(0x8809),
        &mut c,
    );
    assert!(matches!(v, Verdict::Undecidable { .. }));
    assert_eq!(c.undecidable_entry, 1);
}

use spellcasting_parser::{
    Cst, Executable, ExecutablePart, ExecutableParamsChild, ExecutableParamsNode, Expected, Leaf,
    Modifier, ModifierNode, Modifiers, ModifiersNode, ParseError, RepetitionNode, RootNode, Rule,
    Spell, SpellChild, SpellNode, SpellTypePart, SpellTypeParamsChild, SpellTypeParamsNode, Spells,
    StructuralError, SyntaxError, parse_string, parse_to_structure, raw_parse_string,
};

#[test]
fn test_determinism_same_input_twice() {
    let input = "invoke swift and 12 of times rune to apply heal also explode";
    let first = parse_string(input).unwrap();
    let second = parse_string(input).unwrap();
    assert_eq!(first, second);
}

#[test]
fn test_whitespace_only_input() {
    let parsed = parse_string("  \n\t  ").unwrap();
    assert_eq!(parsed, Spells { spells: vec![] });
}

#[test]
fn test_type_clause_without_modifiers() {
    let parsed = parse_string("cast rune to explode").unwrap();
    let expected = Spells {
        spells: vec![Spell {
            invoke_word: "cast".to_string(),
            spell_type_params: SpellTypePart {
                spell_type: "rune".to_string(),
                modifiers: Modifiers::default(),
            },
            executable_params: vec![ExecutablePart {
                executable: Executable {
                    value: "explode".to_string(),
                },
                modifiers: Modifiers::default(),
            }],
        }],
    };
    assert_eq!(parsed, expected);
}

#[test]
fn test_duration_modifier() {
    let parsed = parse_string("cast for two rounds rune to explode").unwrap();
    assert_eq!(
        parsed.spells[0].spell_type_params.modifiers.modifiers,
        vec![Modifier::Duration {
            value: "for two rounds".to_string()
        }]
    );
}

#[test]
fn test_condition_on_executable_part() {
    let parsed = parse_string("cast rune to if is burning explode").unwrap();
    let part = &parsed.spells[0].executable_params[0];
    assert_eq!(part.executable.value, "explode".to_string());
    assert_eq!(
        part.modifiers.modifiers,
        vec![Modifier::Condition {
            condition_type: "if is burning".to_string()
        }]
    );
}

#[test]
fn test_multiple_spells_in_one_document() {
    let parsed = parse_string("cast rune to explode\ninvoke glyph to pull").unwrap();
    assert_eq!(parsed.spells.len(), 2);
    assert_eq!(parsed.spells[0].invoke_word, "cast".to_string());
    assert_eq!(parsed.spells[1].invoke_word, "invoke".to_string());
    assert_eq!(parsed.spells[1].spell_type_params.spell_type, "glyph".to_string());
}

#[test]
fn test_repetition_boundary_value() {
    let parsed = parse_string("cast 4294967295 of times rune to explode").unwrap();
    assert_eq!(
        parsed.spells[0].spell_type_params.modifiers.modifiers,
        vec![Modifier::Repetition { value: 4294967295 }]
    );
}

#[test]
fn test_repetition_out_of_range() {
    let r = parse_string("cast 4294967296 of times rune to explode");
    assert_eq!(
        r,
        Err(ParseError::Conversion(StructuralError::NumberTooLarge))
    );
}

#[test]
fn test_missing_invoke_keyword_rejected() {
    let r = parse_string("flaming rune to explode");
    assert_eq!(
        r,
        Err(ParseError::Syntax(SyntaxError {
            offset: 0,
            expected: Expected::InvokeWord,
        }))
    );
}

#[test]
fn test_unrecognized_modifier_keyword_rejected() {
    let r = parse_string("cast of rune to explode");
    assert_eq!(
        r,
        Err(ParseError::Syntax(SyntaxError {
            offset: 5,
            expected: Expected::Modifier,
        }))
    );
}

#[test]
fn test_error_in_later_spell_rejects_whole_document() {
    let r = parse_string("cast rune to explode cast to pull");
    assert!(matches!(r, Err(ParseError::Syntax(_))));
}

#[test]
fn test_missing_to_keyword_rejected() {
    let r = parse_string("cast rune explode");
    assert!(matches!(r, Err(ParseError::Syntax(_))));
}

#[test]
fn test_missing_executable_rejected() {
    let r = parse_string("cast rune to");
    assert!(matches!(r, Err(ParseError::Syntax(_))));
}

#[test]
fn test_trailing_conjunction_rejected() {
    let r = parse_string("cast swift and rune to explode");
    assert!(matches!(r, Err(ParseError::Syntax(_))));
}

#[test]
fn test_repetition_without_count_marker_rejected() {
    let r = parse_string("cast 3 rune to explode");
    assert!(matches!(r, Err(ParseError::Syntax(_))));
}

#[test]
fn test_raw_parse_empty_input_yields_end_marker() {
    let cst = raw_parse_string("").unwrap();
    assert_eq!(cst, Cst { nodes: vec![RootNode::Eoi] });
}

fn type_params(ty: &str) -> SpellChild {
    SpellChild::TypeParams(SpellTypeParamsNode {
        children: vec![SpellTypeParamsChild::SpellType(ty.to_string())],
    })
}

fn exec_params(word: &str) -> SpellChild {
    SpellChild::ExecParams(ExecutableParamsNode {
        children: vec![ExecutableParamsChild::Executable(word.to_string())],
    })
}

fn spell_with_repetition(leafs: Vec<Leaf>) -> Cst {
    Cst {
        nodes: vec![RootNode::Spell(SpellNode {
            children: vec![
                SpellChild::InvokeWord("cast".to_string()),
                SpellChild::TypeParams(SpellTypeParamsNode {
                    children: vec![
                        SpellTypeParamsChild::Mods(ModifiersNode {
                            children: vec![ModifierNode::Repetition(RepetitionNode {
                                children: leafs,
                            })],
                        }),
                        SpellTypeParamsChild::SpellType("rune".to_string()),
                    ],
                }),
                exec_params("explode"),
            ],
        })],
    }
}

#[test]
fn test_converter_missing_spell_type_params() {
    let cst = Cst {
        nodes: vec![RootNode::Spell(SpellNode {
            children: vec![
                SpellChild::InvokeWord("cast".to_string()),
                exec_params("explode"),
            ],
        })],
    };
    let r = parse_to_structure(&cst);
    assert_eq!(r, Err(StructuralError::MissingSpellTypeParams));
}

#[test]
fn test_converter_missing_executable() {
    let cst = Cst {
        nodes: vec![RootNode::Spell(SpellNode {
            children: vec![
                SpellChild::InvokeWord("cast".to_string()),
                type_params("rune"),
                SpellChild::ExecParams(ExecutableParamsNode { children: vec![] }),
            ],
        })],
    };
    let r = parse_to_structure(&cst);
    assert_eq!(r, Err(StructuralError::MissingExecutable));
}

#[test]
fn test_converter_repetition_without_number() {
    let r = parse_to_structure(&spell_with_repetition(vec![]));
    assert_eq!(r, Err(StructuralError::NoNumberInRepetition));
}

#[test]
fn test_converter_repetition_with_unexpected_rule() {
    let leaf = Leaf {
        rule: Rule::Adjective,
        text: "3".to_string(),
    };
    let r = parse_to_structure(&spell_with_repetition(vec![leaf]));
    assert_eq!(r, Err(StructuralError::UnexpectedRuleInRepetition));
}

#[test]
fn test_converter_repetition_with_invalid_digits() {
    let leaf = Leaf {
        rule: Rule::Number,
        text: "12x".to_string(),
    };
    let r = parse_to_structure(&spell_with_repetition(vec![leaf]));
    assert_eq!(r, Err(StructuralError::InvalidNumber));
}

#[test]
fn test_converter_repetition_overflowing_number() {
    let leaf = Leaf {
        rule: Rule::Number,
        text: "99999999999".to_string(),
    };
    let r = parse_to_structure(&spell_with_repetition(vec![leaf]));
    assert_eq!(r, Err(StructuralError::NumberTooLarge));
}

#[test]
fn test_converter_accepts_hand_built_tree() {
    let cst = Cst {
        nodes: vec![
            RootNode::Spell(SpellNode {
                children: vec![
                    SpellChild::InvokeWord("invoke".to_string()),
                    type_params("glyph"),
                    exec_params("pull"),
                ],
            }),
            RootNode::Eoi,
        ],
    };
    let parsed = parse_to_structure(&cst).unwrap();
    let expected = Spells {
        spells: vec![Spell {
            invoke_word: "invoke".to_string(),
            spell_type_params: SpellTypePart {
                spell_type: "glyph".to_string(),
                modifiers: Modifiers::default(),
            },
            executable_params: vec![ExecutablePart {
                executable: Executable {
                    value: "pull".to_string(),
                },
                modifiers: Modifiers::default(),
            }],
        }],
    };
    assert_eq!(parsed, expected);
}

#[test]
fn test_modifier_order_never_reordered() {
    let parsed = parse_string("cast alpha and beta rune to explode").unwrap();
    assert_eq!(
        parsed.spells[0].spell_type_params.modifiers.modifiers,
        vec![
            Modifier::Adjective {
                value: "alpha".to_string()
            },
            Modifier::Adjective {
                value: "beta".to_string()
            },
        ]
    );
}

#[test]
fn test_repeated_identical_modifiers_retained() {
    let parsed = parse_string("cast swift and swift rune to explode").unwrap();
    assert_eq!(
        parsed.spells[0].spell_type_params.modifiers.modifiers,
        vec![
            Modifier::Adjective {
                value: "swift".to_string()
            },
            Modifier::Adjective {
                value: "swift".to_string()
            },
        ]
    );
}

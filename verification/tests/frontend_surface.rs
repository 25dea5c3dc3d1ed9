//! The borrow-expression surface: parsing, expansion, and selector
//! resolution.

use borrow::frontend::{
    expand_partial, internal, parse_partial_input, partial, resolve_selectors, snake_to_camel,
    Expansion, PartialInput, Selector, Selectors, Slot, Tok,
};

fn ident(s: &str) -> Tok {
    Tok::Ident(s.to_string())
}

#[test]
fn snake_to_camel_capitalizes_segments() {
    assert_eq!(snake_to_camel("version"), "Version");
    assert_eq!(snake_to_camel("foo_bar"), "FooBar");
    assert_eq!(snake_to_camel("a__b"), "AB");
    assert_eq!(snake_to_camel("_x"), "X");
    assert_eq!(snake_to_camel(""), "");
    assert_eq!(snake_to_camel("already"), "Already");
}

#[test]
fn internal_prefixes_two_underscores() {
    assert_eq!(internal("Target"), "__Target");
    assert_eq!(internal("rest"), "__rest");
}

#[test]
fn parse_a_plain_selector_list() {
    // &<mut a, b> Ctx
    let toks = vec![
        Tok::Amp,
        Tok::AngleOpen,
        Tok::KwMut,
        ident("a"),
        Tok::Comma,
        ident("b"),
        Tok::AngleClose,
        ident("Ctx"),
    ];
    let p = parse_partial_input(&toks).unwrap();
    assert!(!p.has_underscore);
    assert!(p.has_amp);
    assert!(p.lifetime.is_none());
    assert_eq!(p.target, "Ctx");
    match p.selectors {
        Selectors::List(sels) => {
            assert_eq!(sels.len(), 2);
            assert!(matches!(
                &sels[0],
                Selector::Ident { is_mut: true, ident, .. } if ident == "a"
            ));
            assert!(matches!(
                &sels[1],
                Selector::Ident { is_mut: false, ident, .. } if ident == "b"
            ));
        }
        Selectors::All => panic!("expected a selector list"),
    }
}

#[test]
fn parse_the_untracked_star_form() {
    // _&<'x mut *> Ctx
    let toks = vec![
        Tok::Underscore,
        Tok::Amp,
        Tok::AngleOpen,
        Tok::Life("x".to_string()),
        Tok::KwMut,
        Tok::Star,
        Tok::AngleClose,
        ident("Ctx"),
    ];
    let p = parse_partial_input(&toks).unwrap();
    assert!(p.has_underscore);
    assert!(p.has_amp);
    match p.selectors {
        Selectors::List(sels) => {
            assert_eq!(sels.len(), 1);
            assert!(matches!(
                &sels[0],
                Selector::Star { is_mut: true, lifetime: Some(l) } if l == "x"
            ));
        }
        Selectors::All => panic!("expected a selector list"),
    }
}

#[test]
fn parse_rejects_leftovers_and_missing_targets() {
    assert!(parse_partial_input(&vec![]).is_none());
    assert!(parse_partial_input(&vec![Tok::Amp]).is_none());
    assert!(parse_partial_input(&vec![ident("a"), ident("b")]).is_none());
    assert!(parse_partial_input(&vec![Tok::Amp, Tok::AngleOpen, ident("a")]).is_none());
}

#[test]
fn expansion_of_a_variable_is_the_value_form() {
    // &mut ctx
    let toks = vec![Tok::Amp, Tok::KwMut, ident("ctx")];
    match partial(&toks).unwrap() {
        Expansion::ValueForm { target } => assert_eq!(target, "ctx"),
        other => panic!("expected the value form, got {:?}", other),
    }
}

#[test]
fn expansion_of_the_bare_mut_type_is_all_fields_mutable() {
    // &mut Ctx
    let toks = vec![Tok::Amp, Tok::KwMut, ident("Ctx")];
    match partial(&toks).unwrap() {
        Expansion::AllFieldsMut { lifetime, target } => {
            assert_eq!(target, "Ctx");
            assert_eq!(lifetime, "_");
        }
        other => panic!("expected the all-fields form, got {:?}", other),
    }
}

#[test]
fn expansion_of_a_selector_list_is_the_macro_call() {
    // _&'t<mut a> Ctx
    let toks = vec![
        Tok::Underscore,
        Tok::Amp,
        Tok::Life("t".to_string()),
        Tok::AngleOpen,
        Tok::KwMut,
        ident("a"),
        Tok::AngleClose,
        ident("Ctx"),
    ];
    match partial(&toks).unwrap() {
        Expansion::MacroCall {
            target,
            track_enabled,
            has_ref_prefix,
            lifetime,
            selectors,
        } => {
            assert_eq!(target, "Ctx");
            assert!(!track_enabled);
            assert!(has_ref_prefix);
            assert_eq!(lifetime, "t");
            assert_eq!(selectors.len(), 1);
        }
        other => panic!("expected the macro call form, got {:?}", other),
    }
}

#[test]
fn expand_keeps_the_tracking_flag() {
    let input = PartialInput {
        has_underscore: false,
        has_amp: true,
        lifetime: None,
        selectors: Selectors::List(vec![]),
        target: "Ctx".to_string(),
    };
    match expand_partial(input) {
        Expansion::MacroCall { track_enabled, .. } => assert!(track_enabled),
        other => panic!("expected the macro call form, got {:?}", other),
    }
}

fn field_names() -> Vec<String> {
    vec![
        "nodes".to_string(),
        "edges".to_string(),
        "groups".to_string(),
    ]
}

#[test]
fn star_covers_every_field() {
    let sels = vec![Selector::Star {
        lifetime: None,
        is_mut: true,
    }];
    let slots = resolve_selectors(&field_names(), &sels, "_");
    assert_eq!(slots.len(), 3);
    for slot in &slots {
        assert!(matches!(slot, Slot::Mut { lifetime } if lifetime == "_"));
    }
}

#[test]
fn later_selectors_override_the_star() {
    // &<mut *, edges> : everything mutable, but edges read-only.
    let sels = vec![
        Selector::Star {
            lifetime: None,
            is_mut: true,
        },
        Selector::Ident {
            lifetime: None,
            is_mut: false,
            ident: "edges".to_string(),
        },
    ];
    let slots = resolve_selectors(&field_names(), &sels, "_");
    assert!(matches!(&slots[0], Slot::Mut { .. }));
    assert!(matches!(&slots[1], Slot::Ref { .. }));
    assert!(matches!(&slots[2], Slot::Mut { .. }));
}

#[test]
fn the_last_mention_of_a_field_wins() {
    let sels = vec![
        Selector::Ident {
            lifetime: None,
            is_mut: true,
            ident: "edges".to_string(),
        },
        Selector::Ident {
            lifetime: Some("x".to_string()),
            is_mut: false,
            ident: "edges".to_string(),
        },
    ];
    let slots = resolve_selectors(&field_names(), &sels, "_");
    assert!(matches!(&slots[0], Slot::Hidden));
    assert!(matches!(&slots[1], Slot::Ref { lifetime } if lifetime == "x"));
    assert!(matches!(&slots[2], Slot::Hidden));
}

#[test]
fn unselected_fields_stay_hidden() {
    let slots = resolve_selectors(&field_names(), &vec![], "_");
    for slot in &slots {
        assert!(matches!(slot, Slot::Hidden));
    }
}

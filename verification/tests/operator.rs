use maggedik::operator::{replacement, set_operator, Operator};

#[test]
fn codes_name_the_six_operations() {
    assert_eq!(set_operator(&"f".to_string()), Operator::Find);
    assert_eq!(set_operator(&"rp".to_string()), Operator::Replace);
    assert_eq!(set_operator(&"uc".to_string()), Operator::Uppercase);
    assert_eq!(set_operator(&"lc".to_string()), Operator::Lowercase);
    assert_eq!(set_operator(&"d".to_string()), Operator::Delete);
    assert_eq!(set_operator(&"nl".to_string()), Operator::NewLine);
}

#[test]
fn other_codes_name_none() {
    for code in ["", "F", "find", "r", "rpp", " rp", "u", "dl", "n", "x"] {
        assert_eq!(set_operator(&code.to_string()), Operator::Invalid);
    }
}

#[test]
fn names_of_operations() {
    assert_eq!(Operator::Find.name(), "Find");
    assert_eq!(Operator::Replace.name(), "Replace");
    assert_eq!(Operator::Uppercase.name(), "Uppercase");
    assert_eq!(Operator::Lowercase.name(), "Lowercase");
    assert_eq!(Operator::Delete.name(), "Delete");
    assert_eq!(Operator::NewLine.name(), "NewLine");
    assert_eq!(Operator::Invalid.name(), "Invalid");
}

#[test]
fn replacement_of_each_operation() {
    assert_eq!(
        replacement(Operator::Replace, "cat", Some("dog")),
        Some("dog".to_string())
    );
    assert_eq!(replacement(Operator::Replace, "cat", None), None);
    assert_eq!(
        replacement(Operator::Uppercase, "cat", Some("dog")),
        Some("CAT".to_string())
    );
    assert_eq!(
        replacement(Operator::Lowercase, "CaT", None),
        Some("cat".to_string())
    );
    assert_eq!(replacement(Operator::Delete, "cat", None), Some(String::new()));
    assert_eq!(
        replacement(Operator::NewLine, "cat", None),
        Some("cat\n".to_string())
    );
    assert_eq!(replacement(Operator::Find, "cat", Some("dog")), None);
    assert_eq!(replacement(Operator::Invalid, "cat", Some("dog")), None);
}

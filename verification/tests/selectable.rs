use dkn_compute_launcher::selectable::{Selectable, DESELECT_MSG};

#[test]
fn test_selectable() {
    let values = vec!["a", "b", "c"];
    let selectable = Selectable::new(values);

    assert_eq!(selectable.len(), 4);
    assert_eq!(selectable[0].to_text(), "a");
    assert_eq!(selectable[1].to_text(), "b");
    assert_eq!(selectable[2].to_text(), "c");

    // the last one is the choice to go back, in bold where colours are on
    assert_eq!(
        selectable[3].to_text(),
        colored::Colorize::bold(DESELECT_MSG).to_string()
    );
}

#[test]
fn test_selectable_back_is_bold_where_colours_are_on() {
    colored::control::set_override(true);
    let selectable = Selectable::new(vec![1, 2]);
    assert_eq!(selectable.len(), 3);
    assert_eq!(selectable[0].to_text(), "1");
    assert_eq!(selectable[1].to_text(), "2");
    assert_eq!(selectable[2].to_text(), "\x1B[1m← Go Back\x1B[0m");
    colored::control::set_override(false);
    assert_eq!(selectable[2].to_text(), "← Go Back");
    assert_eq!(DESELECT_MSG, "← Go Back");
}

#[test]
fn test_selectable_of_nothing() {
    let selectable = Selectable::new(Vec::<String>::new());
    assert_eq!(selectable.len(), 1);
    assert!(matches!(selectable[0], Selectable::Back));
}

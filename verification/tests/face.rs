use tm20::face::{house, Cut, DisplayCut, FaceRequirements, Voice};

#[test]
fn house_names_are_unique() {
    let mut seen = std::collections::BTreeSet::new();
    for (name, _) in house() {
        assert!(seen.insert(name), "duplicate house name {name}");
    }
}

#[test]
fn house_table_assigns_the_voices() {
    let table = house();
    assert_eq!(table.len(), 6);
    assert_eq!(table[0], ("Helvetica", Voice::Both(Cut::Roman, DisplayCut::Roman)));
    assert_eq!(table[4], ("Helvetica-Light", Voice::Display(DisplayCut::Light)));
    assert_eq!(table[5], ("Menlo-Regular", Voice::Text(Cut::Mono)));
}

#[test]
fn requirements_record_only_what_is_needed() {
    let mut req = FaceRequirements::default();
    for cut in Cut::ALL {
        assert!(!req.needs_text(cut));
    }
    req.need_text(Cut::Roman);
    req.need_text(Cut::Mono);
    req.need_display(DisplayCut::Light);
    assert!(req.needs_text(Cut::Roman));
    assert!(req.needs_text(Cut::Mono));
    assert!(!req.needs_text(Cut::Bold));
    assert!(!req.needs_text(Cut::Italic));
    assert!(req.needs_display(DisplayCut::Light));
    assert!(!req.needs_display(DisplayCut::Roman));
    assert_eq!(req.text, [true, false, false, false, true]);
    assert_eq!(req.display, [false, true]);
}

#[test]
fn cuts_are_indexed_in_order_and_named() {
    for (i, cut) in Cut::ALL.into_iter().enumerate() {
        assert_eq!(cut.index(), i);
    }
    for (i, cut) in DisplayCut::ALL.into_iter().enumerate() {
        assert_eq!(cut.index(), i);
    }
    assert_eq!(Cut::BoldItalic.name(), "BoldItalic");
    assert_eq!(DisplayCut::Light.name(), "Light");
}

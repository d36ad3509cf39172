use nova_protocol::editor::{
    button_style, choose_section, click_action, cursor_grab, hover_preview,
    preview_follows_pointer, selection_color, ButtonBorder, ButtonColor, ButtonStyle, ClickAction,
    CursorGrab, InteractionChange, SectionChoice, SectionPreview, thruster_key,
};

fn style(background: ButtonColor, border: ButtonBorder) -> Option<ButtonStyle> {
    Some(ButtonStyle { background, border })
}

#[test]
fn button_without_children_is_left_alone() {
    assert_eq!(button_style(InteractionChange::HoveredChanged, false, true, true, false, true), None);
}

#[test]
fn selected_button_is_drawn_pressed() {
    assert_eq!(
        button_style(InteractionChange::DisabledAdded, true, true, false, true, false),
        style(ButtonColor::HoveredPressed, ButtonBorder::Active)
    );
}

#[test]
fn button_colours_follow_hover_press_and_disable() {
    assert_eq!(
        button_style(InteractionChange::DisabledAdded, true, false, true, true, true),
        style(ButtonColor::Normal, ButtonBorder::Inactive)
    );
    assert_eq!(
        button_style(InteractionChange::PressedAdded, true, false, true, false, true),
        style(ButtonColor::HoveredPressed, ButtonBorder::Active)
    );
    assert_eq!(
        button_style(InteractionChange::HoveredChanged, true, false, true, false, false),
        style(ButtonColor::Hovered, ButtonBorder::Active)
    );
    assert_eq!(
        button_style(InteractionChange::HoveredChanged, true, false, false, false, true),
        style(ButtonColor::Normal, ButtonBorder::Inactive)
    );
}

#[test]
fn removed_press_or_disable_no_longer_counts() {
    // the Pressed marker is still there while it is being removed
    assert_eq!(
        button_style(InteractionChange::PressedRemoved, true, false, true, false, true),
        style(ButtonColor::Hovered, ButtonBorder::Active)
    );
    assert_eq!(
        button_style(InteractionChange::DisabledRemoved, true, false, true, true, true),
        style(ButtonColor::HoveredPressed, ButtonBorder::Active)
    );
}

#[test]
fn selection_colours() {
    assert_eq!(selection_color(true), ButtonColor::Pressed);
    assert_eq!(selection_color(false), ButtonColor::Normal);
}

#[test]
fn choosing_a_section_moves_the_selection_only_on_change() {
    let mut setting = SectionChoice::default();
    assert_eq!(setting, SectionChoice::NoChoice);
    assert!(choose_section(&mut setting, SectionChoice::HullSection));
    assert_eq!(setting, SectionChoice::HullSection);
    assert!(!choose_section(&mut setting, SectionChoice::HullSection));
    assert_eq!(setting, SectionChoice::HullSection);
    assert!(choose_section(&mut setting, SectionChoice::Delete));
    assert_eq!(setting, SectionChoice::Delete);
}

#[test]
fn clicks_place_or_delete_sections() {
    assert_eq!(click_action(false, SectionChoice::HullSection), ClickAction::Nothing);
    assert_eq!(click_action(true, SectionChoice::NoChoice), ClickAction::Nothing);
    assert_eq!(click_action(true, SectionChoice::HullSection), ClickAction::AddHull);
    assert_eq!(click_action(true, SectionChoice::ThrusterSection), ClickAction::AddThruster);
    assert_eq!(click_action(true, SectionChoice::TurretSection), ClickAction::AddTurret);
    assert_eq!(click_action(true, SectionChoice::Delete), ClickAction::DeleteSection);
}

#[test]
fn previews_follow_the_selection() {
    assert_eq!(hover_preview(SectionChoice::NoChoice), None);
    assert_eq!(hover_preview(SectionChoice::Delete), Some(SectionPreview::Deletion));
    assert_eq!(hover_preview(SectionChoice::TurretSection), Some(SectionPreview::Placement));
    assert!(!preview_follows_pointer(SectionChoice::NoChoice));
    assert!(!preview_follows_pointer(SectionChoice::Delete));
    assert!(preview_follows_pointer(SectionChoice::ThrusterSection));
}

#[test]
fn right_button_locks_and_frees_the_cursor() {
    assert_eq!(cursor_grab(true, false), Some(CursorGrab::Locked));
    assert_eq!(cursor_grab(false, true), Some(CursorGrab::Free));
    assert_eq!(cursor_grab(true, true), Some(CursorGrab::Locked));
    assert_eq!(cursor_grab(false, false), None);
}

#[test]
fn thruster_takes_the_first_held_key_or_space() {
    assert_eq!(thruster_key(&vec!['w', 'a'], ' '), 'w');
    assert_eq!(thruster_key(&vec!['d'], ' '), 'd');
    assert_eq!(thruster_key(&Vec::new(), ' '), ' ');
}

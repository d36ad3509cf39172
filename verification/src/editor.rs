//! Decisions of the spaceship editor: which section the player places, how the
//! editor's buttons are drawn, and what a click or a hover on a section does.
use vstd::prelude::*;

verus! {

/// The section the player has chosen to place (or to delete sections).
#[derive(Clone, Copy, Debug, PartialEq, Eq, Structural)]
pub enum SectionChoice {
    NoChoice,
    HullSection,
    ThrusterSection,
    TurretSection,
    Delete,
}

impl Default for SectionChoice {
    fn default() -> (r: SectionChoice)
        ensures
            r == SectionChoice::NoChoice,
    {
        SectionChoice::NoChoice
    }
}

/// The background colours of an editor button.
#[derive(Clone, Copy, Debug, PartialEq, Eq, Structural)]
pub enum ButtonColor {
    Normal,
    Hovered,
    HoveredPressed,
    Pressed,
}

/// The border colours of an editor button.
#[derive(Clone, Copy, Debug, PartialEq, Eq, Structural)]
pub enum ButtonBorder {
    Inactive,
    Active,
}

/// How an editor button is drawn.
#[derive(Clone, Copy, Debug, PartialEq, Eq, Structural)]
pub struct ButtonStyle {
    pub background: ButtonColor,
    pub border: ButtonBorder,
}

/// The change of a button's interaction state that the editor reacts to.
#[derive(Clone, Copy, Debug, PartialEq, Eq, Structural)]
pub enum InteractionChange {
    PressedAdded,
    PressedRemoved,
    DisabledAdded,
    DisabledRemoved,
    HoveredChanged,
}

/// The style of an editor button after an interaction change; `None` when the button
/// has no children and is left as it is.
///
/// A selected button is drawn pressed. Otherwise a disabled button is drawn normal, a
/// hovered one hovered (pressed when it is also pressed), and any other normal. A
/// press or a disabling that is being removed no longer counts.
pub fn button_style(
    change: InteractionChange,
    has_children: bool,
    selected: bool,
    hovered: bool,
    disabled: bool,
    pressed: bool,
) -> (r: Option<ButtonStyle>)
    ensures
        !has_children ==> r is None,
        has_children ==> r is Some,
        r matches Some(style) ==> {
            let pressed_now = pressed && change != InteractionChange::PressedRemoved;
            let disabled_now = disabled && change != InteractionChange::DisabledRemoved;
            &&& style.border == (if !selected && (disabled_now || !hovered) {
                ButtonBorder::Inactive
            } else {
                ButtonBorder::Active
            })
            &&& style.background == (if selected || (!disabled_now && hovered && pressed_now) {
                ButtonColor::HoveredPressed
            } else if !disabled_now && hovered {
                ButtonColor::Hovered
            } else {
                ButtonColor::Normal
            })
        },
{
    if !has_children {
        return None;
    }
    if selected {
        return Some(ButtonStyle { background: ButtonColor::HoveredPressed, border: ButtonBorder::Active });
    }
    let pressed = pressed && !(change == InteractionChange::PressedRemoved);
    let disabled = disabled && !(change == InteractionChange::DisabledRemoved);
    if disabled {
        Some(ButtonStyle { background: ButtonColor::Normal, border: ButtonBorder::Inactive })
    } else if hovered && pressed {
        Some(ButtonStyle { background: ButtonColor::HoveredPressed, border: ButtonBorder::Active })
    } else if hovered {
        Some(ButtonStyle { background: ButtonColor::Hovered, border: ButtonBorder::Active })
    } else {
        Some(ButtonStyle { background: ButtonColor::Normal, border: ButtonBorder::Inactive })
    }
}

/// The background of a button when it gains (`true`) or loses (`false`) the selection.
pub fn selection_color(selected: bool) -> (r: ButtonColor)
    ensures
        r == (if selected { ButtonColor::Pressed } else { ButtonColor::Normal }),
{
    if selected {
        ButtonColor::Pressed
    } else {
        ButtonColor::Normal
    }
}

/// Pressing the button of `chosen`: the setting becomes `chosen`. Returns whether it
/// changed, in which case the selection mark moves from the previously selected
/// button to the pressed one.
pub fn choose_section(setting: &mut SectionChoice, chosen: SectionChoice) -> (changed: bool)
    ensures
        changed == (*old(setting) != chosen),
        *final(setting) == chosen,
{
    if *setting != chosen {
        *setting = chosen;
        true
    } else {
        false
    }
}

/// What a click on a section of the spaceship does.
#[derive(Clone, Copy, Debug, PartialEq, Eq, Structural)]
pub enum ClickAction {
    Nothing,
    AddHull,
    AddThruster,
    AddTurret,
    DeleteSection,
}

/// The action of a click on a section: only the primary button acts, and it places
/// the chosen section next to the clicked one, or deletes the clicked one.
pub fn click_action(primary: bool, selection: SectionChoice) -> (r: ClickAction)
    ensures
        !primary ==> r == ClickAction::Nothing,
        primary ==> r == match selection {
            SectionChoice::NoChoice => ClickAction::Nothing,
            SectionChoice::HullSection => ClickAction::AddHull,
            SectionChoice::ThrusterSection => ClickAction::AddThruster,
            SectionChoice::TurretSection => ClickAction::AddTurret,
            SectionChoice::Delete => ClickAction::DeleteSection,
        },
{
    if !primary {
        return ClickAction::Nothing;
    }
    match selection {
        SectionChoice::NoChoice => ClickAction::Nothing,
        SectionChoice::HullSection => ClickAction::AddHull,
        SectionChoice::ThrusterSection => ClickAction::AddThruster,
        SectionChoice::TurretSection => ClickAction::AddTurret,
        SectionChoice::Delete => ClickAction::DeleteSection,
    }
}

/// The preview shown while the pointer is over a section.
#[derive(Clone, Copy, Debug, PartialEq, Eq, Structural)]
pub enum SectionPreview {
    /// A red box over the section that would be deleted.
    Deletion,
    /// A green box, turned to the surface, where the new section would go.
    Placement,
}

/// The preview for the current selection: none when nothing is chosen.
pub fn hover_preview(selection: SectionChoice) -> (r: Option<SectionPreview>)
    ensures
        selection == SectionChoice::NoChoice ==> r is None,
        selection == SectionChoice::Delete ==> r == Some(SectionPreview::Deletion),
        (selection != SectionChoice::NoChoice && selection != SectionChoice::Delete) ==> r == Some(
            SectionPreview::Placement,
        ),
{
    match selection {
        SectionChoice::NoChoice => None,
        SectionChoice::Delete => Some(SectionPreview::Deletion),
        _ => Some(SectionPreview::Placement),
    }
}

/// Whether the preview follows the pointer across a section: only a placement
/// preview does.
pub fn preview_follows_pointer(selection: SectionChoice) -> (r: bool)
    ensures
        r == (selection != SectionChoice::NoChoice && selection != SectionChoice::Delete),
{
    !(selection == SectionChoice::Delete || selection == SectionChoice::NoChoice)
}

/// What the editor does with the cursor.
#[derive(Clone, Copy, Debug, PartialEq, Eq, Structural)]
pub enum CursorGrab {
    /// Lock the cursor to the window and hide it, to look around.
    Locked,
    /// Free the cursor and show it again.
    Free,
}

/// The cursor grab after a frame of mouse input: pressing the right button locks
/// the cursor, releasing it frees it (a press wins when both happen in one frame);
/// otherwise the cursor is left as it is (`None`).
pub fn cursor_grab(right_just_pressed: bool, right_just_released: bool) -> (r: Option<CursorGrab>)
    ensures
        right_just_pressed ==> r == Some(CursorGrab::Locked),
        !right_just_pressed && right_just_released ==> r == Some(CursorGrab::Free),
        !right_just_pressed && !right_just_released ==> r is None,
{
    if right_just_pressed {
        Some(CursorGrab::Locked)
    } else if right_just_released {
        Some(CursorGrab::Free)
    } else {
        None
    }
}

/// The key that drives a newly placed thruster: the first key held down when it is
/// placed, or `fallback` (the space bar) when none is.
pub fn thruster_key<K: Copy>(pressed: &Vec<K>, fallback: K) -> (r: K)
    ensures
        pressed@.len() > 0 ==> r == pressed@[0],
        pressed@.len() == 0 ==> r == fallback,
{
    if pressed.len() > 0 {
        pressed[0]
    } else {
        fallback
    }
}

} // verus!

//! The pause menu's data: which gameplay toggles it offers, their
//! labels and initial values, and how pressing one flips the settings.
//! Drawing the menu is the window layer's job; everything it needs to
//! draw and every effect of a press is decided here.

use vstd::prelude::*;

verus! {

use crate::game::GameSettings;

/// A labelled on/off button, with its current state.
#[derive(Clone, Copy, Debug)]
pub struct ToggleButton(pub &'static str, pub bool);

/// Which gameplay setting a menu button controls.
#[derive(Clone, Copy, PartialEq, Eq, Structural, Debug)]
pub enum SettingsButton {
    DashStop,
    SnapOnCut,
}

/// One entry of the pause menu: the setting it controls and its toggle.
#[derive(Clone, Copy, Debug)]
pub struct MenuEntry {
    pub setting: SettingsButton,
    pub toggle: ToggleButton,
}

/// The pause menu's full description: a title and its toggle buttons.
#[derive(Clone, Debug)]
pub struct PauseMenu {
    pub title: &'static str,
    pub entries: Vec<MenuEntry>,
}

/// Describe the pause menu: the gameplay options header, a dash-stop
/// toggle that starts off, and a snap-on-cut toggle that starts on.
pub fn spawn_pause_menu_system() -> (menu: PauseMenu)
    ensures
        menu.title@ == "Gameplay Options"@,
        menu.entries@.len() == 2,
        menu.entries@[0] == (MenuEntry {
            setting: SettingsButton::DashStop,
            toggle: ToggleButton("Dash Stop", false),
        }),
        menu.entries@[1] == (MenuEntry {
            setting: SettingsButton::SnapOnCut,
            toggle: ToggleButton("Snap on Cut", true),
        }),
{
    let mut entries: Vec<MenuEntry> = Vec::new();
    entries.push(
        MenuEntry { setting: SettingsButton::DashStop, toggle: ToggleButton("Dash Stop", false) },
    );
    entries.push(
        MenuEntry { setting: SettingsButton::SnapOnCut, toggle: ToggleButton("Snap on Cut", true) },
    );
    PauseMenu { title: "Gameplay Options", entries }
}

/// The state suffix a toggle button shows after its label.
pub fn toggle_label_suffix(toggle: &ToggleButton) -> (r: &'static str)
    ensures
        toggle.1 ==> r@ == ": On"@,
        !toggle.1 ==> r@ == ": Off"@,
{
    if toggle.1 {
        ": On"
    } else {
        ": Off"
    }
}

/// A press flips the button's toggle and writes the new value into the
/// setting the button controls; the other settings are untouched.
pub fn button_press_system(
    settings: &mut GameSettings,
    button: &SettingsButton,
    toggle: &mut ToggleButton,
)
    ensures
        final(toggle).1 == !old(toggle).1,
        final(toggle).0@ == old(toggle).0@,
        *final(settings) == (match button {
            SettingsButton::DashStop => GameSettings {
                dash_stop: !old(toggle).1,
                ..*old(settings)
            },
            SettingsButton::SnapOnCut => GameSettings {
                snap_on_cut: !old(toggle).1,
                ..*old(settings)
            },
        }),
{
    toggle.1 = !toggle.1;
    match button {
        SettingsButton::DashStop => {
            settings.dash_stop = toggle.1;
        },
        SettingsButton::SnapOnCut => {
            settings.snap_on_cut = toggle.1;
        },
    }
}

} // verus!

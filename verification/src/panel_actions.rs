//! Actions collected from the panels during one frame, handed back to
//! the application loop as plain data.

use vstd::prelude::*;
use crate::ids::Uid;
use crate::state::LoadMode;
use crate::theme::ThemeMode;

verus! {

/// What the settings window asked for.
#[derive(Debug)]
pub struct SettingsActions {
    pub theme_changed: Option<ThemeMode>,
    pub load_mode_changed: Option<LoadMode>,
    pub show_performance_stats_changed: Option<bool>,
    pub close_settings: bool,
}

/// What the side panel asked for.
#[derive(Debug)]
pub struct SidePanelActions {
    pub selected_note: Option<usize>,
    pub new_note_clicked: bool,
    pub create_group_clicked: bool,
    pub show_settings_clicked: bool,
    pub show_group_editor_clicked: bool,
    pub toggled_group: Option<Uid>,
    /// The visible range, when more notes should be brought in.
    pub load_more_requested: Option<(usize, usize)>,
}

/// What the central panel asked for.
#[derive(Debug)]
pub struct CentralPanelActions {
    pub save_note_clicked: bool,
    pub delete_note_clicked: bool,
    pub copy_to_clipboard_clicked: bool,
    pub copy_to_persistent_clicked: bool,
    pub toggle_pin: Option<usize>,
    pub update_title: Option<(usize, String)>,
    pub create_note_clicked: bool,
    pub persistent_text_changed: bool,
}

impl SidePanelActions {
    /// No action yet.
    pub fn new() -> (r: SidePanelActions)
        ensures
            r.selected_note is None,
            !r.new_note_clicked,
            !r.create_group_clicked,
            !r.show_settings_clicked,
            !r.show_group_editor_clicked,
            r.toggled_group is None,
            r.load_more_requested is None,
    {
        SidePanelActions {
            selected_note: Option::None,
            new_note_clicked: false,
            create_group_clicked: false,
            show_settings_clicked: false,
            show_group_editor_clicked: false,
            toggled_group: Option::None,
            load_more_requested: Option::None,
        }
    }

    pub fn select_note(&mut self, idx: usize)
        ensures
            *final(self) == (SidePanelActions { selected_note: Option::Some(idx), ..*old(self) }),
    {
        self.selected_note = Option::Some(idx);
    }

    pub fn new_note(&mut self)
        ensures
            *final(self) == (SidePanelActions { new_note_clicked: true, ..*old(self) }),
    {
        self.new_note_clicked = true;
    }

    pub fn create_group(&mut self)
        ensures
            *final(self) == (SidePanelActions { create_group_clicked: true, ..*old(self) }),
    {
        self.create_group_clicked = true;
    }

    pub fn show_settings(&mut self)
        ensures
            *final(self) == (SidePanelActions { show_settings_clicked: true, ..*old(self) }),
    {
        self.show_settings_clicked = true;
    }

    pub fn show_group_editor(&mut self)
        ensures
            *final(self) == (SidePanelActions { show_group_editor_clicked: true, ..*old(self) }),
    {
        self.show_group_editor_clicked = true;
    }

    pub fn toggle_group(&mut self, group_id: Uid)
        ensures
            *final(self) == (SidePanelActions {
                toggled_group: Option::Some(group_id),
                ..*old(self)
            }),
    {
        self.toggled_group = Option::Some(group_id);
    }

    pub fn request_load_more(&mut self, visible_start: usize, visible_end: usize)
        ensures
            *final(self) == (SidePanelActions {
                load_more_requested: Option::Some((visible_start, visible_end)),
                ..*old(self)
            }),
    {
        self.load_more_requested = Option::Some((visible_start, visible_end));
    }
}

impl CentralPanelActions {
    /// No action yet.
    pub fn new() -> (r: CentralPanelActions)
        ensures
            !r.save_note_clicked,
            !r.delete_note_clicked,
            !r.copy_to_clipboard_clicked,
            !r.copy_to_persistent_clicked,
            r.toggle_pin is None,
            r.update_title is None,
            !r.create_note_clicked,
            !r.persistent_text_changed,
    {
        CentralPanelActions {
            save_note_clicked: false,
            delete_note_clicked: false,
            copy_to_clipboard_clicked: false,
            copy_to_persistent_clicked: false,
            toggle_pin: Option::None,
            update_title: Option::None,
            create_note_clicked: false,
            persistent_text_changed: false,
        }
    }

    pub fn save_note(&mut self)
        ensures
            *final(self) == (CentralPanelActions { save_note_clicked: true, ..*old(self) }),
    {
        self.save_note_clicked = true;
    }

    pub fn delete_note(&mut self)
        ensures
            *final(self) == (CentralPanelActions { delete_note_clicked: true, ..*old(self) }),
    {
        self.delete_note_clicked = true;
    }

    pub fn copy_to_clipboard(&mut self)
        ensures
            *final(self) == (CentralPanelActions {
                copy_to_clipboard_clicked: true,
                ..*old(self)
            }),
    {
        self.copy_to_clipboard_clicked = true;
    }

    pub fn copy_to_persistent(&mut self)
        ensures
            *final(self) == (CentralPanelActions {
                copy_to_persistent_clicked: true,
                ..*old(self)
            }),
    {
        self.copy_to_persistent_clicked = true;
    }

    pub fn toggle_pin(&mut self, idx: usize)
        ensures
            *final(self) == (CentralPanelActions { toggle_pin: Option::Some(idx), ..*old(self) }),
    {
        self.toggle_pin = Option::Some(idx);
    }

    pub fn update_title(&mut self, idx: usize, title: String)
        ensures
            final(self).update_title is Some,
            final(self).update_title.unwrap().0 == idx,
            final(self).update_title.unwrap().1 == title,
            final(self).save_note_clicked == old(self).save_note_clicked,
            final(self).delete_note_clicked == old(self).delete_note_clicked,
            final(self).copy_to_clipboard_clicked == old(self).copy_to_clipboard_clicked,
            final(self).copy_to_persistent_clicked == old(self).copy_to_persistent_clicked,
            final(self).toggle_pin == old(self).toggle_pin,
            final(self).create_note_clicked == old(self).create_note_clicked,
            final(self).persistent_text_changed == old(self).persistent_text_changed,
    {
        self.update_title = Option::Some((idx, title));
    }

    pub fn create_note(&mut self)
        ensures
            *final(self) == (CentralPanelActions { create_note_clicked: true, ..*old(self) }),
    {
        self.create_note_clicked = true;
    }

    pub fn persistent_text_changed(&mut self)
        ensures
            *final(self) == (CentralPanelActions { persistent_text_changed: true, ..*old(self) }),
    {
        self.persistent_text_changed = true;
    }
}

impl SettingsActions {
    /// No action yet.
    pub fn new() -> (r: SettingsActions)
        ensures
            r.theme_changed is None,
            r.load_mode_changed is None,
            r.show_performance_stats_changed is None,
            !r.close_settings,
    {
        SettingsActions {
            theme_changed: Option::None,
            load_mode_changed: Option::None,
            show_performance_stats_changed: Option::None,
            close_settings: false,
        }
    }

    pub fn change_theme(&mut self, theme: ThemeMode)
        ensures
            *final(self) == (SettingsActions { theme_changed: Option::Some(theme), ..*old(self) }),
    {
        self.theme_changed = Option::Some(theme);
    }

    pub fn change_load_mode(&mut self, mode: LoadMode)
        ensures
            final(self).load_mode_changed is Some,
            final(self).load_mode_changed.unwrap() == mode,
            final(self).theme_changed == old(self).theme_changed,
            final(self).show_performance_stats_changed == old(
                self,
            ).show_performance_stats_changed,
            final(self).close_settings == old(self).close_settings,
    {
        self.load_mode_changed = Option::Some(mode);
    }

    pub fn toggle_performance_stats(&mut self, show: bool)
        ensures
            *final(self) == (SettingsActions {
                show_performance_stats_changed: Option::Some(show),
                ..*old(self)
            }),
    {
        self.show_performance_stats_changed = Option::Some(show);
    }

    pub fn close(&mut self)
        ensures
            *final(self) == (SettingsActions { close_settings: true, ..*old(self) }),
    {
        self.close_settings = true;
    }
}

} // verus!

//! What the shell keeps between events: the open session and project, the
//! reload counter, the models last looked up, the attachments waiting for
//! the next message, and the user's preferences.
//!
//! The window's zoom factor is fractional and is kept by the shell itself.

use crate::main_content::models::DiscoveredModel;
use crate::media::PendingAttachment;
use crate::settings::prefs::GuiPrefs;
use crate::text::str_eq;
use vstd::prelude::*;

verus! {

pub open spec fn opt_str(o: Option<String>) -> Option<Seq<char>> {
    match o {
        Some(s) => Some(s@),
        None => None,
    }
}

pub open spec fn opt_ref(o: Option<&str>) -> Option<Seq<char>> {
    match o {
        Some(s) => Some(s@),
        None => None,
    }
}

/// The shell's state.
#[derive(Debug)]
pub struct AppState {
    pub reload_generation: i32,
    pub active_session_id: Option<String>,
    pub current_project_dir: Option<String>,
    pub discovered_models: Vec<DiscoveredModel>,
    /// In the order attached.
    pub pending_attachments: Vec<PendingAttachment>,
    pub prefs: GuiPrefs,
}

impl AppState {
    /// A fresh state: no session, no project, nothing attached, with the
    /// preferences read from disk.
    pub fn new(prefs: GuiPrefs) -> (r: Self)
        ensures
            r.reload_generation == 0,
            r.active_session_id is None,
            r.current_project_dir is None,
            r.discovered_models@.len() == 0,
            r.pending_attachments@.len() == 0,
            r.prefs == prefs,
    {
        AppState {
            reload_generation: 0,
            active_session_id: None,
            current_project_dir: None,
            discovered_models: Vec::new(),
            pending_attachments: Vec::new(),
            prefs,
        }
    }

    /// The open session's id.
    pub fn active_session_id(&self) -> (r: Option<&str>)
        ensures
            opt_ref(r) == opt_str(self.active_session_id),
    {
        match &self.active_session_id {
            Some(s) => Some(s.as_str()),
            None => None,
        }
    }

    pub fn set_active_session_id(&mut self, id: Option<String>)
        ensures
            *final(self) == (AppState { active_session_id: id, ..*old(self) }),
    {
        self.active_session_id = id;
    }

    /// The open project's directory.
    pub fn current_project_dir(&self) -> (r: Option<&str>)
        ensures
            opt_ref(r) == opt_str(self.current_project_dir),
    {
        match &self.current_project_dir {
            Some(s) => Some(s.as_str()),
            None => None,
        }
    }

    pub fn set_current_project_dir(&mut self, dir: Option<String>)
        ensures
            *final(self) == (AppState { current_project_dir: dir, ..*old(self) }),
    {
        self.current_project_dir = dir;
    }

    pub fn reload_generation(&self) -> (r: i32)
        ensures
            r == self.reload_generation,
    {
        self.reload_generation
    }

    /// Counts one more reload, stopping at the largest `i32`, and returns
    /// the new count.
    pub fn mark_reload(&mut self) -> (r: i32)
        ensures
            r == if old(self).reload_generation == i32::MAX {
                i32::MAX as int
            } else {
                old(self).reload_generation + 1
            },
            *final(self) == (AppState { reload_generation: r, ..*old(self) }),
    {
        self.reload_generation = if self.reload_generation == i32::MAX {
            i32::MAX
        } else {
            self.reload_generation + 1
        };
        self.reload_generation
    }

    pub fn discovered_models(&self) -> (r: &[DiscoveredModel])
        ensures
            r@ == self.discovered_models@,
    {
        self.discovered_models.as_slice()
    }

    pub fn set_discovered_models(&mut self, models: Vec<DiscoveredModel>)
        ensures
            *final(self) == (AppState { discovered_models: models, ..*old(self) }),
    {
        self.discovered_models = models;
    }

    pub fn pending_attachments(&self) -> (r: &[PendingAttachment])
        ensures
            r@ == self.pending_attachments@,
    {
        self.pending_attachments.as_slice()
    }

    /// Adds an attachment after the others.
    pub fn add_attachment(&mut self, attachment: PendingAttachment)
        ensures
            final(self).pending_attachments@ == old(self).pending_attachments@.push(attachment),
            final(self).prefs == old(self).prefs,
            final(self).active_session_id == old(self).active_session_id,
            final(self).current_project_dir == old(self).current_project_dir,
            final(self).reload_generation == old(self).reload_generation,
            final(self).discovered_models == old(self).discovered_models,
    {
        self.pending_attachments.push(attachment);
    }

    /// Removes the attachment at `index`; an index past the end removes
    /// nothing.
    pub fn remove_attachment(&mut self, index: usize)
        ensures
            final(self).pending_attachments@ == if index < old(self).pending_attachments@.len() {
                old(self).pending_attachments@.remove(index as int)
            } else {
                old(self).pending_attachments@
            },
            final(self).prefs == old(self).prefs,
            final(self).active_session_id == old(self).active_session_id,
            final(self).current_project_dir == old(self).current_project_dir,
            final(self).reload_generation == old(self).reload_generation,
            final(self).discovered_models == old(self).discovered_models,
    {
        if index < self.pending_attachments.len() {
            self.pending_attachments.remove(index);
        }
    }

    /// Removes every attachment.
    pub fn clear_attachments(&mut self)
        ensures
            final(self).pending_attachments@.len() == 0,
            final(self).prefs == old(self).prefs,
            final(self).active_session_id == old(self).active_session_id,
            final(self).current_project_dir == old(self).current_project_dir,
            final(self).reload_generation == old(self).reload_generation,
            final(self).discovered_models == old(self).discovered_models,
    {
        self.pending_attachments.clear();
    }

    pub fn prefs(&self) -> (r: &GuiPrefs)
        ensures
            *r == self.prefs,
    {
        &self.prefs
    }

    pub fn set_prefs(&mut self, prefs: GuiPrefs)
        ensures
            *final(self) == (AppState { prefs, ..*old(self) }),
    {
        self.prefs = prefs;
    }

    /// Turns scrolling along with streamed responses on or off; the shell
    /// saves the preferences after.
    pub fn set_auto_scroll_stream(&mut self, enabled: bool)
        ensures
            *final(self) == (AppState { prefs: GuiPrefs { auto_scroll_stream: enabled, ..old(self).prefs }, ..*old(self) }),
    {
        self.prefs.auto_scroll_stream = enabled;
    }

    /// Turns notifications of permission requests on or off; the shell
    /// saves the preferences after.
    pub fn set_notify_on_permission_request(&mut self, enabled: bool)
        ensures
            *final(self) == (AppState {
                prefs: GuiPrefs { notify_on_permission_request: enabled, ..old(self).prefs },
                ..*old(self)
            }),
    {
        self.prefs.notify_on_permission_request = enabled;
    }

    /// Turns notifications of finished responses on or off; the shell
    /// saves the preferences after.
    pub fn set_notify_on_response_complete(&mut self, enabled: bool)
        ensures
            *final(self) == (AppState {
                prefs: GuiPrefs { notify_on_response_complete: enabled, ..old(self).prefs },
                ..*old(self)
            }),
    {
        self.prefs.notify_on_response_complete = enabled;
    }

    /// Sets what the close button does, from its selector index (any index
    /// but 1 means exiting).
    pub fn set_close_button_action_index(&mut self, idx: i32)
        ensures
            *final(self) == (AppState {
                prefs: GuiPrefs {
                    close_button_action: crate::settings::general::close_of_index(idx),
                    ..old(self).prefs
                },
                ..*old(self)
            }),
    {
        self.prefs.close_button_action = crate::settings::general::close_action_of_index(idx);
    }
    /// A new chat: no session open, and outside any project when
    /// `project_dir` is `None`, else in that project.
    pub fn start_new_chat(&mut self, project_dir: Option<String>)
        ensures
            *final(self) == (AppState { active_session_id: None, current_project_dir: project_dir, ..*old(self) }),
    {
        self.active_session_id = None;
        self.current_project_dir = project_dir;
    }

    /// After session `id` is deleted: it is no longer the open session.
    /// Returns the session still open.
    pub fn forget_session(&mut self, id: &str) -> (r: Option<String>)
        ensures
            final(self).active_session_id == if opt_str(old(self).active_session_id) == Some(id@) {
                None
            } else {
                old(self).active_session_id
            },
            *final(self) == (AppState { active_session_id: final(self).active_session_id, ..*old(self) }),
            opt_str(r) == opt_str(final(self).active_session_id),
    {
        let open = match &self.active_session_id {
            Some(s) => str_eq(s.as_str(), id),
            None => false,
        };
        if open {
            self.active_session_id = None;
        }
        match &self.active_session_id {
            Some(s) => Some(s.clone()),
            None => None,
        }
    }

    /// After project `dir` is deleted: when it was the open project, no
    /// project and no session stay open. Returns whether it was open, and
    /// the session still open.
    pub fn forget_project(&mut self, dir: &str) -> (r: (bool, Option<String>))
        ensures
            r.0 == (opt_str(old(self).current_project_dir) == Some(dir@)),
            *final(self) == if r.0 {
                AppState { active_session_id: None, current_project_dir: None, ..*old(self) }
            } else {
                *old(self)
            },
            opt_str(r.1) == opt_str(final(self).active_session_id),
    {
        let open = match &self.current_project_dir {
            Some(p) => str_eq(p.as_str(), dir),
            None => false,
        };
        if open {
            self.active_session_id = None;
            self.current_project_dir = None;
        }
        let active = match &self.active_session_id {
            Some(s) => Some(s.clone()),
            None => None,
        };
        (open, active)
    }
    /// Opens session `id`, in project `project_dir` or outside any.
    pub fn open_session(&mut self, id: &str, project_dir: Option<&str>)
        ensures
            opt_str(final(self).active_session_id) == Some(id@),
            opt_str(final(self).current_project_dir) == opt_ref(project_dir),
            *final(self) == (AppState {
                active_session_id: final(self).active_session_id,
                current_project_dir: final(self).current_project_dir,
                ..*old(self)
            }),
    {
        self.active_session_id = Some(crate::text::owned(id));
        self.current_project_dir = match project_dir {
            Some(p) => Some(crate::text::owned(p)),
            None => None,
        };
    }
}

} // verus!

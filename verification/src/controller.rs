//! The decisions of the terminal loop: what a local command, a picker's action, a finished
//! agent run or a key does to the application once the outside work it needed is done.
use vstd::prelude::*;
use crate::app::{
    config_key_step, event_id, event_view, event_views, model_key_step, next_seq, picker_key_step, tree_key_step, AiProfile,
    AppMode, AppState, RuntimeStatus,
};
use crate::capability::{CapabilityEntry, CapabilityIndex, CapabilityKind, CapabilityPreferences};
use crate::config::{first_option, PicocodeConfig};
use crate::config_editor::{ConfigEditorAction, ConfigEditorState, ConfigField};
use crate::event::{active_tail, compaction_lines, folded_count, summarize_compaction, EventMsg, ImageAttachmentEvent};
use crate::text::join_seq;
use crate::keys::{KeyCode, KeyInput};
use crate::model_picker::ModelPickerAction;
use crate::session::SessionSummary;
use crate::session_picker::SessionPickerAction;
use crate::session_tree::SessionTreeAction;
use crate::text::{cat, cat3, push_str, str_eq, to_owned_str, u64_to_string, usize_to_string};

verus! {

/// What a key did, and the action of the picker or editor in front when it gave one.
pub enum KeyRoute {
    Picker(Option<SessionPickerAction>),
    Model(Option<ModelPickerAction>),
    Config(Option<ConfigEditorAction>),
    Tree(Option<SessionTreeAction>),
    /// Ctrl-V in the chat: the clipboard's text is to be pasted.
    PasteClipboard,
    Chat,
}

/// How selecting a model or saving the configuration went outside.
pub enum ClientOutcome {
    /// The client for the new settings could not be made.
    ClientFailed(String),
    /// The settings could not be saved.
    SaveFailed(String),
    /// Ready, serving the model with this id.
    Ready(String),
}

impl AppState {
    /// Where a key goes: to the picker, tree or editor in front, which handles it; in the chat,
    /// Control-V asks for the clipboard and leaves everything as it is, and any other key is
    /// the chat's.
    pub open spec fn route_step(o: AppState, key: KeyInput, n: AppState, r: KeyRoute) -> bool {
        match o.mode {
            AppMode::SessionPicker(_) => r matches KeyRoute::Picker(a) && picker_key_step(o, key, n, a),
            AppMode::ModelPicker(_) => r matches KeyRoute::Model(a) && model_key_step(o, key, n, a),
            AppMode::ConfigEditor(_) => r matches KeyRoute::Config(a) && config_key_step(o, key, n, a),
            AppMode::SessionTree(_) => r matches KeyRoute::Tree(a) && tree_key_step(o, key, n, a),
            AppMode::Chat => if key.code == KeyCode::Char('v') && key.control {
                r is PasteClipboard && n == o
            } else {
                r is Chat && AppState::key_step(o, key, n)
            },
        }
    }

    /// Routes a key to the picker or editor in front, or to the chat.
    pub fn route_key(&mut self, key: KeyInput) -> (r: KeyRoute)
        requires
            old(self).mode matches AppMode::ConfigEditor(e) ==> e.prompt is Some || e.wf(),
        ensures
            Self::route_step(*old(self), key, *final(self), r),
    {
        if self.is_session_picker_active() {
            KeyRoute::Picker(self.handle_picker_key(key))
        } else if self.is_model_picker_active() {
            KeyRoute::Model(self.handle_model_key(key))
        } else if self.is_config_editor_active() {
            KeyRoute::Config(self.handle_config_key(key))
        } else if self.is_session_tree_active() {
            KeyRoute::Tree(self.handle_tree_key(key))
        } else if key.code == KeyCode::Char('v') && key.control {
            KeyRoute::PasteClipboard
        } else {
            self.handle_key(key);
            KeyRoute::Chat
        }
    }

    /// Pasted text goes to the input in the chat, to the configuration editor's prompt when
    /// the editor is in front, and nowhere else.
    pub fn route_paste(&mut self, text: &str) -> (r: Option<ConfigEditorAction>)
        ensures
            match old(self).mode {
                AppMode::Chat => r is None && final(self).input@ == old(self).input@ + text@
                    && *final(self) == (AppState { input: final(self).input, ..*old(self) }),
                AppMode::ConfigEditor(s) => r matches Some(a) && (final(self).mode matches AppMode::ConfigEditor(p)
                    && ConfigEditorState::paste_step(s, text@, p, a)) && *final(self) == (AppState {
                    mode: final(self).mode,
                    ..*old(self)
                }),
                _ => r is None && *final(self) == *old(self),
            },
    {
        if !self.is_session_picker_active() && !self.is_model_picker_active() && !self.is_config_editor_active()
            && !self.is_session_tree_active() {
            self.push_paste_text(text);
            None
        } else if self.is_config_editor_active() {
            self.handle_config_paste(text)
        } else {
            None
        }
    }

    /// `/new`: the program ends and starts a new session.
    pub fn request_new_session(&mut self)
        ensures
            final(self).pending_new_session,
            final(self).should_exit,
            final(self).events@ == old(self).events@,
    {
        self.pending_new_session = true;
        self.should_exit = true;
    }

    /// Leaves for another session.
    pub fn resume_session(&mut self, session_id: String)
        ensures
            final(self).pending_resume_session == Some(session_id),
            final(self).should_exit,
            final(self).events@ == old(self).events@,
            final(self).mode == old(self).mode,
    {
        self.pending_resume_session = Some(session_id);
        self.should_exit = true;
    }

    /// An image was attached, or could not be; a model that takes no images gets a warning.
    pub fn after_image(&mut self, attached: Result<ImageAttachmentEvent, String>, images_supported: Option<bool>)
        ensures
            match attached {
                Ok(e) => {
                    &&& final(self).events@.len() == old(self).events@.len() + if images_supported == Some(false) {
                        2int
                    } else {
                        1int
                    }
                    &&& final(self).events@.take(old(self).events@.len() as int) == old(self).events@
                    &&& final(self).events@[old(self).events@.len() as int].msg == EventMsg::ImageAttachment(e)
                    &&& final(self).events@[old(self).events@.len() as int].id@
                        == event_id(old(self).next_event_seq as nat)
                    &&& images_supported == Some(false) ==> final(self).events@.last().msg is Error
                        && final(self).events@.last().msg.content_spec() == image_warning()
                        && final(self).events@.last().id@ == event_id(next_seq(old(self).next_event_seq) as nat)
                },
                Err(m) => event_views(final(self).events@) == event_views(old(self).events@).push(
                    (event_id(old(self).next_event_seq as nat), "error"@, m@),
                ),
            },
    {
        match attached {
            Ok(e) => {
                self.push_event_msg(EventMsg::ImageAttachment(e));
                let ghost mid = self.events@;
                if images_supported == Some(false) {
                    self.push_error_message(
                        "Current model does not support image input. Switch to a vision-capable model before sending a prompt.",
                    );
                    proof {
                        reveal_strlit(
                            "Current model does not support image input. Switch to a vision-capable model before sending a prompt.",
                        );
                        assert(self.events@[old(self).events@.len() as int] == mid[old(self).events@.len() as int]);
                        assert(event_views(self.events@)[mid.len() as int] == event_view(self.events@.last()));
                        assert(self.events@.take(old(self).events@.len() as int) =~= old(self).events@) by {
                            assert(mid.take(old(self).events@.len() as int) == old(self).events@);
                            assert forall|k: int| 0 <= k < old(self).events@.len() implies
                                #[trigger] self.events@[k] == mid[k] by {
                                assert(self.events@.take(mid.len() as int)[k] == mid[k]);
                                assert(mid.take(old(self).events@.len() as int)[k] == mid[k]);
                            }
                        }
                    }
                }
            },
            Err(m) => self.push_error_message(m.as_str()),
        }
    }

    /// The outcome of listing sessions for `/resume`: the picker, or why not.
    pub fn after_session_list_for_resume(&mut self, summaries: Result<Vec<SessionSummary>, String>)
        ensures
            final(self).events@.take(old(self).events@.len() as int) == old(self).events@,
            match summaries {
                Ok(v) => if v@.len() == 0 {
                    event_views(final(self).events@) == event_views(old(self).events@).push(
                        (event_id(old(self).next_event_seq as nat), "error"@, "No previous session to resume."@),
                    )
                } else {
                    final(self).mode matches AppMode::SessionPicker(p) && p.summaries@ == v@
                        && final(self).events@ == old(self).events@
                },
                Err(m) => event_views(final(self).events@) == event_views(old(self).events@).push(
                    (event_id(old(self).next_event_seq as nat), "error"@, m@),
                ),
            },
    {
        match summaries {
            Ok(v) => if v.len() == 0 {
                self.push_error_message("No previous session to resume.");
            } else {
                self.enter_session_picker(v);
            },
            Err(m) => self.push_error_message(m.as_str()),
        }
    }

    /// The outcome of listing sessions for `/tree`: the browser, or why not.
    pub fn after_session_list_for_tree(&mut self, summaries: Result<Vec<SessionSummary>, String>)
        ensures
            final(self).events@.take(old(self).events@.len() as int) == old(self).events@,
            match summaries {
                Ok(v) => if v@.len() == 0 {
                    event_views(final(self).events@) == event_views(old(self).events@).push(
                        (event_id(old(self).next_event_seq as nat), "error"@, "No previous session tree to browse."@),
                    )
                } else {
                    final(self).mode matches AppMode::SessionTree(p) && p.summaries@ == v@
                        && final(self).events@ == old(self).events@
                },
                Err(m) => event_views(final(self).events@) == event_views(old(self).events@).push(
                    (event_id(old(self).next_event_seq as nat), "error"@, m@),
                ),
            },
    {
        match summaries {
            Ok(v) => if v.len() == 0 {
                self.push_error_message("No previous session tree to browse.");
            } else {
                self.enter_session_tree(v);
            },
            Err(m) => self.push_error_message(m.as_str()),
        }
    }

    /// The outcome of listing sessions for `/continue`: the most recent one is resumed.
    pub fn after_session_list_for_continue(&mut self, summaries: Result<Vec<SessionSummary>, String>)
        ensures
            final(self).events@.take(old(self).events@.len() as int) == old(self).events@,
            match summaries {
                Ok(v) => if v@.len() == 0 {
                    event_views(final(self).events@) == event_views(old(self).events@).push(
                        (event_id(old(self).next_event_seq as nat), "error"@, "No previous session to continue."@),
                    )
                } else {
                    final(self).pending_resume_session matches Some(id) && id@ == v@[0].session.id@
                        && final(self).should_exit && final(self).events@ == old(self).events@
                },
                Err(m) => event_views(final(self).events@) == event_views(old(self).events@).push(
                    (event_id(old(self).next_event_seq as nat), "error"@, m@),
                ),
            },
    {
        match summaries {
            Ok(v) => if v.len() == 0 {
                self.push_error_message("No previous session to continue.");
            } else {
                let id = v[0].session.id.clone();
                self.resume_session(id);
            },
            Err(m) => self.push_error_message(m.as_str()),
        }
    }

    /// The outcome of forking the session: the fork is resumed.
    pub fn after_fork(&mut self, forked: Result<String, String>)
        ensures
            final(self).events@.take(old(self).events@.len() as int) == old(self).events@,
            match forked {
                Ok(id) => final(self).pending_resume_session == Some(id) && final(self).should_exit
                    && final(self).events@ == old(self).events@,
                Err(m) => event_views(final(self).events@) == event_views(old(self).events@).push(
                    (event_id(old(self).next_event_seq as nat), "error"@, m@),
                ),
            },
    {
        match forked {
            Ok(id) => self.resume_session(id),
            Err(m) => self.push_error_message(m.as_str()),
        }
    }

    /// `/session <id>`: resumed when it exists, else an error that names the project.
    pub fn after_session_lookup(&mut self, id: &str, exists: bool, project_root: &str)
        ensures
            final(self).events@.take(old(self).events@.len() as int) == old(self).events@,
            exists ==> (final(self).pending_resume_session matches Some(x) && x@ == id@ && final(self).should_exit
                && final(self).events@ == old(self).events@),
            !exists ==> event_views(final(self).events@) == event_views(old(self).events@).push(
                (event_id(old(self).next_event_seq as nat), "error"@, "Session not found: "@ + id@ + " in "@ + project_root@),
            ),
    {
        if exists {
            self.resume_session(to_owned_str(id));
        } else {
            let mut m = cat3("Session not found: ", id, " in ");
            push_str(&mut m, project_root);
            self.push_error_message(m.as_str());
        }
    }

    /// `/compact`: the active events are summarised, and the status says the thread goes on.
    pub fn compact_now(&mut self)
        ensures
            final(self).events@.len() == old(self).events@.len() + 1,
            final(self).events@.take(old(self).events@.len() as int) == old(self).events@,
            final(self).events@.last().id@ == event_id(old(self).next_event_seq as nat),
            final(self).events@.last().msg matches EventMsg::Compaction(c)
                && c.summary@ == join_seq(compaction_lines(old(self).events@), "\n"@)
                && c.folded_event_count == folded_count(active_tail(old(self).events@).len()),
            final(self).runtime_status.label@ == "compact"@,
            final(self).runtime_status.detail matches Some(d) && d@ == "continue"@,
    {
        let compacted = summarize_compaction(self.events.as_slice());
        self.push_event_msg(EventMsg::compaction(compacted));
        self.set_runtime_status(RuntimeStatus::with_detail("compact", "continue"));
    }

    /// The outcome of writing the session's HTML export.
    pub fn after_export(&mut self, written: Result<String, String>, shared: bool)
        ensures
            final(self).events@.take(old(self).events@.len() as int) == old(self).events@,
            match written {
                Ok(p) => event_views(final(self).events@) == event_views(old(self).events@).push(
                    (
                        event_id(old(self).next_event_seq as nat),
                        "system"@,
                        (if shared { "Shareable session HTML written to "@ } else { "Exported session HTML to "@ }) + p@,
                    ),
                ),
                Err(m) => event_views(final(self).events@) == event_views(old(self).events@).push(
                    (event_id(old(self).next_event_seq as nat), "error"@, m@),
                ),
            },
    {
        match written {
            Ok(p) => {
                let m = if shared {
                    cat("Shareable session HTML written to ", p.as_str())
                } else {
                    cat("Exported session HTML to ", p.as_str())
                };
                self.push_system_message(m.as_str());
            },
            Err(m) => self.push_error_message(m.as_str()),
        }
    }

    /// A text for the transcript, or the error that stood in its way.
    pub fn report(&mut self, text: Result<String, String>)
        ensures
            match text {
                Ok(t) => event_views(final(self).events@) == event_views(old(self).events@).push(
                    (event_id(old(self).next_event_seq as nat), "system"@, t@),
                ),
                Err(m) => event_views(final(self).events@) == event_views(old(self).events@).push(
                    (event_id(old(self).next_event_seq as nat), "error"@, m@),
                ),
            },
            final(self).events@.len() == old(self).events@.len() + 1,
            final(self).events@.take(old(self).events@.len() as int) == old(self).events@,
            text is Err ==> final(self).transcript_scroll == 0,
            final(self).submissions@ == old(self).submissions@,
            final(self).pending_submissions@ == old(self).pending_submissions@,
            final(self).mode == old(self).mode,
    {
        match text {
            Ok(t) => self.push_system_message(t.as_str()),
            Err(m) => self.push_error_message(m.as_str()),
        }
    }

    /// `/capabilities`: the enabled capabilities, one per line, after a count.
    pub fn report_enabled_capabilities(&mut self, index: &CapabilityIndex, preferences: &CapabilityPreferences)
        ensures
            final(self).events@.take(old(self).events@.len() as int) == old(self).events@,
            ({
                let enabled = index.entries@.filter(crate::capability::enabled_by(*preferences));
                if enabled.len() == 0 {
                    event_views(final(self).events@) == event_views(old(self).events@).push(
                        (event_id(old(self).next_event_seq as nat), "system"@, "No enabled capabilities discovered."@),
                    )
                } else {
                    &&& final(self).events@.len() == old(self).events@.len() + 1 + enabled.len()
                    &&& final(self).events@[old(self).events@.len() as int].msg.content_spec()
                        == "Capabilities discovered: "@ + crate::text::dec(enabled.len()) + " enabled of "@
                        + crate::text::dec(index.entries@.len()) + " total"@
                    &&& forall|k: int| 0 <= k < enabled.len() ==> (#[trigger] final(self).events@[old(self).events@.len() + 1 + k]).msg.content_spec()
                        == enabled[k].compact_label_spec()
                }
            }),
    {
        let enabled = index.enabled_entries(preferences);
        if enabled.len() == 0 {
            self.push_system_message("No enabled capabilities discovered.");
            return;
        }
        let mut m = cat("Capabilities discovered: ", usize_to_string(enabled.len()).as_str());
        push_str(&mut m, " enabled of ");
        push_str(&mut m, usize_to_string(index.entries.len()).as_str());
        push_str(&mut m, " total");
        self.push_system_message(m.as_str());
        self.push_labels(&enabled, Ghost(old(self).events@.len() + 1));
    }

    fn push_labels(&mut self, entries: &Vec<CapabilityEntry>, Ghost(start): Ghost<nat>)
        requires
            old(self).events@.len() == start,
        ensures
            final(self).events@.len() == start + entries@.len(),
            final(self).events@.take(start as int) == old(self).events@,
            forall|k: int| 0 <= k < entries@.len() ==> (#[trigger] final(self).events@[start + k]).msg.content_spec()
                == entries@[k].compact_label_spec(),
    {
        let mut i: usize = 0;
        while i < entries.len()
            invariant
                i <= entries.len(),
                self.events@.len() == start + i,
                self.events@.take(start as int) == old(self).events@,
                forall|k: int| 0 <= k < i ==> (#[trigger] self.events@[start + k]).msg.content_spec()
                    == entries@[k].compact_label_spec(),
            decreases entries.len() - i,
        {
            let label = entries[i].compact_label();
            let ghost prev = self.events@;
            self.push_event_msg(EventMsg::system(label.as_str()));
            proof {
                assert forall|k: int| 0 <= k < i implies #[trigger] self.events@[start + k] == prev[start + k] by {
                    assert(self.events@.take(prev.len() as int)[start + k] == prev[start + k]);
                }
                assert(self.events@.take(start as int) =~= prev.take(start as int));
            }
            i = i + 1;
        }
    }

    /// The matches of a capability search: none is an error, several are listed; true when
    /// exactly one matched, for the caller to go on with.
    pub fn capability_matches(&mut self, query: &str, matches: &Vec<CapabilityEntry>) -> (one: bool)
        ensures
            final(self).events@.take(old(self).events@.len() as int) == old(self).events@,
            one == (matches@.len() == 1),
            matches@.len() == 1 ==> *final(self) == *old(self),
            matches@.len() == 0 ==> event_views(final(self).events@) == event_views(old(self).events@).push(
                (event_id(old(self).next_event_seq as nat), "error"@, "No capability matched: "@ + query@),
            ),
            matches@.len() > 1 ==> final(self).events@.len() == old(self).events@.len() + 1 + matches@.len()
                && final(self).events@[old(self).events@.len() as int].msg.content_spec()
                == "Multiple capabilities matched: "@ + query@
                && forall|k: int| 0 <= k < matches@.len() ==> (#[trigger] final(self).events@[old(self).events@.len() + 1 + k]).msg.content_spec()
                == matches@[k].compact_label_spec(),
    {
        if matches.len() == 0 {
            let m = cat("No capability matched: ", query);
            self.push_error_message(m.as_str());
            false
        } else if matches.len() == 1 {
            true
        } else {
            let m = cat("Multiple capabilities matched: ", query);
            self.push_system_message(m.as_str());
            self.push_labels(matches, Ghost(old(self).events@.len() + 1));
            false
        }
    }

    /// The outcome of switching the one matching capability on or off.
    pub fn after_capability_switch(&mut self, entry: &CapabilityEntry, enable: bool, saved: Result<(), String>)
        ensures
            final(self).events@.take(old(self).events@.len() as int) == old(self).events@,
            match saved {
                Ok(()) => event_views(final(self).events@) == event_views(old(self).events@).push(
                    (
                        event_id(old(self).next_event_seq as nat),
                        "system"@,
                        "Capability "@ + (if enable { "enabled"@ } else { "disabled"@ }) + ": "@ + entry.compact_label_spec(),
                    ),
                ),
                Err(m) => event_views(final(self).events@) == event_views(old(self).events@).push(
                    (event_id(old(self).next_event_seq as nat), "error"@, m@),
                ),
            },
    {
        match saved {
            Ok(()) => {
                let state = if enable {
                    "enabled"
                } else {
                    "disabled"
                };
                let mut m = cat3("Capability ", state, ": ");
                push_str(&mut m, entry.compact_label().as_str());
                self.push_system_message(m.as_str());
            },
            Err(m) => self.push_error_message(m.as_str()),
        }
    }

    /// The matches of a skill search: none is an error; several are listed with their state;
    /// true when exactly one matched.
    pub fn skill_matches(&mut self, query: &str, matches: &Vec<CapabilityEntry>, preferences: &CapabilityPreferences) -> (one: bool)
        ensures
            final(self).events@.take(old(self).events@.len() as int) == old(self).events@,
            one == (matches@.len() == 1),
            matches@.len() == 1 ==> *final(self) == *old(self),
            matches@.len() == 0 ==> event_views(final(self).events@) == event_views(old(self).events@).push(
                (event_id(old(self).next_event_seq as nat), "error"@, "No skill matched: "@ + query@),
            ),
            matches@.len() > 1 ==> final(self).events@.len() == old(self).events@.len() + 1 + matches@.len()
                && final(self).events@[old(self).events@.len() as int].msg.content_spec()
                == "Multiple skills matched: "@ + query@
                && forall|k: int| 0 <= k < matches@.len() ==> (#[trigger] final(self).events@[old(self).events@.len() + 1 + k]).msg.content_spec()
                == matches@[k].compact_label_spec() + " ["@ + (if preferences.enabled_spec(matches@[k]) {
                "enabled"@
            } else {
                "disabled"@
            }) + "]"@,
    {
        if matches.len() == 0 {
            let m = cat("No skill matched: ", query);
            self.push_error_message(m.as_str());
            return false;
        }
        if matches.len() == 1 {
            return true;
        }
        let m = cat("Multiple skills matched: ", query);
        self.push_system_message(m.as_str());
        let ghost start = old(self).events@.len() + 1;
        let ghost head = self.events@;
        let mut i: usize = 0;
        while i < matches.len()
            invariant
                i <= matches.len(),
                self.events@.len() == start + i,
                head.len() == start,
                head.last().msg.content_spec() == "Multiple skills matched: "@ + query@,
                self.events@.take(start as int) == head,
                forall|k: int| 0 <= k < i ==> (#[trigger] self.events@[start + k]).msg.content_spec()
                    == matches@[k].compact_label_spec() + " ["@ + (if preferences.enabled_spec(matches@[k]) {
                    "enabled"@
                } else {
                    "disabled"@
                }) + "]"@,
            decreases matches.len() - i,
        {
            let status = if preferences.is_enabled(&matches[i]) {
                "enabled"
            } else {
                "disabled"
            };
            let mut line = cat(matches[i].compact_label().as_str(), " [");
            push_str(&mut line, status);
            push_str(&mut line, "]");
            let ghost prev = self.events@;
            self.push_event_msg(EventMsg::system(line.as_str()));
            proof {
                assert forall|k: int| 0 <= k < i implies #[trigger] self.events@[start + k] == prev[start + k] by {
                    assert(self.events@.take(prev.len() as int)[start + k] == prev[start + k]);
                }
                assert(self.events@.take(start as int) =~= prev.take(start as int));
            }
            i = i + 1;
        }
        assert(self.events@[start - 1] == head[start - 1]);
        false
    }

    /// The one matching skill: refused when it is disabled, else its text is loaded.
    pub fn after_skill_selected(&mut self, entry: &CapabilityEntry, enabled: bool, text: Result<String, String>)
        ensures
            !enabled ==> event_views(final(self).events@) == event_views(old(self).events@).push(
                (event_id(old(self).next_event_seq as nat), "error"@, "Skill is disabled: "@ + entry.compact_label_spec()),
            ),
            enabled ==> match text {
                Ok(t) => event_views(final(self).events@) == event_views(old(self).events@).push(
                    (event_id(old(self).next_event_seq as nat), "system"@, t@),
                ),
                Err(m) => event_views(final(self).events@) == event_views(old(self).events@).push(
                    (event_id(old(self).next_event_seq as nat), "error"@, m@),
                ),
            },
            !enabled ==> final(self).transcript_scroll == 0 && final(self).events@.last().msg is Error,
            final(self).events@.len() == old(self).events@.len() + 1,
            final(self).events@.take(old(self).events@.len() as int) == old(self).events@,
            final(self).submissions@ == old(self).submissions@,
            final(self).pending_submissions@ == old(self).pending_submissions@,
            final(self).mode == old(self).mode,
    {
        if !enabled {
            let m = cat("Skill is disabled: ", entry.compact_label().as_str());
            self.push_error_message(m.as_str());
        } else {
            self.report(text);
        }
    }

    /// The provider and model in use: the session's, else the configuration's.
    pub open spec fn current_model_spec(self, config: PicocodeConfig) -> (Seq<char>, Seq<char>) {
        match self.ai_profile {
            Some(p) => (p.provider@, p.model@),
            None => (config.model.provider@, config.model.model@),
        }
    }

    /// The provider and model in use: the session's, else the configuration's.
    pub fn current_model(&self, config: &PicocodeConfig) -> (r: (String, String))
        ensures
            (r.0@, r.1@) == self.current_model_spec(*config),
    {
        match &self.ai_profile {
            Some(p) => (p.provider.clone(), p.model.clone()),
            None => (config.model.provider.clone(), config.model.model.clone()),
        }
    }

    /// `/model`: the model picker over the configured models.
    pub fn open_model_picker(&mut self, config: Option<&PicocodeConfig>)
        ensures
            final(self).events@.take(old(self).events@.len() as int) == old(self).events@,
            match config {
                None => event_views(final(self).events@) == event_views(old(self).events@).push(
                    (event_id(old(self).next_event_seq as nat), "error"@, "AI config is not available."@),
                ),
                Some(c) => if crate::config::sorted_options(crate::config::distinct_options(c.all_options())).len() == 0 {
                    event_views(final(self).events@) == event_views(old(self).events@).push(
                        (event_id(old(self).next_event_seq as nat), "error"@, "No configured models found."@),
                    )
                } else {
                    &&& final(self).mode matches AppMode::ModelPicker(p)
                        && p.options@ == crate::config::sorted_options(crate::config::distinct_options(c.all_options()))
                        && p.current() == old(self).current_model_spec(*c)
                        && p.selected == match first_option(
                            p.shown_list(),
                            old(self).current_model_spec(*c).0,
                            old(self).current_model_spec(*c).1,
                        ) {
                            Some(k) => k,
                            None => 0,
                        }
                    &&& final(self).runtime_status.label@ == "model"@
                    &&& final(self).runtime_status.detail matches Some(d) && d@ == "selector"@
                    &&& final(self).events@ == old(self).events@
                },
            },
    {
        match config {
            None => self.push_error_message("AI config is not available."),
            Some(c) => {
                let options = c.model_options();
                if options.len() == 0 {
                    self.push_error_message("No configured models found.");
                    return;
                }
                let (provider, model) = self.current_model(c);
                self.enter_model_picker(options, provider.as_str(), model.as_str());
            },
        }
    }

    /// `/config`: the configuration editor over the configured models.
    pub fn open_config_editor(&mut self, config: Option<&PicocodeConfig>)
        ensures
            final(self).events@.take(old(self).events@.len() as int) == old(self).events@,
            match config {
                None => event_views(final(self).events@) == event_views(old(self).events@).push(
                    (event_id(old(self).next_event_seq as nat), "error"@, "AI config is not available."@),
                ),
                Some(c) => {
                    &&& final(self).mode matches AppMode::ConfigEditor(e) && e.wf()
                        && (crate::config::sorted_options(crate::config::distinct_options(c.all_options())).len() > 0
                        ==> e.options() == crate::config::sorted_options(crate::config::distinct_options(c.all_options())))
                        && e.selected_model == match first_option(
                            e.options(),
                            old(self).current_model_spec(*c).0,
                            old(self).current_model_spec(*c).1,
                        ) {
                            Some(i) => i,
                            None => 0,
                        }
                        && e.selected_field == ConfigField::Provider
                    &&& final(self).runtime_status.label@ == "config"@
                    &&& final(self).events@ == old(self).events@
                },
            },
    {
        match config {
            None => self.push_error_message("AI config is not available."),
            Some(c) => {
                let options = c.model_options();
                let (provider, model) = self.current_model(c);
                self.enter_config_editor(options, provider.as_str(), model.as_str(), None);
            },
        }
    }

    /// A model or configuration is in use: the profile shows it, a message says so, the
    /// status is idle and the chat is in front.
    pub fn model_ready(&mut self, provider: &str, model: &str)
        ensures
            final(self).events@.take(old(self).events@.len() as int) == old(self).events@,
            final(self).ai_profile matches Some(p) && p.provider@ == provider@ && p.model@ == model@,
            event_views(final(self).events@) == event_views(old(self).events@).push(
                (
                    event_id(old(self).next_event_seq as nat),
                    "system"@,
                    "AI provider "@ + provider@ + " enabled with model "@ + model@,
                ),
            ),
            final(self).runtime_status.label@ == "idle"@,
            final(self).mode == AppMode::Chat,
    {
        self.set_ai_profile(Some(AiProfile::new(provider, model)));
        let mut m = cat3("AI provider ", provider, " enabled with model ");
        push_str(&mut m, model);
        self.push_system_message(m.as_str());
        self.runtime_status = RuntimeStatus::idle();
        self.mode = AppMode::Chat;
    }

    /// The outcome of choosing a model in the picker.
    pub fn after_model_selected(&mut self, provider: &str, model: &str, outcome: Option<ClientOutcome>)
        ensures
            final(self).events@.take(old(self).events@.len() as int) == old(self).events@,
            match outcome {
                None => event_views(final(self).events@) == event_views(old(self).events@).push(
                    (event_id(old(self).next_event_seq as nat), "error"@, "AI config is not available."@),
                ),
                Some(ClientOutcome::ClientFailed(m)) => event_views(final(self).events@) == event_views(old(self).events@).push(
                    (event_id(old(self).next_event_seq as nat), "error"@, m@),
                ) && final(self).runtime_status.label@ == "model"@ && (final(self).runtime_status.detail matches Some(d)
                    && d@ == "selector"@),
                Some(ClientOutcome::SaveFailed(m)) => event_views(final(self).events@) == event_views(old(self).events@).push(
                    (event_id(old(self).next_event_seq as nat), "error"@, m@),
                ) && final(self).runtime_status.label@ == "model"@ && (final(self).runtime_status.detail matches Some(d)
                    && d@ == "save"@),
                Some(ClientOutcome::Ready(_)) => final(self).ai_profile matches Some(p) && p.provider@ == provider@
                    && p.model@ == model@ && final(self).mode == AppMode::Chat
                    && event_views(final(self).events@) == event_views(old(self).events@).push(
                    (
                        event_id(old(self).next_event_seq as nat),
                        "system"@,
                        "AI provider "@ + provider@ + " enabled with model "@ + model@,
                    ),
                ),
            },
    {
        match outcome {
            None => self.push_error_message("AI config is not available."),
            Some(ClientOutcome::ClientFailed(m)) => {
                self.push_error_message(m.as_str());
                self.runtime_status = RuntimeStatus::with_detail("model", "selector");
            },
            Some(ClientOutcome::SaveFailed(m)) => {
                self.push_error_message(m.as_str());
                self.runtime_status = RuntimeStatus::with_detail("model", "save");
            },
            Some(ClientOutcome::Ready(_)) => self.model_ready(provider, model),
        }
    }

    /// At start-up, the client for the configured model: when it is ready the profile names
    /// the model it serves; else the error is shown, the profile names the configured model,
    /// and a missing environment variable opens the configuration editor on the secret.
    /// Either way the status is idle.
    pub fn after_startup_client(&mut self, config: &PicocodeConfig, client: Result<String, (String, bool)>)
        ensures
            final(self).events@.take(old(self).events@.len() as int) == old(self).events@,
            client matches Ok(id) ==> final(self).ai_profile matches Some(p) && p.provider@ == config.model.provider@
                && p.model@ == id@,
            client is Ok ==> final(self).events@ == old(self).events@ && final(self).mode == old(self).mode,
            client matches Err(f) ==> final(self).ai_profile matches Some(p) && p.provider@ == config.model.provider@
                && p.model@ == config.model.model@,
            client matches Err(f) ==> event_views(final(self).events@) == event_views(old(self).events@).push(
                (event_id(old(self).next_event_seq as nat), "error"@, f.0@),
            ),
            client matches Err(f) ==> (f.1 ==> (final(self).mode matches AppMode::ConfigEditor(e) && e.wf()
                && e.selected_field == ConfigField::Auth && e.prompt is None
                && e.selected_model == match first_option(e.options(), config.model.provider@, config.model.model@) {
                    Some(i) => i,
                    None => 0,
                }
                && (crate::config::sorted_options(crate::config::distinct_options(config.all_options())).len() > 0
                ==> e.options() == crate::config::sorted_options(crate::config::distinct_options(config.all_options()))))),
            client matches Err(f) ==> (!f.1 ==> final(self).mode == old(self).mode),
            final(self).runtime_status.label@ == "idle"@,
            final(self).runtime_status.detail is None,
            !final(self).runtime_status.is_active,
            final(self).runtime_status.started_at is None,
    {
        match client {
            Ok(id) => {
                self.set_ai_profile(Some(AiProfile::new(config.model.provider.as_str(), id.as_str())));
            },
            Err((m, missing_env)) => {
                self.push_error_message(m.as_str());
                self.set_ai_profile(Some(AiProfile::new(config.model.provider.as_str(), config.model.model.as_str())));
                if missing_env {
                    self.enter_config_editor(
                        config.model_options(),
                        config.model.provider.as_str(),
                        config.model.model.as_str(),
                        Some(ConfigField::Auth),
                    );
                }
            },
        }
        self.set_runtime_status(RuntimeStatus::idle());
    }

    /// The outcome of saving the configuration from the editor: on a client failure the
    /// editor comes back on the secret.
    pub fn after_config_saved(&mut self, saved: &PicocodeConfig, outcome: ClientOutcome)
        ensures
            final(self).events@.take(old(self).events@.len() as int) == old(self).events@,
            match outcome {
                ClientOutcome::SaveFailed(m) => event_views(final(self).events@) == event_views(old(self).events@).push(
                    (event_id(old(self).next_event_seq as nat), "error"@, m@),
                ) && final(self).runtime_status.label@ == "config"@ && (final(self).runtime_status.detail matches Some(d)
                    && d@ == "save"@),
                ClientOutcome::ClientFailed(m) => event_views(final(self).events@) == event_views(old(self).events@).push(
                    (event_id(old(self).next_event_seq as nat), "error"@, m@),
                ) && (final(self).mode matches AppMode::ConfigEditor(e) && e.wf()
                    && e.selected_field == ConfigField::Auth && e.prompt is None
                    && e.selected_model == match first_option(e.options(), saved.model.provider@, saved.model.model@) {
                        Some(i) => i,
                        None => 0,
                    }
                    && (crate::config::sorted_options(crate::config::distinct_options(saved.all_options())).len() > 0
                    ==> e.options() == crate::config::sorted_options(crate::config::distinct_options(saved.all_options()))))
                    && final(self).runtime_status.label@ == "config"@
                    && (final(self).runtime_status.detail matches Some(d) && d@ == "editor"@),
                ClientOutcome::Ready(id) => final(self).ai_profile matches Some(p) && p.provider@ == saved.model.provider@
                    && p.model@ == id@ && final(self).mode == AppMode::Chat
                    && event_views(final(self).events@) == event_views(old(self).events@).push(
                    (
                        event_id(old(self).next_event_seq as nat),
                        "system"@,
                        "AI provider "@ + saved.model.provider@ + " enabled with model "@ + id@,
                    ),
                ),
            },
    {
        match outcome {
            ClientOutcome::SaveFailed(m) => {
                self.push_error_message(m.as_str());
                self.runtime_status = RuntimeStatus::with_detail("config", "save");
            },
            ClientOutcome::ClientFailed(m) => {
                self.push_error_message(m.as_str());
                self.enter_config_editor(
                    saved.model_options(),
                    saved.model.provider.as_str(),
                    saved.model.model.as_str(),
                    Some(ConfigField::Auth),
                );
            },
            ClientOutcome::Ready(id) => self.model_ready(saved.model.provider.as_str(), id.as_str()),
        }
    }

    /// A session was deleted from the picker or the browser: with none left the chat comes
    /// back with an error, else the list is renewed.
    pub fn after_sessions_changed(&mut self, summaries: Vec<SessionSummary>, deleted: bool)
        ensures
            final(self).events@.take(old(self).events@.len() as int) == old(self).events@,
            deleted && summaries@.len() == 0 ==> final(self).mode == AppMode::Chat
                && event_views(final(self).events@) == event_views(old(self).events@).push(
                (event_id(old(self).next_event_seq as nat), "error"@, "No sessions left."@),
            ),
            !(deleted && summaries@.len() == 0) ==> final(self).events@ == old(self).events@ && match old(self).mode {
                AppMode::SessionPicker(_) => final(self).mode matches AppMode::SessionPicker(p) && p.summaries@ == summaries@,
                AppMode::SessionTree(_) => final(self).mode matches AppMode::SessionTree(p) && p.summaries@ == summaries@,
                _ => final(self).mode == old(self).mode,
            },
    {
        if deleted && summaries.len() == 0 {
            self.mode = AppMode::Chat;
            self.push_error_message("No sessions left.");
            return;
        }
        let mut mode = AppMode::Chat;
        std::mem::swap(&mut mode, &mut self.mode);
        match mode {
            AppMode::SessionPicker(mut st) => {
                st.set_summaries(summaries);
                self.mode = AppMode::SessionPicker(st);
            },
            AppMode::SessionTree(mut st) => {
                st.set_summaries(summaries);
                self.mode = AppMode::SessionTree(st);
            },
            other => {
                self.mode = other;
            },
        }
    }

    /// A session was renamed: the list is renewed and the renamed session selected.
    pub fn after_session_renamed(&mut self, summaries: Vec<SessionSummary>, renamed_id: &str)
        ensures
            final(self).events@ == old(self).events@,
            match old(self).mode {
                AppMode::SessionPicker(_) => final(self).mode matches AppMode::SessionPicker(p) && p.summaries@ == summaries@
                    && ((exists|k: int| 0 <= k < p.shown().len() && #[trigger] summaries@[p.shown()[k] as int].session.id@
                    == renamed_id@) ==> p.selected < p.shown().len() && summaries@[p.shown()[p.selected as int] as int].session.id@
                    == renamed_id@),
                AppMode::SessionTree(_) => final(self).mode matches AppMode::SessionTree(p) && p.summaries@ == summaries@
                    && ((exists|k: int| 0 <= k < p.shown().len() && #[trigger] summaries@[p.shown()[k] as int].session.id@
                    == renamed_id@) ==> p.selected < p.shown().len() && summaries@[p.shown()[p.selected as int] as int].session.id@
                    == renamed_id@),
                _ => final(self).mode == old(self).mode,
            },
    {
        let mut mode = AppMode::Chat;
        std::mem::swap(&mut mode, &mut self.mode);
        match mode {
            AppMode::SessionPicker(mut st) => {
                st.set_summaries(summaries);
                let shown = st.filtered_summaries();
                let mut i: usize = 0;
                let mut found: Option<usize> = None;
                while i < shown.len()
                    invariant_except_break
                        i <= shown.len(),
                        found is None,
                        forall|j: int| 0 <= j < i ==> (#[trigger] shown@[j]).session.id@ != renamed_id@,
                    ensures
                        match found {
                            Some(k) => k < shown.len() && shown@[k as int].session.id@ == renamed_id@,
                            None => forall|j: int| 0 <= j < shown.len() ==> (#[trigger] shown@[j]).session.id@ != renamed_id@,
                        },
                    decreases shown.len() - i,
                {
                    if str_eq(shown[i].session.id.as_str(), renamed_id) {
                        found = Some(i);
                        break;
                    }
                    i = i + 1;
                }
                let ghost sh = st.shown();
                if let Some(k) = found {
                    st.selected = k;
                }
                proof {
                    assert(st.shown() == sh);
                    if exists|k: int| 0 <= k < sh.len() && #[trigger] summaries@[sh[k] as int].session.id@ == renamed_id@ {
                        let k = choose|k: int| 0 <= k < sh.len() && #[trigger] summaries@[sh[k] as int].session.id@ == renamed_id@;
                        assert(*shown@[k] == summaries@[sh[k] as int]);
                        assert(found is Some);
                        let j = found->Some_0 as int;
                        assert(*shown@[j] == summaries@[sh[j] as int]);
                    }
                }
                self.mode = AppMode::SessionPicker(st);
            },
            AppMode::SessionTree(mut st) => {
                st.set_summaries(summaries);
                let shown = st.filtered_summaries();
                let mut i: usize = 0;
                let mut found: Option<usize> = None;
                while i < shown.len()
                    invariant_except_break
                        i <= shown.len(),
                        found is None,
                        forall|j: int| 0 <= j < i ==> (#[trigger] shown@[j]).session.id@ != renamed_id@,
                    ensures
                        match found {
                            Some(k) => k < shown.len() && shown@[k as int].session.id@ == renamed_id@,
                            None => forall|j: int| 0 <= j < shown.len() ==> (#[trigger] shown@[j]).session.id@ != renamed_id@,
                        },
                    decreases shown.len() - i,
                {
                    if str_eq(shown[i].session.id.as_str(), renamed_id) {
                        found = Some(i);
                        break;
                    }
                    i = i + 1;
                }
                let ghost sh = st.shown();
                if let Some(k) = found {
                    st.selected = k;
                }
                proof {
                    assert(st.shown() == sh);
                    if exists|k: int| 0 <= k < sh.len() && #[trigger] summaries@[sh[k] as int].session.id@ == renamed_id@ {
                        let k = choose|k: int| 0 <= k < sh.len() && #[trigger] summaries@[sh[k] as int].session.id@ == renamed_id@;
                        assert(*shown@[k] == summaries@[sh[k] as int]);
                        assert(found is Some);
                        let j = found->Some_0 as int;
                        assert(*shown@[j] == summaries@[sh[j] as int]);
                    }
                }
                self.mode = AppMode::SessionTree(st);
            },
            other => {
                self.mode = other;
            },
        }
    }

    /// A prompt for the model: refused without a provider, else the agent's run begins.
    pub fn begin_agent_run(&mut self, has_ai: bool)
        ensures
            final(self).events@.take(old(self).events@.len() as int) == old(self).events@,
            !has_ai ==> event_views(final(self).events@) == event_views(old(self).events@).push(
                (
                    event_id(old(self).next_event_seq as nat),
                    "error"@,
                    "AI provider is not configured. Set OPENAI_API_KEY to chat."@,
                ),
            ) && final(self).pending_ai_requests == old(self).pending_ai_requests,
            has_ai ==> final(self).events@ == old(self).events@ && final(self).pending_ai_requests == if old(self).pending_ai_requests
                < usize::MAX {
                old(self).pending_ai_requests + 1
            } else {
                usize::MAX as int
            } && final(self).runtime_status.label@ == "executing"@ && (final(self).runtime_status.detail matches Some(d)
                && d@ == "running agent loop"@),
    {
        if !has_ai {
            self.push_error_message("AI provider is not configured. Set OPENAI_API_KEY to chat.");
            return;
        }
        self.start_ai_request();
        self.set_runtime_status(RuntimeStatus::with_detail("executing", "running agent loop"));
    }

    /// An agent run finished: its events are recorded, or its error; the status is idle when
    /// no run is left.
    pub fn after_agent_run(&mut self, result: Result<Vec<EventMsg>, String>)
        ensures
            final(self).pending_ai_requests == crate::keys::sat_sub(old(self).pending_ai_requests as int, 1),
            final(self).pending_ai_requests == 0 ==> final(self).runtime_status.label@ == "idle"@,
            final(self).pending_ai_requests > 0 ==> final(self).runtime_status.label@ == "thinking"@,
            final(self).events@.take(old(self).events@.len() as int) == old(self).events@,
            match result {
                Ok(msgs) => final(self).events@.len() == old(self).events@.len() + msgs@.len() && forall|k: int|
                    0 <= k < msgs@.len() ==> (#[trigger] final(self).events@[old(self).events@.len() + k]).msg == msgs@[k],
                Err(m) => final(self).events@.len() == old(self).events@.len() + 1 && final(self).events@.last().msg
                    is Error && final(self).events@.last().msg.content_spec() == m@,
            },
    {
        self.finish_ai_request();
        match result {
            Ok(msgs) => {
                let ghost base = self.events@;
                let mut i: usize = 0;
                let mut rest = msgs;
                let ghost all = rest@;
                let n = rest.len();
                assert(rest@ =~= all.skip(0));
                while rest.len() > 0
                    invariant
                        i <= all.len(),
                        all.len() == n,
                        i + rest@.len() == all.len(),
                        rest@ == all.skip(i as int),
                        self.events@.len() == base.len() + i,
                        self.events@.take(base.len() as int) == base,
                        self.pending_ai_requests == crate::keys::sat_sub(old(self).pending_ai_requests as int, 1),
                        forall|k: int| 0 <= k < i ==> (#[trigger] self.events@[base.len() + k]).msg == all[k],
                    decreases rest.len(),
                {
                    let msg = rest.remove(0);
                    proof {
                        assert(msg == all[i as int]);
                    }
                    let ghost prev = self.events@;
                    self.push_event_msg(msg);
                    proof {
                        assert forall|k: int| 0 <= k < i implies #[trigger] self.events@[base.len() + k] == prev[base.len() + k] by {
                            assert(self.events@.take(prev.len() as int)[base.len() + k] == prev[base.len() + k]);
                        }
                        assert(self.events@.take(base.len() as int) =~= prev.take(base.len() as int));
                        assert(rest@ =~= all.skip(i + 1));
                    }
                    i = i + 1;
                }
            },
            Err(m) => {
                self.push_error_message(m.as_str());
                proof {
                    reveal_strlit("");
                }
            },
        }
        if self.pending_ai_requests == 0 {
            self.set_runtime_status(RuntimeStatus::idle());
        } else {
            self.set_runtime_status(RuntimeStatus::thinking());
        }
    }
}

/// The warning when an image is attached for a model that takes none.
pub open spec fn image_warning() -> Seq<char> {
    "Current model does not support image input. Switch to a vision-capable model before sending a prompt."@
}

/// The model a session starts with: the one its history names, when the configuration has
/// it, else the configuration's own.
pub fn effective_profile(summary: Option<&SessionSummary>, config: &PicocodeConfig) -> (r: AiProfile)
    ensures
        ({
            let named = match summary {
                Some(s) => match (s.ai_provider, s.ai_model) {
                    (Some(p), Some(m)) => Some((p@, m@)),
                    _ => None,
                },
                None => None,
            };
            match named {
                Some((p, m)) => if config.model.is(p, m) || crate::config::first_option(config.models@, p, m) is Some {
                    r.provider@ == p && r.model@ == m
                } else {
                    r.provider@ == config.model.provider@ && r.model@ == config.model.model@
                },
                None => r.provider@ == config.model.provider@ && r.model@ == config.model.model@,
            }
        }),
{
    if let Some(s) = summary {
        if let (Some(p), Some(m)) = (&s.ai_provider, &s.ai_model) {
            proof {
                crate::config::lemma_first_option(config.models@, p@, m@);
            }
            if let Some(found) = config.find_model(p.as_str(), m.as_str()) {
                return AiProfile::new(found.provider.as_str(), found.model.as_str());
            }
        }
    }
    AiProfile::new(config.model.provider.as_str(), config.model.model.as_str())
}

/// An agent run leaves the count of pending requests where it found it: starting the run adds
/// one request (below the largest count), and its outcome takes one away.
pub proof fn law_run_leaves_pending_requests(before: AppState, running: AppState, after: AppState)
    requires
        before.pending_ai_requests < usize::MAX,
        running.pending_ai_requests == before.pending_ai_requests + 1,
        after.pending_ai_requests == crate::keys::sat_sub(running.pending_ai_requests as int, 1),
    ensures
        after.pending_ai_requests == before.pending_ai_requests,
{
}

} // verus!

//! When a buffer's document is opened, changed and closed on its server,
//! relative to enabling, disabling and editing the buffer and to restarts.
//!
//! These functions decide which notification to send; the caller sends it.
//! A buffer records the session it was opened on only once the didOpen has
//! been sent (`mark_opened`), so a didOpen that could not be sent is retried
//! on the next edit rather than followed by a didChange.

use crate::ledger::EditorRequest;
use crate::manager::{after_spawn, spawn_outcome, LspManager, LspSpawnResult, ManagerView};
use vstd::prelude::*;

verus! {

/// A document notification to send to the buffer's session.
#[derive(Debug)]
pub enum DocNotice {
    /// didOpen with the buffer's text at the time of sending, on the session
    /// with handle identity `handle`.
    Open { text: String, handle: u64 },
    Change,
    Close,
}

/// Per-buffer LSP state kept by the editor.
#[derive(Clone, Copy, Debug, PartialEq, Eq, Structural)]
pub struct BufferLsp {
    pub enabled: bool,
    /// The handle identity of the session the document was opened on.
    pub opened_with: Option<u64>,
}

/// A buffer as the restart path sees it: its language, its LSP state and its
/// current text (`None` when it is not loaded).
#[derive(Debug)]
pub struct OpenBuffer {
    pub language: String,
    pub lsp: BufferLsp,
    pub text: Option<String>,
}

pub open spec fn spawn_ok(r: LspSpawnResult) -> bool {
    r == LspSpawnResult::Spawned || r == LspSpawnResult::AlreadyRunning
}

pub open spec fn disable_notice(b: BufferLsp, v: ManagerView, lang: Seq<char>) -> Option<DocNotice> {
    if b.enabled && v.running.contains_key(lang) {
        Some(DocNotice::Close)
    } else {
        None
    }
}

pub open spec fn after_disable(b: BufferLsp) -> BufferLsp {
    BufferLsp { enabled: false, opened_with: None }
}

pub open spec fn enable_notice(
    v: ManagerView,
    lang: Seq<char>,
    explicit: bool,
    text: Option<String>,
) -> Option<DocNotice> {
    if spawn_ok(spawn_outcome(v, lang, explicit)) && text is Some {
        Some(
            DocNotice::Open {
                text: text->Some_0,
                handle: after_spawn(v, lang, explicit).running[lang],
            },
        )
    } else {
        None
    }
}

pub open spec fn after_enable(b: BufferLsp) -> BufferLsp {
    BufferLsp { enabled: true, opened_with: b.opened_with }
}

pub open spec fn after_mark(b: BufferLsp, handle: u64) -> BufferLsp {
    BufferLsp { enabled: b.enabled, opened_with: Some(handle) }
}

pub open spec fn edit_notice(b: BufferLsp, v: ManagerView, lang: Seq<char>, text: Option<String>) -> Option<
    DocNotice,
> {
    if !b.enabled || !v.running.contains_key(lang) {
        None
    } else if b.opened_with == Some(v.running[lang]) {
        Some(DocNotice::Change)
    } else if text is Some {
        Some(DocNotice::Open { text: text->Some_0, handle: v.running[lang] })
    } else {
        None
    }
}

/// What the restart path sends for buffer `b` of the buffers of `lang`.
pub open spec fn reopen_notice(b: BufferLsp, v: ManagerView, lang: Seq<char>, text: Option<String>) -> Option<
    DocNotice,
> {
    if b.enabled && v.running.contains_key(lang) && text is Some {
        Some(DocNotice::Open { text: text->Some_0, handle: v.running[lang] })
    } else {
        None
    }
}

/// The didOpen notices of a restart, each with the index of its buffer, in order.
pub open spec fn reopen_plan(bs: Seq<OpenBuffer>, v: ManagerView, lang: Seq<char>) -> Seq<(usize, DocNotice)>
    decreases bs.len(),
{
    if bs.len() == 0 {
        Seq::empty()
    } else {
        let prev = reopen_plan(bs.drop_last(), v, lang);
        let b = bs.last();
        if b.language@ == lang && reopen_notice(b.lsp, v, lang, b.text) is Some {
            prev.push(((bs.len() - 1) as usize, reopen_notice(b.lsp, v, lang, b.text)->Some_0))
        } else {
            prev
        }
    }
}

/// Toggling a buffer off and on resynchronizes it: the disable sends exactly
/// one didClose, edits while disabled send nothing, the enable sends exactly
/// one didOpen carrying the text the buffer has at that moment, and once that
/// didOpen is sent the next edit is a didChange, not a second didOpen.
pub proof fn lemma_toggle_resyncs(
    b: BufferLsp,
    v: ManagerView,
    lang: Seq<char>,
    edits: Option<String>,
    text: String,
    later: Option<String>,
)
    requires
        b.enabled,
        v.running.contains_key(lang),
    ensures
        disable_notice(b, v, lang) == Some(DocNotice::Close),
        edit_notice(after_disable(b), v, lang, edits) is None,
        enable_notice(v, lang, true, Some(text)) == Some(
            DocNotice::Open { text, handle: v.running[lang] },
        ),
        edit_notice(
            after_mark(after_enable(after_disable(b)), v.running[lang]),
            v,
            lang,
            later,
        ) == Some(DocNotice::Change),
{
}

/// Enables LSP for a buffer: starts the language's session if needed and
/// returns the didOpen to send, with the buffer's current text (`None` when
/// the buffer has no text to send, e.g. it is not loaded yet). Once it is
/// sent, the caller records it with `mark_opened` and asks for
/// `requests_after_open`.
pub fn enable_buffer(
    buf: &mut BufferLsp,
    manager: &mut LspManager,
    language: &String,
    explicit: bool,
    text: Option<String>,
) -> (r: Option<DocNotice>)
    requires
        old(manager).wf(),
        spawn_outcome(old(manager)@, language@, explicit) == LspSpawnResult::Spawned ==> old(
            manager,
        )@.issued < u64::MAX,
    ensures
        final(manager).wf(),
        final(manager)@ == after_spawn(old(manager)@, language@, explicit),
        r == enable_notice(old(manager)@, language@, explicit, text),
        *final(buf) == after_enable(*old(buf)),
{
    buf.enabled = true;
    let spawn = manager.try_spawn(language, explicit);
    match spawn {
        LspSpawnResult::Spawned | LspSpawnResult::AlreadyRunning => {},
        _ => {
            return None;
        },
    }
    match (text, manager.handle_id(language)) {
        (Some(t), Some(h)) => Some(DocNotice::Open { text: t, handle: h }),
        _ => None,
    }
}

/// Records that the didOpen of a buffer was sent on the session `handle`.
pub fn mark_opened(buf: &mut BufferLsp, handle: u64)
    ensures
        *final(buf) == after_mark(*old(buf), handle),
{
    buf.opened_with = Some(handle);
}

/// What toggling LSP for a buffer did.
#[derive(Debug)]
pub enum ToggleOutcome {
    /// No server is configured for the buffer's language; nothing changed.
    NotConfigured,
    /// LSP was on and is now off for the buffer.
    Disabled(Option<DocNotice>),
    /// LSP was off and is now on for the buffer.
    Enabled(Option<DocNotice>),
}

/// Toggles LSP for one buffer, as an explicit user action: disables it when
/// it is on, enables it (see `enable_buffer`) when it is off. A language
/// without a configured server is refused.
pub fn toggle_buffer(
    buf: &mut BufferLsp,
    manager: &mut LspManager,
    language: &String,
    text: Option<String>,
) -> (r: ToggleOutcome)
    requires
        old(manager).wf(),
        !old(buf).enabled && spawn_outcome(old(manager)@, language@, true)
            == LspSpawnResult::Spawned ==> old(manager)@.issued < u64::MAX,
    ensures
        final(manager).wf(),
        !old(manager)@.configs.contains_key(language@) ==> {
            &&& r is NotConfigured
            &&& *final(buf) == *old(buf)
            &&& final(manager)@ == old(manager)@
        },
        old(manager)@.configs.contains_key(language@) && old(buf).enabled ==> {
            &&& r == ToggleOutcome::Disabled(disable_notice(*old(buf), old(manager)@, language@))
            &&& *final(buf) == after_disable(*old(buf))
            &&& final(manager)@ == old(manager)@
        },
        old(manager)@.configs.contains_key(language@) && !old(buf).enabled ==> {
            &&& r == ToggleOutcome::Enabled(enable_notice(old(manager)@, language@, true, text))
            &&& *final(buf) == after_enable(*old(buf))
            &&& final(manager)@ == after_spawn(old(manager)@, language@, true)
        },
{
    if manager.get_config(language).is_none() {
        return ToggleOutcome::NotConfigured;
    }
    if buf.enabled {
        ToggleOutcome::Disabled(disable_buffer(buf, manager, language))
    } else {
        ToggleOutcome::Enabled(enable_buffer(buf, manager, language, true, text))
    }
}

/// The requests that follow a didOpen: diagnostics, inlay hints when they
/// are enabled, and folding ranges, each with a fresh editor request id taken
/// from `next_request_id`.
pub fn requests_after_open(next_request_id: &mut u64, inlay_hints: bool) -> (r: Vec<EditorRequest>)
    requires
        *old(next_request_id) <= u64::MAX - 3,
    ensures
        inlay_hints ==> {
            &&& r@ == seq![
                EditorRequest::DocumentDiagnostic { request_id: *old(next_request_id) },
                EditorRequest::InlayHints { request_id: (*old(next_request_id) + 1) as u64 },
                EditorRequest::FoldingRange { request_id: (*old(next_request_id) + 2) as u64 },
            ]
            &&& *final(next_request_id) == *old(next_request_id) + 3
        },
        !inlay_hints ==> {
            &&& r@ == seq![
                EditorRequest::DocumentDiagnostic { request_id: *old(next_request_id) },
                EditorRequest::FoldingRange { request_id: (*old(next_request_id) + 1) as u64 },
            ]
            &&& *final(next_request_id) == *old(next_request_id) + 2
        },
{
    let mut out: Vec<EditorRequest> = Vec::new();
    out.push(EditorRequest::DocumentDiagnostic { request_id: *next_request_id });
    *next_request_id = *next_request_id + 1;
    if inlay_hints {
        out.push(EditorRequest::InlayHints { request_id: *next_request_id });
        *next_request_id = *next_request_id + 1;
    }
    out.push(EditorRequest::FoldingRange { request_id: *next_request_id });
    *next_request_id = *next_request_id + 1;
    assert(out@ =~= (if inlay_hints {
        seq![
            EditorRequest::DocumentDiagnostic { request_id: *old(next_request_id) },
            EditorRequest::InlayHints { request_id: (*old(next_request_id) + 1) as u64 },
            EditorRequest::FoldingRange { request_id: (*old(next_request_id) + 2) as u64 },
        ]
    } else {
        seq![
            EditorRequest::DocumentDiagnostic { request_id: *old(next_request_id) },
            EditorRequest::FoldingRange { request_id: (*old(next_request_id) + 1) as u64 },
        ]
    }));
    out
}

/// Disables LSP for a buffer: returns the didClose to send while its session
/// runs, and marks the buffer disabled with no session recorded. Sending that
/// didClose makes the session forget the path, so a later enable opens the
/// document afresh.
pub fn disable_buffer(buf: &mut BufferLsp, manager: &LspManager, language: &String) -> (r: Option<
    DocNotice,
>)
    requires
        manager.wf(),
    ensures
        r == disable_notice(*old(buf), manager@, language@),
        *final(buf) == after_disable(*old(buf)),
{
    let notice = if buf.enabled && manager.handle_id(language).is_some() {
        Some(DocNotice::Close)
    } else {
        None
    };
    buf.enabled = false;
    buf.opened_with = None;
    notice
}

/// The notification an edit of the buffer causes: nothing while LSP is
/// disabled for it or no session runs; a didChange when the document is open
/// on the running session; otherwise a didOpen with the current text.
pub fn edit_buffer(buf: &BufferLsp, manager: &LspManager, language: &String, text: Option<String>) -> (r:
    Option<DocNotice>)
    requires
        manager.wf(),
    ensures
        r == edit_notice(*buf, manager@, language@, text),
{
    if !buf.enabled {
        return None;
    }
    match manager.handle_id(language) {
        None => None,
        Some(h) => {
            if buf.opened_with == Some(h) {
                Some(DocNotice::Change)
            } else {
                match text {
                    Some(t) => Some(DocNotice::Open { text: t, handle: h }),
                    None => None,
                }
            }
        },
    }
}

/// After a restart, the didOpen that re-opens an enabled buffer of the
/// language on the new session with its current text.
pub fn reopen_after_restart(
    buf: &BufferLsp,
    manager: &LspManager,
    language: &String,
    text: Option<String>,
) -> (r: Option<DocNotice>)
    requires
        manager.wf(),
    ensures
        r == reopen_notice(*buf, manager@, language@, text),
{
    if !buf.enabled {
        return None;
    }
    match manager.handle_id(language) {
        Some(h) => match text {
            Some(t) => Some(DocNotice::Open { text: t, handle: h }),
            None => None,
        },
        None => None,
    }
}

fn copy_text(t: &Option<String>) -> (r: Option<String>)
    ensures
        r == *t,
{
    match t {
        Some(s) => Some(s.clone()),
        None => None,
    }
}

/// After a restart of `language`, the didOpen of every enabled buffer of
/// that language, with the index of the buffer and its current text.
pub fn reopen_buffers_for_language(
    buffers: &Vec<OpenBuffer>,
    manager: &LspManager,
    language: &String,
) -> (r: Vec<(usize, DocNotice)>)
    requires
        manager.wf(),
    ensures
        r@ == reopen_plan(buffers@, manager@, language@),
{
    let mut out: Vec<(usize, DocNotice)> = Vec::new();
    let mut i: usize = 0;
    while i < buffers.len()
        invariant
            manager.wf(),
            i <= buffers@.len(),
            out@ == reopen_plan(buffers@.subrange(0, i as int), manager@, language@),
        decreases buffers@.len() - i,
    {
        let b = &buffers[i];
        proof {
            let pre = buffers@.subrange(0, i + 1);
            assert(pre.drop_last() =~= buffers@.subrange(0, i as int));
            assert(pre.last() == buffers@[i as int]);
        }
        if b.language == *language {
            if let Some(n) = reopen_after_restart(&b.lsp, manager, language, copy_text(&b.text)) {
                out.push((i, n));
            }
        }
        i = i + 1;
    }
    assert(buffers@.subrange(0, buffers@.len() as int) =~= buffers@);
    out
}

} // verus!

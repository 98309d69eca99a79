//! A formula entry: raw text paired with its compiled expression and,
//! when an output device is available, a live audio session. The entry
//! is the unit the surrounding interface adds, edits and removes, and
//! the unit the bookmark encoding serializes.
use vstd::prelude::*;

use crate::audio::Math;
use crate::audio::Sink;
use crate::expr;
use crate::expr::CompileError;
use crate::expr::CompiledExpr;
use crate::expr::ExprModel;
use crate::expr::compile_model;
use crate::expr::vars_of;

verus! {

/// The lifecycle state of one entry.
#[derive(Clone, Copy, Debug, PartialEq, Eq, Structural)]
pub enum EntryState {
    /// No text; nothing compiled, no error to show.
    Empty,
    /// Text that does not compile, or binds more than one variable.
    Invalid,
    /// Compiled text binding at most one variable.
    Valid,
}

/// The fixed message shown when a formula compiles but binds more than
/// one free variable.
pub open spec fn arity_message() -> Seq<char> {
    "too much variables, only one allowed"@
}

/// An entry in the collection.
pub struct FunctionEntry {
    /// The raw text, the source of truth for serialization.
    pub text: String,
    /// The compiled expression, present exactly when the text compiles
    /// and binds at most one free variable.
    pub func: Option<CompiledExpr>,
    /// The live audio session, present exactly when an output device
    /// was available when the entry was made.
    pub sink: Option<Sink>,
}

impl FunctionEntry {
    /// The entry's invariant: a compiled expression is present only
    /// for non-empty text that it is the compilation of, with at most
    /// one free variable.
    pub open spec fn wf(&self) -> bool {
        match self.func {
            Some(c) => c.wf() && self.text@.len() > 0 && compile_model(self.text@)
                == Ok::<ExprModel, CompileError>(c@) && vars_of(c@).len() <= 1,
            None => true,
        }
    }

    /// Which lifecycle state the entry is in.
    pub open spec fn state(&self) -> EntryState {
        if self.text@.len() == 0 {
            EntryState::Empty
        } else if self.func is Some {
            EntryState::Valid
        } else {
            EntryState::Invalid
        }
    }

    /// Which lifecycle state the entry is in.
    pub fn current_state(&self) -> (r: EntryState)
        ensures
            r == self.state(),
    {
        if self.text.as_str().is_empty() {
            EntryState::Empty
        } else if self.func.is_some() {
            EntryState::Valid
        } else {
            EntryState::Invalid
        }
    }

    /// A torn-down session: nothing queued, paused.
    pub open spec fn sink_torn_down(o: Option<Sink>) -> bool {
        match o {
            Some(s) => s.queued().len() == 0 && s.paused(),
            None => true,
        }
    }

    /// A fresh entry holding `text`, not yet compiled; it gets a live
    /// session exactly when an output device is available, and a fresh
    /// session starts empty and playing.
    pub fn new(text: &str, audio_available: bool) -> (r: Self)
        ensures
            r.text@ == text@,
            r.func is None,
            r.sink is Some <==> audio_available,
            r.sink matches Some(s) ==> s.queued().len() == 0 && !s.paused(),
            r.wf(),
    {
        FunctionEntry {
            text: text.to_owned(),
            func: None,
            sink: if audio_available {
                Some(Sink::new())
            } else {
                None
            },
        }
    }

    /// Replace the entry's text and re-derive everything from scratch.
    ///
    /// Empty text clears the compiled state with no error; text that
    /// fails to compile or binds more than one variable clears it and
    /// reports why; valid text replaces the compiled expression and,
    /// when a session exists, atomically replaces the queued signal
    /// with the new expression's samples, resuming if the collection
    /// is listening and sitting paused otherwise. The session is
    /// replaced whole, never mutated in place, and whether the entry
    /// has one never changes here: that is decided when the entry is
    /// made.
    pub fn update_text(&mut self, new_text: &str, listening: bool) -> (err: Option<String>)
        requires
            new_text@.len() <= 100_000_000,
        ensures
            final(self).text@ == new_text@,
            final(self).wf(),
            final(self).sink is Some <==> old(self).sink is Some,
            new_text@.len() == 0 ==> final(self).func is None && err is None
                && Self::sink_torn_down(final(self).sink),
            new_text@.len() > 0 ==> match compile_model(new_text@) {
                Err(e) => final(self).func is None && Self::sink_torn_down(final(self).sink)
                    && (err matches Some(s) && s@ == e.message_model()),
                Ok(m) => if vars_of(m).len() > 1 {
                    final(self).func is None && Self::sink_torn_down(final(self).sink) && (
                    err matches Some(s) && s@ == arity_message())
                } else {
                    err is None && (final(self).func matches Some(c) && c@ == m && c.wf())
                        && match final(self).sink {
                        Some(s) => s.queued().len() == 1 && s.queued()[0].expr_model() == m
                            && s.queued()[0].index() == 0 && s.paused() == !listening,
                        None => true,
                    }
                },
            },
    {
        self.text = new_text.to_owned();
        if new_text.unicode_len() == 0 {
            self.func = None;
            self.tear_down_session();
            None
        } else {
            match expr::compile(new_text) {
                Err(e) => {
                    self.func = None;
                    self.tear_down_session();
                    Some(e.describe())
                },
                Ok(c) => {
                    if c.var_count() > 1 {
                        self.func = None;
                        self.tear_down_session();
                        Some(String::from_str("too much variables, only one allowed"))
                    } else {
                        if self.sink.is_some() {
                            let mut s = Sink::new();
                            s.append(Math::new(c.duplicate()));
                            if !listening {
                                s.pause();
                            }
                            self.sink = Some(s);
                        }
                        self.func = Some(c);
                        None
                    }
                },
            }
        }
    }

    /// Replace any live session by an empty, paused one: the queued
    /// signal is discarded, the entry itself survives.
    fn tear_down_session(&mut self)
        ensures
            final(self).sink is Some <==> old(self).sink is Some,
            Self::sink_torn_down(final(self).sink),
            final(self).text == old(self).text,
            final(self).func == old(self).func,
    {
        if self.sink.is_some() {
            let mut s = Sink::new();
            s.pause();
            self.sink = Some(s);
        }
    }
}

impl Clone for FunctionEntry {
    /// A clone keeps the text and an independent copy of the compiled
    /// expression, and starts with no audio session of its own.
    fn clone(&self) -> (r: Self)
        ensures
            r.text@ == self.text@,
            r.sink is None,
            r.func is Some <==> self.func is Some,
            self.func matches Some(c) ==> (r.func matches Some(rc) && rc@ == c@ && (c.wf()
                ==> rc.wf())),
            self.wf() ==> r.wf(),
    {
        FunctionEntry {
            text: self.text.clone(),
            func: match &self.func {
                Some(c) => Some(c.duplicate()),
                None => None,
            },
            sink: None,
        }
    }
}

/// A valid entry binds at most one variable: well-formedness admits a
/// compiled expression only together with arity at most one, so text
/// whose recompilation surfaced the arity error can never stand behind
/// the valid state.
pub proof fn lemma_valid_entry_binds_at_most_one(e: FunctionEntry)
    requires
        e.wf(),
        e.state() == EntryState::Valid,
    ensures
        e.func matches Some(c) && vars_of(c@).len() <= 1 && c.vars_model().len() <= 1,
{
    match e.func {
        Some(c) => expr::lemma_wf_vars(c),
        None => (),
    }
}

/// How one deserialized segment turns into an entry: the compiled
/// expression it gets, if any. An empty segment is never compiled.
pub open spec fn entry_func_model(t: Seq<char>) -> Option<ExprModel> {
    if t.len() == 0 {
        None
    } else {
        match compile_model(t) {
            Ok(m) => if vars_of(m).len() <= 1 {
                Some(m)
            } else {
                None
            },
            Err(_) => None,
        }
    }
}

/// The error one deserialized segment reports, if any. An empty
/// segment restores straight to the empty state with nothing to
/// report, as an edit to empty text does.
pub open spec fn entry_error(t: Seq<char>) -> Option<Seq<char>> {
    if t.len() == 0 {
        None
    } else {
        match compile_model(t) {
            Err(e) => Some(e.message_model()),
            Ok(m) => if vars_of(m).len() > 1 {
                Some(arity_message())
            } else {
                None
            },
        }
    }
}

/// An entry restored from the segment `t`: compiled when `t` warrants
/// it, with a session exactly when audio is available; a restored
/// session sits paused, holding the compiled expression's samples when
/// there are any.
pub open spec fn entry_matches(e: FunctionEntry, t: Seq<char>, audio_available: bool) -> bool {
    &&& e.text@ == t
    &&& e.wf()
    &&& (e.func is Some <==> entry_func_model(t) is Some)
    &&& (e.func matches Some(c) ==> entry_func_model(t) == Some(c@))
    &&& (e.sink is Some <==> audio_available)
    &&& match e.sink {
        Some(s) => s.paused() && match e.func {
            Some(c) => s.queued().len() == 1 && s.queued()[0].expr_model() == c@
                && s.queued()[0].index() == 0,
            None => s.queued().len() == 0,
        },
        None => true,
    }
}

/// Restore one entry from a deserialized segment, reporting the error
/// it surfaces, if any. Compiling the empty string is never attempted:
/// an empty segment becomes an empty, uncompiled entry with no error.
pub fn entry_from_text(seg: &str, audio_available: bool) -> (r: (FunctionEntry, Option<String>))
    requires
        seg@.len() <= 100_000_000,
    ensures
        entry_matches(r.0, seg@, audio_available),
        match r.1 {
            Some(s) => entry_error(seg@) == Some(s@),
            None => entry_error(seg@) is None,
        },
{
    let mut entry = FunctionEntry::new(seg, audio_available);
    let mut err: Option<String> = None;
    if seg.unicode_len() > 0 {
        match expr::compile(seg) {
            Err(e) => {
                err = Some(e.describe());
            },
            Ok(c) => {
                if c.var_count() > 1 {
                    err = Some(String::from_str("too much variables, only one allowed"));
                } else {
                    if entry.sink.is_some() {
                        let mut s = Sink::new();
                        s.append(Math::new(c.duplicate()));
                        s.pause();
                        entry.sink = Some(s);
                    }
                    entry.func = Some(c);
                }
            },
        }
    }
    if entry.func.is_none() {
        entry.tear_down_session();
    }
    (entry, err)
}

} // verus!

//! The collection of formula entries and the collection-wide state the
//! interface drives: the resolution setting, the last error to show,
//! and the listen flag fanned out to every live audio session.
use vstd::prelude::*;

use crate::encode;
use crate::entry::FunctionEntry;
use crate::entry::entry_error;

verus! {

/// The most entries the add buttons will grow the collection to (one
/// per palette color of the rendering collaborator).
pub const MAX_ENTRIES: usize = 18;

/// Default plot resolution (points per curve).
pub const DEFAULT_POINTS: usize = 500;

/// Least accepted plot resolution.
pub const MIN_POINTS: usize = 10;

/// Greatest accepted plot resolution.
pub const MAX_POINTS: usize = 1000;

/// How many example formulas the random button cycles through.
pub const EXAMPLES_NUMBER: usize = 20;

/// The example formula at `i` (modulo the table's size).
pub open spec fn example_model(i: int) -> Seq<char> {
    let k = i % (EXAMPLES_NUMBER as int);
    if k == 0 {
        "e^x * sin(x)"@
    } else if k == 1 {
        "e^(-x) * cos(x)"@
    } else if k == 2 {
        "sinh(x) + cosh(x)"@
    } else if k == 3 {
        "ln(x) * tan(x)"@
    } else if k == 4 {
        "sin(x) * cos(x) + tan(x)"@
    } else if k == 5 {
        "sqrt(x^2 + x)"@
    } else if k == 6 {
        "fract(x) + trunc(x)"@
    } else if k == 7 {
        "abs(sin(x))"@
    } else if k == 8 {
        "tan(sinh(x))"@
    } else if k == 9 {
        "exp(ln(x)) + log2(x)"@
    } else if k == 10 {
        "asin(x) + acos(x) + atan(x)"@
    } else if k == 11 {
        "x^3 - 3*(x^2) + 3*x - 1 + sin(x)"@
    } else if k == 12 {
        "signum(x) * tanh(x)"@
    } else if k == 13 {
        "ceil(x) + floor(x)"@
    } else if k == 14 {
        "e^sin(x)"@
    } else if k == 15 {
        "cbrt(x) + cos(x)"@
    } else if k == 16 {
        "\u{03c4} * cos(\u{03c0} * x)"@
    } else if k == 17 {
        "x^2 + log10(x)"@
    } else if k == 18 {
        "log2(e^x)"@
    } else {
        "sin(ln(x)) + cos(log10(x))"@
    }
}

/// The example formula at `i` (modulo the table's size).
pub fn example_text(i: usize) -> (r: &'static str)
    ensures
        r@ == example_model(i as int),
        1 <= r@.len() <= 100,
{
    proof {
        reveal_strlit("e^x * sin(x)");
        reveal_strlit("e^(-x) * cos(x)");
        reveal_strlit("sinh(x) + cosh(x)");
        reveal_strlit("ln(x) * tan(x)");
        reveal_strlit("sin(x) * cos(x) + tan(x)");
        reveal_strlit("sqrt(x^2 + x)");
        reveal_strlit("fract(x) + trunc(x)");
        reveal_strlit("abs(sin(x))");
        reveal_strlit("tan(sinh(x))");
        reveal_strlit("exp(ln(x)) + log2(x)");
        reveal_strlit("asin(x) + acos(x) + atan(x)");
        reveal_strlit("x^3 - 3*(x^2) + 3*x - 1 + sin(x)");
        reveal_strlit("signum(x) * tanh(x)");
        reveal_strlit("ceil(x) + floor(x)");
        reveal_strlit("e^sin(x)");
        reveal_strlit("cbrt(x) + cos(x)");
        reveal_strlit("\u{03c4} * cos(\u{03c0} * x)");
        reveal_strlit("x^2 + log10(x)");
        reveal_strlit("log2(e^x)");
        reveal_strlit("sin(ln(x)) + cos(log10(x))");
    }
    let k = i % EXAMPLES_NUMBER;
    if k == 0 {
        "e^x * sin(x)"
    } else if k == 1 {
        "e^(-x) * cos(x)"
    } else if k == 2 {
        "sinh(x) + cosh(x)"
    } else if k == 3 {
        "ln(x) * tan(x)"
    } else if k == 4 {
        "sin(x) * cos(x) + tan(x)"
    } else if k == 5 {
        "sqrt(x^2 + x)"
    } else if k == 6 {
        "fract(x) + trunc(x)"
    } else if k == 7 {
        "abs(sin(x))"
    } else if k == 8 {
        "tan(sinh(x))"
    } else if k == 9 {
        "exp(ln(x)) + log2(x)"
    } else if k == 10 {
        "asin(x) + acos(x) + atan(x)"
    } else if k == 11 {
        "x^3 - 3*(x^2) + 3*x - 1 + sin(x)"
    } else if k == 12 {
        "signum(x) * tanh(x)"
    } else if k == 13 {
        "ceil(x) + floor(x)"
    } else if k == 14 {
        "e^sin(x)"
    } else if k == 15 {
        "cbrt(x) + cos(x)"
    } else if k == 16 {
        "\u{03c4} * cos(\u{03c0} * x)"
    } else if k == 17 {
        "x^2 + log10(x)"
    } else {
        if k == 18 {
            "log2(e^x)"
        } else {
            "sin(ln(x)) + cos(log10(x))"
        }
    }
}

/// The collection of entries, with the collection-wide settings.
pub struct Grapher {
    data: Vec<FunctionEntry>,
    error: Option<String>,
    points: usize,
    audio_available: bool,
    listening: bool,
    examples_index: usize,
}

impl Grapher {
    /// The entries, in display order.
    pub closed spec fn entries(&self) -> Seq<FunctionEntry> {
        self.data@
    }

    /// The error message on display, if any.
    pub closed spec fn error_model(&self) -> Option<Seq<char>> {
        match self.error {
            Some(ref s) => Some(s@),
            None => None,
        }
    }

    /// The plot resolution every entry is sampled at.
    pub closed spec fn resolution(&self) -> int {
        self.points as int
    }

    /// Whether an audio output device was available at start.
    pub closed spec fn audio(&self) -> bool {
        self.audio_available
    }

    /// The collection-wide listen flag.
    pub closed spec fn listening(&self) -> bool {
        self.listening
    }

    /// Where the random button stands in the example table.
    pub closed spec fn example_cursor(&self) -> int {
        self.examples_index as int
    }

    /// Every entry is well formed, sessions exist only when audio is
    /// available, and the resolution is in range.
    pub open spec fn wf(&self) -> bool {
        &&& forall|i: int| 0 <= i < self.entries().len() ==> (#[trigger] self.entries()[i]).wf()
        &&& !self.audio() ==> forall|i: int|
            0 <= i < self.entries().len() ==> (#[trigger] self.entries()[i]).sink is None
        &&& MIN_POINTS <= self.resolution() <= MAX_POINTS
        &&& 0 <= self.example_cursor() < EXAMPLES_NUMBER
    }

    /// A fresh collection, restored from the bookmark fragment of
    /// `href`: no marker, or nothing after it, means no entries. The
    /// resolution starts at its default, the listen flag off, and the
    /// last restore error, if any, is on display.
    pub fn new(audio_available: bool, href: &str) -> (g: Grapher)
        requires
            href@.len() <= 100_000_000,
        ensures
            g.wf(),
            g.audio() == audio_available,
            !g.listening(),
            g.resolution() == DEFAULT_POINTS,
            g.example_cursor() == 0,
            match encode::fragment_of(href@) {
                None => g.entries().len() == 0 && g.error_model() is None,
                Some(f) => {
                    let ts = encode::split_commas(f);
                    &&& g.entries().len() == ts.len()
                    &&& forall|j: int|
                        0 <= j < ts.len() ==> crate::entry::entry_matches(
                            #[trigger] g.entries()[j],
                            ts[j],
                            audio_available,
                        )
                    &&& match encode::last_error(ts) {
                        Some(em) => g.error_model() == Some(em),
                        None => g.error_model() is None,
                    }
                },
            },
    {
        let mut data: Vec<FunctionEntry> = Vec::new();
        let error = encode::get_data_from_url(&mut data, href, audio_available);
        proof {
            assert forall|i: int| 0 <= i < data@.len() implies ((#[trigger] data@[i]).wf() && (
            data@[i].sink is Some <==> audio_available)) by {
                let fo = encode::fragment_of(href@);
                if fo is Some {
                    let f = fo->0;
                    assert(crate::entry::entry_matches(
                        data@[0 + i],
                        encode::split_commas(f)[i],
                        audio_available,
                    ));
                }
            }
        }
        Grapher {
            data,
            error,
            points: DEFAULT_POINTS,
            audio_available,
            listening: false,
            examples_index: 0,
        }
    }

    /// How many entries the collection holds.
    pub fn len(&self) -> (n: usize)
        ensures
            n == self.entries().len(),
    {
        self.data.len()
    }

    /// The entry at `i`, for display.
    pub fn entry(&self, i: usize) -> (r: &FunctionEntry)
        requires
            i < self.entries().len(),
        ensures
            *r == self.entries()[i as int],
    {
        &self.data[i]
    }

    /// The error message on display, if any.
    pub fn error(&self) -> (r: &Option<String>)
        ensures
            match r {
                Some(s) => self.error_model() == Some(s@),
                None => self.error_model() is None,
            },
    {
        &self.error
    }

    pub fn points(&self) -> (r: usize)
        ensures
            r == self.resolution(),
    {
        self.points
    }

    pub fn is_listening(&self) -> (r: bool)
        ensures
            r == self.listening(),
    {
        self.listening
    }

    pub fn audio_available(&self) -> (r: bool)
        ensures
            r == self.audio(),
    {
        self.audio_available
    }

    /// Add one fresh, empty entry, when there is room for it.
    pub fn add_entry(&mut self)
        requires
            old(self).wf(),
        ensures
            final(self).wf(),
            old(self).entries().len() < MAX_ENTRIES ==> {
                &&& final(self).entries().len() == old(self).entries().len() + 1
                &&& final(self).entries().last().text@ == Seq::<char>::empty()
                &&& final(self).entries().last().func is None
                &&& final(self).entries().last().state() == crate::entry::EntryState::Empty
                &&& (final(self).entries().last().sink is Some <==> old(self).audio())
                &&& forall|i: int|
                    0 <= i < old(self).entries().len() ==> final(self).entries()[i] == old(self).entries()[i]
            },
            old(self).entries().len() >= MAX_ENTRIES ==> final(self).entries() == old(self).entries(),
            final(self).error_model() == old(self).error_model(),
            final(self).resolution() == old(self).resolution(),
            final(self).listening() == old(self).listening(),
            final(self).audio() == old(self).audio(),
    {
        if self.data.len() < MAX_ENTRIES {
            let e = FunctionEntry::new("", self.audio_available);
            proof {
                reveal_strlit("");
            }
            self.data.push(e);
        }
    }

    /// Add the next example formula, compiled on the spot, when there
    /// is room; the example cursor advances cyclically, and whatever
    /// the compilation surfaces goes on display.
    pub fn add_random(&mut self)
        requires
            old(self).wf(),
        ensures
            final(self).wf(),
            final(self).resolution() == old(self).resolution(),
            final(self).listening() == old(self).listening(),
            final(self).audio() == old(self).audio(),
            old(self).entries().len() >= MAX_ENTRIES ==> final(self).entries() == old(self).entries() && final(self).error_model() == old(self).error_model(),
            old(self).entries().len() < MAX_ENTRIES ==> {
                let text = example_model(old(self).example_cursor());
                &&& final(self).example_cursor() == (old(self).example_cursor() + 1) % (
                EXAMPLES_NUMBER as int)
                &&& final(self).entries().len() == old(self).entries().len() + 1
                &&& forall|i: int|
                    0 <= i < old(self).entries().len() ==> final(self).entries()[i] == old(self).entries()[i]
                &&& final(self).entries().last().text@ == text
                &&& (final(self).entries().last().sink is Some <==> old(self).audio())
                &&& match entry_error(text) {
                    Some(em) => final(self).error_model() == Some(em) && final(self).entries().last().func is None && FunctionEntry::sink_torn_down(
                        final(self).entries().last().sink,
                    ),
                    None => final(self).error_model() is None && ({
                        let e = final(self).entries().last();
                        e.func matches Some(c) && match e.sink {
                            Some(s) => s.queued().len() == 1 && s.queued()[0].expr_model() == c@
                                && s.queued()[0].index() == 0 && s.paused() == !old(self).listening(),
                            None => true,
                        }
                    }),
                }
            },
    {
        if self.data.len() < MAX_ENTRIES {
            let text = example_text(self.examples_index);
            self.examples_index = (self.examples_index + 1) % EXAMPLES_NUMBER;
            let mut e = FunctionEntry::new("", self.audio_available);
            self.error = None;
            let err = e.update_text(text, self.listening);
            self.data.push(e);
            self.error = err;
        }
    }

    /// Remove the entry at `i`, releasing whatever it owns; the others
    /// keep their order.
    pub fn remove_entry(&mut self, i: usize)
        requires
            old(self).wf(),
            i < old(self).entries().len(),
        ensures
            final(self).wf(),
            final(self).entries() == old(self).entries().remove(i as int),
            final(self).error_model() == old(self).error_model(),
            final(self).resolution() == old(self).resolution(),
            final(self).listening() == old(self).listening(),
            final(self).audio() == old(self).audio(),
    {
        self.data.remove(i);
    }

    /// Replace the text of the entry at `i` and recompile it from
    /// scratch, updating the error on display: cleared first, then set
    /// to whatever the recompilation surfaces. Empty text steps the
    /// entry back to its uncompiled state with nothing on display.
    pub fn edit_entry(&mut self, i: usize, new_text: &str)
        requires
            old(self).wf(),
            i < old(self).entries().len(),
            new_text@.len() <= 100_000_000,
        ensures
            final(self).wf(),
            final(self).entries().len() == old(self).entries().len(),
            forall|k: int|
                0 <= k < old(self).entries().len() && k != i ==> final(self).entries()[k] == old(self).entries()[k],
            ({
                let e = final(self).entries()[i as int];
                &&& e.text@ == new_text@
                &&& e.wf()
                &&& (e.sink is Some <==> old(self).entries()[i as int].sink is Some)
                &&& if new_text@.len() == 0 {
                    final(self).error_model() is None && e.func is None && e.state()
                        == crate::entry::EntryState::Empty && FunctionEntry::sink_torn_down(e.sink)
                } else {
                    match entry_error(new_text@) {
                        Some(em) => final(self).error_model() == Some(em) && e.func is None
                            && FunctionEntry::sink_torn_down(e.sink),
                        None => final(self).error_model() is None && (e.func matches Some(c)
                            && match e.sink {
                            Some(s) => s.queued().len() == 1 && s.queued()[0].expr_model() == c@
                                && s.queued()[0].index() == 0 && s.paused() == !old(self).listening(),
                            None => true,
                        }),
                    }
                }
            }),
            final(self).resolution() == old(self).resolution(),
            final(self).listening() == old(self).listening(),
            final(self).audio() == old(self).audio(),
    {
        self.error = None;
        let mut e = self.data.remove(i);
        let err = e.update_text(new_text, self.listening);
        self.data.insert(i, e);
        self.error = err;
        proof {
            assert(self.data@ =~= old(self).data@.update(i as int, self.data@[i as int]));
        }
    }

    /// Toggle the collection-wide listen flag: every live session is
    /// played or paused together; entries without a session, and
    /// everything else about every entry, stay untouched.
    pub fn set_listening(&mut self, on: bool)
        requires
            old(self).wf(),
        ensures
            final(self).wf(),
            final(self).listening() == on,
            final(self).entries().len() == old(self).entries().len(),
            forall|i: int|
                0 <= i < old(self).entries().len() ==> toggled(
                    old(self).entries()[i],
                    #[trigger] final(self).entries()[i],
                    on,
                ),
            final(self).error_model() == old(self).error_model(),
            final(self).resolution() == old(self).resolution(),
            final(self).audio() == old(self).audio(),
    {
        self.listening = on;
        let n = self.data.len();
        let mut i: usize = 0;
        while i < n
            invariant
                n == self.data@.len(),
                i <= n,
                self.data@.len() == old(self).data@.len(),
                self.error == old(self).error,
                self.points == old(self).points,
                self.audio_available == old(self).audio_available,
                self.listening == on,
                self.examples_index == old(self).examples_index,
                old(self).wf(),
                forall|k: int| i <= k < n ==> self.data@[k] == old(self).data@[k],
                forall|k: int|
                    0 <= k < i ==> toggled(old(self).data@[k], #[trigger] self.data@[k], on),
            decreases n - i,
        {
            let ghost before_data = self.data@;
            let has = self.data[i].sink.is_some();
            if has {
                let mut e = self.data.remove(i);
                let sk = e.sink;
                e.sink = match sk {
                    Some(mut s) => {
                        if on {
                            s.play();
                        } else {
                            s.pause();
                        }
                        Some(s)
                    },
                    None => None,
                };
                self.data.insert(i, e);
                proof {
                    assert(self.data@ =~= before_data.update(i as int, self.data@[i as int]));
                }
            }
            i = i + 1;
        }
    }

    /// Bound a requested resolution into the accepted range.
    pub fn set_points(&mut self, requested: usize)
        requires
            old(self).wf(),
        ensures
            final(self).wf(),
            final(self).resolution() == if requested < MIN_POINTS {
                MIN_POINTS as int
            } else if requested > MAX_POINTS {
                MAX_POINTS as int
            } else {
                requested as int
            },
            final(self).entries() == old(self).entries(),
            final(self).error_model() == old(self).error_model(),
            final(self).listening() == old(self).listening(),
            final(self).audio() == old(self).audio(),
    {
        self.points = if requested < MIN_POINTS {
            MIN_POINTS
        } else if requested > MAX_POINTS {
            MAX_POINTS
        } else {
            requested
        };
    }

    /// Serialize the collection to its bookmark fragment.
    pub fn url_string(&self) -> (r: String)
        ensures
            r@ == encode::url_model(encode::texts_of(self.entries())),
    {
        encode::url_string_from_data(&self.data)
    }
}

impl Default for Grapher {
    /// A fresh, empty collection with no audio device and nothing
    /// restored.
    fn default() -> (g: Self)
        ensures
            g.wf(),
            g.entries().len() == 0,
            !g.audio(),
            !g.listening(),
            g.resolution() == DEFAULT_POINTS,
            g.example_cursor() == 0,
            g.error_model() is None,
    {
        proof {
            reveal_strlit("");
        }
        Grapher::new(false, "")
    }
}

/// What the listen toggle does to one entry: a live session is played
/// or paused to match the flag, everything else stays as it was.
pub open spec fn toggled(before: FunctionEntry, after: FunctionEntry, on: bool) -> bool {
    &&& after.text == before.text
    &&& after.func == before.func
    &&& (after.sink is Some <==> before.sink is Some)
    &&& match (after.sink, before.sink) {
        (Some(sa), Some(sb)) => sa.queued() == sb.queued() && sa.paused() == !on,
        (None, None) => true,
        _ => false,
    }
}

} // verus!

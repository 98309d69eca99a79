//! The bookmarkable text encoding: a collection of entries is
//! serialized as `#` followed by the raw texts joined with `,`, and
//! deserialized by splitting the part after the last `#` on `,` and
//! recompiling each segment. Texts holding the delimiter or the marker
//! corrupt the round trip; that is a documented limitation of the
//! format, not repaired here.
use vstd::prelude::*;

use crate::entry::FunctionEntry;
use crate::entry::entry_error;
use crate::entry::entry_from_text;
use crate::entry::entry_matches;
use crate::expr::chars_of;

verus! {

/// The raw texts of a sequence of entries, in order.
pub open spec fn texts_of(s: Seq<FunctionEntry>) -> Seq<Seq<char>> {
    Seq::new(s.len(), |i: int| s[i].text@)
}

/// The texts joined with the delimiter.
pub open spec fn join_commas(ts: Seq<Seq<char>>) -> Seq<char>
    decreases ts.len(),
{
    if ts.len() == 0 {
        Seq::empty()
    } else if ts.len() == 1 {
        ts[0]
    } else {
        ts[0] + seq![','] + join_commas(ts.drop_first())
    }
}

/// The whole serialized form: nothing for an empty collection, else
/// the fragment marker followed by the joined texts.
pub open spec fn url_model(ts: Seq<Seq<char>>) -> Seq<char> {
    if ts.len() == 0 {
        Seq::empty()
    } else {
        seq!['#'] + join_commas(ts)
    }
}

/// First position at or after `i` holding the delimiter, or the length
/// when there is none.
pub open spec fn find_comma(s: Seq<char>, i: int) -> int
    decreases s.len() - i,
{
    if 0 <= i < s.len() {
        if s[i] == ',' {
            i
        } else {
            find_comma(s, i + 1)
        }
    } else {
        s.len() as int
    }
}

/// The segments of `s` from `start` on, split on the delimiter; always
/// at least one segment, as splitting an empty text yields one empty
/// segment.
pub open spec fn split_from(s: Seq<char>, start: int) -> Seq<Seq<char>>
    decreases s.len() - start,
{
    let p = find_comma(s, start);
    if start <= p < s.len() {
        seq![s.subrange(start, p)] + split_from(s, p + 1)
    } else {
        seq![s.subrange(start, s.len() as int)]
    }
}

pub open spec fn split_commas(s: Seq<char>) -> Seq<Seq<char>> {
    split_from(s, 0)
}

/// Position of the last fragment marker, or -1 when there is none.
pub open spec fn last_hash(s: Seq<char>) -> int
    decreases s.len(),
{
    if s.len() == 0 {
        -1
    } else if s[s.len() - 1] == '#' {
        s.len() - 1
    } else {
        last_hash(s.drop_last())
    }
}

/// The non-empty part after the last fragment marker, if any.
pub open spec fn fragment_of(href: Seq<char>) -> Option<Seq<char>> {
    let h = last_hash(href);
    if h == -1 {
        None
    } else if h + 1 == href.len() {
        None
    } else {
        Some(href.subrange(h + 1, href.len() as int))
    }
}

/// The last error any segment surfaces, scanning from the end.
pub open spec fn last_error(ts: Seq<Seq<char>>) -> Option<Seq<char>>
    decreases ts.len(),
{
    if ts.len() == 0 {
        None
    } else {
        match entry_error(ts.last()) {
            Some(e) => Some(e),
            None => last_error(ts.drop_last()),
        }
    }
}

// ---------------------------------------------------------------------
// Characterizations of the scanners
// ---------------------------------------------------------------------

proof fn lemma_find_comma(s: Seq<char>, i: int)
    requires
        0 <= i <= s.len(),
    ensures
        i <= find_comma(s, i) <= s.len(),
        find_comma(s, i) < s.len() ==> s[find_comma(s, i)] == ',',
        forall|j: int| i <= j < find_comma(s, i) ==> s[j] != ',',
    decreases s.len() - i,
{
    if i < s.len() && s[i] != ',' {
        lemma_find_comma(s, i + 1);
    }
}

proof fn lemma_last_hash(s: Seq<char>)
    ensures
        -1 <= last_hash(s) < s.len(),
        last_hash(s) >= 0 ==> s[last_hash(s)] == '#',
        forall|j: int| last_hash(s) < j < s.len() ==> s[j] != '#',
    decreases s.len(),
{
    if s.len() > 0 && s[s.len() - 1] != '#' {
        lemma_last_hash(s.drop_last());
        assert forall|j: int| last_hash(s) < j < s.len() implies s[j] != '#' by {
            if j < s.len() - 1 {
                assert(s.drop_last()[j] == s[j]);
            }
        }
    }
}

// ---------------------------------------------------------------------
// Executable scanners
// ---------------------------------------------------------------------

fn find_comma_exec(chars: &Vec<char>, i: usize) -> (r: usize)
    requires
        i <= chars@.len(),
    ensures
        r as int == find_comma(chars@, i as int),
        i <= r <= chars@.len(),
    decreases chars@.len() - i,
{
    if i < chars.len() {
        if chars[i] == ',' {
            i
        } else {
            find_comma_exec(chars, i + 1)
        }
    } else {
        i
    }
}

fn last_hash_exec(chars: &Vec<char>) -> (r: Option<usize>)
    ensures
        match r {
            Some(h) => h as int == last_hash(chars@) && h < chars@.len(),
            None => last_hash(chars@) == -1,
        },
{
    proof {
        lemma_last_hash(chars@);
    }
    let mut j = chars.len();
    while j > 0
        invariant
            j <= chars@.len(),
            forall|k: int| j <= k < chars@.len() ==> chars@[k] != '#',
        decreases j,
    {
        if chars[j - 1] == '#' {
            proof {
                lemma_last_hash(chars@);
                let lh = last_hash(chars@);
                if lh > j - 1 {
                    assert(chars@[lh] != '#');
                }
                if lh < j - 1 {
                    assert(chars@[j - 1] != '#');
                }
            }
            return Some(j - 1);
        }
        j = j - 1;
    }
    proof {
        if last_hash(chars@) >= 0 {
            assert(chars@[last_hash(chars@)] != '#');
        }
    }
    None
}

// ---------------------------------------------------------------------
// Serialization
// ---------------------------------------------------------------------

proof fn lemma_join_snoc(ts: Seq<Seq<char>>, t: Seq<char>)
    ensures
        join_commas(ts.push(t)) == if ts.len() == 0 {
            t
        } else {
            join_commas(ts) + seq![','] + t
        },
    decreases ts.len(),
{
    if ts.len() == 0 {
        assert(join_commas(ts.push(t)) == ts.push(t)[0]);
        assert(ts.push(t)[0] == t);
    } else {
        assert(ts.push(t).drop_first() =~= ts.drop_first().push(t));
        lemma_join_snoc(ts.drop_first(), t);
        if ts.len() == 1 {
            assert(join_commas(ts.push(t)) == ts[0] + seq![','] + t);
            assert(join_commas(ts) == ts[0]);
        } else {
            assert(join_commas(ts.push(t)) == ts[0] + seq![','] + (join_commas(ts.drop_first())
                + seq![','] + t));
            assert(join_commas(ts) + seq![','] + t == (ts[0] + seq![','] + join_commas(
                ts.drop_first(),
            )) + seq![','] + t);
            assert(ts[0] + seq![','] + (join_commas(ts.drop_first()) + seq![','] + t) =~= (ts[0]
                + seq![','] + join_commas(ts.drop_first())) + seq![','] + t);
        }
    }
}

/// Serialize the collection: `#` followed by the entries' raw texts
/// joined with `,`, or the empty string for an empty collection.
pub fn url_string_from_data(data: &Vec<FunctionEntry>) -> (r: String)
    ensures
        r@ == url_model(texts_of(data@)),
{
    let ghost ts = texts_of(data@);
    let mut out = String::new();
    if data.len() == 0 {
        return out;
    }
    out.append("#");
    proof {
        reveal_strlit("#");
        assert(out@ =~= seq!['#'] + join_commas(ts.subrange(0, 0)));
    }
    let mut i: usize = 0;
    while i < data.len()
        invariant
            i <= data@.len(),
            0 < data@.len(),
            ts == texts_of(data@),
            out@ == seq!['#'] + join_commas(ts.subrange(0, i as int)),
        decreases data@.len() - i,
    {
        if i > 0 {
            out.append(",");
        }
        out.append(data[i].text.as_str());
        proof {
            reveal_strlit(",");
            assert(ts.subrange(0, i + 1) =~= ts.subrange(0, i as int).push(ts[i as int]));
            lemma_join_snoc(ts.subrange(0, i as int), ts[i as int]);
            assert(out@ =~= seq!['#'] + join_commas(ts.subrange(0, i + 1)));
        }
        i = i + 1;
    }
    proof {
        assert(ts.subrange(0, ts.len() as int) =~= ts);
    }
    out
}

// ---------------------------------------------------------------------
// Deserialization
// ---------------------------------------------------------------------

proof fn lemma_last_error_cons(t0: Seq<char>, rest: Seq<Seq<char>>)
    ensures
        last_error(seq![t0] + rest) == match last_error(rest) {
            Some(e) => Some(e),
            None => entry_error(t0),
        },
    decreases rest.len(),
{
    let whole = seq![t0] + rest;
    if rest.len() == 0 {
        assert(whole =~= seq![t0]);
        assert(whole.drop_last() =~= Seq::<Seq<char>>::empty());
        assert(whole.last() == t0);
        assert(last_error(Seq::<Seq<char>>::empty()) is None);
    } else {
        assert(whole.last() == rest.last());
        assert(whole.drop_last() =~= seq![t0] + rest.drop_last());
        lemma_last_error_cons(t0, rest.drop_last());
    }
}

/// Split the fragment from `start` on, append one restored entry per
/// segment, and thread the last error to surface: a later segment's
/// error wins over `prior`.
#[verifier::rlimit(60)]
fn push_entries(
    data: &mut Vec<FunctionEntry>,
    frag: &str,
    chars: &Vec<char>,
    start: usize,
    audio_available: bool,
    prior: Option<String>,
) -> (r: Option<String>)
    requires
        chars@ == frag@,
        start <= chars@.len(),
        chars@.len() <= 100_000_000,
    ensures
        ({
            let ts = split_from(chars@, start as int);
            &&& final(data)@.len() == old(data)@.len() + ts.len()
            &&& forall|i: int| 0 <= i < old(data)@.len() ==> final(data)@[i] == old(data)@[i]
            &&& forall|j: int|
                0 <= j < ts.len() ==> entry_matches(
                    final(data)@[old(data)@.len() + j],
                    ts[j],
                    audio_available,
                )
            &&& match last_error(ts) {
                Some(em) => r matches Some(s) && s@ == em,
                None => r == prior,
            }
        }),
    decreases chars@.len() - start,
{
    proof {
        lemma_find_comma(chars@, start as int);
    }
    let p = find_comma_exec(chars, start);
    let seg = frag.substring_char(start, p);
    let (e, err) = entry_from_text(seg, audio_available);
    data.push(e);
    let new_prior = match err {
        Some(s) => Some(s),
        None => prior,
    };
    let ghost seg_text = chars@.subrange(start as int, p as int);
    if p < chars.len() {
        let r = push_entries(data, frag, chars, p + 1, audio_available, new_prior);
        proof {
            let ts = split_from(chars@, start as int);
            let rest = split_from(chars@, p + 1);
            assert(ts == seq![seg_text] + rest);
            assert(ts[0] == seg_text);
            assert forall|j: int| 1 <= j < ts.len() implies ts[j] == rest[j - 1] by {}
            lemma_last_error_cons(seg_text, rest);
        }
        r
    } else {
        proof {
            let ts = split_from(chars@, start as int);
            assert(ts =~= seq![chars@.subrange(start as int, chars@.len() as int)]);
            assert(ts.drop_last() =~= Seq::<Seq<char>>::empty());
            assert(ts.last() == seg_text);
            assert(seg@ == seg_text);
            assert(last_error(Seq::<Seq<char>>::empty()) is None);
            assert(last_error(ts) == entry_error(seg_text));
            assert(match last_error(ts) {
                Some(em) => new_prior matches Some(s) && s@ == em,
                None => new_prior == prior,
            });
        }
        new_prior
    }
}

/// Restore entries from the part of `href` after the last `#`: split
/// it on `,`, recompile each segment into a fresh entry appended to
/// `data`, and return the last error encountered, if any. Without a
/// marker, or with nothing after it, `data` is left untouched.
pub fn get_data_from_url(
    data: &mut Vec<FunctionEntry>,
    href: &str,
    audio_available: bool,
) -> (r: Option<String>)
    requires
        href@.len() <= 100_000_000,
    ensures
        match fragment_of(href@) {
            None => final(data)@ == old(data)@ && r is None,
            Some(f) => {
                let ts = split_commas(f);
                &&& final(data)@.len() == old(data)@.len() + ts.len()
                &&& forall|i: int| 0 <= i < old(data)@.len() ==> final(data)@[i] == old(data)@[i]
                &&& forall|j: int|
                    0 <= j < ts.len() ==> entry_matches(
                        final(data)@[old(data)@.len() + j],
                        ts[j],
                        audio_available,
                    )
                &&& match last_error(ts) {
                    Some(em) => r matches Some(s) && s@ == em,
                    None => r is None,
                }
            },
        },
{
    let n = href.unicode_len();
    let chars = chars_of(href);
    let h = match last_hash_exec(&chars) {
        None => {
            return None;
        },
        Some(h) => h,
    };
    if h + 1 == n {
        return None;
    }
    let frag = href.substring_char(h + 1, n);
    let frag_chars = chars_of(frag);
    push_entries(data, frag, &frag_chars, 0, audio_available, None)
}

// ---------------------------------------------------------------------
// The round trip
// ---------------------------------------------------------------------

proof fn lemma_split_of_join(ts: Seq<Seq<char>>, s: Seq<char>, start: int)
    requires
        ts.len() >= 1,
        0 <= start <= s.len(),
        s.subrange(start, s.len() as int) == join_commas(ts),
        forall|i: int| 0 <= i < ts.len() ==> !(#[trigger] ts[i]).contains(','),
    ensures
        split_from(s, start) == ts,
    decreases ts.len(),
{
    lemma_find_comma(s, start);
    let p = find_comma(s, start);
    let tail = s.subrange(start, s.len() as int);
    if ts.len() == 1 {
        assert(tail == ts[0]);
        if p < s.len() {
            assert(s[p] == ',');
            assert(tail[p - start] == s[p]);
            assert(ts[0].contains(','));
        }
        assert(p == s.len());
        assert(split_from(s, start) =~= seq![s.subrange(start, s.len() as int)]);
        assert(split_from(s, start) =~= ts);
    } else {
        let t0 = ts[0];
        let rest = ts.drop_first();
        assert(join_commas(ts) == t0 + seq![','] + join_commas(rest));
        let cut = start + t0.len();
        assert(cut < s.len()) by {
            assert(tail.len() == t0.len() + 1 + join_commas(rest).len());
        }
        assert(s[cut] == ',') by {
            assert(tail[t0.len() as int] == (t0 + seq![','] + join_commas(rest))[t0.len() as int]);
        }
        assert forall|j: int| start <= j < cut implies s[j] != ',' by {
            assert(tail[j - start] == t0[j - start]);
            if s[j] == ',' {
                assert(t0.contains(','));
            }
        }
        assert(p == cut) by {
            if p < cut {
                assert(s[p] != ',');
            }
            if p > cut {
                assert(s[cut] != ',');
            }
        }
        assert(s.subrange(start, p) =~= t0) by {
            assert forall|k: int| 0 <= k < t0.len() implies s.subrange(start, p)[k] == t0[k] by {
                assert(tail[k] == t0[k]);
            }
        }
        assert(s.subrange(p + 1, s.len() as int) =~= join_commas(rest)) by {
            assert forall|k: int| 0 <= k < join_commas(rest).len() implies s.subrange(
                p + 1,
                s.len() as int,
            )[k] == join_commas(rest)[k] by {
                assert(tail[t0.len() + 1 + k] == (t0 + seq![','] + join_commas(rest))[t0.len() + 1
                    + k]);
            }
        }
        lemma_split_of_join(rest, s, p + 1);
        assert(split_from(s, start) == seq![s.subrange(start, p)] + split_from(s, p + 1));
        assert(split_from(s, start) =~= ts);
    }
}

proof fn lemma_join_no_hash(ts: Seq<Seq<char>>)
    requires
        ts.len() >= 1,
        forall|i: int| 0 <= i < ts.len() ==> !(#[trigger] ts[i]).contains('#'),
    ensures
        forall|k: int| 0 <= k < join_commas(ts).len() ==> join_commas(ts)[k] != '#',
    decreases ts.len(),
{
    if ts.len() == 1 {
        assert forall|k: int| 0 <= k < join_commas(ts).len() implies join_commas(ts)[k] != '#' by {
            if ts[0][k] == '#' {
                assert(ts[0].contains('#'));
            }
        }
    } else {
        lemma_join_no_hash(ts.drop_first());
        let t0 = ts[0];
        let rest = join_commas(ts.drop_first());
        assert forall|k: int| 0 <= k < join_commas(ts).len() implies join_commas(ts)[k] != '#' by {
            assert(join_commas(ts) == t0 + seq![','] + rest);
            if k < t0.len() {
                if t0[k] == '#' {
                    assert(t0.contains('#'));
                }
            } else if k == t0.len() {
                assert(join_commas(ts)[k] == ',');
            } else {
                assert(join_commas(ts)[k] == rest[k - t0.len() - 1]);
            }
        }
    }
}

/// The round trip law: serializing a collection and deserializing the
/// result restores exactly the original texts, provided no text holds
/// the delimiter `,` or the marker `#`, and the collection is not a
/// single empty text (whose serialization cannot be told from the
/// empty collection's).
pub proof fn lemma_round_trip(ts: Seq<Seq<char>>)
    requires
        forall|i: int|
            0 <= i < ts.len() ==> !(#[trigger] ts[i]).contains(',') && !ts[i].contains('#'),
        !(ts.len() == 1 && ts[0].len() == 0),
    ensures
        match fragment_of(url_model(ts)) {
            None => ts.len() == 0,
            Some(f) => split_commas(f) == ts,
        },
{
    if ts.len() == 0 {
        assert(url_model(ts) =~= Seq::<char>::empty());
        assert(last_hash(url_model(ts)) == -1);
    } else {
        let u = url_model(ts);
        let body = join_commas(ts);
        assert(u == seq!['#'] + body);
        lemma_join_no_hash(ts);
        lemma_last_hash(u);
        assert(u[0] == '#');
        let lh = last_hash(u);
        assert(lh == 0) by {
            if lh > 0 {
                assert(u[lh] == body[lh - 1]);
            }
            if lh < 0 {
                assert(u[0] != '#');
            }
        }
        assert(body.len() > 0) by {
            if ts.len() == 1 {
                assert(body == ts[0]);
            } else {
                assert(body == ts[0] + seq![','] + join_commas(ts.drop_first()));
            }
        }
        let f = u.subrange(1, u.len() as int);
        assert(fragment_of(u) == Some(f));
        assert(f =~= body);
        assert(f.subrange(0, f.len() as int) =~= body);
        lemma_split_of_join(ts, f, 0);
    }
}

} // verus!

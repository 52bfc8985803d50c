use vstd::prelude::*;
use vstd::utf8::{decode_utf8, valid_utf8};

verus! {

/// What `str::trim` leaves of a text: it is stripped of leading and trailing
/// Unicode white space.
pub uninterp spec fn trimmed(s: Seq<char>) -> Seq<char>;

/// Space, tab, line feed, carriage return, vertical tab and form feed: ASCII
/// characters that Unicode counts as white space.
pub open spec fn is_ascii_blank(c: char) -> bool {
    c == ' ' || c == '\t' || c == '\n' || c == '\r' || c == '\x0B' || c == '\x0C'
}

/// Relies on `str::trim`, which strips the white space at both ends; a text of
/// ASCII white space alone comes out empty.
#[verifier::external_body]
fn trim_text(s: &str) -> (r: String)
    ensures
        r@ == trimmed(s@),
        (forall|i: int| 0 <= i < s@.len() ==> is_ascii_blank(#[trigger] s@[i])) ==> r@.len() == 0,
{
    s.trim().to_owned()
}

/// Relies on `std::str::from_utf8`, which accepts exactly the well-formed
/// UTF-8 byte strings and then yields the characters they encode.
#[verifier::external_body]
fn decode_text(b: &[u8]) -> (r: Option<String>)
    ensures
        r is Some <==> valid_utf8(b@),
        r matches Some(s) ==> s@ == decode_utf8(b@),
{
    match std::str::from_utf8(b) {
        Ok(s) => Some(s.to_owned()),
        Err(_) => None,
    }
}

/// Captured clipboard bytes that are not well-formed UTF-8.
#[derive(Debug, PartialEq, Eq, Structural)]
pub struct InvalidUtf8;

/// The most entries the history keeps; inserting beyond it evicts the oldest.
pub const CAPACITY: usize = 100;

/// The entries of `s` that differ from `e`, in their order.
pub open spec fn without(s: Seq<Seq<char>>, e: Seq<char>) -> Seq<Seq<char>> {
    s.filter(|x: Seq<char>| x != e)
}

/// The history `s` after inserting `e`: a blank `e` changes nothing; otherwise
/// an equal older entry is dropped, `e` becomes the most recent entry, and the
/// oldest entry is evicted when the capacity is exceeded.
pub open spec fn added(s: Seq<Seq<char>>, e: Seq<char>) -> Seq<Seq<char>> {
    if e.len() == 0 {
        s
    } else {
        let t = without(s, e).push(e);
        if t.len() > CAPACITY {
            t.drop_first()
        } else {
            t
        }
    }
}

/// The first `n` entries of `s` counted from the most recent, most recent first.
pub open spec fn newest_first(s: Seq<Seq<char>>, n: nat) -> Seq<Seq<char>> {
    let k = if n < s.len() { n as int } else { s.len() as int };
    Seq::new(k as nat, |i: int| s[s.len() - 1 - i])
}

/// A valid history: no two equal entries, none empty, at most `CAPACITY`.
pub open spec fn valid_history(s: Seq<Seq<char>>) -> bool {
    &&& s.no_duplicates()
    &&& s.len() <= CAPACITY
    &&& forall|i: int| 0 <= i < s.len() ==> #[trigger] s[i].len() > 0
}

/// Dropping the entries equal to `e` keeps a sequence free of duplicates and
/// keeps only entries of `s`.
pub proof fn lemma_without(s: Seq<Seq<char>>, e: Seq<char>)
    ensures
        s.no_duplicates() ==> without(s, e).no_duplicates(),
        without(s, e).len() <= s.len(),
        forall|i: int|
            0 <= i < without(s, e).len() ==> #[trigger] without(s, e)[i] != e && s.contains(
                without(s, e)[i],
            ),
        !s.contains(e) ==> without(s, e) == s,
    decreases s.len(),
{
    if s.len() > 0 {
        let d = s.drop_last();
        let w = without(s, e);
        let wd = without(d, e);
        reveal(Seq::filter);
        lemma_without(d, e);
        assert(w == if s.last() != e {
            wd.push(s.last())
        } else {
            wd
        });
        assert(s.no_duplicates() ==> d.no_duplicates());
        assert forall|i: int| 0 <= i < w.len() implies #[trigger] w[i] != e && s.contains(w[i]) by {
            if i < wd.len() {
                assert(w[i] == wd[i]);
                let j = choose|j: int| 0 <= j < d.len() && d[j] == wd[i];
                assert(s[j] == d[j]);
            } else {
                assert(w[i] == s[s.len() - 1]);
            }
        }
        if s.no_duplicates() && s.last() != e {
            assert(!wd.contains(s.last())) by {
                if wd.contains(s.last()) {
                    let k = choose|k: int| 0 <= k < wd.len() && wd[k] == s.last();
                    let j = choose|j: int| 0 <= j < d.len() && d[j] == wd[k];
                    assert(s[j] == s[s.len() - 1]);
                }
            }
            assert forall|i: int, j: int|
                0 <= i < w.len() && 0 <= j < w.len() && i != j implies w[i] != w[j] by {
                if i < wd.len() && j < wd.len() {
                    assert(w[i] == wd[i] && w[j] == wd[j]);
                } else if i < wd.len() {
                    assert(w[i] == wd[i]);
                } else {
                    assert(w[j] == wd[j]);
                }
            }
        }
        if !s.contains(e) {
            assert(!d.contains(e)) by {
                if d.contains(e) {
                    let j = choose|j: int| 0 <= j < d.len() && d[j] == e;
                    assert(s[j] == e);
                }
            }
            assert(s.last() != e);
            assert(s == d.push(s.last()));
        }
    }
}

/// Inserting into a valid history keeps it valid.
pub proof fn lemma_added_valid(s: Seq<Seq<char>>, e: Seq<char>)
    requires
        valid_history(s),
    ensures
        valid_history(added(s, e)),
{
    if e.len() > 0 {
        lemma_without(s, e);
        let w = without(s, e);
        let t = w.push(e);
        assert(t.no_duplicates()) by {
            assert forall|i: int, j: int| 0 <= i < t.len() && 0 <= j < t.len() && i != j implies t[i]
                != t[j] by {
                if i < w.len() && j < w.len() {
                } else if i < w.len() {
                    assert(w[i] != e);
                } else {
                    assert(w[j] != e);
                }
            }
        }
        assert forall|i: int| 0 <= i < t.len() implies #[trigger] t[i].len() > 0 by {
            if i < w.len() {
                let j = choose|j: int| 0 <= j < s.len() && s[j] == w[i];
                assert(s[j].len() > 0);
            }
        }
        if t.len() > CAPACITY {
            let u = t.drop_first();
            assert forall|i: int| 0 <= i < u.len() implies #[trigger] u[i].len() > 0 by {
                assert(u[i] == t[i + 1]);
            }
            assert(u.no_duplicates()) by {
                assert forall|i: int, j: int|
                    0 <= i < u.len() && 0 <= j < u.len() && i != j implies u[i] != u[j] by {
                    assert(u[i] == t[i + 1] && u[j] == t[j + 1]);
                }
            }
        }
    }
}

/// At capacity, inserting a text that is not yet held evicts exactly the
/// oldest entry: the rest keep their order and the new text comes last.
pub proof fn law_evicts_oldest(s: Seq<Seq<char>>, e: Seq<char>)
    requires
        valid_history(s),
        s.len() == CAPACITY,
        e.len() > 0,
        !s.contains(e),
    ensures
        added(s, e) == s.drop_first().push(e),
        added(s, e).len() == CAPACITY,
{
    lemma_without(s, e);
    assert(s.push(e).drop_first() =~= s.drop_first().push(e));
}

/// Inserting a text already held moves it to the most recent position: the
/// other entries keep their order and the history does not grow.
pub proof fn law_promotes_duplicate(s: Seq<Seq<char>>, e: Seq<char>)
    requires
        valid_history(s),
        s.contains(e),
    ensures
        added(s, e) == without(s, e).push(e),
        added(s, e).len() == s.len(),
{
    lemma_without(s, e);
    let j = choose|j: int| 0 <= j < s.len() && s[j] == e;
    assert(s[j].len() > 0);
    lemma_without_drops_one(s, e);
}

/// In a sequence without duplicates that holds `e`, dropping `e` removes
/// exactly one entry.
proof fn lemma_without_drops_one(s: Seq<Seq<char>>, e: Seq<char>)
    requires
        s.no_duplicates(),
        s.contains(e),
    ensures
        without(s, e).len() == s.len() - 1,
    decreases s.len(),
{
    reveal(Seq::filter);
    let d = s.drop_last();
    assert(d.no_duplicates());
    if s.last() == e {
        assert(!d.contains(e)) by {
            if d.contains(e) {
                let j = choose|j: int| 0 <= j < d.len() && d[j] == e;
                assert(s[j] == s[s.len() - 1]);
            }
        }
        lemma_without(d, e);
    } else {
        let j = choose|j: int| 0 <= j < s.len() && s[j] == e;
        assert(d[j] == e);
        lemma_without_drops_one(d, e);
    }
}

/// A snapshot asking for at least as many entries as are held is the whole
/// history, most recent first.
pub proof fn law_snapshot_clamp(s: Seq<Seq<char>>, n: nat)
    requires
        n >= s.len(),
    ensures
        newest_first(s, n) == s.reverse(),
{
    assert(newest_first(s, n) =~= s.reverse());
}

/// The shared clipboard history, oldest entry first.
pub struct History {
    entries: Vec<String>,
}

impl View for History {
    type V = Seq<Seq<char>>;

    closed spec fn view(&self) -> Seq<Seq<char>> {
        self.entries@.map_values(|s: String| s@)
    }
}

impl History {
    /// Well-formedness: the entries form a valid history.
    pub open spec fn wf(&self) -> bool {
        valid_history(self@)
    }

    /// An empty history.
    pub fn new() -> (r: History)
        ensures
            r.wf(),
            r@ == Seq::<Seq<char>>::empty(),
    {
        let r = History { entries: Vec::new() };
        assert(r@ =~= Seq::<Seq<char>>::empty());
        r
    }

    /// The number of entries held.
    pub fn len(&self) -> (r: usize)
        ensures
            r == self@.len(),
    {
        self.entries.len()
    }

    /// Inserts an already trimmed entry: an empty one is discarded; an equal
    /// older entry is promoted to the most recent position; past `CAPACITY`
    /// the oldest entry is evicted.
    pub fn add(&mut self, entry: String)
        requires
            old(self).wf(),
        ensures
            final(self).wf(),
            final(self)@ == added(old(self)@, entry@),
    {
        proof {
            lemma_added_valid(self@, entry@);
        }
        if entry.as_str().is_empty() {
            return ;
        }
        let ghost e = entry@;
        let mut kept: Vec<String> = Vec::new();
        let mut i: usize = 0;
        while i < self.entries.len()
            invariant
                i <= self.entries.len(),
                self@ == old(self)@,
                entry@ == e,
                kept@.map_values(|s: String| s@) == without(self@.take(i as int), e),
            decreases self.entries.len() - i,
        {
            let ghost s = self@;
            assert(s.take(i as int + 1).drop_last() =~= s.take(i as int));
            assert(s.take(i as int + 1).last() == s[i as int]);
            proof {
                reveal(Seq::filter);
            }
            assert(s[i as int] == self.entries@[i as int]@);
            if !(self.entries[i] == entry) {
                kept.push(self.entries[i].clone());
                assert(kept@.map_values(|s: String| s@) =~= without(s.take(i as int), e).push(
                    s[i as int],
                ));
            }
            i += 1;
        }
        assert(self@.take(i as int) =~= self@);
        kept.push(entry);
        assert(kept@.map_values(|s: String| s@) =~= without(old(self)@, e).push(e));
        if kept.len() > CAPACITY {
            kept.remove(0);
            assert(kept@.map_values(|s: String| s@) =~= without(old(self)@, e).push(e).drop_first());
        }
        self.entries = kept;
    }

    /// Inserts a captured text, trimmed of white space at both ends; a text
    /// that trims to nothing leaves the history as it was.
    pub fn insert(&mut self, text: &str)
        requires
            old(self).wf(),
        ensures
            final(self).wf(),
            final(self)@ == added(old(self)@, trimmed(text@)),
            (forall|i: int| 0 <= i < text@.len() ==> is_ascii_blank(#[trigger] text@[i]))
                ==> final(self)@ == old(self)@,
    {
        let entry = trim_text(text);
        self.add(entry);
    }

    /// Folds the bytes of one finished clipboard transfer into the history:
    /// they are decoded as UTF-8 and inserted as by `insert`; bytes that are
    /// not UTF-8 leave the history as it was and are reported.
    pub fn capture(&mut self, raw: &[u8]) -> (r: Result<(), InvalidUtf8>)
        requires
            old(self).wf(),
        ensures
            final(self).wf(),
            r is Ok <==> valid_utf8(raw@),
            r is Ok ==> final(self)@ == added(old(self)@, trimmed(decode_utf8(raw@))),
            r is Err ==> final(self)@ == old(self)@,
            (valid_utf8(raw@) && forall|i: int|
                0 <= i < decode_utf8(raw@).len() ==> is_ascii_blank(#[trigger] decode_utf8(raw@)[i]))
                ==> final(self)@ == old(self)@,
    {
        match decode_text(raw) {
            Some(text) => {
                self.insert(text.as_str());
                Ok(())
            },
            None => Err(InvalidUtf8),
        }
    }

    /// Up to `n` entries, most recent first, as copies independent of the
    /// history; `n` past the length gives every entry.
    pub fn snapshot(&self, n: usize) -> (r: Vec<String>)
        ensures
            r@.map_values(|s: String| s@) == newest_first(self@, n as nat),
    {
        let len = self.entries.len();
        let k: usize = if n < len { n } else { len };
        let mut out: Vec<String> = Vec::new();
        let mut i: usize = 0;
        while i < k
            invariant
                i <= k,
                k <= len,
                len == self.entries.len(),
                k == (if (n as nat) < self@.len() { n as int } else { self@.len() as int }),
                out@.map_values(|s: String| s@) =~= newest_first(self@, n as nat).take(i as int),
            decreases k - i,
        {
            assert(self@[len - 1 - i] == self.entries@[len - 1 - i]@);
            let ghost before = out@;
            out.push(self.entries[len - 1 - i].clone());
            assert(out@ == before.push(self.entries@[len - 1 - i]));
            assert(self@.len() == len);
            assert(newest_first(self@, n as nat)[i as int] == self@[len - 1 - i]);
            assert(before.map_values(|s: String| s@) =~= newest_first(self@, n as nat).take(
                i as int,
            ));
            assert(out@.map_values(|s: String| s@) =~= before.map_values(|s: String| s@).push(
                self@[len - 1 - i],
            ));
            assert(out@.map_values(|s: String| s@) =~= newest_first(self@, n as nat).take(
                i as int + 1,
            ));
            i += 1;
        }
        assert(newest_first(self@, n as nat).take(k as int) =~= newest_first(self@, n as nat));
        out
    }
}

} // verus!

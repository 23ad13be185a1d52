//! Suppression of repeated finalized subtitles.
//!
//! The translation service sometimes finalizes a sentence twice, or
//! finalizes, as one piece, text that it already finalized in several
//! pieces. A short window of the texts shown last is kept, and a new final
//! text is dropped when it equals one of them or the concatenation of
//! several consecutive ones.

use std::collections::VecDeque;
use vstd::prelude::*;
use vstd::string::*;

verus! {

/// How many finalized texts the window keeps.
pub const DEDUP_WINDOW: usize = 15;

/// The window remembers the last 15 finalized texts.
pub proof fn lemma_window_size()
    ensures
        DEDUP_WINDOW == 15,
{
}

/// The concatenation of `texts[start]`, ..., `texts[end - 1]`.
pub open spec fn run_text(texts: Seq<Seq<char>>, start: int, end: int) -> Seq<char>
    decreases end - start,
{
    if end <= start {
        Seq::empty()
    } else {
        run_text(texts, start, end - 1) + texts[end - 1]
    }
}

/// `text` equals one text of `recent`, or the concatenation of a run of
/// consecutive texts of `recent`.
pub open spec fn is_repeat(text: Seq<char>, recent: Seq<Seq<char>>) -> bool {
    exists|start: int, end: int|
        0 <= start < end <= recent.len() && #[trigger] run_text(recent, start, end) == text
}

/// The window after `text` was shown: the oldest text leaves once more than
/// `DEDUP_WINDOW` are held.
pub open spec fn remembered(recent: Seq<Seq<char>>, text: Seq<char>) -> Seq<Seq<char>> {
    let pushed = recent.push(text);
    if pushed.len() > DEDUP_WINDOW {
        pushed.drop_first()
    } else {
        pushed
    }
}

/// A run of texts is the concatenation of two consecutive runs.
pub proof fn lemma_run_text_split(texts: Seq<Seq<char>>, start: int, mid: int, end: int)
    requires
        start <= mid <= end,
    ensures
        run_text(texts, start, end) == run_text(texts, start, mid) + run_text(texts, mid, end),
    decreases end - mid,
{
    if mid < end {
        lemma_run_text_split(texts, start, mid, end - 1);
        assert(run_text(texts, start, end) =~= run_text(texts, start, mid) + run_text(
            texts,
            mid,
            end,
        ));
    } else {
        assert(run_text(texts, mid, end) =~= Seq::<char>::empty());
        assert(run_text(texts, start, end) =~= run_text(texts, start, mid) + run_text(
            texts,
            mid,
            end,
        ));
    }
}

/// Whether `text` repeats what `recent` holds (see `is_repeat`).
pub fn is_duplicate(text: &String, recent: &VecDeque<String>) -> (b: bool)
    ensures
        b == is_repeat(text@, recent.deep_view()),
{
    let ghost texts = recent.deep_view();
    let n = recent.len();
    let mut k: usize = 0;
    while k < n
        invariant
            n == recent@.len(),
            texts == recent.deep_view(),
            k <= n,
            forall|s: int| 0 <= s < k ==> texts[s] != text@,
        decreases n - k,
    {
        if recent[k] == *text {
            assert(run_text(texts, k as int, k as int) =~= Seq::<char>::empty());
            assert(run_text(texts, k as int, k + 1) =~= texts[k as int]);
            return true;
        }
        k = k + 1;
    }
    let text_len = text.as_str().unicode_len();
    if n >= 2 {
        let mut start: usize = 0;
        while start < n
            invariant
                n == recent@.len(),
                texts == recent.deep_view(),
                text_len == text@.len(),
                start <= n,
                forall|s: int| 0 <= s < n ==> texts[s] != text@,
                forall|s: int, e: int|
                    0 <= s < start && s < e <= n ==> run_text(texts, s, e) != text@,
            decreases n - start,
        {
            let mut concat = String::new();
            let mut concat_len: usize = 0;
            let mut i: usize = start;
            assert(run_text(texts, start as int, start as int) =~= Seq::<char>::empty());
            while i < n
                invariant_except_break
                    start <= i <= n,
                    concat@ == run_text(texts, start as int, i as int),
                    concat_len == concat@.len(),
                    concat_len <= text_len,
                    forall|e: int| start < e <= i ==> run_text(texts, start as int, e) != text@,
                invariant
                    n == recent@.len(),
                    texts == recent.deep_view(),
                    text_len == text@.len(),
                    start < n,
                    forall|s: int| 0 <= s < n ==> texts[s] != text@,
                    forall|s: int, e: int|
                        0 <= s < start && s < e <= n ==> run_text(texts, s, e) != text@,
                ensures
                    forall|e: int| start < e <= n ==> run_text(texts, start as int, e) != text@,
                decreases n - i,
            {
                let piece_len = recent[i].as_str().unicode_len();
                concat.append(recent[i].as_str());
                assert(concat@ == run_text(texts, start as int, i + 1));
                if piece_len > text_len - concat_len {
                    assert forall|e: int| start < e <= n implies run_text(
                        texts,
                        start as int,
                        e,
                    ) != text@ by {
                        if e > i {
                            lemma_run_text_split(texts, start as int, i + 1, e);
                        }
                    }
                    break;
                }
                concat_len = concat_len + piece_len;
                if concat == *text && i > start {
                    return true;
                }
                proof {
                    if i == start {
                        assert(run_text(texts, start as int, start as int) =~= Seq::<char>::empty());
                        assert(run_text(texts, start as int, i + 1) =~= texts[i as int]);
                    }
                }
                i = i + 1;
            }
            start = start + 1;
        }
    }
    proof {
        if is_repeat(text@, texts) {
            let (s, e) = choose|s: int, e: int|
                0 <= s < e <= texts.len() && #[trigger] run_text(texts, s, e) == text@;
            if e == s + 1 {
                assert(run_text(texts, s, s) =~= Seq::<char>::empty());
                assert(run_text(texts, s, e) =~= texts[s]);
            } else {
                assert(run_text(texts, s, e) != text@);
            }
        }
    }
    false
}

/// What counts as a repeat: every text of the window, and every
/// concatenation of two consecutive ones; nothing against an empty window;
/// and nothing longer than all the window's texts together.
pub proof fn lemma_repeat_cases(recent: Seq<Seq<char>>, text: Seq<char>, i: int)
    ensures
        0 <= i < recent.len() ==> is_repeat(recent[i], recent),
        0 <= i && i + 1 < recent.len() ==> is_repeat(recent[i] + recent[i + 1], recent),
        !is_repeat(text, Seq::<Seq<char>>::empty()),
        is_repeat(text, recent) ==> text.len() <= run_text(recent, 0, recent.len() as int).len(),
{
    if 0 <= i < recent.len() {
        assert(run_text(recent, i, i) =~= Seq::<char>::empty());
        assert(run_text(recent, i, i + 1) =~= recent[i]);
    }
    if 0 <= i && i + 1 < recent.len() {
        assert(run_text(recent, i, i) =~= Seq::<char>::empty());
        assert(run_text(recent, i, i + 1) =~= recent[i]);
        assert(run_text(recent, i, i + 2) =~= recent[i] + recent[i + 1]);
    }
    if is_repeat(text, recent) {
        let (a, b) = choose|a: int, b: int|
            0 <= a < b <= recent.len() && #[trigger] run_text(recent, a, b) == text;
        lemma_run_text_split(recent, 0, a, recent.len() as int);
        lemma_run_text_split(recent, a, b, recent.len() as int);
    }
}

/// The finalized texts shown last, oldest first.
pub struct RecentTexts {
    texts: VecDeque<String>,
}

impl View for RecentTexts {
    type V = Seq<Seq<char>>;

    closed spec fn view(&self) -> Seq<Seq<char>> {
        self.texts.deep_view()
    }
}

impl RecentTexts {
    /// The window holds at most `DEDUP_WINDOW` texts.
    pub open spec fn wf(&self) -> bool {
        self@.len() <= DEDUP_WINDOW
    }

    /// An empty window.
    pub fn new() -> (r: RecentTexts)
        ensures
            r@ == Seq::<Seq<char>>::empty(),
            r.wf(),
    {
        let r = RecentTexts { texts: VecDeque::with_capacity(DEDUP_WINDOW + 1) };
        assert(r@ =~= Seq::<Seq<char>>::empty());
        r
    }

    /// How many texts the window holds.
    pub fn len(&self) -> (n: usize)
        ensures
            n == self@.len(),
    {
        self.texts.len()
    }

    /// The text at `index`, oldest first.
    pub fn get(&self, index: usize) -> (t: &String)
        requires
            index < self@.len(),
        ensures
            t@ == self@[index as int],
    {
        &self.texts[index]
    }

    /// Decides whether the final text `text` is shown: it is when it does
    /// not repeat the window, and it then enters the window.
    pub fn accept(&mut self, text: &String) -> (shown: bool)
        requires
            old(self).wf(),
        ensures
            final(self).wf(),
            shown == !is_repeat(text@, old(self)@),
            shown ==> final(self)@ == remembered(old(self)@, text@),
            !shown ==> final(self)@ == old(self)@,
    {
        if is_duplicate(text, &self.texts) {
            return false;
        }
        let ghost before = self@;
        self.texts.push_back(text.clone());
        assert(self@ =~= before.push(text@));
        if self.texts.len() > DEDUP_WINDOW {
            let ghost pushed = self@;
            let _ = self.texts.pop_front();
            assert(self@ =~= pushed.drop_first());
        }
        true
    }
}

/// A final text that was just shown is a repeat of the window that
/// remembers it, so the same text finalized again right away is dropped.
pub proof fn lemma_shown_text_repeats(recent: Seq<Seq<char>>, text: Seq<char>)
    ensures
        is_repeat(text, remembered(recent, text)),
{
    let w = remembered(recent, text);
    let last = w.len() - 1;
    assert(w[last] == text);
    assert(run_text(w, last, last) =~= Seq::<char>::empty());
    assert(run_text(w, last, last + 1) =~= text);
}

/// The last `DEDUP_WINDOW` texts of `shown` (all of them, when fewer).
pub open spec fn last_texts(shown: Seq<Seq<char>>) -> Seq<Seq<char>> {
    if shown.len() > DEDUP_WINDOW {
        shown.skip(shown.len() - DEDUP_WINDOW)
    } else {
        shown
    }
}

/// Any `DEDUP_WINDOW + 1` consecutive texts of `shown` are pairwise
/// distinct, and none is empty.
pub open spec fn spaced_distinct(shown: Seq<Seq<char>>) -> bool {
    &&& forall|i: int, j: int|
        0 <= i < j < shown.len() && j - i <= DEDUP_WINDOW ==> #[trigger] shown[i] != #[trigger] shown[j]
    &&& forall|i: int| 0 <= i < shown.len() ==> (#[trigger] shown[i]).len() > 0
}

/// When the window holds the last texts shown and those are spaced
/// distinct, showing a new non-empty text that does not repeat the window
/// keeps both facts.
pub proof fn lemma_remember_keeps_spacing(shown: Seq<Seq<char>>, text: Seq<char>)
    requires
        spaced_distinct(shown),
        text.len() > 0,
        !is_repeat(text, last_texts(shown)),
    ensures
        remembered(last_texts(shown), text) == last_texts(shown.push(text)),
        spaced_distinct(shown.push(text)),
{
    let w = last_texts(shown);
    let n = shown.len() as int;
    let off = n - w.len();
    assert forall|k: int| 0 <= k < w.len() implies w[k] != text by {
        assert(run_text(w, k, k) =~= Seq::<char>::empty());
        assert(run_text(w, k, k + 1) =~= w[k]);
        if w[k] == text {
            assert(run_text(w, k, k + 1) == text);
        }
    }
    let s2 = shown.push(text);
    assert forall|i: int, j: int|
        0 <= i < j < s2.len() && j - i <= DEDUP_WINDOW implies #[trigger] s2[i] != #[trigger] s2[j] by {
        if j == n {
            assert(s2[i] == w[i - off]);
        } else {
            assert(s2[i] == shown[i] && s2[j] == shown[j]);
        }
    }
    assert forall|i: int| 0 <= i < s2.len() implies (#[trigger] s2[i]).len() > 0 by {
        if i < n {
            assert(s2[i] == shown[i]);
        }
    }
    assert(remembered(w, text) =~= last_texts(s2));
}

} // verus!

//! Cutting text apart: words, lines, trimmed ends and removed patterns.

use crate::text::{is_space, is_whitespace, matches_at, occurs_at};
use vstd::prelude::*;

verus! {

/// The first index at or after `i` that holds no white space; the length of
/// `s` where there is none.
pub open spec fn word_start(s: Seq<char>, i: int) -> int
    decreases s.len() - i,
{
    if i < 0 || i >= s.len() {
        s.len() as int
    } else if !is_space(s[i]) {
        i
    } else {
        word_start(s, i + 1)
    }
}

/// The first index at or after `i` that holds white space; the length of `s`
/// where there is none.
pub open spec fn word_end(s: Seq<char>, i: int) -> int
    decreases s.len() - i,
{
    if i < 0 || i >= s.len() {
        s.len() as int
    } else if is_space(s[i]) {
        i
    } else {
        word_end(s, i + 1)
    }
}

/// Where the word with number `n` begins, counting the words of `s` from 0;
/// the length of `s` where it has no such word.
pub open spec fn token_start(s: Seq<char>, n: nat) -> int
    decreases n,
{
    if n == 0 {
        word_start(s, 0)
    } else {
        word_start(s, word_end(s, token_start(s, (n - 1) as nat)))
    }
}

/// The word with number `n` of `s`: a longest run of characters that are no
/// white space.
pub open spec fn token(s: Seq<char>, n: nat) -> Option<Seq<char>> {
    let a = token_start(s, n);
    if a < s.len() {
        Some(s.subrange(a, word_end(s, a)))
    } else {
        None
    }
}

/// The word with number `n` of `s`, or the empty text.
pub open spec fn token_or_empty(s: Seq<char>, n: nat) -> Seq<char> {
    match token(s, n) {
        Some(t) => t,
        None => Seq::empty(),
    }
}

/// Both scans stay inside the text and move forward only.
pub proof fn lemma_scan_bounds(s: Seq<char>, i: int)
    requires
        0 <= i <= s.len(),
    ensures
        i <= word_start(s, i) <= s.len(),
        i <= word_end(s, i) <= s.len(),
        i < s.len() && !is_space(s[i]) ==> i < word_end(s, i),
    decreases s.len() - i,
{
    if i < s.len() {
        lemma_scan_bounds(s, i + 1);
    }
}

/// Every word begins inside the text or at its end.
pub proof fn lemma_token_start_bounds(s: Seq<char>, n: nat)
    ensures
        0 <= token_start(s, n) <= s.len(),
        token_start(s, n) < s.len() ==> !is_space(s[token_start(s, n)]),
    decreases n,
{
    if n == 0 {
        lemma_scan_bounds(s, 0);
        lemma_word_start_holds_word(s, 0);
    } else {
        lemma_token_start_bounds(s, (n - 1) as nat);
        let a = token_start(s, (n - 1) as nat);
        lemma_scan_bounds(s, a);
        lemma_scan_bounds(s, word_end(s, a));
        lemma_word_start_holds_word(s, word_end(s, a));
    }
}

/// Where a word starts, no white space stands.
pub proof fn lemma_word_start_holds_word(s: Seq<char>, i: int)
    requires
        0 <= i <= s.len(),
    ensures
        word_start(s, i) < s.len() ==> !is_space(s[word_start(s, i)]),
    decreases s.len() - i,
{
    if i < s.len() && is_space(s[i]) {
        lemma_word_start_holds_word(s, i + 1);
    }
}

/// From a place that holds no white space up to the end of its word, no
/// white space stands.
pub proof fn lemma_word_holds_no_space(s: Seq<char>, a: int, k: int)
    requires
        0 <= a <= k < word_end(s, a),
        a <= s.len(),
    ensures
        k < s.len(),
        !is_space(s[k]),
    decreases k - a,
{
    lemma_scan_bounds(s, a);
    if a < k {
        lemma_word_holds_no_space(s, a + 1, k);
    }
}

/// A word is not empty, holds no white space, and is bounded by white space
/// or by the ends of the text.
pub proof fn law_token_is_word(s: Seq<char>, n: nat)
    requires
        token(s, n) is Some,
    ensures
        token(s, n)->0.len() > 0,
        forall|k: int| 0 <= k < token(s, n)->0.len() ==> !is_space(#[trigger] token(s, n)->0[k]),
        word_end(s, token_start(s, n)) == s.len() || is_space(s[word_end(s, token_start(s, n))]),
        token_start(s, n) == 0 || is_space(s[token_start(s, n) - 1]),
{
    let a = token_start(s, n);
    let e = word_end(s, a);
    lemma_token_start_bounds(s, n);
    lemma_scan_bounds(s, a);
    lemma_word_end_holds_space(s, a);
    assert forall|k: int| 0 <= k < token(s, n)->0.len() implies !is_space(
        #[trigger] token(s, n)->0[k],
    ) by {
        lemma_word_holds_no_space(s, a, a + k);
    }
    if a > 0 {
        if n == 0 {
            lemma_gap_holds_space(s, 0, a - 1);
        } else {
            let prev = token_start(s, (n - 1) as nat);
            lemma_token_start_bounds(s, (n - 1) as nat);
            lemma_scan_bounds(s, prev);
            let from = word_end(s, prev);
            lemma_scan_bounds(s, from);
            lemma_word_end_holds_space(s, prev);
            if from < a {
                lemma_gap_holds_space(s, from, a - 1);
            }
        }
    }
}

/// Where a word ends inside the text, white space stands.
pub proof fn lemma_word_end_holds_space(s: Seq<char>, i: int)
    requires
        0 <= i <= s.len(),
    ensures
        word_end(s, i) < s.len() ==> is_space(s[word_end(s, i)]),
    decreases s.len() - i,
{
    if i < s.len() && !is_space(s[i]) {
        lemma_word_end_holds_space(s, i + 1);
    }
}

/// Between a place and the start of the next word, only white space stands.
pub proof fn lemma_gap_holds_space(s: Seq<char>, i: int, k: int)
    requires
        0 <= i <= k < word_start(s, i),
        i <= s.len(),
    ensures
        k < s.len(),
        is_space(s[k]),
    decreases k - i,
{
    lemma_scan_bounds(s, i);
    if i < k {
        lemma_gap_holds_space(s, i + 1, k);
    }
}

/// Once a word is missing, all later ones are missing too.
pub proof fn lemma_token_start_saturates(s: Seq<char>, k: nat, n: nat)
    requires
        k <= n,
        token_start(s, k) >= s.len(),
    ensures
        token_start(s, n) >= s.len(),
    decreases n - k,
{
    if k < n {
        lemma_token_start_bounds(s, k);
        assert(token_start(s, k) == s.len());
        assert(word_end(s, s.len() as int) == s.len());
        assert(word_start(s, s.len() as int) == s.len());
        assert(token_start(s, k + 1) == s.len());
        lemma_token_start_saturates(s, k + 1, n);
    }
}

/// The first index at or after `i` that holds no white space.
pub fn skip_spaces(s: &Vec<char>, i: usize) -> (r: usize)
    requires
        i <= s.len(),
    ensures
        r == word_start(s@, i as int),
        i <= r <= s.len(),
{
    let mut r: usize = i;
    while r < s.len() && is_whitespace(s[r])
        invariant
            i <= r <= s.len(),
            word_start(s@, r as int) == word_start(s@, i as int),
        decreases s.len() - r,
    {
        r += 1;
    }
    r
}

/// The first index at or after `i` that holds white space.
pub fn skip_word(s: &Vec<char>, i: usize) -> (r: usize)
    requires
        i <= s.len(),
    ensures
        r == word_end(s@, i as int),
        i <= r <= s.len(),
{
    let mut r: usize = i;
    while r < s.len() && !is_whitespace(s[r])
        invariant
            i <= r <= s.len(),
            word_end(s@, r as int) == word_end(s@, i as int),
        decreases s.len() - r,
    {
        r += 1;
    }
    r
}

/// The word with number `n` of `s`, or the empty text where `s` has fewer
/// words.
pub fn nth_token(s: &Vec<char>, n: usize) -> (r: Vec<char>)
    ensures
        r@ == token_or_empty(s@, n as nat),
        (r@.len() > 0) == (token(s@, n as nat) is Some),
{
    let mut a: usize = skip_spaces(s, 0);
    let mut k: usize = 0;
    while k < n && a < s.len()
        invariant
            k <= n,
            a <= s.len(),
            a == token_start(s@, k as nat),
        decreases n - k,
    {
        let e = skip_word(s, a);
        a = skip_spaces(s, e);
        k += 1;
    }
    if a >= s.len() {
        proof {
            lemma_token_start_saturates(s@, k as nat, n as nat);
        }
        return Vec::new();
    }
    let e = skip_word(s, a);
    proof {
        lemma_token_start_bounds(s@, n as nat);
        lemma_scan_bounds(s@, a as int);
    }
    crate::text::slice_of(s, a, e)
}

/// The index of the first line feed at or after `i`; the length of `s` where
/// there is none.
pub open spec fn line_end(s: Seq<char>, i: int) -> int
    decreases s.len() - i,
{
    if i < 0 || i >= s.len() {
        s.len() as int
    } else if s[i] == '\n' {
        i
    } else {
        line_end(s, i + 1)
    }
}

/// The line that begins at `a` and whose end `e` is a line feed or the end of
/// the text.  A carriage return goes with the line feed that follows it.
pub open spec fn line_text(s: Seq<char>, a: int, e: int) -> Seq<char> {
    if a < e < s.len() && s[e - 1] == '\r' {
        s.subrange(a, e - 1)
    } else {
        s.subrange(a, e)
    }
}

/// The lines of `s` from index `i` on.
pub open spec fn lines_from(s: Seq<char>, i: int) -> Seq<Seq<char>>
    decreases s.len() - i,
{
    if i < 0 || i >= s.len() {
        Seq::empty()
    } else {
        let e = line_end(s, i);
        if i <= e < s.len() {
            seq![line_text(s, i, e)] + lines_from(s, e + 1)
        } else {
            seq![line_text(s, i, e)]
        }
    }
}

/// The lines of `s`.  Each ends before a line feed, or before a carriage
/// return and a line feed, or with the text; a line feed at the very end opens
/// no further line.
pub open spec fn lines_of(s: Seq<char>) -> Seq<Seq<char>> {
    lines_from(s, 0)
}

/// A line ends at or after the place where it begins.
pub proof fn lemma_line_end_bounds(s: Seq<char>, i: int)
    requires
        0 <= i <= s.len(),
    ensures
        i <= line_end(s, i) <= s.len(),
        line_end(s, i) < s.len() ==> s[line_end(s, i)] == '\n',
    decreases s.len() - i,
{
    if i < s.len() && s[i] != '\n' {
        lemma_line_end_bounds(s, i + 1);
    }
}

/// Between the start of a line and its end stands no line feed.
pub proof fn lemma_line_holds_no_line_feed(s: Seq<char>, i: int, k: int)
    requires
        0 <= i <= k < line_end(s, i),
        i <= s.len(),
    ensures
        k < s.len(),
        s[k] != '\n',
    decreases k - i,
{
    lemma_line_end_bounds(s, i);
    if i < k {
        lemma_line_holds_no_line_feed(s, i + 1, k);
    }
}

/// No line holds a line feed.
pub proof fn law_lines_hold_no_line_feed(s: Seq<char>, i: int, n: int)
    requires
        0 <= i <= s.len(),
        0 <= n < lines_from(s, i).len(),
    ensures
        forall|k: int| 0 <= k < lines_from(s, i)[n].len() ==> #[trigger] lines_from(s, i)[n][k] != '\n',
    decreases s.len() - i,
{
    let e = line_end(s, i);
    lemma_line_end_bounds(s, i);
    if n == 0 {
        let line = line_text(s, i, e);
        assert(lines_from(s, i)[0] == line);
        assert forall|k: int| 0 <= k < line.len() implies #[trigger] line[k] != '\n' by {
            lemma_line_holds_no_line_feed(s, i, i + k);
        }
    } else {
        assert(e < s.len());
        assert(lines_from(s, i)[n] == lines_from(s, e + 1)[n - 1]);
        law_lines_hold_no_line_feed(s, e + 1, n - 1);
    }
}

/// The lines of `s`, in order.
pub fn lines(s: &Vec<char>) -> (r: Vec<Vec<char>>)
    ensures
        r@.len() == lines_of(s@).len(),
        forall|k: int| 0 <= k < r@.len() ==> (#[trigger] r@[k])@ == lines_of(s@)[k],
{
    let mut r: Vec<Vec<char>> = Vec::new();
    let ghost mut done: Seq<Seq<char>> = Seq::empty();
    let mut i: usize = 0;
    while i < s.len()
        invariant
            i <= s.len(),
            r@.len() == done.len(),
            forall|k: int| 0 <= k < r@.len() ==> (#[trigger] r@[k])@ == done[k],
            done + lines_from(s@, i as int) == lines_of(s@),
        decreases s.len() - i,
    {
        let mut e: usize = i;
        while e < s.len() && s[e] != '\n'
            invariant
                i <= e <= s.len(),
                line_end(s@, e as int) == line_end(s@, i as int),
            decreases s.len() - e,
        {
            e += 1;
        }
        let stop: usize = if i < e && e < s.len() && s[e - 1] == '\r' {
            (e - 1) as usize
        } else {
            e
        };
        let line = crate::text::slice_of(s, i, stop);
        proof {
            lemma_line_end_bounds(s@, i as int);
            assert(line@ == line_text(s@, i as int, e as int));
            assert(done.push(line@) + lines_from(s@, e + 1) =~= done + lines_from(s@, i as int));
            done = done.push(line@);
        }
        r.push(line);
        if e == s.len() {
            i = e;
        } else {
            i = e + 1;
        }
    }
    proof {
        assert(done + lines_from(s@, i as int) =~= done);
    }
    r
}

/// Whether trimming takes `c` away: the character `what` where one is given,
/// white space where none is.
pub open spec fn trims(c: char, what: Option<char>) -> bool {
    match what {
        Some(q) => c == q,
        None => is_space(c),
    }
}

/// Where the text ends once the trimmed characters before index `b` are gone.
pub open spec fn kept_end(s: Seq<char>, what: Option<char>, b: int) -> int
    decreases b,
{
    if 0 < b <= s.len() && trims(s[b - 1], what) {
        kept_end(s, what, b - 1)
    } else {
        b
    }
}

/// Where the text begins once the trimmed characters from index `a` on, and
/// before `b`, are gone.
pub open spec fn kept_start(s: Seq<char>, what: Option<char>, a: int, b: int) -> int
    decreases b - a,
{
    if 0 <= a < b <= s.len() && trims(s[a], what) {
        kept_start(s, what, a + 1, b)
    } else {
        a
    }
}

/// `s` without the trimmed characters at its end.
pub open spec fn trim_end_of(s: Seq<char>, what: Option<char>) -> Seq<char> {
    s.subrange(0, kept_end(s, what, s.len() as int))
}

/// `s` without the trimmed characters at both ends.
pub open spec fn trim_of(s: Seq<char>, what: Option<char>) -> Seq<char> {
    let b = kept_end(s, what, s.len() as int);
    s.subrange(kept_start(s, what, 0, b), b)
}

/// Where `kept_end` stops: after a character that stays, or at the start;
/// all that it passed over is trimmed.
pub proof fn lemma_kept_end(s: Seq<char>, what: Option<char>, b: int)
    requires
        0 <= b <= s.len(),
    ensures
        0 <= kept_end(s, what, b) <= b,
        kept_end(s, what, b) > 0 ==> !trims(s[kept_end(s, what, b) - 1], what),
        forall|k: int| kept_end(s, what, b) <= k < b ==> trims(#[trigger] s[k], what),
    decreases b,
{
    if 0 < b && trims(s[b - 1], what) {
        lemma_kept_end(s, what, b - 1);
    }
}

/// Where `kept_start` stops: at a character that stays, or at `b`; all that
/// it passed over is trimmed.
pub proof fn lemma_kept_start(s: Seq<char>, what: Option<char>, a: int, b: int)
    requires
        0 <= a <= b <= s.len(),
    ensures
        a <= kept_start(s, what, a, b) <= b,
        kept_start(s, what, a, b) < b ==> !trims(s[kept_start(s, what, a, b)], what),
        forall|k: int| a <= k < kept_start(s, what, a, b) ==> trims(#[trigger] s[k], what),
    decreases b - a,
{
    if a < b && trims(s[a], what) {
        lemma_kept_start(s, what, a + 1, b);
    }
}

/// Trimming takes away the longest run of trimmed characters at each end,
/// and nothing else: the text is a trimmed run, what is kept, and a trimmed
/// run; and what is kept neither begins nor ends with a trimmed character.
pub proof fn law_trim_takes_the_ends(s: Seq<char>, what: Option<char>)
    ensures
        ({
            let b = kept_end(s, what, s.len() as int);
            let a = kept_start(s, what, 0, b);
            &&& 0 <= a <= b <= s.len()
            &&& trim_of(s, what) == s.subrange(a, b)
            &&& trim_end_of(s, what) == s.subrange(0, b)
            &&& forall|k: int| 0 <= k < a ==> trims(#[trigger] s[k], what)
            &&& forall|k: int| b <= k < s.len() ==> trims(#[trigger] s[k], what)
        }),
        trim_of(s, what).len() > 0 ==> !trims(trim_of(s, what).first(), what) && !trims(
            trim_of(s, what).last(),
            what,
        ),
        trim_end_of(s, what).len() > 0 ==> !trims(trim_end_of(s, what).last(), what),
{
    let b = kept_end(s, what, s.len() as int);
    lemma_kept_end(s, what, s.len() as int);
    lemma_kept_start(s, what, 0, b);
}

/// Whether trimming takes `c` away.
pub fn is_trimmed(c: char, what: Option<char>) -> (r: bool)
    ensures
        r == trims(c, what),
{
    match what {
        Some(q) => c == q,
        None => is_whitespace(c),
    }
}

/// The end of `s` after trimming.
fn find_kept_end(s: &Vec<char>, what: Option<char>) -> (b: usize)
    ensures
        b == kept_end(s@, what, s.len() as int),
        b <= s.len(),
{
    let mut b: usize = s.len();
    while b > 0 && is_trimmed(s[b - 1], what)
        invariant
            b <= s.len(),
            kept_end(s@, what, b as int) == kept_end(s@, what, s.len() as int),
        decreases b,
    {
        b -= 1;
    }
    b
}

/// `s` without the trimmed characters at its end.
pub fn trim_end(s: &Vec<char>, what: Option<char>) -> (r: Vec<char>)
    ensures
        r@ == trim_end_of(s@, what),
{
    let b = find_kept_end(s, what);
    crate::text::slice_of(s, 0, b)
}

/// `s` without the trimmed characters at both ends.
pub fn trim(s: &Vec<char>, what: Option<char>) -> (r: Vec<char>)
    ensures
        r@ == trim_of(s@, what),
{
    let b = find_kept_end(s, what);
    let mut a: usize = 0;
    while a < b && is_trimmed(s[a], what)
        invariant
            a <= b <= s.len(),
            kept_start(s@, what, a as int, b as int) == kept_start(s@, what, 0, b as int),
        decreases b - a,
    {
        a += 1;
    }
    crate::text::slice_of(s, a, b)
}

/// `s` from index `i` on, without the occurrences of `pat`, found from left to
/// right and never overlapping.  An empty `pat` takes nothing away.
pub open spec fn without_from(s: Seq<char>, pat: Seq<char>, i: int) -> Seq<char>
    decreases s.len() - i,
{
    if i < 0 || i >= s.len() {
        Seq::empty()
    } else if pat.len() > 0 && occurs_at(s, pat, i) {
        without_from(s, pat, i + pat.len())
    } else {
        seq![s[i]] + without_from(s, pat, i + 1)
    }
}

/// `s` without the occurrences of `pat`.
pub open spec fn without(s: Seq<char>, pat: Seq<char>) -> Seq<char> {
    without_from(s, pat, 0)
}

/// `s` without the occurrences of `pat`.
pub fn remove_all(s: &Vec<char>, pat: &Vec<char>) -> (r: Vec<char>)
    ensures
        r@ == without(s@, pat@),
{
    let mut r: Vec<char> = Vec::new();
    let mut i: usize = 0;
    while i < s.len()
        invariant
            i <= s.len(),
            r@ + without_from(s@, pat@, i as int) == without(s@, pat@),
        decreases s.len() - i,
    {
        if pat.len() > 0 && matches_at(s, pat, i) {
            i += pat.len();
        } else {
            assert(r@.push(s@[i as int]) + without_from(s@, pat@, i + 1) =~= r@ + without_from(
                s@,
                pat@,
                i as int,
            ));
            r.push(s[i]);
            i += 1;
        }
    }
    assert(r@ + without_from(s@, pat@, i as int) =~= r@);
    r
}

/// `s` without one line feed at its end, where it has one.
pub open spec fn without_final_newline(s: Seq<char>) -> Seq<char> {
    if s.len() > 0 && s.last() == '\n' {
        s.drop_last()
    } else {
        s
    }
}

/// Takes one line feed from the end of `s`, where it has one.
pub fn trim_newline(s: &Vec<char>) -> (r: Vec<char>)
    ensures
        r@ == without_final_newline(s@),
{
    let n = s.len();
    if n > 0 && s[n - 1] == '\n' {
        crate::text::slice_of(s, 0, n - 1)
    } else {
        let r = crate::text::slice_of(s, 0, n);
        assert(s@.subrange(0, n as int) =~= s@);
        r
    }
}

} // verus!

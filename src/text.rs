//! Character-level helpers: case-insensitive matching, resource-name
//! validation, decimal rendering and the few std string calls they rest on.
use vstd::prelude::*;

verus! {

/// The code of `c` after folding ASCII upper case letters to lower case;
/// every other character keeps its code.
pub open spec fn fold_code(c: char) -> u32 {
    if 65 <= (c as u32) && (c as u32) <= 90 {
        (c as u32 + 32) as u32
    } else {
        c as u32
    }
}

/// `n` occurs in `h` at position `i`, comparing with ASCII case folded.
pub open spec fn ci_match_at(h: Seq<char>, n: Seq<char>, i: int) -> bool {
    &&& 0 <= i
    &&& i + n.len() <= h.len()
    &&& forall|j: int| 0 <= j < n.len() ==> fold_code(#[trigger] h[i + j]) == fold_code(n[j])
}

/// `n` occurs somewhere in `h`, ignoring ASCII case.
pub open spec fn contains_ci(h: Seq<char>, n: Seq<char>) -> bool {
    exists|i: int| ci_match_at(h, n, i)
}

/// `n` occurs in `h` at position `i`, character for character.
pub open spec fn match_at(h: Seq<char>, n: Seq<char>, i: int) -> bool {
    &&& 0 <= i
    &&& i + n.len() <= h.len()
    &&& h.subrange(i, i + n.len()) == n
}

/// `n` is a substring of `h`.
pub open spec fn contains_seq(h: Seq<char>, n: Seq<char>) -> bool {
    exists|i: int| match_at(h, n, i)
}

pub open spec fn is_lower_digit_or_hyphen(c: char) -> bool {
    ('a' <= c && c <= 'z') || ('0' <= c && c <= '9') || c == '-'
}

pub open spec fn is_ascii_alnum(c: char) -> bool {
    ('a' <= c && c <= 'z') || ('A' <= c && c <= 'Z') || ('0' <= c && c <= '9')
}

/// A resource-name token: 1 to 63 lower case letters, digits and hyphens,
/// with a letter or digit at both ends.
pub open spec fn valid_name(s: Seq<char>) -> bool {
    &&& 0 < s.len() <= 63
    &&& forall|i: int| 0 <= i < s.len() ==> is_lower_digit_or_hyphen(#[trigger] s[i])
    &&& is_ascii_alnum(s[0])
    &&& is_ascii_alnum(s[s.len() - 1])
}

pub open spec fn digit_char(d: nat) -> char {
    if d == 0 {
        '0'
    } else if d == 1 {
        '1'
    } else if d == 2 {
        '2'
    } else if d == 3 {
        '3'
    } else if d == 4 {
        '4'
    } else if d == 5 {
        '5'
    } else if d == 6 {
        '6'
    } else if d == 7 {
        '7'
    } else if d == 8 {
        '8'
    } else {
        '9'
    }
}

/// The decimal digits of `n`, most significant first, without leading zeros.
pub open spec fn decimal(n: nat) -> Seq<char>
    decreases n,
{
    if n < 10 {
        seq![digit_char(n)]
    } else {
        decimal(n / 10).push(digit_char(n % 10))
    }
}

/// Name for what `str::to_lowercase` returns: full Unicode lower casing,
/// a function of the characters alone.
pub uninterp spec fn lower_of(s: Seq<char>) -> Seq<char>;

/// Relies on `str::chars`: the characters of the string, in order.
#[verifier::external_body]
pub(crate) fn chars_of(s: &str) -> (r: Vec<char>)
    ensures
        r@ == s@,
{
    s.chars().collect()
}

/// Relies on `String::push`: appends one character.
#[verifier::external_body]
pub(crate) fn push_char(s: &mut String, c: char)
    ensures
        final(s)@ == old(s)@.push(c),
{
    s.push(c)
}

/// Relies on `String::pop`: removes and returns the last character.
#[verifier::external_body]
pub(crate) fn pop_char(s: &mut String) -> (r: Option<char>)
    ensures
        old(s)@.len() == 0 ==> r is None && final(s)@ == old(s)@,
        old(s)@.len() > 0 ==> r == Some(old(s)@.last()) && final(s)@ == old(s)@.drop_last(),
{
    s.pop()
}

/// Relies on `str::to_lowercase`; the empty string stays empty.
#[verifier::external_body]
pub(crate) fn lowercase(s: &str) -> (r: String)
    ensures
        r@ == lower_of(s@),
        s@.len() == 0 ==> r@.len() == 0,
{
    s.to_lowercase()
}

fn fold_char(c: char) -> (r: u32)
    ensures
        r == fold_code(c),
{
    let v = c as u32;
    if 65 <= v && v <= 90 {
        v + 32
    } else {
        v
    }
}

fn ci_match_here(h: &Vec<char>, n: &Vec<char>, i: usize) -> (r: bool)
    requires
        i + n@.len() <= h@.len(),
    ensures
        r == ci_match_at(h@, n@, i as int),
{
    let hl = h.len();
    let mut j: usize = 0;
    while j < n.len()
        invariant
            hl == h@.len(),
            i + n@.len() <= h@.len(),
            j <= n@.len(),
            forall|k: int| 0 <= k < j ==> fold_code(#[trigger] h@[i + k]) == fold_code(n@[k]),
        decreases n@.len() - j,
    {
        if fold_char(h[i + j]) != fold_char(n[j]) {
            assert(!(fold_code(h@[i + j as int]) == fold_code(n@[j as int])));
            return false;
        }
        j = j + 1;
    }
    true
}

fn match_here(h: &Vec<char>, n: &Vec<char>, i: usize) -> (r: bool)
    requires
        i + n@.len() <= h@.len(),
    ensures
        r == match_at(h@, n@, i as int),
{
    let hl = h.len();
    let mut j: usize = 0;
    while j < n.len()
        invariant
            hl == h@.len(),
            i + n@.len() <= h@.len(),
            j <= n@.len(),
            forall|k: int| 0 <= k < j ==> h@[i + k] == n@[k],
        decreases n@.len() - j,
    {
        if h[i + j] != n[j] {
            assert(h@.subrange(i as int, i + n@.len())[j as int] != n@[j as int]);
            return false;
        }
        j = j + 1;
    }
    assert(h@.subrange(i as int, i + n@.len()) =~= n@);
    true
}

/// Whether `needle_lower` occurs in `haystack`, ignoring ASCII case on both
/// sides; other characters must be equal. An empty needle always occurs.
pub fn contains_ascii_ci(haystack: &str, needle_lower: &str) -> (r: bool)
    ensures
        r == contains_ci(haystack@, needle_lower@),
{
    let h = chars_of(haystack);
    let n = chars_of(needle_lower);
    if n.len() > h.len() {
        return false;
    }
    let last = h.len() - n.len();
    let mut i: usize = 0;
    loop
        invariant
            i <= last,
            last == h@.len() - n@.len(),
            h@ == haystack@,
            n@ == needle_lower@,
            forall|k: int| 0 <= k < i ==> !ci_match_at(h@, n@, k),
        decreases last - i,
    {
        if ci_match_here(&h, &n, i) {
            return true;
        }
        if i == last {
            return false;
        }
        i = i + 1;
    }
}

/// Whether `needle` is a substring of `haystack`.
pub fn contains_str(haystack: &str, needle: &str) -> (r: bool)
    ensures
        r == contains_seq(haystack@, needle@),
{
    let h = chars_of(haystack);
    let n = chars_of(needle);
    if n.len() > h.len() {
        return false;
    }
    let last = h.len() - n.len();
    let mut i: usize = 0;
    loop
        invariant
            i <= last,
            last == h@.len() - n@.len(),
            h@ == haystack@,
            n@ == needle@,
            forall|k: int| 0 <= k < i ==> !match_at(h@, n@, k),
        decreases last - i,
    {
        if match_here(&h, &n, i) {
            return true;
        }
        if i == last {
            return false;
        }
        i = i + 1;
    }
}

/// Whether `s` is a valid namespace (resource) name token.
pub fn is_valid_k8s_name(s: &str) -> (r: bool)
    ensures
        r == valid_name(s@),
{
    let c = chars_of(s);
    if c.len() == 0 || c.len() > 63 {
        return false;
    }
    let mut i: usize = 0;
    while i < c.len()
        invariant
            i <= c@.len(),
            c@ == s@,
            forall|k: int| 0 <= k < i ==> is_lower_digit_or_hyphen(#[trigger] c@[k]),
        decreases c@.len() - i,
    {
        let ch = c[i];
        if !(('a' <= ch && ch <= 'z') || ('0' <= ch && ch <= '9') || ch == '-') {
            assert(!is_lower_digit_or_hyphen(c@[i as int]));
            return false;
        }
        i = i + 1;
    }
    let first = c[0];
    let last = c[c.len() - 1];
    let first_ok = ('a' <= first && first <= 'z') || ('A' <= first && first <= 'Z') || ('0'
        <= first && first <= '9');
    let last_ok = ('a' <= last && last <= 'z') || ('A' <= last && last <= 'Z') || ('0' <= last
        && last <= '9');
    first_ok && last_ok
}

fn digit(d: u64) -> (c: char)
    requires
        d < 10,
    ensures
        c == digit_char(d as nat),
{
    if d == 0 {
        '0'
    } else if d == 1 {
        '1'
    } else if d == 2 {
        '2'
    } else if d == 3 {
        '3'
    } else if d == 4 {
        '4'
    } else if d == 5 {
        '5'
    } else if d == 6 {
        '6'
    } else if d == 7 {
        '7'
    } else if d == 8 {
        '8'
    } else {
        '9'
    }
}

/// Appends the decimal rendering of `n` to `s`.
pub fn push_decimal(s: &mut String, n: u64)
    ensures
        final(s)@ == old(s)@ + decimal(n as nat),
    decreases n,
{
    if n >= 10 {
        push_decimal(s, n / 10);
    }
    push_char(s, digit(n % 10));
}

/// Appends `t` to `s`.
pub fn push_str(s: &mut String, t: &str)
    ensures
        final(s)@ == old(s)@ + t@,
{
    s.append(t);
}

/// The first position at or after `start` where `n` occurs in `t`,
/// ignoring ASCII case, or -1.
pub open spec fn first_ci_match_from(t: Seq<char>, n: Seq<char>, start: int) -> int
    decreases t.len() - start,
{
    if start < 0 || start + n.len() > t.len() {
        -1
    } else if ci_match_at(t, n, start) {
        start
    } else {
        first_ci_match_from(t, n, start + 1)
    }
}

/// The rest of `t` from `start` as one plain segment, if anything is left.
pub open spec fn tail_segment(t: Seq<char>, start: int) -> Seq<(Seq<char>, bool)> {
    if start < t.len() {
        seq![(t.subrange(start, t.len() as int), false)]
    } else {
        Seq::empty()
    }
}

/// `t` from `start` cut into plain stretches and (marked) occurrences of
/// the non-empty `n`, taking each leftmost occurrence in turn.
pub open spec fn segments_from(t: Seq<char>, n: Seq<char>, start: int) -> Seq<(Seq<char>, bool)>
    decreases t.len() - start,
{
    if n.len() == 0 || start < 0 || start > t.len() {
        tail_segment(t, start)
    } else {
        let p = first_ci_match_from(t, n, start);
        if p < start || p + n.len() > t.len() {
            tail_segment(t, start)
        } else {
            (if p > start {
                seq![(t.subrange(start, p), false)]
            } else {
                Seq::empty()
            }) + seq![(t.subrange(p, p + n.len()), true)] + segments_from(t, n, p + n.len())
        }
    }
}

/// How a log line is shown with the search query marked: its occurrences
/// of `n` (ASCII case ignored) marked, the text between them plain; the
/// whole line as one plain segment when there is nothing to mark.
pub open spec fn highlighted(t: Seq<char>, n: Seq<char>) -> Seq<(Seq<char>, bool)> {
    if n.len() == 0 || segments_from(t, n, 0).len() == 0 {
        seq![(t, false)]
    } else {
        segments_from(t, n, 0)
    }
}

pub open spec fn segment_views(v: Seq<(String, bool)>) -> Seq<(Seq<char>, bool)> {
    v.map_values(|p: (String, bool)| (p.0@, p.1))
}

proof fn lemma_first_ci_match_from(t: Seq<char>, n: Seq<char>, start: int)
    requires
        0 <= start,
    ensures
        first_ci_match_from(t, n, start) == -1 || (start <= first_ci_match_from(t, n, start)
            && first_ci_match_from(t, n, start) + n.len() <= t.len()),
    decreases t.len() - start,
{
    if start + n.len() <= t.len() && !ci_match_at(t, n, start) {
        lemma_first_ci_match_from(t, n, start + 1);
    }
}

/// The characters `c[from..to]` as a string.
fn string_of(c: &Vec<char>, from: usize, to: usize) -> (r: String)
    requires
        from <= to <= c@.len(),
    ensures
        r@ == c@.subrange(from as int, to as int),
{
    let mut r = String::new();
    let mut i: usize = from;
    while i < to
        invariant
            from <= i <= to <= c@.len(),
            r@ == c@.subrange(from as int, i as int),
        decreases to - i,
    {
        push_char(&mut r, c[i]);
        assert(c@.subrange(from as int, i + 1) =~= c@.subrange(from as int, i as int).push(
            c@[i as int],
        ));
        i = i + 1;
    }
    r
}

/// The first position at or after `start` where `n` occurs in `h`.
fn find_ci_from(h: &Vec<char>, n: &Vec<char>, start: usize) -> (r: Option<usize>)
    requires
        start <= h@.len(),
    ensures
        r is None ==> first_ci_match_from(h@, n@, start as int) == -1,
        r is Some ==> r->0 == first_ci_match_from(h@, n@, start as int),
{
    proof {
        lemma_first_ci_match_from(h@, n@, start as int);
    }
    if n.len() > h.len() - start {
        return None;
    }
    let last = h.len() - n.len();
    let mut i: usize = start;
    loop
        invariant
            start <= i <= last,
            last == h@.len() - n@.len(),
            first_ci_match_from(h@, n@, start as int) == first_ci_match_from(h@, n@, i as int),
        decreases last - i,
    {
        if ci_match_here(h, n, i) {
            return Some(i);
        }
        if i == last {
            assert(first_ci_match_from(h@, n@, i + 1) == -1);
            return None;
        }
        i = i + 1;
    }
}

/// Cuts a log line for display, marking each occurrence of the lower-cased
/// search query.
pub fn highlight_segments(text: &str, needle_lower: &str) -> (r: Vec<(String, bool)>)
    ensures
        segment_views(r@) == highlighted(text@, needle_lower@),
{
    let t = chars_of(text);
    let n = chars_of(needle_lower);
    if n.len() == 0 {
        let r = vec![(text.to_owned(), false)];
        assert(segment_views(r@) =~= highlighted(text@, needle_lower@));
        return r;
    }
    let mut out: Vec<(String, bool)> = Vec::new();
    let mut start: usize = 0;
    assert(segment_views(out@) =~= Seq::<(Seq<char>, bool)>::empty());
    loop
        invariant_except_break
            segment_views(out@) + segments_from(t@, n@, start as int) == segments_from(
                t@,
                n@,
                0,
            ),
        invariant
            start <= t@.len(),
            t@ == text@,
            n@ == needle_lower@,
            n@.len() > 0,
        ensures
            segment_views(out@) == segments_from(t@, n@, 0),
        decreases t@.len() - start,
    {
        let ghost before = out@;
        match find_ci_from(&t, &n, start) {
            Some(p) => {
                proof {
                    lemma_first_ci_match_from(t@, n@, start as int);
                }
                if p > start {
                    out.push((string_of(&t, start, p), false));
                }
                out.push((string_of(&t, p, p + n.len()), true));
                proof {
                    let gap: Seq<(Seq<char>, bool)> = if p > start {
                        seq![(t@.subrange(start as int, p as int), false)]
                    } else {
                        Seq::empty()
                    };
                    assert(segment_views(out@) =~= segment_views(before) + gap + seq![
                        (t@.subrange(p as int, p + n@.len()), true),
                    ]);
                    assert(segments_from(t@, n@, start as int) == gap + seq![
                        (t@.subrange(p as int, p + n@.len()), true),
                    ] + segments_from(t@, n@, p + n@.len()));
                    assert(segment_views(out@) + segments_from(t@, n@, p + n@.len()) =~= segment_views(
                        before,
                    ) + segments_from(t@, n@, start as int));
                }
                start = p + n.len();
            },
            None => {
                if start < t.len() {
                    out.push((string_of(&t, start, t.len()), false));
                }
                proof {
                    assert(segment_views(out@) =~= segment_views(before) + tail_segment(
                        t@,
                        start as int,
                    ));
                    assert(segments_from(t@, n@, start as int) == tail_segment(t@, start as int));
                }
                break;
            },
        }
    }
    assert(segment_views(out@) == segments_from(t@, n@, 0));
    if out.len() == 0 {
        let r = vec![(text.to_owned(), false)];
        assert(segment_views(r@) =~= highlighted(text@, needle_lower@));
        return r;
    }
    out
}

} // verus!

//! Character-level helpers for the text the editor produces and reads.
//!
//! Case mapping and character classes follow Unicode; for ASCII characters
//! their results are stated exactly.

use vstd::prelude::*;

verus! {

// ─── Character classes ─────────────────────────────────────────────────────

pub open spec fn is_ascii_letter(c: char) -> bool {
    ('a' <= c && c <= 'z') || ('A' <= c && c <= 'Z')
}

pub open spec fn is_ascii_digit(c: char) -> bool {
    '0' <= c && c <= '9'
}

/// Unicode `Alphabetic` or `Numeric`, the class `char::is_alphanumeric`
/// tests.
pub uninterp spec fn unicode_alphanumeric(c: char) -> bool;

/// Unicode `White_Space`, the class `char::is_whitespace` tests.
pub uninterp spec fn unicode_whitespace(c: char) -> bool;

/// What `char::to_uppercase` yields for a character.
pub uninterp spec fn unicode_upper(c: char) -> Seq<char>;

/// What `str::to_lowercase` gives for a string.
pub uninterp spec fn unicode_lower(s: Seq<char>) -> Seq<char>;

/// `std`'s `char::is_alphanumeric`: alphabetic or numeric in Unicode; on
/// ASCII exactly the letters and digits.
#[verifier::external_body]
pub(crate) fn is_alphanumeric(c: char) -> (r: bool)
    ensures
        r == unicode_alphanumeric(c),
        (c as u32) < 128 ==> (r <==> (is_ascii_letter(c) || is_ascii_digit(c))),
{
    c.is_alphanumeric()
}

/// `std`'s `char::is_whitespace`: Unicode `White_Space`; on ASCII exactly
/// tab, line feed, vertical tab, form feed, carriage return and space.
#[verifier::external_body]
pub(crate) fn is_whitespace(c: char) -> (r: bool)
    ensures
        r == unicode_whitespace(c),
        (c as u32) < 128 ==> (r <==> (c == '\t' || c == '\n' || c == '\x0B' || c == '\x0C' || c == '\r' || c == ' ')),
{
    c.is_whitespace()
}

pub open spec fn ascii_upper(c: char) -> char {
    if 'a' <= c && c <= 'z' { ((c as u32) - 32) as char } else { c }
}

pub open spec fn ascii_lower(c: char) -> char {
    if 'A' <= c && c <= 'Z' { ((c as u32) + 32) as char } else { c }
}

pub open spec fn all_ascii(s: Seq<char>) -> bool {
    forall|i: int| 0 <= i < s.len() ==> (#[trigger] s[i] as u32) < 128
}

/// `std`'s `char::to_uppercase`, collected into a string; an ASCII
/// character maps to its ASCII capital, or to itself.
#[verifier::external_body]
pub(crate) fn char_to_uppercase(c: char) -> (r: String)
    ensures
        r@ == unicode_upper(c),
        (c as u32) < 128 ==> r@ == seq![ascii_upper(c)],
{
    c.to_uppercase().collect::<String>()
}

/// `std`'s `str::to_lowercase`; an all-ASCII string maps character by
/// character to ASCII lower case.
#[verifier::external_body]
pub(crate) fn to_lowercase(s: &str) -> (r: String)
    ensures
        r@ == unicode_lower(s@),
        all_ascii(s@) ==> r@ == s@.map_values(|c: char| ascii_lower(c)),
{
    s.to_lowercase()
}

/// `std`'s `String::push`: appends one character.
#[verifier::external_body]
pub(crate) fn push_char(s: &mut String, c: char)
    ensures
        final(s)@ == old(s)@.push(c),
{
    s.push(c);
}

// ─── Strings and characters ────────────────────────────────────────────────

/// The texts of a list of strings.
pub open spec fn strings_view(v: Seq<String>) -> Seq<Seq<char>> {
    v.map_values(|s: String| s@)
}

/// The characters of a string slice.
pub fn chars_of(s: &str) -> (r: Vec<char>)
    ensures
        r@ == s@,
{
    broadcast use vstd::string::group_string_axioms;

    let mut v: Vec<char> = Vec::new();
    for c in iter: s.chars()
        invariant
            v@ == iter.seq().take(iter.index() as int),
    {
        v.push(c);
    }
    v
}

/// The characters `v[from..to]` as a string.
pub fn string_from_range(v: &Vec<char>, from: usize, to: usize) -> (r: String)
    requires
        from <= to <= v@.len(),
    ensures
        r@ == v@.subrange(from as int, to as int),
{
    let mut s = String::new();
    let mut i = from;
    while i < to
        invariant
            from <= i <= to <= v@.len(),
            s@ == v@.subrange(from as int, i as int),
        decreases to - i,
    {
        push_char(&mut s, v[i]);
        proof {
            assert(v@.subrange(from as int, i + 1) =~= v@.subrange(from as int, i as int).push(v@[i as int]));
        }
        i = i + 1;
    }
    s
}

/// Append a string slice.
pub fn append_str(s: &mut String, t: &str)
    ensures
        final(s)@ == old(s)@ + t@,
{
    s.append(t);
}

// ─── Sequence operations ───────────────────────────────────────────────────

pub open spec fn starts_with(s: Seq<char>, p: Seq<char>) -> bool {
    p.len() <= s.len() && s.subrange(0, p.len() as int) == p
}

pub open spec fn ends_with(s: Seq<char>, p: Seq<char>) -> bool {
    p.len() <= s.len() && s.subrange(s.len() - p.len(), s.len() as int) == p
}

pub open spec fn occurs_at(s: Seq<char>, p: Seq<char>, i: int) -> bool {
    0 <= i && i + p.len() <= s.len() && s.subrange(i, i + p.len()) == p
}

pub open spec fn contains_seq(s: Seq<char>, p: Seq<char>) -> bool {
    exists|i: int| occurs_at(s, p, i)
}

/// `x` occurs in `s` somewhere before (and apart from) an occurrence of `y`.
pub open spec fn occurs_before(s: Seq<char>, x: Seq<char>, y: Seq<char>) -> bool {
    exists|a: int, b: int| occurs_at(s, x, a) && occurs_at(s, y, b) && a + x.len() <= b
}

/// `s` split at every `sep`, as `str::split` does: one more piece than
/// there are separators, empty pieces included.
pub open spec fn split_on(s: Seq<char>, sep: char) -> Seq<Seq<char>>
    decreases s.len(),
{
    if s.len() == 0 {
        seq![seq![]]
    } else {
        let rest = split_on(s.drop_last(), sep);
        if s.last() == sep {
            rest.push(seq![])
        } else {
            rest.update(rest.len() - 1, rest.last().push(s.last()))
        }
    }
}

pub proof fn lemma_split_on_nonempty(s: Seq<char>, sep: char)
    ensures
        split_on(s, sep).len() >= 1,
    decreases s.len(),
{
    if s.len() > 0 {
        lemma_split_on_nonempty(s.drop_last(), sep);
    }
}

/// Appending a piece free of separators to a text extends its last piece.
pub proof fn lemma_split_append(q: Seq<char>, seg: Seq<char>, sep: char)
    requires
        forall|k: int| 0 <= k < seg.len() ==> seg[k] != sep,
    ensures
        split_on(q + seg, sep) == split_on(q, sep).update(
            split_on(q, sep).len() - 1,
            split_on(q, sep).last() + seg,
        ),
    decreases seg.len(),
{
    lemma_split_on_nonempty(q, sep);
    if seg.len() == 0 {
        assert(q + seg =~= q);
        assert(split_on(q, sep).last() + seg =~= split_on(q, sep).last());
        assert(split_on(q, sep).update(split_on(q, sep).len() - 1, split_on(q, sep).last()) =~= split_on(q, sep));
    } else {
        let seg2 = seg.drop_last();
        lemma_split_append(q, seg2, sep);
        assert((q + seg).drop_last() =~= q + seg2);
        assert((q + seg).last() == seg.last());
        let ps = split_on(q, sep);
        assert((ps.last() + seg2).push(seg.last()) =~= ps.last() + seg);
        assert(ps.update(ps.len() - 1, ps.last() + seg2).update(ps.len() - 1, (ps.last() + seg2).push(seg.last())) =~= ps.update(ps.len() - 1, ps.last() + seg));
    }
}

pub open spec fn trim_start(s: Seq<char>) -> Seq<char>
    decreases s.len(),
{
    if s.len() > 0 && unicode_whitespace(s[0]) {
        trim_start(s.drop_first())
    } else {
        s
    }
}

pub open spec fn trim_end(s: Seq<char>) -> Seq<char>
    decreases s.len(),
{
    if s.len() > 0 && unicode_whitespace(s.last()) {
        trim_end(s.drop_last())
    } else {
        s
    }
}

/// `str::trim`: leading and trailing Unicode white space removed.
pub open spec fn trim(s: Seq<char>) -> Seq<char> {
    trim_end(trim_start(s))
}

/// The ASCII white space `char::is_whitespace` accepts.
pub open spec fn ascii_ws(c: char) -> bool {
    c == '\t' || c == '\n' || c == '\x0B' || c == '\x0C' || c == '\r' || c == ' '
}

pub open spec fn ascii_trim_start(s: Seq<char>) -> Seq<char>
    decreases s.len(),
{
    if s.len() > 0 && ascii_ws(s[0]) {
        ascii_trim_start(s.drop_first())
    } else {
        s
    }
}

pub open spec fn ascii_trim_end(s: Seq<char>) -> Seq<char>
    decreases s.len(),
{
    if s.len() > 0 && ascii_ws(s.last()) {
        ascii_trim_end(s.drop_last())
    } else {
        s
    }
}

/// `trim` on ASCII text.
pub open spec fn ascii_trim(s: Seq<char>) -> Seq<char> {
    ascii_trim_end(ascii_trim_start(s))
}

/// `take_ident` on ASCII text: letters, digits and underscores.
pub open spec fn ascii_take_ident(s: Seq<char>) -> Seq<char>
    decreases s.len(),
{
    if s.len() > 0 && (is_ascii_letter(s[0]) || is_ascii_digit(s[0]) || s[0] == '_') {
        seq![s[0]] + ascii_take_ident(s.drop_first())
    } else {
        seq![]
    }
}

/// A piece of an ASCII piece of text is ASCII.
pub proof fn lemma_ascii_sub(v: Seq<char>, ls: int, le: int, a: int, b: int)
    requires
        0 <= ls <= a <= b <= le <= v.len(),
        all_ascii(v.subrange(ls, le)),
    ensures
        all_ascii(v.subrange(a, b)),
{
    assert forall|i: int| 0 <= i < v.subrange(a, b).len() implies (#[trigger] v.subrange(a, b)[i] as u32) < 128 by {
        assert(v.subrange(a, b)[i] == v.subrange(ls, le)[a - ls + i]);
    }
}

pub open spec fn is_ident_char(c: char) -> bool {
    unicode_alphanumeric(c) || c == '_'
}

/// The longest prefix made of alphanumeric characters and underscores.
pub open spec fn take_ident(s: Seq<char>) -> Seq<char>
    decreases s.len(),
{
    if s.len() > 0 && is_ident_char(s[0]) {
        seq![s[0]] + take_ident(s.drop_first())
    } else {
        seq![]
    }
}

/// Whether `p` occurs in `v[from..to]` at position `i` (relative to `v`).
pub fn matches_at(v: &Vec<char>, i: usize, to: usize, p: &Vec<char>) -> (r: bool)
    requires
        i <= to <= v@.len(),
    ensures
        r == occurs_at(v@.subrange(0, to as int), p@, i as int),
{
    if p.len() > to - i {
        return false;
    }
    let mut k: usize = 0;
    while k < p.len()
        invariant
            i + p@.len() <= to <= v@.len(),
            k <= p@.len(),
            forall|j: int| 0 <= j < k ==> v@[i + j] == p@[j],
        decreases p@.len() - k,
    {
        if v[i + k] != p[k] {
            proof {
                assert(v@.subrange(0, to as int).subrange(i as int, i + p@.len())[k as int] != p@[k as int]);
            }
            return false;
        }
        k = k + 1;
    }
    proof {
        assert(v@.subrange(0, to as int).subrange(i as int, i + p@.len()) =~= p@);
    }
    true
}

/// Whether `p` occurs in `v[from..to]`.
pub fn contains_in(v: &Vec<char>, from: usize, to: usize, p: &Vec<char>) -> (r: bool)
    requires
        from <= to <= v@.len(),
    ensures
        r == contains_seq(v@.subrange(from as int, to as int), p@),
{
    let ghost w = v@.subrange(from as int, to as int);
    if p.len() > to - from {
        return false;
    }
    let last = to - p.len();
    let mut i = from;
    loop
        invariant
            from <= i <= last,
            last + p@.len() == to,
            to <= v@.len(),
            w == v@.subrange(from as int, to as int),
            forall|j: int| 0 <= j < i - from ==> !occurs_at(w, p@, j),
        decreases last - i,
    {
        let m = matches_at(v, i, to, p);
        proof {
            assert(v@.subrange(0, to as int).subrange(i as int, i + p@.len()) =~= w.subrange(i - from, i - from + p@.len()));
        }
        if m {
            proof {
                assert(occurs_at(w, p@, i - from));
            }
            return true;
        }
        if i == last {
            return false;
        }
        i = i + 1;
    }
}

// ─── Decimal numbers ───────────────────────────────────────────────────────

pub open spec fn digit_char(d: nat) -> char {
    (('0' as u32) + d) as char
}

/// The decimal digits of a number, as `Display` writes it.
pub open spec fn decimal(n: nat) -> Seq<char>
    decreases n,
{
    if n < 10 {
        seq![digit_char(n)]
    } else {
        decimal(n / 10).push(digit_char(n % 10))
    }
}

/// The decimal text of a number.
pub fn u64_to_string(n: u64) -> (r: String)
    ensures
        r@ == decimal(n as nat),
{
    let mut digits: Vec<char> = Vec::new();
    let mut m = n;
    // digits holds the lowest digits of n, lowest first; m the remaining high part.
    while m >= 10
        invariant
            decimal(n as nat) == decimal(m as nat) + digits@.reverse(),
        decreases m,
    {
        let d = m % 10;
        let c = char_of_digit(d);
        proof {
            assert(decimal(m as nat) == decimal((m / 10) as nat).push(digit_char((m % 10) as nat)));
            assert(digits@.push(c).reverse() =~= seq![c] + digits@.reverse());
            assert(decimal((m / 10) as nat).push(c) + digits@.reverse() =~= decimal((m / 10) as nat) + (seq![c] + digits@.reverse()));
        }
        digits.push(c);
        m = m / 10;
    }
    let c = char_of_digit(m);
    let mut s = String::new();
    push_char(&mut s, c);
    let mut i = digits.len();
    while i > 0
        invariant
            i <= digits@.len(),
            decimal(n as nat) == seq![c] + digits@.reverse(),
            s@ == seq![c] + digits@.subrange(i as int, digits@.len() as int).reverse(),
        decreases i,
    {
        i = i - 1;
        push_char(&mut s, digits[i]);
        proof {
            assert(digits@.subrange(i as int, digits@.len() as int) =~= seq![digits@[i as int]] + digits@.subrange(i + 1, digits@.len() as int));
            assert(digits@.subrange(i as int, digits@.len() as int).reverse() =~= digits@.subrange(i + 1, digits@.len() as int).reverse().push(digits@[i as int]));
        }
    }
    proof {
        assert(digits@.subrange(0, digits@.len() as int) =~= digits@);
    }
    s
}

fn char_of_digit(d: u64) -> (c: char)
    requires
        d < 10,
    ensures
        c == digit_char(d as nat),
{
    if d == 0 { '0' }
    else if d == 1 { '1' }
    else if d == 2 { '2' }
    else if d == 3 { '3' }
    else if d == 4 { '4' }
    else if d == 5 { '5' }
    else if d == 6 { '6' }
    else if d == 7 { '7' }
    else if d == 8 { '8' }
    else { '9' }
}

// ─── Equality ──────────────────────────────────────────────────────────────

/// Whether two string slices hold the same characters.
pub fn str_equals(a: &str, b: &str) -> (r: bool)
    ensures
        r == (a@ == b@),
{
    let x = chars_of(a);
    let y = chars_of(b);
    if x.len() != y.len() {
        return false;
    }
    let mut i: usize = 0;
    while i < x.len()
        invariant
            i <= x@.len(),
            x@.len() == y@.len(),
            x@ == a@,
            y@ == b@,
            forall|j: int| 0 <= j < i ==> x@[j] == y@[j],
        decreases x@.len() - i,
    {
        if x[i] != y[i] {
            proof {
                assert(a@[i as int] != b@[i as int]);
            }
            return false;
        }
        i = i + 1;
    }
    proof {
        assert(x@ =~= y@);
    }
    true
}

/// What follows the last `sep` in `s` (all of `s` when there is none), as
/// `s.rsplit(sep).next()` gives it.
pub fn last_piece(s: &str, sep: char) -> (r: String)
    ensures
        r@ == split_on(s@, sep).last(),
{
    let v = chars_of(s);
    let mut i = v.len();
    while i > 0 && v[i - 1] != sep
        invariant
            i <= v@.len(),
            forall|k: int| i <= k < v@.len() ==> v@[k] != sep,
        decreases i,
    {
        i = i - 1;
    }
    let ghost q = v@.subrange(0, i as int);
    let ghost seg = v@.subrange(i as int, v@.len() as int);
    proof {
        assert forall|k: int| 0 <= k < seg.len() implies seg[k] != sep by {
            assert(seg[k] == v@[i + k]);
        }
        lemma_split_append(q, seg, sep);
        assert(q + seg =~= v@);
        if i > 0 {
            assert(q.last() == sep);
            assert(split_on(q, sep).last() =~= Seq::<char>::empty());
        } else {
            assert(q =~= Seq::<char>::empty());
        }
        assert(split_on(q, sep).last() + seg =~= seg);
    }
    string_from_range(&v, i, v.len())
}

/// The trimmed bounds of `v[ls..le]`.
pub fn trim_bounds(v: &Vec<char>, ls: usize, le: usize) -> (r: (usize, usize))
    requires
        ls <= le <= v@.len(),
    ensures
        ls <= r.0 <= r.1 <= le,
        v@.subrange(r.0 as int, r.1 as int) == trim(v@.subrange(ls as int, le as int)),
        all_ascii(v@.subrange(ls as int, le as int)) ==> v@.subrange(r.0 as int, r.1 as int) == ascii_trim(v@.subrange(ls as int, le as int)),
{
    let ghost asc = all_ascii(v@.subrange(ls as int, le as int));
    let mut ts = ls;
    while ts < le && is_whitespace(v[ts])
        invariant
            ls <= ts <= le <= v@.len(),
            asc == all_ascii(v@.subrange(ls as int, le as int)),
            trim_start(v@.subrange(ls as int, le as int)) == trim_start(v@.subrange(ts as int, le as int)),
            asc ==> ascii_trim_start(v@.subrange(ls as int, le as int)) == ascii_trim_start(v@.subrange(ts as int, le as int)),
        decreases le - ts,
    {
        proof {
            assert(v@.subrange(ts as int, le as int).drop_first() =~= v@.subrange(ts + 1, le as int));
            assert(v@.subrange(ts as int, le as int)[0] == v@[ts as int]);
            if asc {
                assert(v@.subrange(ls as int, le as int)[ts - ls] == v@[ts as int]);
            }
        }
        ts = ts + 1;
    }
    proof {
        if ts < le {
            assert(v@.subrange(ts as int, le as int)[0] == v@[ts as int]);
            if asc {
                assert(v@.subrange(ls as int, le as int)[ts - ls] == v@[ts as int]);
            }
        }
    }
    let mut te = le;
    while te > ts && is_whitespace(v[te - 1])
        invariant
            ls <= ts <= te <= le <= v@.len(),
            asc == all_ascii(v@.subrange(ls as int, le as int)),
            trim_end(v@.subrange(ts as int, le as int)) == trim_end(v@.subrange(ts as int, te as int)),
            asc ==> ascii_trim_end(v@.subrange(ts as int, le as int)) == ascii_trim_end(v@.subrange(ts as int, te as int)),
        decreases te - ts,
    {
        proof {
            assert(v@.subrange(ts as int, te as int).drop_last() =~= v@.subrange(ts as int, te - 1));
            assert(v@.subrange(ts as int, te as int).last() == v@[te - 1]);
            if asc {
                assert(v@.subrange(ls as int, le as int)[te - 1 - ls] == v@[te - 1]);
            }
        }
        te = te - 1;
    }
    proof {
        if te > ts {
            assert(v@.subrange(ts as int, te as int).last() == v@[te - 1]);
            if asc {
                assert(v@.subrange(ls as int, le as int)[te - 1 - ls] == v@[te - 1]);
            }
        }
    }
    (ts, te)
}

/// `str::trim`: the text without leading and trailing white space.
pub fn trim_str(s: &str) -> (r: String)
    ensures
        r@ == trim(s@),
{
    let v = chars_of(s);
    let (a, b) = trim_bounds(&v, 0, v.len());
    proof {
        assert(v@.subrange(0, v@.len() as int) =~= v@);
    }
    string_from_range(&v, a, b)
}


// ─── Order ─────────────────────────────────────────────────────────────────

/// Lexicographic order on texts, character by character, as `str`'s `Ord`
/// compares them.
pub open spec fn seq_lt(a: Seq<char>, b: Seq<char>) -> bool
    decreases a.len(),
{
    if b.len() == 0 {
        false
    } else if a.len() == 0 {
        true
    } else if a[0] != b[0] {
        a[0] < b[0]
    } else {
        seq_lt(a.drop_first(), b.drop_first())
    }
}

pub proof fn lemma_seq_lt_transitive(a: Seq<char>, b: Seq<char>, c: Seq<char>)
    requires
        seq_lt(a, b),
        seq_lt(b, c),
    ensures
        seq_lt(a, c),
    decreases a.len(),
{
    if a.len() > 0 && b.len() > 0 && c.len() > 0 && a[0] == b[0] && b[0] == c[0] {
        lemma_seq_lt_transitive(a.drop_first(), b.drop_first(), c.drop_first());
    }
}

pub proof fn lemma_seq_lt_irreflexive(a: Seq<char>)
    ensures
        !seq_lt(a, a),
    decreases a.len(),
{
    if a.len() > 0 {
        lemma_seq_lt_irreflexive(a.drop_first());
    }
}

/// Whether `a` comes before `b` in lexicographic order.
pub fn str_less(a: &str, b: &str) -> (r: bool)
    ensures
        r == seq_lt(a@, b@),
{
    let x = chars_of(a);
    let y = chars_of(b);
    let mut i: usize = 0;
    proof {
        assert(x@.subrange(0, x@.len() as int) =~= x@);
        assert(y@.subrange(0, y@.len() as int) =~= y@);
    }
    while i < x.len() && i < y.len() && x[i] == y[i]
        invariant
            i <= x@.len(),
            i <= y@.len(),
            x@ == a@,
            y@ == b@,
            seq_lt(a@, b@) == seq_lt(x@.subrange(i as int, x@.len() as int), y@.subrange(i as int, y@.len() as int)),
        decreases x@.len() - i,
    {
        proof {
            let xs = x@.subrange(i as int, x@.len() as int);
            let ys = y@.subrange(i as int, y@.len() as int);
            assert(xs.drop_first() =~= x@.subrange(i + 1, x@.len() as int));
            assert(ys.drop_first() =~= y@.subrange(i + 1, y@.len() as int));
            assert(xs[0] == x@[i as int]);
            assert(ys[0] == y@[i as int]);
        }
        i = i + 1;
    }
    proof {
        let xs = x@.subrange(i as int, x@.len() as int);
        let ys = y@.subrange(i as int, y@.len() as int);
        if i < x@.len() && i < y@.len() {
            assert(xs[0] == x@[i as int]);
            assert(ys[0] == y@[i as int]);
        }
    }
    if i == y.len() {
        false
    } else if i == x.len() {
        true
    } else {
        x[i] < y[i]
    }
}

} // verus!

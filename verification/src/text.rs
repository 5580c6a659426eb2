//! Character-level string helpers shared by the other modules.
//!
//! A few std string functions that vstd leaves unspecified are reached
//! through small trusted wrappers here; everything built on top of them is
//! verified.

use vstd::prelude::*;
use vstd::string::*;

verus! {

/// What `str::to_lowercase` returns for a string that is not all ASCII:
/// full Unicode lowercasing, one character possibly expanding to several.
pub uninterp spec fn lowercase(s: Seq<char>) -> Seq<char>;

/// Whether every character of `s` is ASCII.
pub open spec fn is_ascii_text(s: Seq<char>) -> bool {
    forall|i: int| 0 <= i < s.len() ==> (s[i] as u32) < 128
}

/// The ASCII lowercase of a character: `A` to `Z` become `a` to `z`, any
/// other character stays.
pub open spec fn ascii_lower(c: char) -> char {
    if 'A' <= c && c <= 'Z' {
        ((c as u32) + 32) as char
    } else {
        c
    }
}

/// The lowercase form of `s` as `str::to_lowercase` gives it: on ASCII text
/// `A` to `Z` become `a` to `z` and every other character stays (Unicode
/// maps those letters so and leaves the other ASCII characters alone); on
/// any other text it is only named.
pub open spec fn lower(s: Seq<char>) -> Seq<char> {
    if is_ascii_text(s) {
        s.map_values(|c: char| ascii_lower(c))
    } else {
        lowercase(s)
    }
}

/// Lowercases `s` with `str::to_lowercase`.
///
/// The contract states the result for ASCII text and only names it
/// otherwise: Unicode case mapping takes tables to state, and it depends on
/// nothing but the input.
#[verifier::external_body]
pub(crate) fn to_lowercase(s: &str) -> (r: String)
    ensures
        is_ascii_text(s@) ==> r@ == s@.map_values(|c: char| ascii_lower(c)),
        !is_ascii_text(s@) ==> r@ == lowercase(s@),
{
    s.to_lowercase()
}

/// The characters of `s`, in order.
pub(crate) fn chars_of(s: &str) -> (v: Vec<char>)
    ensures
        v@ == s@,
{
    broadcast use vstd::string::axiom_spec_iter;
    let mut v: Vec<char> = Vec::new();
    for c in it: s.chars()
        invariant
            v@ == it.seq().take(it.index() as int),
    {
        v.push(c);
    }
    v
}

} // verus!

verus! {

/// The character views of a sequence of strings.
pub open spec fn views(v: Seq<String>) -> Seq<Seq<char>> {
    v.map_values(|s: String| s@)
}

/// The character views of a sequence of string slices.
pub open spec fn strs(v: Seq<&str>) -> Seq<Seq<char>> {
    v.map_values(|s: &str| s@)
}

/// The parts joined, with `sep` between two consecutive ones.
pub open spec fn join(parts: Seq<Seq<char>>, sep: Seq<char>) -> Seq<char>
    decreases parts.len(),
{
    if parts.len() == 0 {
        Seq::empty()
    } else if parts.len() == 1 {
        parts[0]
    } else {
        join(parts.drop_last(), sep) + sep + parts.last()
    }
}

/// Whether two string slices hold the same characters.
pub(crate) fn str_eq(a: &str, b: &str) -> (r: bool)
    ensures
        r == (a@ == b@),
{
    let x = chars_of(a);
    let y = chars_of(b);
    if x.len() != y.len() {
        return false;
    }
    let mut i: usize = 0;
    while i < x.len()
        invariant
            x@ == a@,
            y@ == b@,
            x@.len() == y@.len(),
            i <= x@.len(),
            forall|k: int| 0 <= k < i ==> x@[k] == y@[k],
        decreases x@.len() - i,
    {
        if x[i] != y[i] {
            return false;
        }
        i = i + 1;
    }
    proof {
        assert(x@ =~= y@);
    }
    true
}

/// Appends `s` to `target`.
pub fn push_str(target: &mut String, s: &str)
    ensures
        final(target)@ == old(target)@ + s@,
{
    target.append(s);
}

/// Whether `c` occurs in `s`.
pub fn has_char(s: &str, c: char) -> (r: bool)
    ensures
        r == s@.contains(c),
{
    let v = chars_of(s);
    let mut i: usize = 0;
    while i < v.len()
        invariant
            v@ == s@,
            i <= v@.len(),
            forall|x: int| 0 <= x < i ==> v@[x] != c,
        decreases v@.len() - i,
    {
        if v[i] == c {
            assert(s@[i as int] == c);
            return true;
        }
        i = i + 1;
    }
    false
}

} // verus!

verus! {

/// A fresh `String` holding the characters of `s`.
pub fn from_literal(s: &str) -> (r: String)
    ensures
        r@ == s@,
{
    String::from_str(s)
}

} // verus!

verus! {

/// Whether one of the strings equals `s`.
pub fn contains_str(names: &Vec<String>, s: &str) -> (r: bool)
    ensures
        r == views(names@).contains(s@),
{
    let mut k: usize = 0;
    while k < names.len()
        invariant
            k <= names@.len(),
            forall|x: int| 0 <= x < k ==> #[trigger] views(names@)[x] != s@,
        decreases names@.len() - k,
    {
        if str_eq(names[k].as_str(), s) {
            assert(views(names@)[k as int] == s@);
            return true;
        }
        k = k + 1;
    }
    false
}

} // verus!

verus! {

/// Appends one character with `String::push`.
#[verifier::external_body]
pub(crate) fn push_char(target: &mut String, c: char)
    ensures
        final(target)@ == old(target)@.push(c),
{
    target.push(c);
}

/// The pieces of `s` between the separator characters `seps`, in order, as
/// `str::split` yields them: an empty string gives one empty piece, and two
/// adjacent separators an empty piece between them.
pub open spec fn split_spec(s: Seq<char>, seps: Seq<char>) -> Seq<Seq<char>>
    decreases s.len(),
{
    if s.len() == 0 {
        seq![Seq::empty()]
    } else {
        let parts = split_spec(s.drop_last(), seps);
        if seps.contains(s.last()) {
            parts.push(Seq::empty())
        } else {
            parts.update(parts.len() - 1, parts.last().push(s.last()))
        }
    }
}

pub proof fn lemma_split_nonempty(s: Seq<char>, seps: Seq<char>)
    ensures
        split_spec(s, seps).len() >= 1,
    decreases s.len(),
{
    if s.len() > 0 {
        lemma_split_nonempty(s.drop_last(), seps);
    }
}

/// Splitting a concatenation: the last piece of `a` and the first piece of
/// `b` join, the other pieces stay as they are.
pub proof fn lemma_split_concat(a: Seq<char>, b: Seq<char>, seps: Seq<char>)
    ensures
        split_spec(a + b, seps) == split_spec(a, seps).drop_last() + seq![
            split_spec(a, seps).last() + split_spec(b, seps)[0],
        ] + split_spec(b, seps).drop_first(),
    decreases b.len(),
{
    lemma_split_nonempty(a, seps);
    lemma_split_nonempty(b, seps);
    let sa = split_spec(a, seps);
    if b.len() == 0 {
        assert(a + b =~= a);
        assert(split_spec(b, seps) =~= seq![Seq::<char>::empty()]);
        assert(sa.last() + Seq::<char>::empty() =~= sa.last());
        assert(sa.drop_last() + seq![sa.last()] =~= sa);
    } else {
        let b2 = b.drop_last();
        let c = b.last();
        lemma_split_concat(a, b2, seps);
        lemma_split_nonempty(b2, seps);
        assert((a + b).drop_last() =~= a + b2);
        assert((a + b).last() == c);
        let sb2 = split_spec(b2, seps);
        let sab2 = split_spec(a + b2, seps);
        let sb = split_spec(b, seps);
        if seps.contains(c) {
            assert(sb == sb2.push(Seq::<char>::empty()));
            assert(split_spec(a + b, seps) == sab2.push(Seq::<char>::empty()));
            assert(sb.drop_first() =~= sb2.drop_first().push(Seq::<char>::empty()));
            assert(sb[0] == sb2[0]);
            assert(split_spec(a + b, seps) =~= sa.drop_last() + seq![sa.last() + sb[0]] + sb.drop_first());
        } else {
            assert(sb == sb2.update(sb2.len() - 1, sb2.last().push(c)));
            assert(split_spec(a + b, seps) == sab2.update(sab2.len() - 1, sab2.last().push(c)));
            if sb2.len() == 1 {
                assert(sb[0] == sb2[0].push(c));
                assert(sb.drop_first() =~= Seq::<Seq<char>>::empty());
                assert(sb2.drop_first() =~= Seq::<Seq<char>>::empty());
                assert((sa.last() + sb2[0]).push(c) =~= sa.last() + sb2[0].push(c));
                assert(split_spec(a + b, seps) =~= sa.drop_last() + seq![sa.last() + sb[0]] + sb.drop_first());
            } else {
                assert(sb[0] == sb2[0]);
                assert(sb.drop_first() =~= sb2.drop_first().update(sb2.len() - 2, sb2.last().push(c)));
                assert(split_spec(a + b, seps) =~= sa.drop_last() + seq![sa.last() + sb[0]] + sb.drop_first());
            }
        }
    }
}

/// A text without separators is a single piece.
pub proof fn lemma_split_no_sep(s: Seq<char>, seps: Seq<char>)
    requires
        forall|i: int| 0 <= i < s.len() ==> !seps.contains(#[trigger] s[i]),
    ensures
        split_spec(s, seps) == seq![s],
    decreases s.len(),
{
    if s.len() > 0 {
        let t = s.drop_last();
        assert forall|i: int| 0 <= i < t.len() implies !seps.contains(#[trigger] t[i]) by {
            assert(t[i] == s[i]);
        }
        lemma_split_no_sep(t, seps);
        assert(!seps.contains(s[s.len() - 1]));
        assert(t.push(s.last()) =~= s);
        let parts = split_spec(t, seps);
        assert(parts.len() == 1);
        assert(split_spec(s, seps) == parts.update(0, parts.last().push(s.last())));
        assert(parts[0] == t);
        assert(parts.last().push(s.last()) == s);
        assert(parts.update(0, s) =~= seq![s]);
    } else {
        assert(s =~= Seq::<char>::empty());
        assert(split_spec(s, seps) =~= seq![s]);
    }
}

/// A text that starts with a separator has an empty first piece.
pub proof fn lemma_split_leading_sep(s: Seq<char>, seps: Seq<char>)
    requires
        s.len() > 0,
        seps.contains(s[0]),
    ensures
        split_spec(s, seps)[0] == Seq::<char>::empty(),
{
    let head = seq![s[0]];
    lemma_split_concat(head, s.drop_first(), seps);
    assert(head + s.drop_first() =~= s);
    assert(head.drop_last() =~= Seq::<char>::empty());
    assert(split_spec(Seq::<char>::empty(), seps) =~= seq![Seq::<char>::empty()]);
    assert(split_spec(head, seps) =~= seq![Seq::<char>::empty(), Seq::<char>::empty()]);
}

/// Splits `s` at every character of `seps`.
pub fn split_on(s: &str, seps: &[char]) -> (r: Vec<String>)
    ensures
        views(r@) == split_spec(s@, seps@),
{
    let v = chars_of(s);
    let mut parts: Vec<String> = Vec::new();
    parts.push(String::new());
    let mut i: usize = 0;
    proof {
        assert(v@.take(0) =~= Seq::<char>::empty());
        assert(views(parts@) =~= seq![Seq::<char>::empty()]);
    }
    while i < v.len()
        invariant
            v@ == s@,
            i <= v@.len(),
            views(parts@) == split_spec(v@.take(i as int), seps@),
            parts@.len() >= 1,
        decreases v@.len() - i,
    {
        let c = v[i];
        let mut is_sep = false;
        let mut k: usize = 0;
        while k < seps.len()
            invariant
                k <= seps@.len(),
                is_sep <==> (exists|x: int| 0 <= x < k && seps@[x] == c),
            decreases seps@.len() - k,
        {
            if seps[k] == c {
                is_sep = true;
            }
            k = k + 1;
        }
        proof {
            if is_sep {
                let x = choose|x: int| 0 <= x < k && seps@[x] == c;
                assert(seps@.contains(c));
            } else {
                assert(!seps@.contains(c));
            }
            assert(v@.take(i + 1).drop_last() =~= v@.take(i as int));
            assert(v@.take(i + 1).last() == c);
        }
        let ghost before = views(parts@);
        if is_sep {
            parts.push(String::new());
            proof {
                assert(views(parts@) =~= before.push(Seq::empty()));
            }
        } else {
            let last = parts.len() - 1;
            let part = &mut parts[last];
            push_char(part, c);
            proof {
                assert(views(parts@) =~= before.update(before.len() - 1, before.last().push(c)));
            }
        }
        i = i + 1;
    }
    proof {
        assert(v@.take(i as int) =~= v@);
    }
    parts
}

/// `prefix` begins `s`.
pub open spec fn starts_with_spec(s: Seq<char>, prefix: Seq<char>) -> bool {
    prefix.len() <= s.len() && s.subrange(0, prefix.len() as int) == prefix
}

/// `suffix` ends `s`.
pub open spec fn ends_with_spec(s: Seq<char>, suffix: Seq<char>) -> bool {
    suffix.len() <= s.len() && s.subrange(s.len() - suffix.len(), s.len() as int) == suffix
}

/// Whether `s` begins with `prefix`.
pub fn starts_with(s: &str, prefix: &str) -> (r: bool)
    ensures
        r == starts_with_spec(s@, prefix@),
{
    let a = chars_of(s);
    let b = chars_of(prefix);
    if b.len() > a.len() {
        return false;
    }
    let mut i: usize = 0;
    while i < b.len()
        invariant
            a@ == s@,
            b@ == prefix@,
            b@.len() <= a@.len(),
            i <= b@.len(),
            forall|x: int| 0 <= x < i ==> a@[x] == b@[x],
        decreases b@.len() - i,
    {
        if a[i] != b[i] {
            assert(s@.subrange(0, prefix@.len() as int)[i as int] != prefix@[i as int]);
            return false;
        }
        i = i + 1;
    }
    assert(s@.subrange(0, prefix@.len() as int) =~= prefix@);
    true
}

/// Whether `s` ends with `suffix`.
pub fn ends_with(s: &str, suffix: &str) -> (r: bool)
    ensures
        r == ends_with_spec(s@, suffix@),
{
    let a = chars_of(s);
    let b = chars_of(suffix);
    if b.len() > a.len() {
        return false;
    }
    let off = a.len() - b.len();
    let mut i: usize = 0;
    while i < b.len()
        invariant
            a@ == s@,
            b@ == suffix@,
            off == a@.len() - b@.len(),
            off + b@.len() == a@.len(),
            i <= b@.len(),
            forall|x: int| 0 <= x < i ==> a@[off + x] == b@[x],
        decreases b@.len() - i,
    {
        assert(off + i < a.len());
        if a[off + i] != b[i] {
            assert(s@.subrange(off as int, s@.len() as int)[i as int] != suffix@[i as int]);
            return false;
        }
        i = i + 1;
    }
    assert(s@.subrange(off as int, s@.len() as int) =~= suffix@);
    true
}

/// A string made of the characters `s[from..to]`.
pub fn substring(s: &str, from: usize, to: usize) -> (r: String)
    requires
        from <= to <= s@.len(),
    ensures
        r@ == s@.subrange(from as int, to as int),
{
    let v = chars_of(s);
    let mut r = String::new();
    let mut i: usize = from;
    while i < to
        invariant
            v@ == s@,
            from <= i <= to,
            to <= v@.len(),
            r@ == s@.subrange(from as int, i as int),
        decreases to - i,
    {
        push_char(&mut r, v[i]);
        assert(s@.subrange(from as int, i + 1) =~= s@.subrange(from as int, i as int).push(v@[i as int]));
        i = i + 1;
    }
    r
}

} // verus!

verus! {

/// The characters with the Unicode `White_Space` property, which
/// `char::is_whitespace` and `str::trim` go by.
pub open spec fn is_white_space(c: char) -> bool {
    ||| ('\u{9}' <= c && c <= '\u{d}')
    ||| c == ' '
    ||| c == '\u{85}'
    ||| c == '\u{a0}'
    ||| c == '\u{1680}'
    ||| ('\u{2000}' <= c && c <= '\u{200a}')
    ||| c == '\u{2028}'
    ||| c == '\u{2029}'
    ||| c == '\u{202f}'
    ||| c == '\u{205f}'
    ||| c == '\u{3000}'
}

pub fn white_space(c: char) -> (r: bool)
    ensures
        r == is_white_space(c),
{
    ('\u{9}' <= c && c <= '\u{d}') || c == ' ' || c == '\u{85}' || c == '\u{a0}' || c == '\u{1680}'
        || ('\u{2000}' <= c && c <= '\u{200a}') || c == '\u{2028}' || c == '\u{2029}' || c == '\u{202f}'
        || c == '\u{205f}' || c == '\u{3000}'
}

/// Number of leading characters that satisfy `f`.
pub open spec fn lead_len(s: Seq<char>, f: spec_fn(char) -> bool) -> int
    decreases s.len(),
{
    if s.len() == 0 || !f(s[0]) {
        0
    } else {
        1 + lead_len(s.drop_first(), f)
    }
}

/// Number of trailing characters that satisfy `f`.
pub open spec fn trail_len(s: Seq<char>, f: spec_fn(char) -> bool) -> int
    decreases s.len(),
{
    if s.len() == 0 || !f(s.last()) {
        0
    } else {
        1 + trail_len(s.drop_last(), f)
    }
}

pub open spec fn white() -> spec_fn(char) -> bool {
    |c: char| is_white_space(c)
}

/// `s` without its leading and trailing white space, as `str::trim` gives it.
pub open spec fn trim_spec(s: Seq<char>) -> Seq<char> {
    let a = lead_len(s, white());
    if a == s.len() {
        Seq::empty()
    } else {
        s.subrange(a, s.len() - trail_len(s, white()))
    }
}

proof fn lemma_lead_len(s: Seq<char>, f: spec_fn(char) -> bool, i: int)
    requires
        0 <= i <= s.len(),
        forall|x: int| 0 <= x < i ==> f(#[trigger] s[x]),
        i == s.len() || !f(s[i]),
    ensures
        lead_len(s, f) == i,
    decreases i,
{
    if i > 0 {
        let t = s.drop_first();
        assert forall|x: int| 0 <= x < i - 1 implies f(#[trigger] t[x]) by {
            assert(t[x] == s[x + 1]);
        }
        if i < s.len() {
            assert(t[i - 1] == s[i]);
        }
        lemma_lead_len(t, f, i - 1);
    }
}

proof fn lemma_trail_len(s: Seq<char>, f: spec_fn(char) -> bool, j: int)
    requires
        0 <= j <= s.len(),
        forall|x: int| j <= x < s.len() ==> f(#[trigger] s[x]),
        j == 0 || !f(s[j - 1]),
    ensures
        trail_len(s, f) == s.len() - j,
    decreases s.len() - j,
{
    if j < s.len() {
        let t = s.drop_last();
        assert forall|x: int| j <= x < t.len() implies f(#[trigger] t[x]) by {
            assert(t[x] == s[x]);
        }
        if j > 0 {
            assert(t[j - 1] == s[j - 1]);
        }
        lemma_trail_len(t, f, j);
    }
}

proof fn lemma_lead_stop(s: Seq<char>, f: spec_fn(char) -> bool)
    ensures
        0 <= lead_len(s, f) <= s.len(),
        forall|x: int| 0 <= x < lead_len(s, f) ==> f(#[trigger] s[x]),
        lead_len(s, f) < s.len() ==> !f(s[lead_len(s, f)]),
    decreases s.len(),
{
    if s.len() > 0 && f(s[0]) {
        let t = s.drop_first();
        lemma_lead_stop(t, f);
        assert forall|x: int| 0 <= x < lead_len(s, f) implies f(#[trigger] s[x]) by {
            if x > 0 {
                assert(s[x] == t[x - 1]);
            }
        }
        if lead_len(s, f) < s.len() {
            assert(s[lead_len(s, f)] == t[lead_len(t, f)]);
        }
    }
}

proof fn lemma_trail_stop(s: Seq<char>, f: spec_fn(char) -> bool)
    ensures
        0 <= trail_len(s, f) <= s.len(),
        forall|x: int| s.len() - trail_len(s, f) <= x < s.len() ==> f(#[trigger] s[x]),
        trail_len(s, f) < s.len() ==> !f(s[s.len() - 1 - trail_len(s, f)]),
    decreases s.len(),
{
    if s.len() > 0 && f(s.last()) {
        let t = s.drop_last();
        lemma_trail_stop(t, f);
        assert forall|x: int| s.len() - trail_len(s, f) <= x < s.len() implies f(#[trigger] s[x]) by {
            if x < s.len() - 1 {
                assert(s[x] == t[x]);
            }
        }
        if trail_len(s, f) < s.len() {
            assert(s[s.len() - 1 - trail_len(s, f)] == t[t.len() - 1 - trail_len(t, f)]);
        }
    }
}

/// The trimmed text is a run of the text: its characters are those from
/// the first that is not white space on.
pub proof fn lemma_trim_within(s: Seq<char>)
    ensures
        forall|i: int| 0 <= i < trim_spec(s).len() ==> #[trigger] trim_spec(s)[i] == s[i + lead_len(s, white())],
        trim_spec(s).len() + lead_len(s, white()) <= s.len(),
        0 <= lead_len(s, white()),
{
    lemma_lead_stop(s, white());
    lemma_trail_stop(s, white());
}

/// Trimming twice is trimming once.
pub proof fn lemma_trim_idempotent(s: Seq<char>)
    ensures
        trim_spec(trim_spec(s)) == trim_spec(s),
{
    let f = white();
    lemma_lead_stop(s, f);
    lemma_trail_stop(s, f);
    let t = trim_spec(s);
    let a = lead_len(s, f);
    let b = trail_len(s, f);
    if a == s.len() {
        assert(t =~= Seq::<char>::empty());
        assert(lead_len(t, f) == 0);
        assert(trim_spec(t) =~= t);
    } else {
        assert(!f(s[a]));
        assert(a < s.len() - b);
        assert(t == s.subrange(a, s.len() - b));
        assert(t[0] == s[a]);
        assert(t[t.len() - 1] == s[s.len() - 1 - b]);
        lemma_lead_len(t, f, 0);
        lemma_trail_len(t, f, t.len() as int);
        assert(trim_spec(t) =~= t);
    }
}

/// No piece of a split holds a separator.
pub proof fn lemma_split_pieces_clean(s: Seq<char>, seps: Seq<char>)
    ensures
        forall|k: int, i: int| 0 <= k < split_spec(s, seps).len() && 0 <= i < split_spec(s, seps)[k].len()
            ==> !seps.contains(#[trigger] split_spec(s, seps)[k][i]),
    decreases s.len(),
{
    lemma_split_nonempty(s, seps);
    if s.len() > 0 {
        let t = s.drop_last();
        lemma_split_pieces_clean(t, seps);
        lemma_split_nonempty(t, seps);
        let parts = split_spec(t, seps);
        let c = s.last();
        if !seps.contains(c) {
            let whole = split_spec(s, seps);
            assert forall|k: int, i: int| 0 <= k < whole.len() && 0 <= i < whole[k].len()
                implies !seps.contains(#[trigger] whole[k][i]) by {
                if k == parts.len() - 1 {
                    if i < parts.last().len() {
                        assert(whole[k][i] == parts[k][i]);
                    }
                } else {
                    assert(whole[k] == parts[k]);
                }
            }
        } else {
            let whole = split_spec(s, seps);
            assert forall|k: int, i: int| 0 <= k < whole.len() && 0 <= i < whole[k].len()
                implies !seps.contains(#[trigger] whole[k][i]) by {
                assert(whole[k] == parts[k]);
            }
        }
    } else {
        assert(split_spec(s, seps) =~= seq![Seq::<char>::empty()]);
    }
}

/// Removes leading and trailing white space.
pub fn trim(s: &str) -> (r: String)
    ensures
        r@ == trim_spec(s@),
{
    let v = chars_of(s);
    let mut i: usize = 0;
    while i < v.len() && white_space(v[i])
        invariant
            v@ == s@,
            i <= v@.len(),
            forall|x: int| 0 <= x < i ==> is_white_space(#[trigger] v@[x]),
        decreases v@.len() - i,
    {
        i = i + 1;
    }
    proof {
        lemma_lead_len(s@, white(), i as int);
    }
    if i == v.len() {
        return String::new();
    }
    let mut j: usize = v.len();
    while j > i && white_space(v[j - 1])
        invariant
            v@ == s@,
            i < v@.len(),
            i <= j <= v@.len(),
            forall|x: int| j <= x < v@.len() ==> is_white_space(#[trigger] v@[x]),
        decreases j,
    {
        j = j - 1;
    }
    proof {
        assert(!is_white_space(v@[i as int]));
        lemma_trail_len(s@, white(), j as int);
    }
    substring(s, i, j)
}

/// `s` without any number of trailing `c`, as `str::trim_end_matches` with a
/// character gives it.
pub open spec fn trim_end_char_spec(s: Seq<char>, c: char) -> Seq<char> {
    s.subrange(0, s.len() - trail_len(s, is_char(c)))
}

pub open spec fn is_char(c: char) -> spec_fn(char) -> bool {
    |x: char| x == c
}

/// Removes every trailing `c`.
pub fn trim_end_char(s: &str, c: char) -> (r: String)
    ensures
        r@ == trim_end_char_spec(s@, c),
{
    let v = chars_of(s);
    let mut j: usize = v.len();
    while j > 0 && v[j - 1] == c
        invariant
            v@ == s@,
            j <= v@.len(),
            forall|x: int| j <= x < v@.len() ==> is_char(c)(#[trigger] v@[x]),
        decreases j,
    {
        j = j - 1;
    }
    proof {
        lemma_trail_len(s@, is_char(c), j as int);
    }
    substring(s, 0, j)
}

/// What `String::from_utf8_lossy` makes of `bytes`: the UTF-8 decoding,
/// with each invalid sequence replaced by U+FFFD.
pub uninterp spec fn utf8_lossy(bytes: Seq<u8>) -> Seq<char>;

/// Decodes bytes with `String::from_utf8_lossy`.
///
/// The contract states the decoding of valid UTF-8 and only names the result
/// otherwise: the replacement rules for invalid sequences are not stated.
#[verifier::external_body]
pub(crate) fn from_utf8_lossy(bytes: &[u8]) -> (r: String)
    ensures
        r@ == utf8_lossy(bytes@),
        vstd::utf8::valid_utf8(bytes@) ==> r@ == vstd::utf8::decode_utf8(bytes@),
{
    String::from_utf8_lossy(bytes).to_string()
}

/// `s` without later repeats, first occurrences kept in order.
pub open spec fn dedup_spec(s: Seq<Seq<char>>) -> Seq<Seq<char>>
    decreases s.len(),
{
    if s.len() == 0 {
        Seq::empty()
    } else {
        let prev = dedup_spec(s.drop_last());
        if prev.contains(s.last()) {
            prev
        } else {
            prev.push(s.last())
        }
    }
}

/// Adds `s` unless it is already there.
pub fn insert_unique(set: &mut Vec<String>, s: String)
    ensures
        views(final(set)@) == if views(old(set)@).contains(s@) { views(old(set)@) } else { views(old(set)@).push(s@) },
{
    if !contains_str(set, s.as_str()) {
        let ghost prev = set@;
        set.push(s);
        proof {
            assert(views(set@) =~= views(prev).push(s@));
        }
    }
}

} // verus!

verus! {

/// `s` without the leading and trailing characters that satisfy `f`.
pub open spec fn strip_both(s: Seq<char>, f: spec_fn(char) -> bool) -> Seq<char> {
    let a = lead_len(s, f);
    if a == s.len() {
        Seq::empty()
    } else {
        s.subrange(a, s.len() - trail_len(s, f))
    }
}

/// Removes every leading and trailing `c`, as `str::trim_matches` with a
/// character does.
pub fn trim_matches_char(s: &str, c: char) -> (r: String)
    ensures
        r@ == strip_both(s@, is_char(c)),
{
    let v = chars_of(s);
    let mut i: usize = 0;
    while i < v.len() && v[i] == c
        invariant
            v@ == s@,
            i <= v@.len(),
            forall|x: int| 0 <= x < i ==> is_char(c)(#[trigger] v@[x]),
        decreases v@.len() - i,
    {
        i = i + 1;
    }
    proof {
        lemma_lead_len(s@, is_char(c), i as int);
    }
    if i == v.len() {
        return String::new();
    }
    let mut j: usize = v.len();
    while j > i && v[j - 1] == c
        invariant
            v@ == s@,
            i < v@.len(),
            i <= j <= v@.len(),
            forall|x: int| j <= x < v@.len() ==> is_char(c)(#[trigger] v@[x]),
        decreases j,
    {
        j = j - 1;
    }
    proof {
        assert(!is_char(c)(v@[i as int]));
        lemma_trail_len(s@, is_char(c), j as int);
    }
    substring(s, i, j)
}

/// `s` with every `from` replaced by `to`.
pub open spec fn replace_char_spec(s: Seq<char>, from: char, to: char) -> Seq<char> {
    s.map_values(|c: char| if c == from { to } else { c })
}

/// Replaces every `from` by `to`.
pub fn replace_char(s: &str, from: char, to: char) -> (r: String)
    ensures
        r@ == replace_char_spec(s@, from, to),
{
    let v = chars_of(s);
    let mut r = String::new();
    let mut i: usize = 0;
    while i < v.len()
        invariant
            v@ == s@,
            i <= v@.len(),
            r@ == v@.take(i as int).map_values(|c: char| if c == from { to } else { c }),
        decreases v@.len() - i,
    {
        let c = v[i];
        push_char(&mut r, if c == from { to } else { c });
        assert(v@.take(i + 1) =~= v@.take(i as int).push(c));
        assert(v@.take(i + 1).map_values(|c: char| if c == from { to } else { c }) =~= v@.take(
            i as int).map_values(|c: char| if c == from { to } else { c }).push(if c == from { to } else { c }));
        i = i + 1;
    }
    assert(v@.take(i as int) =~= v@);
    r
}

} // verus!

verus! {

/// Strict lexicographic order on characters, which is the order of `str`
/// (UTF-8 bytes compare as the code points they encode).
pub open spec fn lex_lt(a: Seq<char>, b: Seq<char>) -> bool
    decreases a.len(),
{
    if a.len() == 0 {
        b.len() > 0
    } else if b.len() == 0 {
        false
    } else if a[0] != b[0] {
        (a[0] as u32) < (b[0] as u32)
    } else {
        lex_lt(a.drop_first(), b.drop_first())
    }
}

/// No text sorts before itself.
pub proof fn lemma_lex_lt_irreflexive(a: Seq<char>)
    ensures
        !lex_lt(a, a),
    decreases a.len(),
{
    if a.len() > 0 {
        lemma_lex_lt_irreflexive(a.drop_first());
    }
}

/// Sorting before is transitive.
pub proof fn lemma_lex_lt_transitive(a: Seq<char>, b: Seq<char>, c: Seq<char>)
    requires
        lex_lt(a, b),
        lex_lt(b, c),
    ensures
        lex_lt(a, c),
    decreases a.len(),
{
    if a.len() > 0 && a[0] == b[0] && b[0] == c[0] {
        lemma_lex_lt_transitive(a.drop_first(), b.drop_first(), c.drop_first());
    }
}

/// Whether `a` sorts strictly before `b`.
pub fn str_lt(a: &str, b: &str) -> (r: bool)
    ensures
        r == lex_lt(a@, b@),
{
    let x = chars_of(a);
    let y = chars_of(b);
    let mut i: usize = 0;
    assert(a@.skip(0) =~= a@);
    assert(b@.skip(0) =~= b@);
    while i < x.len() && i < y.len() && x[i] == y[i]
        invariant
            x@ == a@,
            y@ == b@,
            i <= x@.len(),
            i <= y@.len(),
            lex_lt(a@, b@) == lex_lt(a@.skip(i as int), b@.skip(i as int)),
        decreases x@.len() - i,
    {
        proof {
            assert(a@.skip(i as int).drop_first() =~= a@.skip(i + 1));
            assert(b@.skip(i as int).drop_first() =~= b@.skip(i + 1));
        }
        i = i + 1;
    }
    proof {
        if i < x@.len() {
            assert(a@.skip(i as int)[0] == x@[i as int]);
        }
        if i < y@.len() {
            assert(b@.skip(i as int)[0] == y@[i as int]);
        }
    }
    if i == x.len() {
        i < y.len()
    } else if i == y.len() {
        false
    } else {
        (x[i] as u32) < (y[i] as u32)
    }
}

} // verus!

verus! {

/// `s` without any number of leading copies of `pre`, as
/// `str::trim_start_matches` with a string pattern gives it.
pub open spec fn strip_prefix_all(s: Seq<char>, pre: Seq<char>) -> Seq<char>
    decreases s.len(),
{
    if pre.len() > 0 && starts_with_spec(s, pre) {
        strip_prefix_all(s.skip(pre.len() as int), pre)
    } else {
        s
    }
}

/// `s` without any number of trailing copies of `suf`, as
/// `str::trim_end_matches` with a string pattern gives it.
pub open spec fn strip_suffix_all(s: Seq<char>, suf: Seq<char>) -> Seq<char>
    decreases s.len(),
{
    if suf.len() > 0 && ends_with_spec(s, suf) {
        strip_suffix_all(s.take(s.len() - suf.len()), suf)
    } else {
        s
    }
}

/// Removes every leading copy of `pre`.
pub fn trim_start_matches(s: &str, pre: &str) -> (r: String)
    ensures
        r@ == strip_prefix_all(s@, pre@),
{
    let mut cur = from_literal(s);
    let p = chars_of(pre);
    if p.len() == 0 {
        return cur;
    }
    while starts_with(cur.as_str(), pre)
        invariant
            p@ == pre@,
            p@.len() > 0,
            strip_prefix_all(s@, pre@) == strip_prefix_all(cur@, pre@),
        decreases cur@.len(),
    {
        let n = chars_of(cur.as_str()).len();
        let next = substring(cur.as_str(), p.len(), n);
        cur = next;
    }
    cur
}

/// Removes every trailing copy of `suf`.
pub fn trim_end_matches(s: &str, suf: &str) -> (r: String)
    ensures
        r@ == strip_suffix_all(s@, suf@),
{
    let mut cur = from_literal(s);
    let p = chars_of(suf);
    if p.len() == 0 {
        return cur;
    }
    while ends_with(cur.as_str(), suf)
        invariant
            p@ == suf@,
            p@.len() > 0,
            strip_suffix_all(s@, suf@) == strip_suffix_all(cur@, suf@),
        decreases cur@.len(),
    {
        let n = chars_of(cur.as_str()).len();
        let next = substring(cur.as_str(), 0, n - p.len());
        assert(next@ =~= cur@.take(cur@.len() - suf@.len()));
        cur = next;
    }
    cur
}

/// Index of the first `c` in `s`, or the length when there is none.
pub open spec fn first_pos(s: Seq<char>, c: char) -> int
    decreases s.len(),
{
    if s.len() == 0 {
        0
    } else if s[0] == c {
        0
    } else {
        1 + first_pos(s.drop_first(), c)
    }
}

pub proof fn lemma_first_pos(s: Seq<char>, c: char, i: int)
    requires
        0 <= i <= s.len(),
        forall|x: int| 0 <= x < i ==> s[x] != c,
        i == s.len() || s[i] == c,
    ensures
        first_pos(s, c) == i,
    decreases i,
{
    if i > 0 {
        let t = s.drop_first();
        assert forall|x: int| 0 <= x < i - 1 implies t[x] != c by {
            assert(t[x] == s[x + 1]);
        }
        if i < s.len() {
            assert(t[i - 1] == s[i]);
        }
        lemma_first_pos(t, c, i - 1);
    }
}

} // verus!

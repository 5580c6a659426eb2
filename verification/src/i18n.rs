//! Translation catalogues: dotted-key lookup with an English fallback, and
//! the choice of a locale for a requested language.
//!
//! The catalogues are JSON files; they reach this module already parsed into
//! [`Node`] trees, so one source of truth per language feeds both the
//! backend messages and the interface.

use vstd::prelude::*;
use crate::report::key_index;
use crate::seqs::{sort_asc, lemma_insert_asc_at};
use crate::text::{
    views, str_eq, str_lt, lex_lt, split_spec, split_on, trim, trim_spec, from_literal,
};

verus! {

/// Language served when the request names none, or one not available.
pub const DEFAULT_LANG: &'static str = "en";
/// Language whose catalogue answers a key the requested one lacks.
pub const FALLBACK_LANG: &'static str = "en";

/// A node of a catalogue: a text, an object of named children, or any
/// other JSON value (numbers, arrays, ...), which holds no text.
pub enum Node {
    Text(String),
    Object(Vec<(String, Node)>),
    Other,
}

/// One language: its code and its catalogue.
pub struct Locale {
    pub code: String,
    pub root: Node,
}

/// The available languages, each code once.
pub struct Catalogs {
    pub locales: Vec<Locale>,
}

pub open spec fn child_keys(entries: Seq<(String, Node)>) -> Seq<(Seq<char>, Node)> {
    entries.map_values(|e: (String, Node)| (e.0@, e.1))
}

/// The text reached from `node` by following the keys `parts`, if any: each
/// key names a child of an object, and the last node must be a text.
pub open spec fn lookup_spec(node: Node, parts: Seq<Seq<char>>) -> Option<Seq<char>>
    decreases parts.len(),
{
    if parts.len() == 0 {
        match node {
            Node::Text(s) => Some(s@),
            _ => None,
        }
    } else {
        match node {
            Node::Object(entries) => {
                let k = key_index(child_keys(entries@), parts[0], 0);
                if k >= 0 {
                    lookup_spec(entries@[k].1, parts.drop_first())
                } else {
                    None
                }
            },
            _ => None,
        }
    }
}

fn child_position(entries: &Vec<(String, Node)>, key: &str) -> (r: usize)
    ensures
        r <= entries@.len(),
        key_index(child_keys(entries@), key@, 0) == if r < entries@.len() { r as int } else { -1 },
{
    let ghost v = child_keys(entries@);
    let mut i: usize = 0;
    while i < entries.len()
        invariant
            v == child_keys(entries@),
            i <= entries@.len(),
            key_index(v, key@, 0) == key_index(v, key@, i as int),
        decreases entries@.len() - i,
    {
        if str_eq(entries[i].0.as_str(), key) {
            return i;
        }
        i = i + 1;
    }
    i
}

/// The text at the path `parts` from `root`.
pub fn lookup_parts(root: &Node, parts: &Vec<String>) -> (r: Option<String>)
    ensures
        match r {
            Some(s) => lookup_spec(*root, views(parts@)) == Some(s@),
            None => lookup_spec(*root, views(parts@)) is None,
        },
{
    let ghost pv = views(parts@);
    let mut node: &Node = root;
    let mut i: usize = 0;
    proof {
        assert(pv.skip(0) =~= pv);
    }
    while i < parts.len()
        invariant
            pv == views(parts@),
            i <= parts@.len(),
            lookup_spec(*root, pv) == lookup_spec(*node, pv.skip(i as int)),
        decreases parts@.len() - i,
    {
        proof {
            assert(pv.skip(i as int)[0] == pv[i as int]);
            assert(pv.skip(i as int).drop_first() =~= pv.skip(i + 1));
        }
        match node {
            Node::Object(entries) => {
                let k = child_position(entries, parts[i].as_str());
                if k >= entries.len() {
                    return None;
                }
                node = &entries[k].1;
            },
            _ => {
                return None;
            },
        }
        i = i + 1;
    }
    match node {
        Node::Text(s) => Some(s.clone()),
        _ => None,
    }
}

/// The text of a dotted key such as `error.job_not_found`.
pub fn lookup(root: &Node, key: &str) -> (r: Option<String>)
    ensures
        match r {
            Some(s) => lookup_spec(*root, split_spec(key@, seq!['.'])) == Some(s@),
            None => lookup_spec(*root, split_spec(key@, seq!['.'])) is None,
        },
{
    let parts = split_on(key, &['.']);
    proof {
        assert(seq!['.'] =~= (['.'])@);
    }
    lookup_parts(root, &parts)
}

pub open spec fn locale_codes(c: Catalogs) -> Seq<Seq<char>> {
    c.locales@.map_values(|l: Locale| l.code@)
}

/// The catalogue of the language `code`, if available.
pub open spec fn catalog_of(c: Catalogs, code: Seq<char>) -> Option<Node> {
    let k = key_index(c.locales@.map_values(|l: Locale| (l.code@, l.root)), code, 0);
    if k >= 0 {
        Some(c.locales@[k].root)
    } else {
        None
    }
}

fn locale_position(c: &Catalogs, code: &str) -> (r: usize)
    ensures
        r <= c.locales@.len(),
        key_index(c.locales@.map_values(|l: Locale| (l.code@, l.root)), code@, 0)
            == if r < c.locales@.len() { r as int } else { -1 },
{
    let ghost v = c.locales@.map_values(|l: Locale| (l.code@, l.root));
    let mut i: usize = 0;
    while i < c.locales.len()
        invariant
            v == c.locales@.map_values(|l: Locale| (l.code@, l.root)),
            i <= c.locales@.len(),
            key_index(v, code@, 0) == key_index(v, code@, i as int),
        decreases c.locales@.len() - i,
    {
        if str_eq(c.locales[i].code.as_str(), code) {
            return i;
        }
        i = i + 1;
    }
    i
}

/// The text of `key` in `lang`, else in English, else the key itself.
pub open spec fn translate_spec(c: Catalogs, lang: Seq<char>, key: Seq<char>) -> Seq<char> {
    let parts = split_spec(key, seq!['.']);
    let first = match catalog_of(c, lang) {
        Some(root) => lookup_spec(root, parts),
        None => None,
    };
    let second = match catalog_of(c, FALLBACK_LANG@) {
        Some(root) => lookup_spec(root, parts),
        None => None,
    };
    match first {
        Some(s) => s,
        None => match second {
            Some(s) => s,
            None => key,
        },
    }
}

fn lookup_in(c: &Catalogs, lang: &str, key: &str) -> (r: Option<String>)
    ensures
        match r {
            Some(s) => (catalog_of(*c, lang@) matches Some(root) && lookup_spec(root, split_spec(key@, seq!['.'])) == Some(s@)),
            None => !(catalog_of(*c, lang@) matches Some(root) && lookup_spec(root, split_spec(key@, seq!['.'])) is Some),
        },
{
    let k = locale_position(c, lang);
    if k < c.locales.len() {
        lookup(&c.locales[k].root, key)
    } else {
        None
    }
}

/// Translates a dotted key, falling back to English then to the raw key.
pub fn t(c: &Catalogs, lang: &str, key: &str) -> (r: String)
    ensures
        r@ == translate_spec(*c, lang@, key@),
{
    match lookup_in(c, lang, key) {
        Some(s) => s,
        None => match lookup_in(c, FALLBACK_LANG, key) {
            Some(s) => s,
            None => from_literal(key),
        },
    }
}

/// The locale for a requested language: its base code, the part before any
/// `-` or `,`, trimmed, when a catalogue has it; the default language
/// otherwise, and when nothing is requested.
pub open spec fn resolve_spec(c: Catalogs, lang: Option<Seq<char>>) -> Seq<char> {
    let requested = match lang {
        Some(l) => l,
        None => DEFAULT_LANG@,
    };
    let base = trim_spec(split_spec(requested, seq!['-', ','])[0]);
    if locale_codes(c).contains(base) {
        base
    } else {
        DEFAULT_LANG@
    }
}

/// What `resolve` gives is a language it accepts as it is: the code of an
/// available catalogue, or the default language; resolving it again gives
/// it back.
pub proof fn lemma_resolve_idempotent(c: Catalogs, lang: Option<Seq<char>>)
    ensures
        locale_codes(c).contains(resolve_spec(c, lang)) || resolve_spec(c, lang) == DEFAULT_LANG@,
        resolve_spec(c, Some(resolve_spec(c, lang))) == resolve_spec(c, lang),
{
    let seps = seq!['-', ','];
    let r = resolve_spec(c, lang);
    let requested = match lang {
        Some(l) => l,
        None => DEFAULT_LANG@,
    };
    let piece = split_spec(requested, seps)[0];
    crate::text::lemma_split_nonempty(requested, seps);
    crate::text::lemma_split_pieces_clean(requested, seps);
    if locale_codes(c).contains(trim_spec(piece)) {
        crate::text::lemma_trim_within(piece);
        assert forall|i: int| 0 <= i < r.len() implies !seps.contains(#[trigger] r[i]) by {
            let j = i + crate::text::lead_len(piece, crate::text::white());
            assert(r[i] == piece[j]);
            assert(0 <= j < piece.len());
            assert(!seps.contains(split_spec(requested, seps)[0][j]));
        }
        crate::text::lemma_split_no_sep(r, seps);
        crate::text::lemma_trim_idempotent(piece);
    } else {
        reveal_strlit("en");
        assert(DEFAULT_LANG@ =~= seq!['e', 'n']);
        crate::text::lemma_split_no_sep(DEFAULT_LANG@, seps);
        assert(trim_spec(DEFAULT_LANG@) =~= DEFAULT_LANG@) by {
            crate::text::lemma_trim_within(DEFAULT_LANG@);
            assert(crate::text::lead_len(DEFAULT_LANG@, crate::text::white()) == 0);
            assert(crate::text::trail_len(DEFAULT_LANG@, crate::text::white()) == 0) by {
                assert(DEFAULT_LANG@.drop_last() =~= seq!['e']);
            }
        }
    }
}

/// Normalises a requested language code to an available locale.
pub fn resolve(c: &Catalogs, lang: Option<&str>) -> (r: String)
    ensures
        r@ == resolve_spec(*c, match lang { Some(l) => Some(l@), None => None }),
{
    let requested = match lang {
        Some(l) => l,
        None => DEFAULT_LANG,
    };
    let pieces = split_on(requested, &['-', ',']);
    proof {
        assert(seq!['-', ','] =~= (['-', ','])@);
        crate::text::lemma_split_nonempty(requested@, seq!['-', ',']);
        assert(views(pieces@).len() == pieces@.len());
        assert(views(pieces@)[0] == pieces@[0]@);
    }
    let base = trim(pieces[0].as_str());
    let ghost lang_v = match lang { Some(l) => Some(l@), None => None };
    let ghost req_v = match lang_v { Some(l) => l, None => DEFAULT_LANG@ };
    assert(req_v == requested@);
    assert(base@ == trim_spec(split_spec(req_v, seq!['-', ','])[0]));
    let mut i: usize = 0;
    while i < c.locales.len()
        invariant
            i <= c.locales@.len(),
            req_v == match lang_v { Some(l) => l, None => DEFAULT_LANG@ },
            lang_v == match lang { Some(l) => Some(l@), None => None },
            base@ == trim_spec(split_spec(req_v, seq!['-', ','])[0]),
            forall|x: int| 0 <= x < i ==> #[trigger] locale_codes(*c)[x] != base@,
        decreases c.locales@.len() - i,
    {
        if str_eq(c.locales[i].code.as_str(), base.as_str()) {
            assert(locale_codes(*c)[i as int] == base@);
            assert(locale_codes(*c).contains(base@));
            return base;
        }
        i = i + 1;
    }
    from_literal(DEFAULT_LANG)
}

pub open spec fn meta_label_path() -> Seq<Seq<char>> {
    seq!["meta"@, "label"@]
}

/// A language's entry in the picker: its code, and the `meta.label` of its
/// catalogue, or the code when that is missing.
pub open spec fn language_entry(l: Locale) -> (Seq<char>, Seq<char>) {
    (l.code@, match lookup_spec(l.root, meta_label_path()) {
        Some(label) => label,
        None => l.code@,
    })
}

pub open spec fn code_lt() -> spec_fn((Seq<char>, Seq<char>), (Seq<char>, Seq<char>)) -> bool {
    |a: (Seq<char>, Seq<char>), b: (Seq<char>, Seq<char>)| lex_lt(a.0, b.0)
}

/// The language list holds every catalogue once, and no code in it sorts
/// before the code of an earlier entry.
pub proof fn lemma_languages_sorted(c: Catalogs)
    ensures
        crate::seqs::sorted_asc(sort_asc(c.locales@.map_values(|l: Locale| language_entry(l)), code_lt()), code_lt()),
        sort_asc(c.locales@.map_values(|l: Locale| language_entry(l)), code_lt()).to_multiset()
            =~= c.locales@.map_values(|l: Locale| language_entry(l)).to_multiset(),
{
    let less = code_lt();
    assert forall|a: (Seq<char>, Seq<char>), b: (Seq<char>, Seq<char>), d: (Seq<char>, Seq<char>)|
        #[trigger] less(a, b) && #[trigger] less(b, d) implies less(a, d) by {
        crate::text::lemma_lex_lt_transitive(a.0, b.0, d.0);
    }
    assert forall|a: (Seq<char>, Seq<char>)| !#[trigger] less(a, a) by {
        crate::text::lemma_lex_lt_irreflexive(a.0);
    }
    crate::seqs::lemma_sort_asc_sorted(c.locales@.map_values(|l: Locale| language_entry(l)), less);
}

/// The available languages with their labels, sorted by code.
pub fn languages(c: &Catalogs) -> (r: Vec<(String, String)>)
    ensures
        r@.map_values(|e: (String, String)| (e.0@, e.1@))
            == sort_asc(c.locales@.map_values(|l: Locale| language_entry(l)), code_lt()),
{
    let ghost entries = c.locales@.map_values(|l: Locale| language_entry(l));
    let mut path: Vec<String> = Vec::new();
    path.push(from_literal("meta"));
    path.push(from_literal("label"));
    proof {
        assert(views(path@) =~= meta_label_path());
    }
    let mut list: Vec<(String, String)> = Vec::new();
    let mut i: usize = 0;
    proof {
        assert(entries.take(0) =~= Seq::<(Seq<char>, Seq<char>)>::empty());
    }
    while i < c.locales.len()
        invariant
            entries == c.locales@.map_values(|l: Locale| language_entry(l)),
            views(path@) == meta_label_path(),
            i <= c.locales@.len(),
            list@.map_values(|e: (String, String)| (e.0@, e.1@)) == sort_asc(entries.take(i as int), code_lt()),
        decreases c.locales@.len() - i,
    {
        let locale = &c.locales[i];
        let label = match lookup_parts(&locale.root, &path) {
            Some(s) => s,
            None => locale.code.clone(),
        };
        let ghost item = (locale.code@, label@);
        assert(item == entries[i as int]);
        let ghost before = list@.map_values(|e: (String, String)| (e.0@, e.1@));
        let mut pos: usize = 0;
        let mut found = false;
        while !found && pos < list.len()
            invariant
                pos <= list@.len(),
                before == list@.map_values(|e: (String, String)| (e.0@, e.1@)),
                item.0 == locale.code@,
                forall|j: int| 0 <= j < pos ==> !code_lt()(item, #[trigger] before[j]),
                found ==> pos < list@.len() && code_lt()(item, before[pos as int]),
            decreases list@.len() - pos, (if found { 0int } else { 1int }),
        {
            let lt = str_lt(locale.code.as_str(), list[pos].0.as_str());
            proof {
                assert(before[pos as int] == (list@[pos as int].0@, list@[pos as int].1@));
            }
            if lt {
                found = true;
            } else {
                pos = pos + 1;
            }
        }
        list.insert(pos, (locale.code.clone(), label));
        proof {
            lemma_insert_asc_at(before, item, code_lt(), pos as int);
            assert(list@.map_values(|e: (String, String)| (e.0@, e.1@)) =~= before.insert(pos as int, item));
            assert(entries.take(i + 1).drop_last() =~= entries.take(i as int));
            assert(entries.take(i + 1).last() == item);
        }
        i = i + 1;
    }
    proof {
        assert(entries.take(i as int) =~= entries);
    }
    list
}

} // verus!

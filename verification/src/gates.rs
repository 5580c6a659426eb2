//! What the catalogue answers for the directory names that the catalogue
//! treats with care: a name shared by several ecosystems is claimed only
//! beside the marker file of one of them, and some names are never claimed.

use vstd::prelude::*;
use crate::catalog::{
    catalogue, first_rule, glob_from, glob_match, some_name_matches, marker_present, rule_applies, wildcard,
    Rule,
};
use crate::text::{lower, is_ascii_text, ascii_lower, strs};

verus! {

/// From any point of the pattern before its last character, a match ends
/// on that character when it is plain.
proof fn lemma_glob_tail_from(p: Seq<char>, n: Seq<char>, i: int, j: int)
    requires
        0 <= i < p.len(),
        0 <= j,
        p.last() != '*',
        p.last() != '?',
        glob_from(p, n, i, j),
    ensures
        n.len() > 0,
        n.last() == p.last(),
    decreases p.len() - i, n.len() - j,
{
    if p[i] == '*' {
        if glob_from(p, n, i + 1, j) {
            lemma_glob_tail_from(p, n, i + 1, j);
        } else {
            lemma_glob_tail_from(p, n, i, j + 1);
        }
    } else if i + 1 < p.len() {
        lemma_glob_tail_from(p, n, i + 1, j + 1);
    } else {
        assert(glob_from(p, n, i + 1, j + 1));
        assert(j + 1 == n.len());
        assert(n[j] == n.last());
        assert(p[i] == p.last());
    }
}

/// A pattern that ends with a plain character only matches names that end
/// with it.
proof fn lemma_glob_tail(p: Seq<char>, n: Seq<char>)
    requires
        p.len() > 0,
        p.last() != '*',
        p.last() != '?',
        glob_match(p, n),
    ensures
        n.len() > 0,
        n.last() == p.last(),
{
    lemma_glob_tail_from(p, n, 0, 0);
}

/// A pattern that starts with plain characters only matches names that
/// start with them.
proof fn lemma_glob_prefix(p: Seq<char>, n: Seq<char>, i: int, k: int)
    requires
        0 <= i <= k < p.len(),
        forall|x: int| 0 <= x <= k ==> p[x] != '*' && p[x] != '?',
        glob_from(p, n, i, i),
    ensures
        n.len() > k,
        forall|x: int| i <= x <= k ==> n[x] == p[x],
    decreases k - i,
{
    assert(p[i] != '*');
    if i < k {
        lemma_glob_prefix(p, n, i + 1, k);
    }
}

/// An ASCII pattern that starts with plain characters never matches an
/// ASCII name that, lowercased, differs from it at position `k`.
proof fn lemma_prefix_mismatch(p: Seq<char>, n: Seq<char>, k: int)
    requires
        is_ascii_text(p),
        is_ascii_text(n),
        0 <= k < p.len(),
        k < n.len(),
        forall|x: int| 0 <= x <= k ==> ascii_lower(p[x]) != '*' && ascii_lower(p[x]) != '?',
        ascii_lower(p[k]) != ascii_lower(n[k]),
    ensures
        !wildcard(p, n),
{
    if wildcard(p, n) {
        let lp = lower(p);
        assert forall|x: int| 0 <= x <= k implies lp[x] != '*' && lp[x] != '?' by {
            assert(lp[x] == ascii_lower(p[x]));
        }
        lemma_glob_prefix(lp, lower(n), 0, k);
        assert(lower(n)[k] == ascii_lower(n[k]));
        assert(lp[k] == ascii_lower(p[k]));
    }
}

/// An ASCII pattern whose last character is plain and, lowercased, differs
/// from that of an ASCII name never matches it.
proof fn lemma_tail_mismatch(p: Seq<char>, n: Seq<char>)
    requires
        is_ascii_text(p),
        is_ascii_text(n),
        p.len() > 0,
        n.len() > 0,
        ascii_lower(p.last()) != '*',
        ascii_lower(p.last()) != '?',
        ascii_lower(p.last()) != ascii_lower(n.last()),
    ensures
        !wildcard(p, n),
{
    if wildcard(p, n) {
        lemma_glob_tail(lower(p), lower(n));
    }
}

/// Rules 0 to 5 of the catalogue pass over a directory named `target`.
#[verifier::spinoff_prover]
proof fn lemma_target_needs_marker_0(parent: Seq<char>, siblings: Seq<Seq<char>>)
    ensures
        first_rule(catalogue(), "target"@, true, parent, siblings, 0) == first_rule(catalogue(), "target"@, true, parent, siblings, 6),
{
    let word = "target"@;
    reveal_strlit("target");
    assert(word =~= seq!['t', 'a', 'r', 'g', 'e', 't']);
    assert(!rule_applies(catalogue()[0], word, true, parent, siblings)) by {
        reveal_strlit("node_modules");
        assert("node_modules"@.len() == 12);
    }
    assert(first_rule(catalogue(), word, true, parent, siblings, 0) == first_rule(catalogue(), word, true, parent, siblings, 1));
    assert(!rule_applies(catalogue()[1], word, true, parent, siblings)) by {
        reveal_strlit(".next");
        assert(".next"@.len() == 5);
    }
    assert(first_rule(catalogue(), word, true, parent, siblings, 1) == first_rule(catalogue(), word, true, parent, siblings, 2));
    assert(!rule_applies(catalogue()[2], word, true, parent, siblings)) by {
        reveal_strlit(".nuxt");
        assert(".nuxt"@.len() == 5);
    }
    assert(first_rule(catalogue(), word, true, parent, siblings, 2) == first_rule(catalogue(), word, true, parent, siblings, 3));
    assert(!rule_applies(catalogue()[3], word, true, parent, siblings)) by {
        reveal_strlit(".output");
        assert(".output"@.len() == 7);
    }
    assert(first_rule(catalogue(), word, true, parent, siblings, 3) == first_rule(catalogue(), word, true, parent, siblings, 4));
    assert(!rule_applies(catalogue()[4], word, true, parent, siblings)) by {
        reveal_strlit(".svelte-kit");
        assert(".svelte-kit"@.len() == 11);
    }
    assert(first_rule(catalogue(), word, true, parent, siblings, 4) == first_rule(catalogue(), word, true, parent, siblings, 5));
    assert(!rule_applies(catalogue()[5], word, true, parent, siblings)) by {
        reveal_strlit(".astro");
        assert(".astro"@[0] == '.');
    }
    assert(first_rule(catalogue(), word, true, parent, siblings, 5) == first_rule(catalogue(), word, true, parent, siblings, 6));
}

/// Rules 6 to 11 of the catalogue pass over a directory named `target`.
#[verifier::spinoff_prover]
proof fn lemma_target_needs_marker_6(parent: Seq<char>, siblings: Seq<Seq<char>>)
    ensures
        first_rule(catalogue(), "target"@, true, parent, siblings, 6) == first_rule(catalogue(), "target"@, true, parent, siblings, 12),
{
    let word = "target"@;
    reveal_strlit("target");
    assert(word =~= seq!['t', 'a', 'r', 'g', 'e', 't']);
    assert(!rule_applies(catalogue()[6], word, true, parent, siblings)) by {
        reveal_strlit(".docusaurus");
        assert(".docusaurus"@.len() == 11);
    }
    assert(first_rule(catalogue(), word, true, parent, siblings, 6) == first_rule(catalogue(), word, true, parent, siblings, 7));
    assert(!rule_applies(catalogue()[7], word, true, parent, siblings)) by {
        reveal_strlit(".angular");
        assert(".angular"@.len() == 8);
    }
    assert(first_rule(catalogue(), word, true, parent, siblings, 7) == first_rule(catalogue(), word, true, parent, siblings, 8));
    assert(!rule_applies(catalogue()[8], word, true, parent, siblings)) by {
        reveal_strlit(".parcel-cache");
        assert(".parcel-cache"@.len() == 13);
    }
    assert(first_rule(catalogue(), word, true, parent, siblings, 8) == first_rule(catalogue(), word, true, parent, siblings, 9));
    assert(!rule_applies(catalogue()[9], word, true, parent, siblings)) by {
        reveal_strlit(".turbo");
        assert(".turbo"@[0] == '.');
    }
    assert(first_rule(catalogue(), word, true, parent, siblings, 9) == first_rule(catalogue(), word, true, parent, siblings, 10));
    assert(!rule_applies(catalogue()[10], word, true, parent, siblings)) by {
        reveal_strlit(".vite");
        assert(".vite"@.len() == 5);
    }
    assert(first_rule(catalogue(), word, true, parent, siblings, 10) == first_rule(catalogue(), word, true, parent, siblings, 11));
    assert(!rule_applies(catalogue()[11], word, true, parent, siblings)) by {
        reveal_strlit(".rollup.cache");
        assert(".rollup.cache"@.len() == 13);
    }
    assert(first_rule(catalogue(), word, true, parent, siblings, 11) == first_rule(catalogue(), word, true, parent, siblings, 12));
}

/// Rules 12 to 17 of the catalogue pass over a directory named `target`.
#[verifier::spinoff_prover]
proof fn lemma_target_needs_marker_12(parent: Seq<char>, siblings: Seq<Seq<char>>)
    ensures
        first_rule(catalogue(), "target"@, true, parent, siblings, 12) == first_rule(catalogue(), "target"@, true, parent, siblings, 18),
{
    let word = "target"@;
    reveal_strlit("target");
    assert(word =~= seq!['t', 'a', 'r', 'g', 'e', 't']);
    assert(!rule_applies(catalogue()[12], word, true, parent, siblings)) by {
        reveal_strlit(".webpack");
        assert(".webpack"@.len() == 8);
    }
    assert(first_rule(catalogue(), word, true, parent, siblings, 12) == first_rule(catalogue(), word, true, parent, siblings, 13));
    assert(!rule_applies(catalogue()[13], word, true, parent, siblings)) by {
        reveal_strlit(".serverless");
        assert(".serverless"@.len() == 11);
    }
    assert(first_rule(catalogue(), word, true, parent, siblings, 13) == first_rule(catalogue(), word, true, parent, siblings, 14));
    assert(!rule_applies(catalogue()[14], word, true, parent, siblings)) by {
        reveal_strlit("cache");
        assert("cache"@.len() == 5);
        reveal_strlit("unplugged");
        assert("unplugged"@.len() == 9);
    }
    assert(first_rule(catalogue(), word, true, parent, siblings, 14) == first_rule(catalogue(), word, true, parent, siblings, 15));
    assert(!rule_applies(catalogue()[15], word, true, parent, siblings)) by {
        reveal_strlit(".pnpm-store");
        assert(".pnpm-store"@.len() == 11);
    }
    assert(first_rule(catalogue(), word, true, parent, siblings, 15) == first_rule(catalogue(), word, true, parent, siblings, 16));
    assert(!rule_applies(catalogue()[16], word, true, parent, siblings)) by {
        reveal_strlit(".expo");
        assert(".expo"@.len() == 5);
        reveal_strlit(".expo-shared");
        assert(".expo-shared"@.len() == 12);
    }
    assert(first_rule(catalogue(), word, true, parent, siblings, 16) == first_rule(catalogue(), word, true, parent, siblings, 17));
    assert(!rule_applies(catalogue()[17], word, true, parent, siblings)) by {
        reveal_strlit(".metro-cache");
        assert(".metro-cache"@.len() == 12);
    }
    assert(first_rule(catalogue(), word, true, parent, siblings, 17) == first_rule(catalogue(), word, true, parent, siblings, 18));
}

/// Rules 18 to 23 of the catalogue pass over a directory named `target`.
#[verifier::spinoff_prover]
proof fn lemma_target_needs_marker_18(parent: Seq<char>, siblings: Seq<Seq<char>>)
    ensures
        first_rule(catalogue(), "target"@, true, parent, siblings, 18) == first_rule(catalogue(), "target"@, true, parent, siblings, 24),
{
    let word = "target"@;
    reveal_strlit("target");
    assert(word =~= seq!['t', 'a', 'r', 'g', 'e', 't']);
    assert(!rule_applies(catalogue()[18], word, true, parent, siblings)) by {
        reveal_strlit("storybook-static");
        assert("storybook-static"@.len() == 16);
    }
    assert(first_rule(catalogue(), word, true, parent, siblings, 18) == first_rule(catalogue(), word, true, parent, siblings, 19));
    assert(!rule_applies(catalogue()[19], word, true, parent, siblings)) by {
        reveal_strlit(".nyc_output");
        assert(".nyc_output"@.len() == 11);
    }
    assert(first_rule(catalogue(), word, true, parent, siblings, 19) == first_rule(catalogue(), word, true, parent, siblings, 20));
    assert(!rule_applies(catalogue()[20], word, true, parent, siblings));
    assert(first_rule(catalogue(), word, true, parent, siblings, 20) == first_rule(catalogue(), word, true, parent, siblings, 21));
    assert(!rule_applies(catalogue()[21], word, true, parent, siblings));
    assert(first_rule(catalogue(), word, true, parent, siblings, 21) == first_rule(catalogue(), word, true, parent, siblings, 22));
    assert(!rule_applies(catalogue()[22], word, true, parent, siblings)) by {
        reveal_strlit(".nx");
        assert(".nx"@.len() == 3);
    }
    assert(first_rule(catalogue(), word, true, parent, siblings, 22) == first_rule(catalogue(), word, true, parent, siblings, 23));
    assert(!rule_applies(catalogue()[23], word, true, parent, siblings)) by {
        reveal_strlit(".swc");
        assert(".swc"@.len() == 4);
    }
    assert(first_rule(catalogue(), word, true, parent, siblings, 23) == first_rule(catalogue(), word, true, parent, siblings, 24));
}

/// Rules 24 to 29 of the catalogue pass over a directory named `target`.
#[verifier::spinoff_prover]
proof fn lemma_target_needs_marker_24(parent: Seq<char>, siblings: Seq<Seq<char>>)
    ensures
        first_rule(catalogue(), "target"@, true, parent, siblings, 24) == first_rule(catalogue(), "target"@, true, parent, siblings, 30),
{
    let word = "target"@;
    reveal_strlit("target");
    assert(word =~= seq!['t', 'a', 'r', 'g', 'e', 't']);
    assert(!rule_applies(catalogue()[24], word, true, parent, siblings)) by {
        reveal_strlit("bower_components");
        assert("bower_components"@.len() == 16);
        reveal_strlit("jspm_packages");
        assert("jspm_packages"@.len() == 13);
        reveal_strlit("web_modules");
        assert("web_modules"@.len() == 11);
    }
    assert(first_rule(catalogue(), word, true, parent, siblings, 24) == first_rule(catalogue(), word, true, parent, siblings, 25));
    assert(!rule_applies(catalogue()[25], word, true, parent, siblings)) by {
        reveal_strlit(".vercel");
        assert(".vercel"@.len() == 7);
        reveal_strlit(".netlify");
        assert(".netlify"@.len() == 8);
        reveal_strlit(".wrangler");
        assert(".wrangler"@.len() == 9);
        reveal_strlit(".firebase");
        assert(".firebase"@.len() == 9);
    }
    assert(first_rule(catalogue(), word, true, parent, siblings, 25) == first_rule(catalogue(), word, true, parent, siblings, 26));
    assert(!rule_applies(catalogue()[26], word, true, parent, siblings)) by {
        reveal_strlit("cache");
        assert("cache"@.len() == 5);
        reveal_strlit("dist");
        assert("dist"@.len() == 4);
    }
    assert(first_rule(catalogue(), word, true, parent, siblings, 26) == first_rule(catalogue(), word, true, parent, siblings, 27));
    assert(!rule_applies(catalogue()[27], word, true, parent, siblings)) by {
        reveal_strlit("dist");
        assert("dist"@.len() == 4);
        reveal_strlit("temp");
        assert("temp"@.len() == 4);
    }
    assert(first_rule(catalogue(), word, true, parent, siblings, 27) == first_rule(catalogue(), word, true, parent, siblings, 28));
    assert(!rule_applies(catalogue()[28], word, true, parent, siblings)) by {
        reveal_strlit("playwright-report");
        assert("playwright-report"@.len() == 17);
        reveal_strlit("test-results");
        assert("test-results"@.len() == 12);
        reveal_strlit(".playwright");
        assert(".playwright"@.len() == 11);
        reveal_strlit("blob-report");
        assert("blob-report"@.len() == 11);
    }
    assert(first_rule(catalogue(), word, true, parent, siblings, 28) == first_rule(catalogue(), word, true, parent, siblings, 29));
    assert(!rule_applies(catalogue()[29], word, true, parent, siblings)) by {
        reveal_strlit("videos");
        assert("videos"@[0] == 'v');
        reveal_strlit("screenshots");
        assert("screenshots"@.len() == 11);
        reveal_strlit("downloads");
        assert("downloads"@.len() == 9);
    }
    assert(first_rule(catalogue(), word, true, parent, siblings, 29) == first_rule(catalogue(), word, true, parent, siblings, 30));
}

/// Rules 30 to 35 of the catalogue pass over a directory named `target`.
#[verifier::spinoff_prover]
proof fn lemma_target_needs_marker_30(parent: Seq<char>, siblings: Seq<Seq<char>>)
    ensures
        first_rule(catalogue(), "target"@, true, parent, siblings, 30) == first_rule(catalogue(), "target"@, true, parent, siblings, 36),
{
    let word = "target"@;
    reveal_strlit("target");
    assert(word =~= seq!['t', 'a', 'r', 'g', 'e', 't']);
    assert(!rule_applies(catalogue()[30], word, true, parent, siblings)) by {
        reveal_strlit(".rpt2_cache");
        assert(".rpt2_cache"@.len() == 11);
        reveal_strlit(".rts2_cache_*");
        assert(".rts2_cache_*"@ =~= seq!['.', 'r', 't', 's', '2', '_', 'c', 'a', 'c', 'h', 'e', '_', '*']);
        lemma_prefix_mismatch(".rts2_cache_*"@, word, 0);
    }
    assert(first_rule(catalogue(), word, true, parent, siblings, 30) == first_rule(catalogue(), word, true, parent, siblings, 31));
    assert(!rule_applies(catalogue()[31], word, true, parent, siblings)) by {
        reveal_strlit(".grunt");
        assert(".grunt"@[0] == '.');
        reveal_strlit(".fusebox");
        assert(".fusebox"@.len() == 8);
        reveal_strlit(".dynamodb");
        assert(".dynamodb"@.len() == 9);
        reveal_strlit(".node_modules_cache");
        assert(".node_modules_cache"@.len() == 19);
    }
    assert(first_rule(catalogue(), word, true, parent, siblings, 31) == first_rule(catalogue(), word, true, parent, siblings, 32));
    assert(!rule_applies(catalogue()[32], word, true, parent, siblings));
    assert(first_rule(catalogue(), word, true, parent, siblings, 32) == first_rule(catalogue(), word, true, parent, siblings, 33));
    assert(!rule_applies(catalogue()[33], word, true, parent, siblings)) by {
        reveal_strlit("__pycache__");
        assert("__pycache__"@.len() == 11);
    }
    assert(first_rule(catalogue(), word, true, parent, siblings, 33) == first_rule(catalogue(), word, true, parent, siblings, 34));
    assert(!rule_applies(catalogue()[34], word, true, parent, siblings)) by {
        reveal_strlit(".pytest_cache");
        assert(".pytest_cache"@.len() == 13);
    }
    assert(first_rule(catalogue(), word, true, parent, siblings, 34) == first_rule(catalogue(), word, true, parent, siblings, 35));
    assert(!rule_applies(catalogue()[35], word, true, parent, siblings)) by {
        reveal_strlit(".mypy_cache");
        assert(".mypy_cache"@.len() == 11);
    }
    assert(first_rule(catalogue(), word, true, parent, siblings, 35) == first_rule(catalogue(), word, true, parent, siblings, 36));
}

/// Rules 36 to 41 of the catalogue pass over a directory named `target`.
#[verifier::spinoff_prover]
proof fn lemma_target_needs_marker_36(parent: Seq<char>, siblings: Seq<Seq<char>>)
    ensures
        first_rule(catalogue(), "target"@, true, parent, siblings, 36) == first_rule(catalogue(), "target"@, true, parent, siblings, 42),
{
    let word = "target"@;
    reveal_strlit("target");
    assert(word =~= seq!['t', 'a', 'r', 'g', 'e', 't']);
    assert(!rule_applies(catalogue()[36], word, true, parent, siblings)) by {
        reveal_strlit(".ruff_cache");
        assert(".ruff_cache"@.len() == 11);
    }
    assert(first_rule(catalogue(), word, true, parent, siblings, 36) == first_rule(catalogue(), word, true, parent, siblings, 37));
    assert(!rule_applies(catalogue()[37], word, true, parent, siblings)) by {
        reveal_strlit(".tox");
        assert(".tox"@.len() == 4);
        reveal_strlit(".nox");
        assert(".nox"@.len() == 4);
    }
    assert(first_rule(catalogue(), word, true, parent, siblings, 37) == first_rule(catalogue(), word, true, parent, siblings, 38));
    assert(!rule_applies(catalogue()[38], word, true, parent, siblings)) by {
        reveal_strlit(".hypothesis");
        assert(".hypothesis"@.len() == 11);
    }
    assert(first_rule(catalogue(), word, true, parent, siblings, 38) == first_rule(catalogue(), word, true, parent, siblings, 39));
    assert(!rule_applies(catalogue()[39], word, true, parent, siblings)) by {
        reveal_strlit("venv");
        assert("venv"@.len() == 4);
        reveal_strlit(".venv");
        assert(".venv"@.len() == 5);
        reveal_strlit("virtualenv");
        assert("virtualenv"@.len() == 10);
        reveal_strlit("env310");
        assert("env310"@[0] == 'e');
        reveal_strlit("env311");
        assert("env311"@[0] == 'e');
    }
    assert(first_rule(catalogue(), word, true, parent, siblings, 39) == first_rule(catalogue(), word, true, parent, siblings, 40));
    assert(!rule_applies(catalogue()[40], word, true, parent, siblings)) by {
        reveal_strlit("*.egg-info");
        assert("*.egg-info"@ =~= seq!['*', '.', 'e', 'g', 'g', '-', 'i', 'n', 'f', 'o']);
        lemma_tail_mismatch("*.egg-info"@, word);
    }
    assert(first_rule(catalogue(), word, true, parent, siblings, 40) == first_rule(catalogue(), word, true, parent, siblings, 41));
    assert(!rule_applies(catalogue()[41], word, true, parent, siblings)) by {
        reveal_strlit(".eggs");
        assert(".eggs"@.len() == 5);
    }
    assert(first_rule(catalogue(), word, true, parent, siblings, 41) == first_rule(catalogue(), word, true, parent, siblings, 42));
}

/// Rules 42 to 47 of the catalogue pass over a directory named `target`.
#[verifier::spinoff_prover]
proof fn lemma_target_needs_marker_42(parent: Seq<char>, siblings: Seq<Seq<char>>)
    ensures
        first_rule(catalogue(), "target"@, true, parent, siblings, 42) == first_rule(catalogue(), "target"@, true, parent, siblings, 48),
{
    let word = "target"@;
    reveal_strlit("target");
    assert(word =~= seq!['t', 'a', 'r', 'g', 'e', 't']);
    assert(!rule_applies(catalogue()[42], word, true, parent, siblings)) by {
        reveal_strlit(".ipynb_checkpoints");
        assert(".ipynb_checkpoints"@.len() == 18);
    }
    assert(first_rule(catalogue(), word, true, parent, siblings, 42) == first_rule(catalogue(), word, true, parent, siblings, 43));
    assert(!rule_applies(catalogue()[43], word, true, parent, siblings)) by {
        reveal_strlit("htmlcov");
        assert("htmlcov"@.len() == 7);
    }
    assert(first_rule(catalogue(), word, true, parent, siblings, 43) == first_rule(catalogue(), word, true, parent, siblings, 44));
    assert(!rule_applies(catalogue()[44], word, true, parent, siblings));
    assert(first_rule(catalogue(), word, true, parent, siblings, 44) == first_rule(catalogue(), word, true, parent, siblings, 45));
    assert(!rule_applies(catalogue()[45], word, true, parent, siblings)) by {
        reveal_strlit("dist");
        assert("dist"@.len() == 4);
        reveal_strlit("build");
        assert("build"@.len() == 5);
    }
    assert(first_rule(catalogue(), word, true, parent, siblings, 45) == first_rule(catalogue(), word, true, parent, siblings, 46));
    assert(!rule_applies(catalogue()[46], word, true, parent, siblings));
    assert(first_rule(catalogue(), word, true, parent, siblings, 46) == first_rule(catalogue(), word, true, parent, siblings, 47));
    assert(!rule_applies(catalogue()[47], word, true, parent, siblings)) by {
        reveal_strlit("site");
        assert("site"@.len() == 4);
    }
    assert(first_rule(catalogue(), word, true, parent, siblings, 47) == first_rule(catalogue(), word, true, parent, siblings, 48));
}

/// Rules 48 to 53 of the catalogue pass over a directory named `target`.
#[verifier::spinoff_prover]
proof fn lemma_target_needs_marker_48(parent: Seq<char>, siblings: Seq<Seq<char>>)
    ensures
        first_rule(catalogue(), "target"@, true, parent, siblings, 48) == first_rule(catalogue(), "target"@, true, parent, siblings, 54),
{
    let word = "target"@;
    reveal_strlit("target");
    assert(word =~= seq!['t', 'a', 'r', 'g', 'e', 't']);
    assert(!rule_applies(catalogue()[48], word, true, parent, siblings)) by {
        reveal_strlit("_build");
        assert("_build"@[0] == '_');
    }
    assert(first_rule(catalogue(), word, true, parent, siblings, 48) == first_rule(catalogue(), word, true, parent, siblings, 49));
    assert(!rule_applies(catalogue()[49], word, true, parent, siblings)) by {
        reveal_strlit("__pypackages__");
        assert("__pypackages__"@.len() == 14);
        reveal_strlit(".pdm-build");
        assert(".pdm-build"@.len() == 10);
    }
    assert(first_rule(catalogue(), word, true, parent, siblings, 49) == first_rule(catalogue(), word, true, parent, siblings, 50));
    assert(!rule_applies(catalogue()[50], word, true, parent, siblings)) by {
        reveal_strlit(".pyre");
        assert(".pyre"@.len() == 5);
        reveal_strlit(".pytype");
        assert(".pytype"@.len() == 7);
        reveal_strlit("cython_debug");
        assert("cython_debug"@.len() == 12);
    }
    assert(first_rule(catalogue(), word, true, parent, siblings, 50) == first_rule(catalogue(), word, true, parent, siblings, 51));
    assert(!rule_applies(catalogue()[51], word, true, parent, siblings));
    assert(first_rule(catalogue(), word, true, parent, siblings, 51) == first_rule(catalogue(), word, true, parent, siblings, 52));
    assert(!rule_applies(catalogue()[52], word, true, parent, siblings)) by {
        reveal_strlit(".scrapy");
        assert(".scrapy"@.len() == 7);
        reveal_strlit(".pybuilder");
        assert(".pybuilder"@.len() == 10);
        reveal_strlit("pip-wheel-metadata");
        assert("pip-wheel-metadata"@.len() == 18);
    }
    assert(first_rule(catalogue(), word, true, parent, siblings, 52) == first_rule(catalogue(), word, true, parent, siblings, 53));
    assert(!rule_applies(catalogue()[53], word, true, parent, siblings));
    assert(first_rule(catalogue(), word, true, parent, siblings, 53) == first_rule(catalogue(), word, true, parent, siblings, 54));
}

/// Rules 56 to 61 of the catalogue pass over a directory named `target`.
#[verifier::spinoff_prover]
proof fn lemma_target_needs_marker_56(parent: Seq<char>, siblings: Seq<Seq<char>>)
    ensures
        first_rule(catalogue(), "target"@, true, parent, siblings, 56) == first_rule(catalogue(), "target"@, true, parent, siblings, 62),
{
    let word = "target"@;
    reveal_strlit("target");
    assert(word =~= seq!['t', 'a', 'r', 'g', 'e', 't']);
    assert(!rule_applies(catalogue()[56], word, true, parent, siblings)) by {
        reveal_strlit("build");
        assert("build"@.len() == 5);
    }
    assert(first_rule(catalogue(), word, true, parent, siblings, 56) == first_rule(catalogue(), word, true, parent, siblings, 57));
    assert(!rule_applies(catalogue()[57], word, true, parent, siblings)) by {
        reveal_strlit(".gradle");
        assert(".gradle"@.len() == 7);
    }
    assert(first_rule(catalogue(), word, true, parent, siblings, 57) == first_rule(catalogue(), word, true, parent, siblings, 58));
    assert(!rule_applies(catalogue()[58], word, true, parent, siblings)) by {
        reveal_strlit(".kotlin");
        assert(".kotlin"@.len() == 7);
    }
    assert(first_rule(catalogue(), word, true, parent, siblings, 58) == first_rule(catalogue(), word, true, parent, siblings, 59));
    assert(!rule_applies(catalogue()[59], word, true, parent, siblings));
    assert(first_rule(catalogue(), word, true, parent, siblings, 59) == first_rule(catalogue(), word, true, parent, siblings, 60));
    assert(!rule_applies(catalogue()[60], word, true, parent, siblings)) by {
        reveal_strlit("bin");
        assert("bin"@.len() == 3);
        reveal_strlit("obj");
        assert("obj"@.len() == 3);
    }
    assert(first_rule(catalogue(), word, true, parent, siblings, 60) == first_rule(catalogue(), word, true, parent, siblings, 61));
    assert(!rule_applies(catalogue()[61], word, true, parent, siblings)) by {
        reveal_strlit("packages");
        assert("packages"@.len() == 8);
    }
    assert(first_rule(catalogue(), word, true, parent, siblings, 61) == first_rule(catalogue(), word, true, parent, siblings, 62));
}

/// Rules 62 to 67 of the catalogue pass over a directory named `target`.
#[verifier::spinoff_prover]
proof fn lemma_target_needs_marker_62(parent: Seq<char>, siblings: Seq<Seq<char>>)
    ensures
        first_rule(catalogue(), "target"@, true, parent, siblings, 62) == first_rule(catalogue(), "target"@, true, parent, siblings, 68),
{
    let word = "target"@;
    reveal_strlit("target");
    assert(word =~= seq!['t', 'a', 'r', 'g', 'e', 't']);
    assert(!rule_applies(catalogue()[62], word, true, parent, siblings)) by {
        reveal_strlit(".vs");
        assert(".vs"@.len() == 3);
    }
    assert(first_rule(catalogue(), word, true, parent, siblings, 62) == first_rule(catalogue(), word, true, parent, siblings, 63));
    assert(!rule_applies(catalogue()[63], word, true, parent, siblings)) by {
        reveal_strlit("vendor");
        assert("vendor"@[0] == 'v');
    }
    assert(first_rule(catalogue(), word, true, parent, siblings, 63) == first_rule(catalogue(), word, true, parent, siblings, 64));
    assert(!rule_applies(catalogue()[64], word, true, parent, siblings)) by {
        reveal_strlit("vendor");
        assert("vendor"@[0] == 'v');
    }
    assert(first_rule(catalogue(), word, true, parent, siblings, 64) == first_rule(catalogue(), word, true, parent, siblings, 65));
    assert(!rule_applies(catalogue()[65], word, true, parent, siblings)) by {
        reveal_strlit("bundle");
        assert("bundle"@[0] == 'b');
    }
    assert(first_rule(catalogue(), word, true, parent, siblings, 65) == first_rule(catalogue(), word, true, parent, siblings, 66));
    assert(!rule_applies(catalogue()[66], word, true, parent, siblings)) by {
        reveal_strlit(".bundle");
        assert(".bundle"@.len() == 7);
    }
    assert(first_rule(catalogue(), word, true, parent, siblings, 66) == first_rule(catalogue(), word, true, parent, siblings, 67));
    assert(!rule_applies(catalogue()[67], word, true, parent, siblings)) by {
        reveal_strlit("CMakeFiles");
        assert("CMakeFiles"@.len() == 10);
    }
    assert(first_rule(catalogue(), word, true, parent, siblings, 67) == first_rule(catalogue(), word, true, parent, siblings, 68));
}

/// Rules 68 to 73 of the catalogue pass over a directory named `target`.
#[verifier::spinoff_prover]
proof fn lemma_target_needs_marker_68(parent: Seq<char>, siblings: Seq<Seq<char>>)
    ensures
        first_rule(catalogue(), "target"@, true, parent, siblings, 68) == first_rule(catalogue(), "target"@, true, parent, siblings, 74),
{
    let word = "target"@;
    reveal_strlit("target");
    assert(word =~= seq!['t', 'a', 'r', 'g', 'e', 't']);
    assert(!rule_applies(catalogue()[68], word, true, parent, siblings)) by {
        reveal_strlit("cmake-build-*");
        assert("cmake-build-*"@ =~= seq!['c', 'm', 'a', 'k', 'e', '-', 'b', 'u', 'i', 'l', 'd', '-', '*']);
        lemma_prefix_mismatch("cmake-build-*"@, word, 0);
    }
    assert(first_rule(catalogue(), word, true, parent, siblings, 68) == first_rule(catalogue(), word, true, parent, siblings, 69));
    assert(!rule_applies(catalogue()[69], word, true, parent, siblings));
    assert(first_rule(catalogue(), word, true, parent, siblings, 69) == first_rule(catalogue(), word, true, parent, siblings, 70));
    assert(!rule_applies(catalogue()[70], word, true, parent, siblings)) by {
        reveal_strlit(".ccls-cache");
        assert(".ccls-cache"@.len() == 11);
        reveal_strlit(".clangd");
        assert(".clangd"@.len() == 7);
    }
    assert(first_rule(catalogue(), word, true, parent, siblings, 70) == first_rule(catalogue(), word, true, parent, siblings, 71));
    assert(!rule_applies(catalogue()[71], word, true, parent, siblings));
    assert(first_rule(catalogue(), word, true, parent, siblings, 71) == first_rule(catalogue(), word, true, parent, siblings, 72));
    assert(!rule_applies(catalogue()[72], word, true, parent, siblings)) by {
        reveal_strlit("Debug");
        assert("Debug"@.len() == 5);
        reveal_strlit("Release");
        assert("Release"@.len() == 7);
        reveal_strlit("x64");
        assert("x64"@.len() == 3);
        reveal_strlit("Win32");
        assert("Win32"@.len() == 5);
        reveal_strlit("ARM64");
        assert("ARM64"@.len() == 5);
        reveal_strlit("ipch");
        assert("ipch"@.len() == 4);
    }
    assert(first_rule(catalogue(), word, true, parent, siblings, 72) == first_rule(catalogue(), word, true, parent, siblings, 73));
    assert(!rule_applies(catalogue()[73], word, true, parent, siblings)) by {
        reveal_strlit(".deps");
        assert(".deps"@.len() == 5);
        reveal_strlit(".libs");
        assert(".libs"@.len() == 5);
        reveal_strlit("autom4te.cache");
        assert("autom4te.cache"@.len() == 14);
    }
    assert(first_rule(catalogue(), word, true, parent, siblings, 73) == first_rule(catalogue(), word, true, parent, siblings, 74));
}

/// Rules 74 to 79 of the catalogue pass over a directory named `target`.
#[verifier::spinoff_prover]
proof fn lemma_target_needs_marker_74(parent: Seq<char>, siblings: Seq<Seq<char>>)
    ensures
        first_rule(catalogue(), "target"@, true, parent, siblings, 74) == first_rule(catalogue(), "target"@, true, parent, siblings, 80),
{
    let word = "target"@;
    reveal_strlit("target");
    assert(word =~= seq!['t', 'a', 'r', 'g', 'e', 't']);
    assert(!rule_applies(catalogue()[74], word, true, parent, siblings));
    assert(first_rule(catalogue(), word, true, parent, siblings, 74) == first_rule(catalogue(), word, true, parent, siblings, 75));
    assert(!rule_applies(catalogue()[75], word, true, parent, siblings)) by {
        reveal_strlit("vcpkg_installed");
        assert("vcpkg_installed"@.len() == 15);
    }
    assert(first_rule(catalogue(), word, true, parent, siblings, 75) == first_rule(catalogue(), word, true, parent, siblings, 76));
    assert(!rule_applies(catalogue()[76], word, true, parent, siblings)) by {
        reveal_strlit("DerivedData");
        assert("DerivedData"@.len() == 11);
    }
    assert(first_rule(catalogue(), word, true, parent, siblings, 76) == first_rule(catalogue(), word, true, parent, siblings, 77));
    assert(!rule_applies(catalogue()[77], word, true, parent, siblings)) by {
        reveal_strlit(".build");
        assert(".build"@[0] == '.');
    }
    assert(first_rule(catalogue(), word, true, parent, siblings, 77) == first_rule(catalogue(), word, true, parent, siblings, 78));
    assert(!rule_applies(catalogue()[78], word, true, parent, siblings)) by {
        reveal_strlit("Pods");
        assert("Pods"@.len() == 4);
    }
    assert(first_rule(catalogue(), word, true, parent, siblings, 78) == first_rule(catalogue(), word, true, parent, siblings, 79));
    assert(!rule_applies(catalogue()[79], word, true, parent, siblings)) by {
        reveal_strlit("Build");
        assert("Build"@.len() == 5);
    }
    assert(first_rule(catalogue(), word, true, parent, siblings, 79) == first_rule(catalogue(), word, true, parent, siblings, 80));
}

/// Rules 80 to 85 of the catalogue pass over a directory named `target`.
#[verifier::spinoff_prover]
proof fn lemma_target_needs_marker_80(parent: Seq<char>, siblings: Seq<Seq<char>>)
    ensures
        first_rule(catalogue(), "target"@, true, parent, siblings, 80) == first_rule(catalogue(), "target"@, true, parent, siblings, 86),
{
    let word = "target"@;
    reveal_strlit("target");
    assert(word =~= seq!['t', 'a', 'r', 'g', 'e', 't']);
    assert(!rule_applies(catalogue()[80], word, true, parent, siblings)) by {
        reveal_strlit("xcuserdata");
        assert("xcuserdata"@.len() == 10);
        reveal_strlit("*.xcuserdatad");
        assert("*.xcuserdatad"@ =~= seq!['*', '.', 'x', 'c', 'u', 's', 'e', 'r', 'd', 'a', 't', 'a', 'd']);
        lemma_tail_mismatch("*.xcuserdatad"@, word);
    }
    assert(first_rule(catalogue(), word, true, parent, siblings, 80) == first_rule(catalogue(), word, true, parent, siblings, 81));
    assert(!rule_applies(catalogue()[81], word, true, parent, siblings)) by {
        reveal_strlit(".swiftpm");
        assert(".swiftpm"@.len() == 8);
    }
    assert(first_rule(catalogue(), word, true, parent, siblings, 81) == first_rule(catalogue(), word, true, parent, siblings, 82));
    assert(!rule_applies(catalogue()[82], word, true, parent, siblings)) by {
        reveal_strlit(".dart_tool");
        assert(".dart_tool"@.len() == 10);
    }
    assert(first_rule(catalogue(), word, true, parent, siblings, 82) == first_rule(catalogue(), word, true, parent, siblings, 83));
    assert(!rule_applies(catalogue()[83], word, true, parent, siblings));
    assert(first_rule(catalogue(), word, true, parent, siblings, 83) == first_rule(catalogue(), word, true, parent, siblings, 84));
    assert(!rule_applies(catalogue()[84], word, true, parent, siblings)) by {
        reveal_strlit("_build");
        assert("_build"@[0] == '_');
    }
    assert(first_rule(catalogue(), word, true, parent, siblings, 84) == first_rule(catalogue(), word, true, parent, siblings, 85));
    assert(!rule_applies(catalogue()[85], word, true, parent, siblings)) by {
        reveal_strlit("deps");
        assert("deps"@.len() == 4);
    }
    assert(first_rule(catalogue(), word, true, parent, siblings, 85) == first_rule(catalogue(), word, true, parent, siblings, 86));
}

/// Rules 86 to 91 of the catalogue pass over a directory named `target`.
#[verifier::spinoff_prover]
proof fn lemma_target_needs_marker_86(parent: Seq<char>, siblings: Seq<Seq<char>>)
    ensures
        first_rule(catalogue(), "target"@, true, parent, siblings, 86) == first_rule(catalogue(), "target"@, true, parent, siblings, 92),
{
    let word = "target"@;
    reveal_strlit("target");
    assert(word =~= seq!['t', 'a', 'r', 'g', 'e', 't']);
    assert(!rule_applies(catalogue()[86], word, true, parent, siblings)) by {
        reveal_strlit(".cxx");
        assert(".cxx"@.len() == 4);
    }
    assert(first_rule(catalogue(), word, true, parent, siblings, 86) == first_rule(catalogue(), word, true, parent, siblings, 87));
    assert(!rule_applies(catalogue()[87], word, true, parent, siblings)) by {
        reveal_strlit("Library");
        assert("Library"@.len() == 7);
        reveal_strlit("Temp");
        assert("Temp"@.len() == 4);
        reveal_strlit("Obj");
        assert("Obj"@.len() == 3);
        reveal_strlit("Logs");
        assert("Logs"@.len() == 4);
        reveal_strlit("UserSettings");
        assert("UserSettings"@.len() == 12);
    }
    assert(first_rule(catalogue(), word, true, parent, siblings, 87) == first_rule(catalogue(), word, true, parent, siblings, 88));
    assert(!rule_applies(catalogue()[88], word, true, parent, siblings)) by {
        reveal_strlit(".godot");
        assert(".godot"@[0] == '.');
        reveal_strlit(".import");
        assert(".import"@.len() == 7);
    }
    assert(first_rule(catalogue(), word, true, parent, siblings, 88) == first_rule(catalogue(), word, true, parent, siblings, 89));
    assert(!rule_applies(catalogue()[89], word, true, parent, siblings)) by {
        reveal_strlit("Binaries");
        assert("Binaries"@.len() == 8);
        reveal_strlit("Intermediate");
        assert("Intermediate"@.len() == 12);
        reveal_strlit("DerivedDataCache");
        assert("DerivedDataCache"@.len() == 16);
        reveal_strlit("Saved");
        assert("Saved"@.len() == 5);
    }
    assert(first_rule(catalogue(), word, true, parent, siblings, 89) == first_rule(catalogue(), word, true, parent, siblings, 90));
    assert(!rule_applies(catalogue()[90], word, true, parent, siblings)) by {
        reveal_strlit("Build");
        assert("Build"@.len() == 5);
        reveal_strlit("Builds");
        assert("Builds"@[0] == 'B');
        reveal_strlit("MemoryCaptures");
        assert("MemoryCaptures"@.len() == 14);
        reveal_strlit("Recordings");
        assert("Recordings"@.len() == 10);
    }
    assert(first_rule(catalogue(), word, true, parent, siblings, 90) == first_rule(catalogue(), word, true, parent, siblings, 91));
    assert(!rule_applies(catalogue()[91], word, true, parent, siblings)) by {
        reveal_strlit("huggingface");
        assert("huggingface"@.len() == 11);
    }
    assert(first_rule(catalogue(), word, true, parent, siblings, 91) == first_rule(catalogue(), word, true, parent, siblings, 92));
}

/// Rules 92 to 97 of the catalogue pass over a directory named `target`.
#[verifier::spinoff_prover]
proof fn lemma_target_needs_marker_92(parent: Seq<char>, siblings: Seq<Seq<char>>)
    ensures
        first_rule(catalogue(), "target"@, true, parent, siblings, 92) == first_rule(catalogue(), "target"@, true, parent, siblings, 98),
{
    let word = "target"@;
    reveal_strlit("target");
    assert(word =~= seq!['t', 'a', 'r', 'g', 'e', 't']);
    assert(!rule_applies(catalogue()[92], word, true, parent, siblings));
    assert(first_rule(catalogue(), word, true, parent, siblings, 92) == first_rule(catalogue(), word, true, parent, siblings, 93));
    assert(!rule_applies(catalogue()[93], word, true, parent, siblings));
    assert(first_rule(catalogue(), word, true, parent, siblings, 93) == first_rule(catalogue(), word, true, parent, siblings, 94));
    assert(!rule_applies(catalogue()[94], word, true, parent, siblings)) by {
        reveal_strlit("wandb");
        assert("wandb"@.len() == 5);
        reveal_strlit("mlruns");
        assert("mlruns"@[0] == 'm');
        reveal_strlit("lightning_logs");
        assert("lightning_logs"@.len() == 14);
    }
    assert(first_rule(catalogue(), word, true, parent, siblings, 94) == first_rule(catalogue(), word, true, parent, siblings, 95));
    assert(!rule_applies(catalogue()[95], word, true, parent, siblings)) by {
        reveal_strlit("runs");
        assert("runs"@.len() == 4);
        reveal_strlit("multirun");
        assert("multirun"@.len() == 8);
        reveal_strlit(".neptune");
        assert(".neptune"@.len() == 8);
        reveal_strlit("catboost_info");
        assert("catboost_info"@.len() == 13);
        reveal_strlit(".aim");
        assert(".aim"@.len() == 4);
    }
    assert(first_rule(catalogue(), word, true, parent, siblings, 95) == first_rule(catalogue(), word, true, parent, siblings, 96));
    assert(!rule_applies(catalogue()[96], word, true, parent, siblings)) by {
        reveal_strlit(".terraform");
        assert(".terraform"@.len() == 10);
    }
    assert(first_rule(catalogue(), word, true, parent, siblings, 96) == first_rule(catalogue(), word, true, parent, siblings, 97));
    assert(!rule_applies(catalogue()[97], word, true, parent, siblings)) by {
        reveal_strlit(".terragrunt-cache");
        assert(".terragrunt-cache"@.len() == 17);
    }
    assert(first_rule(catalogue(), word, true, parent, siblings, 97) == first_rule(catalogue(), word, true, parent, siblings, 98));
}

/// Rules 98 to 103 of the catalogue pass over a directory named `target`.
#[verifier::spinoff_prover]
proof fn lemma_target_needs_marker_98(parent: Seq<char>, siblings: Seq<Seq<char>>)
    ensures
        first_rule(catalogue(), "target"@, true, parent, siblings, 98) == first_rule(catalogue(), "target"@, true, parent, siblings, 104),
{
    let word = "target"@;
    reveal_strlit("target");
    assert(word =~= seq!['t', 'a', 'r', 'g', 'e', 't']);
    assert(!rule_applies(catalogue()[98], word, true, parent, siblings)) by {
        reveal_strlit(".pulumi");
        assert(".pulumi"@.len() == 7);
    }
    assert(first_rule(catalogue(), word, true, parent, siblings, 98) == first_rule(catalogue(), word, true, parent, siblings, 99));
    assert(!rule_applies(catalogue()[99], word, true, parent, siblings)) by {
        reveal_strlit(".vagrant");
        assert(".vagrant"@.len() == 8);
    }
    assert(first_rule(catalogue(), word, true, parent, siblings, 99) == first_rule(catalogue(), word, true, parent, siblings, 100));
    assert(!rule_applies(catalogue()[100], word, true, parent, siblings)) by {
        reveal_strlit("_site");
        assert("_site"@.len() == 5);
        reveal_strlit(".jekyll-cache");
        assert(".jekyll-cache"@.len() == 13);
    }
    assert(first_rule(catalogue(), word, true, parent, siblings, 100) == first_rule(catalogue(), word, true, parent, siblings, 101));
    assert(!rule_applies(catalogue()[101], word, true, parent, siblings)) by {
        reveal_strlit("public");
        assert("public"@[0] == 'p');
        reveal_strlit("resources");
        assert("resources"@.len() == 9);
    }
    assert(first_rule(catalogue(), word, true, parent, siblings, 101) == first_rule(catalogue(), word, true, parent, siblings, 102));
    assert(!rule_applies(catalogue()[102], word, true, parent, siblings)) by {
        reveal_strlit(".sass-cache");
        assert(".sass-cache"@.len() == 11);
    }
    assert(first_rule(catalogue(), word, true, parent, siblings, 102) == first_rule(catalogue(), word, true, parent, siblings, 103));
    assert(!rule_applies(catalogue()[103], word, true, parent, siblings)) by {
        reveal_strlit(".quarto");
        assert(".quarto"@.len() == 7);
        reveal_strlit("_freeze");
        assert("_freeze"@.len() == 7);
    }
    assert(first_rule(catalogue(), word, true, parent, siblings, 103) == first_rule(catalogue(), word, true, parent, siblings, 104));
}

/// Rules 104 to 109 of the catalogue pass over a directory named `target`.
#[verifier::spinoff_prover]
proof fn lemma_target_needs_marker_104(parent: Seq<char>, siblings: Seq<Seq<char>>)
    ensures
        first_rule(catalogue(), "target"@, true, parent, siblings, 104) == first_rule(catalogue(), "target"@, true, parent, siblings, 110),
{
    let word = "target"@;
    reveal_strlit("target");
    assert(word =~= seq!['t', 'a', 'r', 'g', 'e', 't']);
    assert(!rule_applies(catalogue()[104], word, true, parent, siblings)) by {
        reveal_strlit("_book");
        assert("_book"@.len() == 5);
        reveal_strlit(".docz");
        assert(".docz"@.len() == 5);
    }
    assert(first_rule(catalogue(), word, true, parent, siblings, 104) == first_rule(catalogue(), word, true, parent, siblings, 105));
    assert(!rule_applies(catalogue()[105], word, true, parent, siblings)) by {
        reveal_strlit(".idea");
        assert(".idea"@.len() == 5);
    }
    assert(first_rule(catalogue(), word, true, parent, siblings, 105) == first_rule(catalogue(), word, true, parent, siblings, 106));
    assert(!rule_applies(catalogue()[106], word, true, parent, siblings)) by {
        reveal_strlit(".history");
        assert(".history"@.len() == 8);
    }
    assert(first_rule(catalogue(), word, true, parent, siblings, 106) == first_rule(catalogue(), word, true, parent, siblings, 107));
    assert(!rule_applies(catalogue()[107], word, true, parent, siblings)) by {
        reveal_strlit(".direnv");
        assert(".direnv"@.len() == 7);
    }
    assert(first_rule(catalogue(), word, true, parent, siblings, 107) == first_rule(catalogue(), word, true, parent, siblings, 108));
    assert(!rule_applies(catalogue()[108], word, true, parent, siblings));
    assert(first_rule(catalogue(), word, true, parent, siblings, 108) == first_rule(catalogue(), word, true, parent, siblings, 109));
    assert(!rule_applies(catalogue()[109], word, true, parent, siblings));
    assert(first_rule(catalogue(), word, true, parent, siblings, 109) == first_rule(catalogue(), word, true, parent, siblings, 110));
}

/// Rules 110 to 115 of the catalogue pass over a directory named `target`.
#[verifier::spinoff_prover]
proof fn lemma_target_needs_marker_110(parent: Seq<char>, siblings: Seq<Seq<char>>)
    ensures
        first_rule(catalogue(), "target"@, true, parent, siblings, 110) == first_rule(catalogue(), "target"@, true, parent, siblings, 116),
{
    let word = "target"@;
    reveal_strlit("target");
    assert(word =~= seq!['t', 'a', 'r', 'g', 'e', 't']);
    assert(!rule_applies(catalogue()[110], word, true, parent, siblings)) by {
        reveal_strlit(".Spotlight-V100");
        assert(".Spotlight-V100"@.len() == 15);
        reveal_strlit(".Trashes");
        assert(".Trashes"@.len() == 8);
        reveal_strlit(".fseventsd");
        assert(".fseventsd"@.len() == 10);
        reveal_strlit("$RECYCLE.BIN");
        assert("$RECYCLE.BIN"@.len() == 12);
    }
    assert(first_rule(catalogue(), word, true, parent, siblings, 110) == first_rule(catalogue(), word, true, parent, siblings, 111));
    assert(!rule_applies(catalogue()[111], word, true, parent, siblings)) by {
        reveal_strlit("dist");
        assert("dist"@.len() == 4);
        reveal_strlit("out");
        assert("out"@.len() == 3);
    }
    assert(first_rule(catalogue(), word, true, parent, siblings, 111) == first_rule(catalogue(), word, true, parent, siblings, 112));
    assert(!rule_applies(catalogue()[112], word, true, parent, siblings)) by {
        reveal_strlit("build");
        assert("build"@.len() == 5);
        reveal_strlit("_build");
        assert("_build"@[0] == '_');
    }
    assert(first_rule(catalogue(), word, true, parent, siblings, 112) == first_rule(catalogue(), word, true, parent, siblings, 113));
    assert(!rule_applies(catalogue()[113], word, true, parent, siblings)) by {
        reveal_strlit(".cache");
        assert(".cache"@[0] == '.');
        reveal_strlit(".temp");
        assert(".temp"@.len() == 5);
        reveal_strlit(".tmp");
        assert(".tmp"@.len() == 4);
    }
    assert(first_rule(catalogue(), word, true, parent, siblings, 113) == first_rule(catalogue(), word, true, parent, siblings, 114));
    assert(!rule_applies(catalogue()[114], word, true, parent, siblings)) by {
        reveal_strlit("tmp");
        assert("tmp"@.len() == 3);
        reveal_strlit("temp");
        assert("temp"@.len() == 4);
    }
    assert(first_rule(catalogue(), word, true, parent, siblings, 114) == first_rule(catalogue(), word, true, parent, siblings, 115));
    assert(!rule_applies(catalogue()[115], word, true, parent, siblings)) by {
        reveal_strlit("coverage");
        assert("coverage"@.len() == 8);
    }
    assert(first_rule(catalogue(), word, true, parent, siblings, 115) == first_rule(catalogue(), word, true, parent, siblings, 116));
}

/// Rules 116 to 119 of the catalogue pass over a directory named `target`.
#[verifier::spinoff_prover]
proof fn lemma_target_needs_marker_116(parent: Seq<char>, siblings: Seq<Seq<char>>)
    ensures
        first_rule(catalogue(), "target"@, true, parent, siblings, 116) == first_rule(catalogue(), "target"@, true, parent, siblings, 120),
{
    let word = "target"@;
    reveal_strlit("target");
    assert(word =~= seq!['t', 'a', 'r', 'g', 'e', 't']);
    assert(!rule_applies(catalogue()[116], word, true, parent, siblings)) by {
        reveal_strlit("logs");
        assert("logs"@.len() == 4);
    }
    assert(first_rule(catalogue(), word, true, parent, siblings, 116) == first_rule(catalogue(), word, true, parent, siblings, 117));
    assert(!rule_applies(catalogue()[117], word, true, parent, siblings));
    assert(first_rule(catalogue(), word, true, parent, siblings, 117) == first_rule(catalogue(), word, true, parent, siblings, 118));
    assert(!rule_applies(catalogue()[118], word, true, parent, siblings));
    assert(first_rule(catalogue(), word, true, parent, siblings, 118) == first_rule(catalogue(), word, true, parent, siblings, 119));
    assert(!rule_applies(catalogue()[119], word, true, parent, siblings));
    assert(first_rule(catalogue(), word, true, parent, siblings, 119) == first_rule(catalogue(), word, true, parent, siblings, 120));
}

/// A directory named `target` is claimed as a Cargo build beside
/// `Cargo.toml`, else as a Maven build beside `pom.xml`, and otherwise not at
/// all, whatever its parent and its other siblings.
pub proof fn lemma_target_needs_marker(parent: Seq<char>, siblings: Seq<Seq<char>>)
    ensures
        match first_rule(catalogue(), "target"@, true, parent, siblings, 0) {
            Some(r) => (siblings.contains("Cargo.toml"@) && r.id == "cargo_target")
                || (!siblings.contains("Cargo.toml"@) && siblings.contains("pom.xml"@) && r.id == "maven_target"),
            None => !siblings.contains("Cargo.toml"@) && !siblings.contains("pom.xml"@),
        },
{
    let word = "target"@;
    lemma_target_needs_marker_0(parent, siblings);
    lemma_target_needs_marker_6(parent, siblings);
    lemma_target_needs_marker_12(parent, siblings);
    lemma_target_needs_marker_18(parent, siblings);
    lemma_target_needs_marker_24(parent, siblings);
    lemma_target_needs_marker_30(parent, siblings);
    lemma_target_needs_marker_36(parent, siblings);
    lemma_target_needs_marker_42(parent, siblings);
    lemma_target_needs_marker_48(parent, siblings);
    lemma_target_needs_marker_56(parent, siblings);
    lemma_target_needs_marker_62(parent, siblings);
    lemma_target_needs_marker_68(parent, siblings);
    lemma_target_needs_marker_74(parent, siblings);
    lemma_target_needs_marker_80(parent, siblings);
    lemma_target_needs_marker_86(parent, siblings);
    lemma_target_needs_marker_92(parent, siblings);
    lemma_target_needs_marker_98(parent, siblings);
    lemma_target_needs_marker_104(parent, siblings);
    lemma_target_needs_marker_110(parent, siblings);
    lemma_target_needs_marker_116(parent, siblings);
    assert(strs(catalogue()[54].names@)[0] == word);
    assert(rule_applies(catalogue()[54], word, true, parent, siblings) == siblings.contains("Cargo.toml"@)) by {
        reveal_strlit("Cargo.toml");
        assert("Cargo.toml"@ =~= seq!['C', 'a', 'r', 'g', 'o', '.', 't', 'o', 'm', 'l']);
        let markers = strs(catalogue()[54].requires@);
        assert(markers =~= seq!["Cargo.toml"@]);
        assert(!"Cargo.toml"@.contains('*') && !"Cargo.toml"@.contains('?'));
        assert(marker_present(siblings, "Cargo.toml"@) == siblings.contains("Cargo.toml"@));
        if siblings.contains("Cargo.toml"@) {
            assert(marker_present(siblings, markers[0]));
        }
    }
    assert(first_rule(catalogue(), word, true, parent, siblings, 54) == if rule_applies(catalogue()[54], word, true, parent, siblings) { Some(catalogue()[54]) } else { first_rule(catalogue(), word, true, parent, siblings, 55) });
    assert(strs(catalogue()[55].names@)[0] == word);
    assert(rule_applies(catalogue()[55], word, true, parent, siblings) == siblings.contains("pom.xml"@)) by {
        reveal_strlit("pom.xml");
        assert("pom.xml"@ =~= seq!['p', 'o', 'm', '.', 'x', 'm', 'l']);
        let markers = strs(catalogue()[55].requires@);
        assert(markers =~= seq!["pom.xml"@]);
        assert(!"pom.xml"@.contains('*') && !"pom.xml"@.contains('?'));
        assert(marker_present(siblings, "pom.xml"@) == siblings.contains("pom.xml"@));
        if siblings.contains("pom.xml"@) {
            assert(marker_present(siblings, markers[0]));
        }
    }
    assert(first_rule(catalogue(), word, true, parent, siblings, 55) == if rule_applies(catalogue()[55], word, true, parent, siblings) { Some(catalogue()[55]) } else { first_rule(catalogue(), word, true, parent, siblings, 56) });
    assert(first_rule(catalogue(), word, true, parent, siblings, 120) == None::<Rule>);
}

/// Rules 0 to 5 of the catalogue pass over a directory named `vendor`.
#[verifier::spinoff_prover]
proof fn lemma_vendor_needs_marker_0(parent: Seq<char>, siblings: Seq<Seq<char>>)
    ensures
        first_rule(catalogue(), "vendor"@, true, parent, siblings, 0) == first_rule(catalogue(), "vendor"@, true, parent, siblings, 6),
{
    let word = "vendor"@;
    reveal_strlit("vendor");
    assert(word =~= seq!['v', 'e', 'n', 'd', 'o', 'r']);
    assert(!rule_applies(catalogue()[0], word, true, parent, siblings)) by {
        reveal_strlit("node_modules");
        assert("node_modules"@.len() == 12);
    }
    assert(first_rule(catalogue(), word, true, parent, siblings, 0) == first_rule(catalogue(), word, true, parent, siblings, 1));
    assert(!rule_applies(catalogue()[1], word, true, parent, siblings)) by {
        reveal_strlit(".next");
        assert(".next"@.len() == 5);
    }
    assert(first_rule(catalogue(), word, true, parent, siblings, 1) == first_rule(catalogue(), word, true, parent, siblings, 2));
    assert(!rule_applies(catalogue()[2], word, true, parent, siblings)) by {
        reveal_strlit(".nuxt");
        assert(".nuxt"@.len() == 5);
    }
    assert(first_rule(catalogue(), word, true, parent, siblings, 2) == first_rule(catalogue(), word, true, parent, siblings, 3));
    assert(!rule_applies(catalogue()[3], word, true, parent, siblings)) by {
        reveal_strlit(".output");
        assert(".output"@.len() == 7);
    }
    assert(first_rule(catalogue(), word, true, parent, siblings, 3) == first_rule(catalogue(), word, true, parent, siblings, 4));
    assert(!rule_applies(catalogue()[4], word, true, parent, siblings)) by {
        reveal_strlit(".svelte-kit");
        assert(".svelte-kit"@.len() == 11);
    }
    assert(first_rule(catalogue(), word, true, parent, siblings, 4) == first_rule(catalogue(), word, true, parent, siblings, 5));
    assert(!rule_applies(catalogue()[5], word, true, parent, siblings)) by {
        reveal_strlit(".astro");
        assert(".astro"@[0] == '.');
    }
    assert(first_rule(catalogue(), word, true, parent, siblings, 5) == first_rule(catalogue(), word, true, parent, siblings, 6));
}

/// Rules 6 to 11 of the catalogue pass over a directory named `vendor`.
#[verifier::spinoff_prover]
proof fn lemma_vendor_needs_marker_6(parent: Seq<char>, siblings: Seq<Seq<char>>)
    ensures
        first_rule(catalogue(), "vendor"@, true, parent, siblings, 6) == first_rule(catalogue(), "vendor"@, true, parent, siblings, 12),
{
    let word = "vendor"@;
    reveal_strlit("vendor");
    assert(word =~= seq!['v', 'e', 'n', 'd', 'o', 'r']);
    assert(!rule_applies(catalogue()[6], word, true, parent, siblings)) by {
        reveal_strlit(".docusaurus");
        assert(".docusaurus"@.len() == 11);
    }
    assert(first_rule(catalogue(), word, true, parent, siblings, 6) == first_rule(catalogue(), word, true, parent, siblings, 7));
    assert(!rule_applies(catalogue()[7], word, true, parent, siblings)) by {
        reveal_strlit(".angular");
        assert(".angular"@.len() == 8);
    }
    assert(first_rule(catalogue(), word, true, parent, siblings, 7) == first_rule(catalogue(), word, true, parent, siblings, 8));
    assert(!rule_applies(catalogue()[8], word, true, parent, siblings)) by {
        reveal_strlit(".parcel-cache");
        assert(".parcel-cache"@.len() == 13);
    }
    assert(first_rule(catalogue(), word, true, parent, siblings, 8) == first_rule(catalogue(), word, true, parent, siblings, 9));
    assert(!rule_applies(catalogue()[9], word, true, parent, siblings)) by {
        reveal_strlit(".turbo");
        assert(".turbo"@[0] == '.');
    }
    assert(first_rule(catalogue(), word, true, parent, siblings, 9) == first_rule(catalogue(), word, true, parent, siblings, 10));
    assert(!rule_applies(catalogue()[10], word, true, parent, siblings)) by {
        reveal_strlit(".vite");
        assert(".vite"@.len() == 5);
    }
    assert(first_rule(catalogue(), word, true, parent, siblings, 10) == first_rule(catalogue(), word, true, parent, siblings, 11));
    assert(!rule_applies(catalogue()[11], word, true, parent, siblings)) by {
        reveal_strlit(".rollup.cache");
        assert(".rollup.cache"@.len() == 13);
    }
    assert(first_rule(catalogue(), word, true, parent, siblings, 11) == first_rule(catalogue(), word, true, parent, siblings, 12));
}

/// Rules 12 to 17 of the catalogue pass over a directory named `vendor`.
#[verifier::spinoff_prover]
proof fn lemma_vendor_needs_marker_12(parent: Seq<char>, siblings: Seq<Seq<char>>)
    ensures
        first_rule(catalogue(), "vendor"@, true, parent, siblings, 12) == first_rule(catalogue(), "vendor"@, true, parent, siblings, 18),
{
    let word = "vendor"@;
    reveal_strlit("vendor");
    assert(word =~= seq!['v', 'e', 'n', 'd', 'o', 'r']);
    assert(!rule_applies(catalogue()[12], word, true, parent, siblings)) by {
        reveal_strlit(".webpack");
        assert(".webpack"@.len() == 8);
    }
    assert(first_rule(catalogue(), word, true, parent, siblings, 12) == first_rule(catalogue(), word, true, parent, siblings, 13));
    assert(!rule_applies(catalogue()[13], word, true, parent, siblings)) by {
        reveal_strlit(".serverless");
        assert(".serverless"@.len() == 11);
    }
    assert(first_rule(catalogue(), word, true, parent, siblings, 13) == first_rule(catalogue(), word, true, parent, siblings, 14));
    assert(!rule_applies(catalogue()[14], word, true, parent, siblings)) by {
        reveal_strlit("cache");
        assert("cache"@.len() == 5);
        reveal_strlit("unplugged");
        assert("unplugged"@.len() == 9);
    }
    assert(first_rule(catalogue(), word, true, parent, siblings, 14) == first_rule(catalogue(), word, true, parent, siblings, 15));
    assert(!rule_applies(catalogue()[15], word, true, parent, siblings)) by {
        reveal_strlit(".pnpm-store");
        assert(".pnpm-store"@.len() == 11);
    }
    assert(first_rule(catalogue(), word, true, parent, siblings, 15) == first_rule(catalogue(), word, true, parent, siblings, 16));
    assert(!rule_applies(catalogue()[16], word, true, parent, siblings)) by {
        reveal_strlit(".expo");
        assert(".expo"@.len() == 5);
        reveal_strlit(".expo-shared");
        assert(".expo-shared"@.len() == 12);
    }
    assert(first_rule(catalogue(), word, true, parent, siblings, 16) == first_rule(catalogue(), word, true, parent, siblings, 17));
    assert(!rule_applies(catalogue()[17], word, true, parent, siblings)) by {
        reveal_strlit(".metro-cache");
        assert(".metro-cache"@.len() == 12);
    }
    assert(first_rule(catalogue(), word, true, parent, siblings, 17) == first_rule(catalogue(), word, true, parent, siblings, 18));
}

/// Rules 18 to 23 of the catalogue pass over a directory named `vendor`.
#[verifier::spinoff_prover]
proof fn lemma_vendor_needs_marker_18(parent: Seq<char>, siblings: Seq<Seq<char>>)
    ensures
        first_rule(catalogue(), "vendor"@, true, parent, siblings, 18) == first_rule(catalogue(), "vendor"@, true, parent, siblings, 24),
{
    let word = "vendor"@;
    reveal_strlit("vendor");
    assert(word =~= seq!['v', 'e', 'n', 'd', 'o', 'r']);
    assert(!rule_applies(catalogue()[18], word, true, parent, siblings)) by {
        reveal_strlit("storybook-static");
        assert("storybook-static"@.len() == 16);
    }
    assert(first_rule(catalogue(), word, true, parent, siblings, 18) == first_rule(catalogue(), word, true, parent, siblings, 19));
    assert(!rule_applies(catalogue()[19], word, true, parent, siblings)) by {
        reveal_strlit(".nyc_output");
        assert(".nyc_output"@.len() == 11);
    }
    assert(first_rule(catalogue(), word, true, parent, siblings, 19) == first_rule(catalogue(), word, true, parent, siblings, 20));
    assert(!rule_applies(catalogue()[20], word, true, parent, siblings));
    assert(first_rule(catalogue(), word, true, parent, siblings, 20) == first_rule(catalogue(), word, true, parent, siblings, 21));
    assert(!rule_applies(catalogue()[21], word, true, parent, siblings));
    assert(first_rule(catalogue(), word, true, parent, siblings, 21) == first_rule(catalogue(), word, true, parent, siblings, 22));
    assert(!rule_applies(catalogue()[22], word, true, parent, siblings)) by {
        reveal_strlit(".nx");
        assert(".nx"@.len() == 3);
    }
    assert(first_rule(catalogue(), word, true, parent, siblings, 22) == first_rule(catalogue(), word, true, parent, siblings, 23));
    assert(!rule_applies(catalogue()[23], word, true, parent, siblings)) by {
        reveal_strlit(".swc");
        assert(".swc"@.len() == 4);
    }
    assert(first_rule(catalogue(), word, true, parent, siblings, 23) == first_rule(catalogue(), word, true, parent, siblings, 24));
}

/// Rules 24 to 29 of the catalogue pass over a directory named `vendor`.
#[verifier::spinoff_prover]
proof fn lemma_vendor_needs_marker_24(parent: Seq<char>, siblings: Seq<Seq<char>>)
    ensures
        first_rule(catalogue(), "vendor"@, true, parent, siblings, 24) == first_rule(catalogue(), "vendor"@, true, parent, siblings, 30),
{
    let word = "vendor"@;
    reveal_strlit("vendor");
    assert(word =~= seq!['v', 'e', 'n', 'd', 'o', 'r']);
    assert(!rule_applies(catalogue()[24], word, true, parent, siblings)) by {
        reveal_strlit("bower_components");
        assert("bower_components"@.len() == 16);
        reveal_strlit("jspm_packages");
        assert("jspm_packages"@.len() == 13);
        reveal_strlit("web_modules");
        assert("web_modules"@.len() == 11);
    }
    assert(first_rule(catalogue(), word, true, parent, siblings, 24) == first_rule(catalogue(), word, true, parent, siblings, 25));
    assert(!rule_applies(catalogue()[25], word, true, parent, siblings)) by {
        reveal_strlit(".vercel");
        assert(".vercel"@.len() == 7);
        reveal_strlit(".netlify");
        assert(".netlify"@.len() == 8);
        reveal_strlit(".wrangler");
        assert(".wrangler"@.len() == 9);
        reveal_strlit(".firebase");
        assert(".firebase"@.len() == 9);
    }
    assert(first_rule(catalogue(), word, true, parent, siblings, 25) == first_rule(catalogue(), word, true, parent, siblings, 26));
    assert(!rule_applies(catalogue()[26], word, true, parent, siblings)) by {
        reveal_strlit("cache");
        assert("cache"@.len() == 5);
        reveal_strlit("dist");
        assert("dist"@.len() == 4);
    }
    assert(first_rule(catalogue(), word, true, parent, siblings, 26) == first_rule(catalogue(), word, true, parent, siblings, 27));
    assert(!rule_applies(catalogue()[27], word, true, parent, siblings)) by {
        reveal_strlit("dist");
        assert("dist"@.len() == 4);
        reveal_strlit("temp");
        assert("temp"@.len() == 4);
    }
    assert(first_rule(catalogue(), word, true, parent, siblings, 27) == first_rule(catalogue(), word, true, parent, siblings, 28));
    assert(!rule_applies(catalogue()[28], word, true, parent, siblings)) by {
        reveal_strlit("playwright-report");
        assert("playwright-report"@.len() == 17);
        reveal_strlit("test-results");
        assert("test-results"@.len() == 12);
        reveal_strlit(".playwright");
        assert(".playwright"@.len() == 11);
        reveal_strlit("blob-report");
        assert("blob-report"@.len() == 11);
    }
    assert(first_rule(catalogue(), word, true, parent, siblings, 28) == first_rule(catalogue(), word, true, parent, siblings, 29));
    assert(!rule_applies(catalogue()[29], word, true, parent, siblings)) by {
        reveal_strlit("videos");
        assert("videos"@[1] == 'i');
        reveal_strlit("screenshots");
        assert("screenshots"@.len() == 11);
        reveal_strlit("downloads");
        assert("downloads"@.len() == 9);
    }
    assert(first_rule(catalogue(), word, true, parent, siblings, 29) == first_rule(catalogue(), word, true, parent, siblings, 30));
}

/// Rules 30 to 35 of the catalogue pass over a directory named `vendor`.
#[verifier::spinoff_prover]
proof fn lemma_vendor_needs_marker_30(parent: Seq<char>, siblings: Seq<Seq<char>>)
    ensures
        first_rule(catalogue(), "vendor"@, true, parent, siblings, 30) == first_rule(catalogue(), "vendor"@, true, parent, siblings, 36),
{
    let word = "vendor"@;
    reveal_strlit("vendor");
    assert(word =~= seq!['v', 'e', 'n', 'd', 'o', 'r']);
    assert(!rule_applies(catalogue()[30], word, true, parent, siblings)) by {
        reveal_strlit(".rpt2_cache");
        assert(".rpt2_cache"@.len() == 11);
        reveal_strlit(".rts2_cache_*");
        assert(".rts2_cache_*"@ =~= seq!['.', 'r', 't', 's', '2', '_', 'c', 'a', 'c', 'h', 'e', '_', '*']);
        lemma_prefix_mismatch(".rts2_cache_*"@, word, 0);
    }
    assert(first_rule(catalogue(), word, true, parent, siblings, 30) == first_rule(catalogue(), word, true, parent, siblings, 31));
    assert(!rule_applies(catalogue()[31], word, true, parent, siblings)) by {
        reveal_strlit(".grunt");
        assert(".grunt"@[0] == '.');
        reveal_strlit(".fusebox");
        assert(".fusebox"@.len() == 8);
        reveal_strlit(".dynamodb");
        assert(".dynamodb"@.len() == 9);
        reveal_strlit(".node_modules_cache");
        assert(".node_modules_cache"@.len() == 19);
    }
    assert(first_rule(catalogue(), word, true, parent, siblings, 31) == first_rule(catalogue(), word, true, parent, siblings, 32));
    assert(!rule_applies(catalogue()[32], word, true, parent, siblings));
    assert(first_rule(catalogue(), word, true, parent, siblings, 32) == first_rule(catalogue(), word, true, parent, siblings, 33));
    assert(!rule_applies(catalogue()[33], word, true, parent, siblings)) by {
        reveal_strlit("__pycache__");
        assert("__pycache__"@.len() == 11);
    }
    assert(first_rule(catalogue(), word, true, parent, siblings, 33) == first_rule(catalogue(), word, true, parent, siblings, 34));
    assert(!rule_applies(catalogue()[34], word, true, parent, siblings)) by {
        reveal_strlit(".pytest_cache");
        assert(".pytest_cache"@.len() == 13);
    }
    assert(first_rule(catalogue(), word, true, parent, siblings, 34) == first_rule(catalogue(), word, true, parent, siblings, 35));
    assert(!rule_applies(catalogue()[35], word, true, parent, siblings)) by {
        reveal_strlit(".mypy_cache");
        assert(".mypy_cache"@.len() == 11);
    }
    assert(first_rule(catalogue(), word, true, parent, siblings, 35) == first_rule(catalogue(), word, true, parent, siblings, 36));
}

/// Rules 36 to 41 of the catalogue pass over a directory named `vendor`.
#[verifier::spinoff_prover]
proof fn lemma_vendor_needs_marker_36(parent: Seq<char>, siblings: Seq<Seq<char>>)
    ensures
        first_rule(catalogue(), "vendor"@, true, parent, siblings, 36) == first_rule(catalogue(), "vendor"@, true, parent, siblings, 42),
{
    let word = "vendor"@;
    reveal_strlit("vendor");
    assert(word =~= seq!['v', 'e', 'n', 'd', 'o', 'r']);
    assert(!rule_applies(catalogue()[36], word, true, parent, siblings)) by {
        reveal_strlit(".ruff_cache");
        assert(".ruff_cache"@.len() == 11);
    }
    assert(first_rule(catalogue(), word, true, parent, siblings, 36) == first_rule(catalogue(), word, true, parent, siblings, 37));
    assert(!rule_applies(catalogue()[37], word, true, parent, siblings)) by {
        reveal_strlit(".tox");
        assert(".tox"@.len() == 4);
        reveal_strlit(".nox");
        assert(".nox"@.len() == 4);
    }
    assert(first_rule(catalogue(), word, true, parent, siblings, 37) == first_rule(catalogue(), word, true, parent, siblings, 38));
    assert(!rule_applies(catalogue()[38], word, true, parent, siblings)) by {
        reveal_strlit(".hypothesis");
        assert(".hypothesis"@.len() == 11);
    }
    assert(first_rule(catalogue(), word, true, parent, siblings, 38) == first_rule(catalogue(), word, true, parent, siblings, 39));
    assert(!rule_applies(catalogue()[39], word, true, parent, siblings)) by {
        reveal_strlit("venv");
        assert("venv"@.len() == 4);
        reveal_strlit(".venv");
        assert(".venv"@.len() == 5);
        reveal_strlit("virtualenv");
        assert("virtualenv"@.len() == 10);
        reveal_strlit("env310");
        assert("env310"@[0] == 'e');
        reveal_strlit("env311");
        assert("env311"@[0] == 'e');
    }
    assert(first_rule(catalogue(), word, true, parent, siblings, 39) == first_rule(catalogue(), word, true, parent, siblings, 40));
    assert(!rule_applies(catalogue()[40], word, true, parent, siblings)) by {
        reveal_strlit("*.egg-info");
        assert("*.egg-info"@ =~= seq!['*', '.', 'e', 'g', 'g', '-', 'i', 'n', 'f', 'o']);
        lemma_tail_mismatch("*.egg-info"@, word);
    }
    assert(first_rule(catalogue(), word, true, parent, siblings, 40) == first_rule(catalogue(), word, true, parent, siblings, 41));
    assert(!rule_applies(catalogue()[41], word, true, parent, siblings)) by {
        reveal_strlit(".eggs");
        assert(".eggs"@.len() == 5);
    }
    assert(first_rule(catalogue(), word, true, parent, siblings, 41) == first_rule(catalogue(), word, true, parent, siblings, 42));
}

/// Rules 42 to 47 of the catalogue pass over a directory named `vendor`.
#[verifier::spinoff_prover]
proof fn lemma_vendor_needs_marker_42(parent: Seq<char>, siblings: Seq<Seq<char>>)
    ensures
        first_rule(catalogue(), "vendor"@, true, parent, siblings, 42) == first_rule(catalogue(), "vendor"@, true, parent, siblings, 48),
{
    let word = "vendor"@;
    reveal_strlit("vendor");
    assert(word =~= seq!['v', 'e', 'n', 'd', 'o', 'r']);
    assert(!rule_applies(catalogue()[42], word, true, parent, siblings)) by {
        reveal_strlit(".ipynb_checkpoints");
        assert(".ipynb_checkpoints"@.len() == 18);
    }
    assert(first_rule(catalogue(), word, true, parent, siblings, 42) == first_rule(catalogue(), word, true, parent, siblings, 43));
    assert(!rule_applies(catalogue()[43], word, true, parent, siblings)) by {
        reveal_strlit("htmlcov");
        assert("htmlcov"@.len() == 7);
    }
    assert(first_rule(catalogue(), word, true, parent, siblings, 43) == first_rule(catalogue(), word, true, parent, siblings, 44));
    assert(!rule_applies(catalogue()[44], word, true, parent, siblings));
    assert(first_rule(catalogue(), word, true, parent, siblings, 44) == first_rule(catalogue(), word, true, parent, siblings, 45));
    assert(!rule_applies(catalogue()[45], word, true, parent, siblings)) by {
        reveal_strlit("dist");
        assert("dist"@.len() == 4);
        reveal_strlit("build");
        assert("build"@.len() == 5);
    }
    assert(first_rule(catalogue(), word, true, parent, siblings, 45) == first_rule(catalogue(), word, true, parent, siblings, 46));
    assert(!rule_applies(catalogue()[46], word, true, parent, siblings));
    assert(first_rule(catalogue(), word, true, parent, siblings, 46) == first_rule(catalogue(), word, true, parent, siblings, 47));
    assert(!rule_applies(catalogue()[47], word, true, parent, siblings)) by {
        reveal_strlit("site");
        assert("site"@.len() == 4);
    }
    assert(first_rule(catalogue(), word, true, parent, siblings, 47) == first_rule(catalogue(), word, true, parent, siblings, 48));
}

/// Rules 48 to 53 of the catalogue pass over a directory named `vendor`.
#[verifier::spinoff_prover]
proof fn lemma_vendor_needs_marker_48(parent: Seq<char>, siblings: Seq<Seq<char>>)
    ensures
        first_rule(catalogue(), "vendor"@, true, parent, siblings, 48) == first_rule(catalogue(), "vendor"@, true, parent, siblings, 54),
{
    let word = "vendor"@;
    reveal_strlit("vendor");
    assert(word =~= seq!['v', 'e', 'n', 'd', 'o', 'r']);
    assert(!rule_applies(catalogue()[48], word, true, parent, siblings)) by {
        reveal_strlit("_build");
        assert("_build"@[0] == '_');
    }
    assert(first_rule(catalogue(), word, true, parent, siblings, 48) == first_rule(catalogue(), word, true, parent, siblings, 49));
    assert(!rule_applies(catalogue()[49], word, true, parent, siblings)) by {
        reveal_strlit("__pypackages__");
        assert("__pypackages__"@.len() == 14);
        reveal_strlit(".pdm-build");
        assert(".pdm-build"@.len() == 10);
    }
    assert(first_rule(catalogue(), word, true, parent, siblings, 49) == first_rule(catalogue(), word, true, parent, siblings, 50));
    assert(!rule_applies(catalogue()[50], word, true, parent, siblings)) by {
        reveal_strlit(".pyre");
        assert(".pyre"@.len() == 5);
        reveal_strlit(".pytype");
        assert(".pytype"@.len() == 7);
        reveal_strlit("cython_debug");
        assert("cython_debug"@.len() == 12);
    }
    assert(first_rule(catalogue(), word, true, parent, siblings, 50) == first_rule(catalogue(), word, true, parent, siblings, 51));
    assert(!rule_applies(catalogue()[51], word, true, parent, siblings));
    assert(first_rule(catalogue(), word, true, parent, siblings, 51) == first_rule(catalogue(), word, true, parent, siblings, 52));
    assert(!rule_applies(catalogue()[52], word, true, parent, siblings)) by {
        reveal_strlit(".scrapy");
        assert(".scrapy"@.len() == 7);
        reveal_strlit(".pybuilder");
        assert(".pybuilder"@.len() == 10);
        reveal_strlit("pip-wheel-metadata");
        assert("pip-wheel-metadata"@.len() == 18);
    }
    assert(first_rule(catalogue(), word, true, parent, siblings, 52) == first_rule(catalogue(), word, true, parent, siblings, 53));
    assert(!rule_applies(catalogue()[53], word, true, parent, siblings));
    assert(first_rule(catalogue(), word, true, parent, siblings, 53) == first_rule(catalogue(), word, true, parent, siblings, 54));
}

/// Rules 54 to 59 of the catalogue pass over a directory named `vendor`.
#[verifier::spinoff_prover]
proof fn lemma_vendor_needs_marker_54(parent: Seq<char>, siblings: Seq<Seq<char>>)
    ensures
        first_rule(catalogue(), "vendor"@, true, parent, siblings, 54) == first_rule(catalogue(), "vendor"@, true, parent, siblings, 60),
{
    let word = "vendor"@;
    reveal_strlit("vendor");
    assert(word =~= seq!['v', 'e', 'n', 'd', 'o', 'r']);
    assert(!rule_applies(catalogue()[54], word, true, parent, siblings)) by {
        reveal_strlit("target");
        assert("target"@[0] == 't');
    }
    assert(first_rule(catalogue(), word, true, parent, siblings, 54) == first_rule(catalogue(), word, true, parent, siblings, 55));
    assert(!rule_applies(catalogue()[55], word, true, parent, siblings)) by {
        reveal_strlit("target");
        assert("target"@[0] == 't');
    }
    assert(first_rule(catalogue(), word, true, parent, siblings, 55) == first_rule(catalogue(), word, true, parent, siblings, 56));
    assert(!rule_applies(catalogue()[56], word, true, parent, siblings)) by {
        reveal_strlit("build");
        assert("build"@.len() == 5);
    }
    assert(first_rule(catalogue(), word, true, parent, siblings, 56) == first_rule(catalogue(), word, true, parent, siblings, 57));
    assert(!rule_applies(catalogue()[57], word, true, parent, siblings)) by {
        reveal_strlit(".gradle");
        assert(".gradle"@.len() == 7);
    }
    assert(first_rule(catalogue(), word, true, parent, siblings, 57) == first_rule(catalogue(), word, true, parent, siblings, 58));
    assert(!rule_applies(catalogue()[58], word, true, parent, siblings)) by {
        reveal_strlit(".kotlin");
        assert(".kotlin"@.len() == 7);
    }
    assert(first_rule(catalogue(), word, true, parent, siblings, 58) == first_rule(catalogue(), word, true, parent, siblings, 59));
    assert(!rule_applies(catalogue()[59], word, true, parent, siblings));
    assert(first_rule(catalogue(), word, true, parent, siblings, 59) == first_rule(catalogue(), word, true, parent, siblings, 60));
}

/// Rules 60 to 62 of the catalogue pass over a directory named `vendor`.
#[verifier::spinoff_prover]
proof fn lemma_vendor_needs_marker_60(parent: Seq<char>, siblings: Seq<Seq<char>>)
    ensures
        first_rule(catalogue(), "vendor"@, true, parent, siblings, 60) == first_rule(catalogue(), "vendor"@, true, parent, siblings, 63),
{
    let word = "vendor"@;
    reveal_strlit("vendor");
    assert(word =~= seq!['v', 'e', 'n', 'd', 'o', 'r']);
    assert(!rule_applies(catalogue()[60], word, true, parent, siblings)) by {
        reveal_strlit("bin");
        assert("bin"@.len() == 3);
        reveal_strlit("obj");
        assert("obj"@.len() == 3);
    }
    assert(first_rule(catalogue(), word, true, parent, siblings, 60) == first_rule(catalogue(), word, true, parent, siblings, 61));
    assert(!rule_applies(catalogue()[61], word, true, parent, siblings)) by {
        reveal_strlit("packages");
        assert("packages"@.len() == 8);
    }
    assert(first_rule(catalogue(), word, true, parent, siblings, 61) == first_rule(catalogue(), word, true, parent, siblings, 62));
    assert(!rule_applies(catalogue()[62], word, true, parent, siblings)) by {
        reveal_strlit(".vs");
        assert(".vs"@.len() == 3);
    }
    assert(first_rule(catalogue(), word, true, parent, siblings, 62) == first_rule(catalogue(), word, true, parent, siblings, 63));
}

/// Rules 65 to 70 of the catalogue pass over a directory named `vendor`.
#[verifier::spinoff_prover]
proof fn lemma_vendor_needs_marker_65(parent: Seq<char>, siblings: Seq<Seq<char>>)
    ensures
        first_rule(catalogue(), "vendor"@, true, parent, siblings, 65) == first_rule(catalogue(), "vendor"@, true, parent, siblings, 71),
{
    let word = "vendor"@;
    reveal_strlit("vendor");
    assert(word =~= seq!['v', 'e', 'n', 'd', 'o', 'r']);
    assert(!rule_applies(catalogue()[65], word, true, parent, siblings)) by {
        reveal_strlit("bundle");
        assert("bundle"@[0] == 'b');
    }
    assert(first_rule(catalogue(), word, true, parent, siblings, 65) == first_rule(catalogue(), word, true, parent, siblings, 66));
    assert(!rule_applies(catalogue()[66], word, true, parent, siblings)) by {
        reveal_strlit(".bundle");
        assert(".bundle"@.len() == 7);
    }
    assert(first_rule(catalogue(), word, true, parent, siblings, 66) == first_rule(catalogue(), word, true, parent, siblings, 67));
    assert(!rule_applies(catalogue()[67], word, true, parent, siblings)) by {
        reveal_strlit("CMakeFiles");
        assert("CMakeFiles"@.len() == 10);
    }
    assert(first_rule(catalogue(), word, true, parent, siblings, 67) == first_rule(catalogue(), word, true, parent, siblings, 68));
    assert(!rule_applies(catalogue()[68], word, true, parent, siblings)) by {
        reveal_strlit("cmake-build-*");
        assert("cmake-build-*"@ =~= seq!['c', 'm', 'a', 'k', 'e', '-', 'b', 'u', 'i', 'l', 'd', '-', '*']);
        lemma_prefix_mismatch("cmake-build-*"@, word, 0);
    }
    assert(first_rule(catalogue(), word, true, parent, siblings, 68) == first_rule(catalogue(), word, true, parent, siblings, 69));
    assert(!rule_applies(catalogue()[69], word, true, parent, siblings));
    assert(first_rule(catalogue(), word, true, parent, siblings, 69) == first_rule(catalogue(), word, true, parent, siblings, 70));
    assert(!rule_applies(catalogue()[70], word, true, parent, siblings)) by {
        reveal_strlit(".ccls-cache");
        assert(".ccls-cache"@.len() == 11);
        reveal_strlit(".clangd");
        assert(".clangd"@.len() == 7);
    }
    assert(first_rule(catalogue(), word, true, parent, siblings, 70) == first_rule(catalogue(), word, true, parent, siblings, 71));
}

/// Rules 71 to 76 of the catalogue pass over a directory named `vendor`.
#[verifier::spinoff_prover]
proof fn lemma_vendor_needs_marker_71(parent: Seq<char>, siblings: Seq<Seq<char>>)
    ensures
        first_rule(catalogue(), "vendor"@, true, parent, siblings, 71) == first_rule(catalogue(), "vendor"@, true, parent, siblings, 77),
{
    let word = "vendor"@;
    reveal_strlit("vendor");
    assert(word =~= seq!['v', 'e', 'n', 'd', 'o', 'r']);
    assert(!rule_applies(catalogue()[71], word, true, parent, siblings));
    assert(first_rule(catalogue(), word, true, parent, siblings, 71) == first_rule(catalogue(), word, true, parent, siblings, 72));
    assert(!rule_applies(catalogue()[72], word, true, parent, siblings)) by {
        reveal_strlit("Debug");
        assert("Debug"@.len() == 5);
        reveal_strlit("Release");
        assert("Release"@.len() == 7);
        reveal_strlit("x64");
        assert("x64"@.len() == 3);
        reveal_strlit("Win32");
        assert("Win32"@.len() == 5);
        reveal_strlit("ARM64");
        assert("ARM64"@.len() == 5);
        reveal_strlit("ipch");
        assert("ipch"@.len() == 4);
    }
    assert(first_rule(catalogue(), word, true, parent, siblings, 72) == first_rule(catalogue(), word, true, parent, siblings, 73));
    assert(!rule_applies(catalogue()[73], word, true, parent, siblings)) by {
        reveal_strlit(".deps");
        assert(".deps"@.len() == 5);
        reveal_strlit(".libs");
        assert(".libs"@.len() == 5);
        reveal_strlit("autom4te.cache");
        assert("autom4te.cache"@.len() == 14);
    }
    assert(first_rule(catalogue(), word, true, parent, siblings, 73) == first_rule(catalogue(), word, true, parent, siblings, 74));
    assert(!rule_applies(catalogue()[74], word, true, parent, siblings));
    assert(first_rule(catalogue(), word, true, parent, siblings, 74) == first_rule(catalogue(), word, true, parent, siblings, 75));
    assert(!rule_applies(catalogue()[75], word, true, parent, siblings)) by {
        reveal_strlit("vcpkg_installed");
        assert("vcpkg_installed"@.len() == 15);
    }
    assert(first_rule(catalogue(), word, true, parent, siblings, 75) == first_rule(catalogue(), word, true, parent, siblings, 76));
    assert(!rule_applies(catalogue()[76], word, true, parent, siblings)) by {
        reveal_strlit("DerivedData");
        assert("DerivedData"@.len() == 11);
    }
    assert(first_rule(catalogue(), word, true, parent, siblings, 76) == first_rule(catalogue(), word, true, parent, siblings, 77));
}

/// Rules 77 to 82 of the catalogue pass over a directory named `vendor`.
#[verifier::spinoff_prover]
proof fn lemma_vendor_needs_marker_77(parent: Seq<char>, siblings: Seq<Seq<char>>)
    ensures
        first_rule(catalogue(), "vendor"@, true, parent, siblings, 77) == first_rule(catalogue(), "vendor"@, true, parent, siblings, 83),
{
    let word = "vendor"@;
    reveal_strlit("vendor");
    assert(word =~= seq!['v', 'e', 'n', 'd', 'o', 'r']);
    assert(!rule_applies(catalogue()[77], word, true, parent, siblings)) by {
        reveal_strlit(".build");
        assert(".build"@[0] == '.');
    }
    assert(first_rule(catalogue(), word, true, parent, siblings, 77) == first_rule(catalogue(), word, true, parent, siblings, 78));
    assert(!rule_applies(catalogue()[78], word, true, parent, siblings)) by {
        reveal_strlit("Pods");
        assert("Pods"@.len() == 4);
    }
    assert(first_rule(catalogue(), word, true, parent, siblings, 78) == first_rule(catalogue(), word, true, parent, siblings, 79));
    assert(!rule_applies(catalogue()[79], word, true, parent, siblings)) by {
        reveal_strlit("Build");
        assert("Build"@.len() == 5);
    }
    assert(first_rule(catalogue(), word, true, parent, siblings, 79) == first_rule(catalogue(), word, true, parent, siblings, 80));
    assert(!rule_applies(catalogue()[80], word, true, parent, siblings)) by {
        reveal_strlit("xcuserdata");
        assert("xcuserdata"@.len() == 10);
        reveal_strlit("*.xcuserdatad");
        assert("*.xcuserdatad"@ =~= seq!['*', '.', 'x', 'c', 'u', 's', 'e', 'r', 'd', 'a', 't', 'a', 'd']);
        lemma_tail_mismatch("*.xcuserdatad"@, word);
    }
    assert(first_rule(catalogue(), word, true, parent, siblings, 80) == first_rule(catalogue(), word, true, parent, siblings, 81));
    assert(!rule_applies(catalogue()[81], word, true, parent, siblings)) by {
        reveal_strlit(".swiftpm");
        assert(".swiftpm"@.len() == 8);
    }
    assert(first_rule(catalogue(), word, true, parent, siblings, 81) == first_rule(catalogue(), word, true, parent, siblings, 82));
    assert(!rule_applies(catalogue()[82], word, true, parent, siblings)) by {
        reveal_strlit(".dart_tool");
        assert(".dart_tool"@.len() == 10);
    }
    assert(first_rule(catalogue(), word, true, parent, siblings, 82) == first_rule(catalogue(), word, true, parent, siblings, 83));
}

/// Rules 83 to 88 of the catalogue pass over a directory named `vendor`.
#[verifier::spinoff_prover]
proof fn lemma_vendor_needs_marker_83(parent: Seq<char>, siblings: Seq<Seq<char>>)
    ensures
        first_rule(catalogue(), "vendor"@, true, parent, siblings, 83) == first_rule(catalogue(), "vendor"@, true, parent, siblings, 89),
{
    let word = "vendor"@;
    reveal_strlit("vendor");
    assert(word =~= seq!['v', 'e', 'n', 'd', 'o', 'r']);
    assert(!rule_applies(catalogue()[83], word, true, parent, siblings));
    assert(first_rule(catalogue(), word, true, parent, siblings, 83) == first_rule(catalogue(), word, true, parent, siblings, 84));
    assert(!rule_applies(catalogue()[84], word, true, parent, siblings)) by {
        reveal_strlit("_build");
        assert("_build"@[0] == '_');
    }
    assert(first_rule(catalogue(), word, true, parent, siblings, 84) == first_rule(catalogue(), word, true, parent, siblings, 85));
    assert(!rule_applies(catalogue()[85], word, true, parent, siblings)) by {
        reveal_strlit("deps");
        assert("deps"@.len() == 4);
    }
    assert(first_rule(catalogue(), word, true, parent, siblings, 85) == first_rule(catalogue(), word, true, parent, siblings, 86));
    assert(!rule_applies(catalogue()[86], word, true, parent, siblings)) by {
        reveal_strlit(".cxx");
        assert(".cxx"@.len() == 4);
    }
    assert(first_rule(catalogue(), word, true, parent, siblings, 86) == first_rule(catalogue(), word, true, parent, siblings, 87));
    assert(!rule_applies(catalogue()[87], word, true, parent, siblings)) by {
        reveal_strlit("Library");
        assert("Library"@.len() == 7);
        reveal_strlit("Temp");
        assert("Temp"@.len() == 4);
        reveal_strlit("Obj");
        assert("Obj"@.len() == 3);
        reveal_strlit("Logs");
        assert("Logs"@.len() == 4);
        reveal_strlit("UserSettings");
        assert("UserSettings"@.len() == 12);
    }
    assert(first_rule(catalogue(), word, true, parent, siblings, 87) == first_rule(catalogue(), word, true, parent, siblings, 88));
    assert(!rule_applies(catalogue()[88], word, true, parent, siblings)) by {
        reveal_strlit(".godot");
        assert(".godot"@[0] == '.');
        reveal_strlit(".import");
        assert(".import"@.len() == 7);
    }
    assert(first_rule(catalogue(), word, true, parent, siblings, 88) == first_rule(catalogue(), word, true, parent, siblings, 89));
}

/// Rules 89 to 94 of the catalogue pass over a directory named `vendor`.
#[verifier::spinoff_prover]
proof fn lemma_vendor_needs_marker_89(parent: Seq<char>, siblings: Seq<Seq<char>>)
    ensures
        first_rule(catalogue(), "vendor"@, true, parent, siblings, 89) == first_rule(catalogue(), "vendor"@, true, parent, siblings, 95),
{
    let word = "vendor"@;
    reveal_strlit("vendor");
    assert(word =~= seq!['v', 'e', 'n', 'd', 'o', 'r']);
    assert(!rule_applies(catalogue()[89], word, true, parent, siblings)) by {
        reveal_strlit("Binaries");
        assert("Binaries"@.len() == 8);
        reveal_strlit("Intermediate");
        assert("Intermediate"@.len() == 12);
        reveal_strlit("DerivedDataCache");
        assert("DerivedDataCache"@.len() == 16);
        reveal_strlit("Saved");
        assert("Saved"@.len() == 5);
    }
    assert(first_rule(catalogue(), word, true, parent, siblings, 89) == first_rule(catalogue(), word, true, parent, siblings, 90));
    assert(!rule_applies(catalogue()[90], word, true, parent, siblings)) by {
        reveal_strlit("Build");
        assert("Build"@.len() == 5);
        reveal_strlit("Builds");
        assert("Builds"@[0] == 'B');
        reveal_strlit("MemoryCaptures");
        assert("MemoryCaptures"@.len() == 14);
        reveal_strlit("Recordings");
        assert("Recordings"@.len() == 10);
    }
    assert(first_rule(catalogue(), word, true, parent, siblings, 90) == first_rule(catalogue(), word, true, parent, siblings, 91));
    assert(!rule_applies(catalogue()[91], word, true, parent, siblings)) by {
        reveal_strlit("huggingface");
        assert("huggingface"@.len() == 11);
    }
    assert(first_rule(catalogue(), word, true, parent, siblings, 91) == first_rule(catalogue(), word, true, parent, siblings, 92));
    assert(!rule_applies(catalogue()[92], word, true, parent, siblings));
    assert(first_rule(catalogue(), word, true, parent, siblings, 92) == first_rule(catalogue(), word, true, parent, siblings, 93));
    assert(!rule_applies(catalogue()[93], word, true, parent, siblings));
    assert(first_rule(catalogue(), word, true, parent, siblings, 93) == first_rule(catalogue(), word, true, parent, siblings, 94));
    assert(!rule_applies(catalogue()[94], word, true, parent, siblings)) by {
        reveal_strlit("wandb");
        assert("wandb"@.len() == 5);
        reveal_strlit("mlruns");
        assert("mlruns"@[0] == 'm');
        reveal_strlit("lightning_logs");
        assert("lightning_logs"@.len() == 14);
    }
    assert(first_rule(catalogue(), word, true, parent, siblings, 94) == first_rule(catalogue(), word, true, parent, siblings, 95));
}

/// Rules 95 to 100 of the catalogue pass over a directory named `vendor`.
#[verifier::spinoff_prover]
proof fn lemma_vendor_needs_marker_95(parent: Seq<char>, siblings: Seq<Seq<char>>)
    ensures
        first_rule(catalogue(), "vendor"@, true, parent, siblings, 95) == first_rule(catalogue(), "vendor"@, true, parent, siblings, 101),
{
    let word = "vendor"@;
    reveal_strlit("vendor");
    assert(word =~= seq!['v', 'e', 'n', 'd', 'o', 'r']);
    assert(!rule_applies(catalogue()[95], word, true, parent, siblings)) by {
        reveal_strlit("runs");
        assert("runs"@.len() == 4);
        reveal_strlit("multirun");
        assert("multirun"@.len() == 8);
        reveal_strlit(".neptune");
        assert(".neptune"@.len() == 8);
        reveal_strlit("catboost_info");
        assert("catboost_info"@.len() == 13);
        reveal_strlit(".aim");
        assert(".aim"@.len() == 4);
    }
    assert(first_rule(catalogue(), word, true, parent, siblings, 95) == first_rule(catalogue(), word, true, parent, siblings, 96));
    assert(!rule_applies(catalogue()[96], word, true, parent, siblings)) by {
        reveal_strlit(".terraform");
        assert(".terraform"@.len() == 10);
    }
    assert(first_rule(catalogue(), word, true, parent, siblings, 96) == first_rule(catalogue(), word, true, parent, siblings, 97));
    assert(!rule_applies(catalogue()[97], word, true, parent, siblings)) by {
        reveal_strlit(".terragrunt-cache");
        assert(".terragrunt-cache"@.len() == 17);
    }
    assert(first_rule(catalogue(), word, true, parent, siblings, 97) == first_rule(catalogue(), word, true, parent, siblings, 98));
    assert(!rule_applies(catalogue()[98], word, true, parent, siblings)) by {
        reveal_strlit(".pulumi");
        assert(".pulumi"@.len() == 7);
    }
    assert(first_rule(catalogue(), word, true, parent, siblings, 98) == first_rule(catalogue(), word, true, parent, siblings, 99));
    assert(!rule_applies(catalogue()[99], word, true, parent, siblings)) by {
        reveal_strlit(".vagrant");
        assert(".vagrant"@.len() == 8);
    }
    assert(first_rule(catalogue(), word, true, parent, siblings, 99) == first_rule(catalogue(), word, true, parent, siblings, 100));
    assert(!rule_applies(catalogue()[100], word, true, parent, siblings)) by {
        reveal_strlit("_site");
        assert("_site"@.len() == 5);
        reveal_strlit(".jekyll-cache");
        assert(".jekyll-cache"@.len() == 13);
    }
    assert(first_rule(catalogue(), word, true, parent, siblings, 100) == first_rule(catalogue(), word, true, parent, siblings, 101));
}

/// Rules 101 to 106 of the catalogue pass over a directory named `vendor`.
#[verifier::spinoff_prover]
proof fn lemma_vendor_needs_marker_101(parent: Seq<char>, siblings: Seq<Seq<char>>)
    ensures
        first_rule(catalogue(), "vendor"@, true, parent, siblings, 101) == first_rule(catalogue(), "vendor"@, true, parent, siblings, 107),
{
    let word = "vendor"@;
    reveal_strlit("vendor");
    assert(word =~= seq!['v', 'e', 'n', 'd', 'o', 'r']);
    assert(!rule_applies(catalogue()[101], word, true, parent, siblings)) by {
        reveal_strlit("public");
        assert("public"@[0] == 'p');
        reveal_strlit("resources");
        assert("resources"@.len() == 9);
    }
    assert(first_rule(catalogue(), word, true, parent, siblings, 101) == first_rule(catalogue(), word, true, parent, siblings, 102));
    assert(!rule_applies(catalogue()[102], word, true, parent, siblings)) by {
        reveal_strlit(".sass-cache");
        assert(".sass-cache"@.len() == 11);
    }
    assert(first_rule(catalogue(), word, true, parent, siblings, 102) == first_rule(catalogue(), word, true, parent, siblings, 103));
    assert(!rule_applies(catalogue()[103], word, true, parent, siblings)) by {
        reveal_strlit(".quarto");
        assert(".quarto"@.len() == 7);
        reveal_strlit("_freeze");
        assert("_freeze"@.len() == 7);
    }
    assert(first_rule(catalogue(), word, true, parent, siblings, 103) == first_rule(catalogue(), word, true, parent, siblings, 104));
    assert(!rule_applies(catalogue()[104], word, true, parent, siblings)) by {
        reveal_strlit("_book");
        assert("_book"@.len() == 5);
        reveal_strlit(".docz");
        assert(".docz"@.len() == 5);
    }
    assert(first_rule(catalogue(), word, true, parent, siblings, 104) == first_rule(catalogue(), word, true, parent, siblings, 105));
    assert(!rule_applies(catalogue()[105], word, true, parent, siblings)) by {
        reveal_strlit(".idea");
        assert(".idea"@.len() == 5);
    }
    assert(first_rule(catalogue(), word, true, parent, siblings, 105) == first_rule(catalogue(), word, true, parent, siblings, 106));
    assert(!rule_applies(catalogue()[106], word, true, parent, siblings)) by {
        reveal_strlit(".history");
        assert(".history"@.len() == 8);
    }
    assert(first_rule(catalogue(), word, true, parent, siblings, 106) == first_rule(catalogue(), word, true, parent, siblings, 107));
}

/// Rules 107 to 112 of the catalogue pass over a directory named `vendor`.
#[verifier::spinoff_prover]
proof fn lemma_vendor_needs_marker_107(parent: Seq<char>, siblings: Seq<Seq<char>>)
    ensures
        first_rule(catalogue(), "vendor"@, true, parent, siblings, 107) == first_rule(catalogue(), "vendor"@, true, parent, siblings, 113),
{
    let word = "vendor"@;
    reveal_strlit("vendor");
    assert(word =~= seq!['v', 'e', 'n', 'd', 'o', 'r']);
    assert(!rule_applies(catalogue()[107], word, true, parent, siblings)) by {
        reveal_strlit(".direnv");
        assert(".direnv"@.len() == 7);
    }
    assert(first_rule(catalogue(), word, true, parent, siblings, 107) == first_rule(catalogue(), word, true, parent, siblings, 108));
    assert(!rule_applies(catalogue()[108], word, true, parent, siblings));
    assert(first_rule(catalogue(), word, true, parent, siblings, 108) == first_rule(catalogue(), word, true, parent, siblings, 109));
    assert(!rule_applies(catalogue()[109], word, true, parent, siblings));
    assert(first_rule(catalogue(), word, true, parent, siblings, 109) == first_rule(catalogue(), word, true, parent, siblings, 110));
    assert(!rule_applies(catalogue()[110], word, true, parent, siblings)) by {
        reveal_strlit(".Spotlight-V100");
        assert(".Spotlight-V100"@.len() == 15);
        reveal_strlit(".Trashes");
        assert(".Trashes"@.len() == 8);
        reveal_strlit(".fseventsd");
        assert(".fseventsd"@.len() == 10);
        reveal_strlit("$RECYCLE.BIN");
        assert("$RECYCLE.BIN"@.len() == 12);
    }
    assert(first_rule(catalogue(), word, true, parent, siblings, 110) == first_rule(catalogue(), word, true, parent, siblings, 111));
    assert(!rule_applies(catalogue()[111], word, true, parent, siblings)) by {
        reveal_strlit("dist");
        assert("dist"@.len() == 4);
        reveal_strlit("out");
        assert("out"@.len() == 3);
    }
    assert(first_rule(catalogue(), word, true, parent, siblings, 111) == first_rule(catalogue(), word, true, parent, siblings, 112));
    assert(!rule_applies(catalogue()[112], word, true, parent, siblings)) by {
        reveal_strlit("build");
        assert("build"@.len() == 5);
        reveal_strlit("_build");
        assert("_build"@[0] == '_');
    }
    assert(first_rule(catalogue(), word, true, parent, siblings, 112) == first_rule(catalogue(), word, true, parent, siblings, 113));
}

/// Rules 113 to 118 of the catalogue pass over a directory named `vendor`.
#[verifier::spinoff_prover]
proof fn lemma_vendor_needs_marker_113(parent: Seq<char>, siblings: Seq<Seq<char>>)
    ensures
        first_rule(catalogue(), "vendor"@, true, parent, siblings, 113) == first_rule(catalogue(), "vendor"@, true, parent, siblings, 119),
{
    let word = "vendor"@;
    reveal_strlit("vendor");
    assert(word =~= seq!['v', 'e', 'n', 'd', 'o', 'r']);
    assert(!rule_applies(catalogue()[113], word, true, parent, siblings)) by {
        reveal_strlit(".cache");
        assert(".cache"@[0] == '.');
        reveal_strlit(".temp");
        assert(".temp"@.len() == 5);
        reveal_strlit(".tmp");
        assert(".tmp"@.len() == 4);
    }
    assert(first_rule(catalogue(), word, true, parent, siblings, 113) == first_rule(catalogue(), word, true, parent, siblings, 114));
    assert(!rule_applies(catalogue()[114], word, true, parent, siblings)) by {
        reveal_strlit("tmp");
        assert("tmp"@.len() == 3);
        reveal_strlit("temp");
        assert("temp"@.len() == 4);
    }
    assert(first_rule(catalogue(), word, true, parent, siblings, 114) == first_rule(catalogue(), word, true, parent, siblings, 115));
    assert(!rule_applies(catalogue()[115], word, true, parent, siblings)) by {
        reveal_strlit("coverage");
        assert("coverage"@.len() == 8);
    }
    assert(first_rule(catalogue(), word, true, parent, siblings, 115) == first_rule(catalogue(), word, true, parent, siblings, 116));
    assert(!rule_applies(catalogue()[116], word, true, parent, siblings)) by {
        reveal_strlit("logs");
        assert("logs"@.len() == 4);
    }
    assert(first_rule(catalogue(), word, true, parent, siblings, 116) == first_rule(catalogue(), word, true, parent, siblings, 117));
    assert(!rule_applies(catalogue()[117], word, true, parent, siblings));
    assert(first_rule(catalogue(), word, true, parent, siblings, 117) == first_rule(catalogue(), word, true, parent, siblings, 118));
    assert(!rule_applies(catalogue()[118], word, true, parent, siblings));
    assert(first_rule(catalogue(), word, true, parent, siblings, 118) == first_rule(catalogue(), word, true, parent, siblings, 119));
}

/// Rules 119 to 119 of the catalogue pass over a directory named `vendor`.
#[verifier::spinoff_prover]
proof fn lemma_vendor_needs_marker_119(parent: Seq<char>, siblings: Seq<Seq<char>>)
    ensures
        first_rule(catalogue(), "vendor"@, true, parent, siblings, 119) == first_rule(catalogue(), "vendor"@, true, parent, siblings, 120),
{
    let word = "vendor"@;
    reveal_strlit("vendor");
    assert(word =~= seq!['v', 'e', 'n', 'd', 'o', 'r']);
    assert(!rule_applies(catalogue()[119], word, true, parent, siblings));
    assert(first_rule(catalogue(), word, true, parent, siblings, 119) == first_rule(catalogue(), word, true, parent, siblings, 120));
}

/// A directory named `vendor` is claimed as Go vendoring beside `go.mod`,
/// else as Composer packages beside `composer.json`, and otherwise not at all,
/// whatever its parent and its other siblings.
pub proof fn lemma_vendor_needs_marker(parent: Seq<char>, siblings: Seq<Seq<char>>)
    ensures
        match first_rule(catalogue(), "vendor"@, true, parent, siblings, 0) {
            Some(r) => (siblings.contains("go.mod"@) && r.id == "go_vendor")
                || (!siblings.contains("go.mod"@) && siblings.contains("composer.json"@) && r.id == "composer_vendor"),
            None => !siblings.contains("go.mod"@) && !siblings.contains("composer.json"@),
        },
{
    let word = "vendor"@;
    lemma_vendor_needs_marker_0(parent, siblings);
    lemma_vendor_needs_marker_6(parent, siblings);
    lemma_vendor_needs_marker_12(parent, siblings);
    lemma_vendor_needs_marker_18(parent, siblings);
    lemma_vendor_needs_marker_24(parent, siblings);
    lemma_vendor_needs_marker_30(parent, siblings);
    lemma_vendor_needs_marker_36(parent, siblings);
    lemma_vendor_needs_marker_42(parent, siblings);
    lemma_vendor_needs_marker_48(parent, siblings);
    lemma_vendor_needs_marker_54(parent, siblings);
    lemma_vendor_needs_marker_60(parent, siblings);
    lemma_vendor_needs_marker_65(parent, siblings);
    lemma_vendor_needs_marker_71(parent, siblings);
    lemma_vendor_needs_marker_77(parent, siblings);
    lemma_vendor_needs_marker_83(parent, siblings);
    lemma_vendor_needs_marker_89(parent, siblings);
    lemma_vendor_needs_marker_95(parent, siblings);
    lemma_vendor_needs_marker_101(parent, siblings);
    lemma_vendor_needs_marker_107(parent, siblings);
    lemma_vendor_needs_marker_113(parent, siblings);
    lemma_vendor_needs_marker_119(parent, siblings);
    assert(strs(catalogue()[63].names@)[0] == word);
    assert(rule_applies(catalogue()[63], word, true, parent, siblings) == siblings.contains("go.mod"@)) by {
        reveal_strlit("go.mod");
        assert("go.mod"@ =~= seq!['g', 'o', '.', 'm', 'o', 'd']);
        let markers = strs(catalogue()[63].requires@);
        assert(markers =~= seq!["go.mod"@]);
        assert(!"go.mod"@.contains('*') && !"go.mod"@.contains('?'));
        assert(marker_present(siblings, "go.mod"@) == siblings.contains("go.mod"@));
        if siblings.contains("go.mod"@) {
            assert(marker_present(siblings, markers[0]));
        }
    }
    assert(first_rule(catalogue(), word, true, parent, siblings, 63) == if rule_applies(catalogue()[63], word, true, parent, siblings) { Some(catalogue()[63]) } else { first_rule(catalogue(), word, true, parent, siblings, 64) });
    assert(strs(catalogue()[64].names@)[0] == word);
    assert(rule_applies(catalogue()[64], word, true, parent, siblings) == siblings.contains("composer.json"@)) by {
        reveal_strlit("composer.json");
        assert("composer.json"@ =~= seq!['c', 'o', 'm', 'p', 'o', 's', 'e', 'r', '.', 'j', 's', 'o', 'n']);
        let markers = strs(catalogue()[64].requires@);
        assert(markers =~= seq!["composer.json"@]);
        assert(!"composer.json"@.contains('*') && !"composer.json"@.contains('?'));
        assert(marker_present(siblings, "composer.json"@) == siblings.contains("composer.json"@));
        if siblings.contains("composer.json"@) {
            assert(marker_present(siblings, markers[0]));
        }
    }
    assert(first_rule(catalogue(), word, true, parent, siblings, 64) == if rule_applies(catalogue()[64], word, true, parent, siblings) { Some(catalogue()[64]) } else { first_rule(catalogue(), word, true, parent, siblings, 65) });
    assert(first_rule(catalogue(), word, true, parent, siblings, 120) == None::<Rule>);
}

/// Rules 0 to 5 of the catalogue pass over a directory named `bin`.
#[verifier::spinoff_prover]
proof fn lemma_bin_needs_project_file_0(parent: Seq<char>, siblings: Seq<Seq<char>>)
    ensures
        first_rule(catalogue(), "bin"@, true, parent, siblings, 0) == first_rule(catalogue(), "bin"@, true, parent, siblings, 6),
{
    let word = "bin"@;
    reveal_strlit("bin");
    assert(word =~= seq!['b', 'i', 'n']);
    assert(!rule_applies(catalogue()[0], word, true, parent, siblings)) by {
        reveal_strlit("node_modules");
        assert("node_modules"@.len() == 12);
    }
    assert(first_rule(catalogue(), word, true, parent, siblings, 0) == first_rule(catalogue(), word, true, parent, siblings, 1));
    assert(!rule_applies(catalogue()[1], word, true, parent, siblings)) by {
        reveal_strlit(".next");
        assert(".next"@.len() == 5);
    }
    assert(first_rule(catalogue(), word, true, parent, siblings, 1) == first_rule(catalogue(), word, true, parent, siblings, 2));
    assert(!rule_applies(catalogue()[2], word, true, parent, siblings)) by {
        reveal_strlit(".nuxt");
        assert(".nuxt"@.len() == 5);
    }
    assert(first_rule(catalogue(), word, true, parent, siblings, 2) == first_rule(catalogue(), word, true, parent, siblings, 3));
    assert(!rule_applies(catalogue()[3], word, true, parent, siblings)) by {
        reveal_strlit(".output");
        assert(".output"@.len() == 7);
    }
    assert(first_rule(catalogue(), word, true, parent, siblings, 3) == first_rule(catalogue(), word, true, parent, siblings, 4));
    assert(!rule_applies(catalogue()[4], word, true, parent, siblings)) by {
        reveal_strlit(".svelte-kit");
        assert(".svelte-kit"@.len() == 11);
    }
    assert(first_rule(catalogue(), word, true, parent, siblings, 4) == first_rule(catalogue(), word, true, parent, siblings, 5));
    assert(!rule_applies(catalogue()[5], word, true, parent, siblings)) by {
        reveal_strlit(".astro");
        assert(".astro"@.len() == 6);
    }
    assert(first_rule(catalogue(), word, true, parent, siblings, 5) == first_rule(catalogue(), word, true, parent, siblings, 6));
}

/// Rules 6 to 11 of the catalogue pass over a directory named `bin`.
#[verifier::spinoff_prover]
proof fn lemma_bin_needs_project_file_6(parent: Seq<char>, siblings: Seq<Seq<char>>)
    ensures
        first_rule(catalogue(), "bin"@, true, parent, siblings, 6) == first_rule(catalogue(), "bin"@, true, parent, siblings, 12),
{
    let word = "bin"@;
    reveal_strlit("bin");
    assert(word =~= seq!['b', 'i', 'n']);
    assert(!rule_applies(catalogue()[6], word, true, parent, siblings)) by {
        reveal_strlit(".docusaurus");
        assert(".docusaurus"@.len() == 11);
    }
    assert(first_rule(catalogue(), word, true, parent, siblings, 6) == first_rule(catalogue(), word, true, parent, siblings, 7));
    assert(!rule_applies(catalogue()[7], word, true, parent, siblings)) by {
        reveal_strlit(".angular");
        assert(".angular"@.len() == 8);
    }
    assert(first_rule(catalogue(), word, true, parent, siblings, 7) == first_rule(catalogue(), word, true, parent, siblings, 8));
    assert(!rule_applies(catalogue()[8], word, true, parent, siblings)) by {
        reveal_strlit(".parcel-cache");
        assert(".parcel-cache"@.len() == 13);
    }
    assert(first_rule(catalogue(), word, true, parent, siblings, 8) == first_rule(catalogue(), word, true, parent, siblings, 9));
    assert(!rule_applies(catalogue()[9], word, true, parent, siblings)) by {
        reveal_strlit(".turbo");
        assert(".turbo"@.len() == 6);
    }
    assert(first_rule(catalogue(), word, true, parent, siblings, 9) == first_rule(catalogue(), word, true, parent, siblings, 10));
    assert(!rule_applies(catalogue()[10], word, true, parent, siblings)) by {
        reveal_strlit(".vite");
        assert(".vite"@.len() == 5);
    }
    assert(first_rule(catalogue(), word, true, parent, siblings, 10) == first_rule(catalogue(), word, true, parent, siblings, 11));
    assert(!rule_applies(catalogue()[11], word, true, parent, siblings)) by {
        reveal_strlit(".rollup.cache");
        assert(".rollup.cache"@.len() == 13);
    }
    assert(first_rule(catalogue(), word, true, parent, siblings, 11) == first_rule(catalogue(), word, true, parent, siblings, 12));
}

/// Rules 12 to 17 of the catalogue pass over a directory named `bin`.
#[verifier::spinoff_prover]
proof fn lemma_bin_needs_project_file_12(parent: Seq<char>, siblings: Seq<Seq<char>>)
    ensures
        first_rule(catalogue(), "bin"@, true, parent, siblings, 12) == first_rule(catalogue(), "bin"@, true, parent, siblings, 18),
{
    let word = "bin"@;
    reveal_strlit("bin");
    assert(word =~= seq!['b', 'i', 'n']);
    assert(!rule_applies(catalogue()[12], word, true, parent, siblings)) by {
        reveal_strlit(".webpack");
        assert(".webpack"@.len() == 8);
    }
    assert(first_rule(catalogue(), word, true, parent, siblings, 12) == first_rule(catalogue(), word, true, parent, siblings, 13));
    assert(!rule_applies(catalogue()[13], word, true, parent, siblings)) by {
        reveal_strlit(".serverless");
        assert(".serverless"@.len() == 11);
    }
    assert(first_rule(catalogue(), word, true, parent, siblings, 13) == first_rule(catalogue(), word, true, parent, siblings, 14));
    assert(!rule_applies(catalogue()[14], word, true, parent, siblings)) by {
        reveal_strlit("cache");
        assert("cache"@.len() == 5);
        reveal_strlit("unplugged");
        assert("unplugged"@.len() == 9);
    }
    assert(first_rule(catalogue(), word, true, parent, siblings, 14) == first_rule(catalogue(), word, true, parent, siblings, 15));
    assert(!rule_applies(catalogue()[15], word, true, parent, siblings)) by {
        reveal_strlit(".pnpm-store");
        assert(".pnpm-store"@.len() == 11);
    }
    assert(first_rule(catalogue(), word, true, parent, siblings, 15) == first_rule(catalogue(), word, true, parent, siblings, 16));
    assert(!rule_applies(catalogue()[16], word, true, parent, siblings)) by {
        reveal_strlit(".expo");
        assert(".expo"@.len() == 5);
        reveal_strlit(".expo-shared");
        assert(".expo-shared"@.len() == 12);
    }
    assert(first_rule(catalogue(), word, true, parent, siblings, 16) == first_rule(catalogue(), word, true, parent, siblings, 17));
    assert(!rule_applies(catalogue()[17], word, true, parent, siblings)) by {
        reveal_strlit(".metro-cache");
        assert(".metro-cache"@.len() == 12);
    }
    assert(first_rule(catalogue(), word, true, parent, siblings, 17) == first_rule(catalogue(), word, true, parent, siblings, 18));
}

/// Rules 18 to 23 of the catalogue pass over a directory named `bin`.
#[verifier::spinoff_prover]
proof fn lemma_bin_needs_project_file_18(parent: Seq<char>, siblings: Seq<Seq<char>>)
    ensures
        first_rule(catalogue(), "bin"@, true, parent, siblings, 18) == first_rule(catalogue(), "bin"@, true, parent, siblings, 24),
{
    let word = "bin"@;
    reveal_strlit("bin");
    assert(word =~= seq!['b', 'i', 'n']);
    assert(!rule_applies(catalogue()[18], word, true, parent, siblings)) by {
        reveal_strlit("storybook-static");
        assert("storybook-static"@.len() == 16);
    }
    assert(first_rule(catalogue(), word, true, parent, siblings, 18) == first_rule(catalogue(), word, true, parent, siblings, 19));
    assert(!rule_applies(catalogue()[19], word, true, parent, siblings)) by {
        reveal_strlit(".nyc_output");
        assert(".nyc_output"@.len() == 11);
    }
    assert(first_rule(catalogue(), word, true, parent, siblings, 19) == first_rule(catalogue(), word, true, parent, siblings, 20));
    assert(!rule_applies(catalogue()[20], word, true, parent, siblings));
    assert(first_rule(catalogue(), word, true, parent, siblings, 20) == first_rule(catalogue(), word, true, parent, siblings, 21));
    assert(!rule_applies(catalogue()[21], word, true, parent, siblings));
    assert(first_rule(catalogue(), word, true, parent, siblings, 21) == first_rule(catalogue(), word, true, parent, siblings, 22));
    assert(!rule_applies(catalogue()[22], word, true, parent, siblings)) by {
        reveal_strlit(".nx");
        assert(".nx"@[0] == '.');
    }
    assert(first_rule(catalogue(), word, true, parent, siblings, 22) == first_rule(catalogue(), word, true, parent, siblings, 23));
    assert(!rule_applies(catalogue()[23], word, true, parent, siblings)) by {
        reveal_strlit(".swc");
        assert(".swc"@.len() == 4);
    }
    assert(first_rule(catalogue(), word, true, parent, siblings, 23) == first_rule(catalogue(), word, true, parent, siblings, 24));
}

/// Rules 24 to 29 of the catalogue pass over a directory named `bin`.
#[verifier::spinoff_prover]
proof fn lemma_bin_needs_project_file_24(parent: Seq<char>, siblings: Seq<Seq<char>>)
    ensures
        first_rule(catalogue(), "bin"@, true, parent, siblings, 24) == first_rule(catalogue(), "bin"@, true, parent, siblings, 30),
{
    let word = "bin"@;
    reveal_strlit("bin");
    assert(word =~= seq!['b', 'i', 'n']);
    assert(!rule_applies(catalogue()[24], word, true, parent, siblings)) by {
        reveal_strlit("bower_components");
        assert("bower_components"@.len() == 16);
        reveal_strlit("jspm_packages");
        assert("jspm_packages"@.len() == 13);
        reveal_strlit("web_modules");
        assert("web_modules"@.len() == 11);
    }
    assert(first_rule(catalogue(), word, true, parent, siblings, 24) == first_rule(catalogue(), word, true, parent, siblings, 25));
    assert(!rule_applies(catalogue()[25], word, true, parent, siblings)) by {
        reveal_strlit(".vercel");
        assert(".vercel"@.len() == 7);
        reveal_strlit(".netlify");
        assert(".netlify"@.len() == 8);
        reveal_strlit(".wrangler");
        assert(".wrangler"@.len() == 9);
        reveal_strlit(".firebase");
        assert(".firebase"@.len() == 9);
    }
    assert(first_rule(catalogue(), word, true, parent, siblings, 25) == first_rule(catalogue(), word, true, parent, siblings, 26));
    assert(!rule_applies(catalogue()[26], word, true, parent, siblings)) by {
        reveal_strlit("cache");
        assert("cache"@.len() == 5);
        reveal_strlit("dist");
        assert("dist"@.len() == 4);
    }
    assert(first_rule(catalogue(), word, true, parent, siblings, 26) == first_rule(catalogue(), word, true, parent, siblings, 27));
    assert(!rule_applies(catalogue()[27], word, true, parent, siblings)) by {
        reveal_strlit("dist");
        assert("dist"@.len() == 4);
        reveal_strlit("temp");
        assert("temp"@.len() == 4);
    }
    assert(first_rule(catalogue(), word, true, parent, siblings, 27) == first_rule(catalogue(), word, true, parent, siblings, 28));
    assert(!rule_applies(catalogue()[28], word, true, parent, siblings)) by {
        reveal_strlit("playwright-report");
        assert("playwright-report"@.len() == 17);
        reveal_strlit("test-results");
        assert("test-results"@.len() == 12);
        reveal_strlit(".playwright");
        assert(".playwright"@.len() == 11);
        reveal_strlit("blob-report");
        assert("blob-report"@.len() == 11);
    }
    assert(first_rule(catalogue(), word, true, parent, siblings, 28) == first_rule(catalogue(), word, true, parent, siblings, 29));
    assert(!rule_applies(catalogue()[29], word, true, parent, siblings)) by {
        reveal_strlit("videos");
        assert("videos"@.len() == 6);
        reveal_strlit("screenshots");
        assert("screenshots"@.len() == 11);
        reveal_strlit("downloads");
        assert("downloads"@.len() == 9);
    }
    assert(first_rule(catalogue(), word, true, parent, siblings, 29) == first_rule(catalogue(), word, true, parent, siblings, 30));
}

/// Rules 30 to 35 of the catalogue pass over a directory named `bin`.
#[verifier::spinoff_prover]
proof fn lemma_bin_needs_project_file_30(parent: Seq<char>, siblings: Seq<Seq<char>>)
    ensures
        first_rule(catalogue(), "bin"@, true, parent, siblings, 30) == first_rule(catalogue(), "bin"@, true, parent, siblings, 36),
{
    let word = "bin"@;
    reveal_strlit("bin");
    assert(word =~= seq!['b', 'i', 'n']);
    assert(!rule_applies(catalogue()[30], word, true, parent, siblings)) by {
        reveal_strlit(".rpt2_cache");
        assert(".rpt2_cache"@.len() == 11);
        reveal_strlit(".rts2_cache_*");
        assert(".rts2_cache_*"@ =~= seq!['.', 'r', 't', 's', '2', '_', 'c', 'a', 'c', 'h', 'e', '_', '*']);
        lemma_prefix_mismatch(".rts2_cache_*"@, word, 0);
    }
    assert(first_rule(catalogue(), word, true, parent, siblings, 30) == first_rule(catalogue(), word, true, parent, siblings, 31));
    assert(!rule_applies(catalogue()[31], word, true, parent, siblings)) by {
        reveal_strlit(".grunt");
        assert(".grunt"@.len() == 6);
        reveal_strlit(".fusebox");
        assert(".fusebox"@.len() == 8);
        reveal_strlit(".dynamodb");
        assert(".dynamodb"@.len() == 9);
        reveal_strlit(".node_modules_cache");
        assert(".node_modules_cache"@.len() == 19);
    }
    assert(first_rule(catalogue(), word, true, parent, siblings, 31) == first_rule(catalogue(), word, true, parent, siblings, 32));
    assert(!rule_applies(catalogue()[32], word, true, parent, siblings));
    assert(first_rule(catalogue(), word, true, parent, siblings, 32) == first_rule(catalogue(), word, true, parent, siblings, 33));
    assert(!rule_applies(catalogue()[33], word, true, parent, siblings)) by {
        reveal_strlit("__pycache__");
        assert("__pycache__"@.len() == 11);
    }
    assert(first_rule(catalogue(), word, true, parent, siblings, 33) == first_rule(catalogue(), word, true, parent, siblings, 34));
    assert(!rule_applies(catalogue()[34], word, true, parent, siblings)) by {
        reveal_strlit(".pytest_cache");
        assert(".pytest_cache"@.len() == 13);
    }
    assert(first_rule(catalogue(), word, true, parent, siblings, 34) == first_rule(catalogue(), word, true, parent, siblings, 35));
    assert(!rule_applies(catalogue()[35], word, true, parent, siblings)) by {
        reveal_strlit(".mypy_cache");
        assert(".mypy_cache"@.len() == 11);
    }
    assert(first_rule(catalogue(), word, true, parent, siblings, 35) == first_rule(catalogue(), word, true, parent, siblings, 36));
}

/// Rules 36 to 41 of the catalogue pass over a directory named `bin`.
#[verifier::spinoff_prover]
proof fn lemma_bin_needs_project_file_36(parent: Seq<char>, siblings: Seq<Seq<char>>)
    ensures
        first_rule(catalogue(), "bin"@, true, parent, siblings, 36) == first_rule(catalogue(), "bin"@, true, parent, siblings, 42),
{
    let word = "bin"@;
    reveal_strlit("bin");
    assert(word =~= seq!['b', 'i', 'n']);
    assert(!rule_applies(catalogue()[36], word, true, parent, siblings)) by {
        reveal_strlit(".ruff_cache");
        assert(".ruff_cache"@.len() == 11);
    }
    assert(first_rule(catalogue(), word, true, parent, siblings, 36) == first_rule(catalogue(), word, true, parent, siblings, 37));
    assert(!rule_applies(catalogue()[37], word, true, parent, siblings)) by {
        reveal_strlit(".tox");
        assert(".tox"@.len() == 4);
        reveal_strlit(".nox");
        assert(".nox"@.len() == 4);
    }
    assert(first_rule(catalogue(), word, true, parent, siblings, 37) == first_rule(catalogue(), word, true, parent, siblings, 38));
    assert(!rule_applies(catalogue()[38], word, true, parent, siblings)) by {
        reveal_strlit(".hypothesis");
        assert(".hypothesis"@.len() == 11);
    }
    assert(first_rule(catalogue(), word, true, parent, siblings, 38) == first_rule(catalogue(), word, true, parent, siblings, 39));
    assert(!rule_applies(catalogue()[39], word, true, parent, siblings)) by {
        reveal_strlit("venv");
        assert("venv"@.len() == 4);
        reveal_strlit(".venv");
        assert(".venv"@.len() == 5);
        reveal_strlit("virtualenv");
        assert("virtualenv"@.len() == 10);
        reveal_strlit("env310");
        assert("env310"@.len() == 6);
        reveal_strlit("env311");
        assert("env311"@.len() == 6);
    }
    assert(first_rule(catalogue(), word, true, parent, siblings, 39) == first_rule(catalogue(), word, true, parent, siblings, 40));
    assert(!rule_applies(catalogue()[40], word, true, parent, siblings)) by {
        reveal_strlit("*.egg-info");
        assert("*.egg-info"@ =~= seq!['*', '.', 'e', 'g', 'g', '-', 'i', 'n', 'f', 'o']);
        lemma_tail_mismatch("*.egg-info"@, word);
    }
    assert(first_rule(catalogue(), word, true, parent, siblings, 40) == first_rule(catalogue(), word, true, parent, siblings, 41));
    assert(!rule_applies(catalogue()[41], word, true, parent, siblings)) by {
        reveal_strlit(".eggs");
        assert(".eggs"@.len() == 5);
    }
    assert(first_rule(catalogue(), word, true, parent, siblings, 41) == first_rule(catalogue(), word, true, parent, siblings, 42));
}

/// Rules 42 to 47 of the catalogue pass over a directory named `bin`.
#[verifier::spinoff_prover]
proof fn lemma_bin_needs_project_file_42(parent: Seq<char>, siblings: Seq<Seq<char>>)
    ensures
        first_rule(catalogue(), "bin"@, true, parent, siblings, 42) == first_rule(catalogue(), "bin"@, true, parent, siblings, 48),
{
    let word = "bin"@;
    reveal_strlit("bin");
    assert(word =~= seq!['b', 'i', 'n']);
    assert(!rule_applies(catalogue()[42], word, true, parent, siblings)) by {
        reveal_strlit(".ipynb_checkpoints");
        assert(".ipynb_checkpoints"@.len() == 18);
    }
    assert(first_rule(catalogue(), word, true, parent, siblings, 42) == first_rule(catalogue(), word, true, parent, siblings, 43));
    assert(!rule_applies(catalogue()[43], word, true, parent, siblings)) by {
        reveal_strlit("htmlcov");
        assert("htmlcov"@.len() == 7);
    }
    assert(first_rule(catalogue(), word, true, parent, siblings, 43) == first_rule(catalogue(), word, true, parent, siblings, 44));
    assert(!rule_applies(catalogue()[44], word, true, parent, siblings));
    assert(first_rule(catalogue(), word, true, parent, siblings, 44) == first_rule(catalogue(), word, true, parent, siblings, 45));
    assert(!rule_applies(catalogue()[45], word, true, parent, siblings)) by {
        reveal_strlit("dist");
        assert("dist"@.len() == 4);
        reveal_strlit("build");
        assert("build"@.len() == 5);
    }
    assert(first_rule(catalogue(), word, true, parent, siblings, 45) == first_rule(catalogue(), word, true, parent, siblings, 46));
    assert(!rule_applies(catalogue()[46], word, true, parent, siblings));
    assert(first_rule(catalogue(), word, true, parent, siblings, 46) == first_rule(catalogue(), word, true, parent, siblings, 47));
    assert(!rule_applies(catalogue()[47], word, true, parent, siblings)) by {
        reveal_strlit("site");
        assert("site"@.len() == 4);
    }
    assert(first_rule(catalogue(), word, true, parent, siblings, 47) == first_rule(catalogue(), word, true, parent, siblings, 48));
}

/// Rules 48 to 53 of the catalogue pass over a directory named `bin`.
#[verifier::spinoff_prover]
proof fn lemma_bin_needs_project_file_48(parent: Seq<char>, siblings: Seq<Seq<char>>)
    ensures
        first_rule(catalogue(), "bin"@, true, parent, siblings, 48) == first_rule(catalogue(), "bin"@, true, parent, siblings, 54),
{
    let word = "bin"@;
    reveal_strlit("bin");
    assert(word =~= seq!['b', 'i', 'n']);
    assert(!rule_applies(catalogue()[48], word, true, parent, siblings)) by {
        reveal_strlit("_build");
        assert("_build"@.len() == 6);
    }
    assert(first_rule(catalogue(), word, true, parent, siblings, 48) == first_rule(catalogue(), word, true, parent, siblings, 49));
    assert(!rule_applies(catalogue()[49], word, true, parent, siblings)) by {
        reveal_strlit("__pypackages__");
        assert("__pypackages__"@.len() == 14);
        reveal_strlit(".pdm-build");
        assert(".pdm-build"@.len() == 10);
    }
    assert(first_rule(catalogue(), word, true, parent, siblings, 49) == first_rule(catalogue(), word, true, parent, siblings, 50));
    assert(!rule_applies(catalogue()[50], word, true, parent, siblings)) by {
        reveal_strlit(".pyre");
        assert(".pyre"@.len() == 5);
        reveal_strlit(".pytype");
        assert(".pytype"@.len() == 7);
        reveal_strlit("cython_debug");
        assert("cython_debug"@.len() == 12);
    }
    assert(first_rule(catalogue(), word, true, parent, siblings, 50) == first_rule(catalogue(), word, true, parent, siblings, 51));
    assert(!rule_applies(catalogue()[51], word, true, parent, siblings));
    assert(first_rule(catalogue(), word, true, parent, siblings, 51) == first_rule(catalogue(), word, true, parent, siblings, 52));
    assert(!rule_applies(catalogue()[52], word, true, parent, siblings)) by {
        reveal_strlit(".scrapy");
        assert(".scrapy"@.len() == 7);
        reveal_strlit(".pybuilder");
        assert(".pybuilder"@.len() == 10);
        reveal_strlit("pip-wheel-metadata");
        assert("pip-wheel-metadata"@.len() == 18);
    }
    assert(first_rule(catalogue(), word, true, parent, siblings, 52) == first_rule(catalogue(), word, true, parent, siblings, 53));
    assert(!rule_applies(catalogue()[53], word, true, parent, siblings));
    assert(first_rule(catalogue(), word, true, parent, siblings, 53) == first_rule(catalogue(), word, true, parent, siblings, 54));
}

/// Rules 54 to 59 of the catalogue pass over a directory named `bin`.
#[verifier::spinoff_prover]
proof fn lemma_bin_needs_project_file_54(parent: Seq<char>, siblings: Seq<Seq<char>>)
    ensures
        first_rule(catalogue(), "bin"@, true, parent, siblings, 54) == first_rule(catalogue(), "bin"@, true, parent, siblings, 60),
{
    let word = "bin"@;
    reveal_strlit("bin");
    assert(word =~= seq!['b', 'i', 'n']);
    assert(!rule_applies(catalogue()[54], word, true, parent, siblings)) by {
        reveal_strlit("target");
        assert("target"@.len() == 6);
    }
    assert(first_rule(catalogue(), word, true, parent, siblings, 54) == first_rule(catalogue(), word, true, parent, siblings, 55));
    assert(!rule_applies(catalogue()[55], word, true, parent, siblings)) by {
        reveal_strlit("target");
        assert("target"@.len() == 6);
    }
    assert(first_rule(catalogue(), word, true, parent, siblings, 55) == first_rule(catalogue(), word, true, parent, siblings, 56));
    assert(!rule_applies(catalogue()[56], word, true, parent, siblings)) by {
        reveal_strlit("build");
        assert("build"@.len() == 5);
    }
    assert(first_rule(catalogue(), word, true, parent, siblings, 56) == first_rule(catalogue(), word, true, parent, siblings, 57));
    assert(!rule_applies(catalogue()[57], word, true, parent, siblings)) by {
        reveal_strlit(".gradle");
        assert(".gradle"@.len() == 7);
    }
    assert(first_rule(catalogue(), word, true, parent, siblings, 57) == first_rule(catalogue(), word, true, parent, siblings, 58));
    assert(!rule_applies(catalogue()[58], word, true, parent, siblings)) by {
        reveal_strlit(".kotlin");
        assert(".kotlin"@.len() == 7);
    }
    assert(first_rule(catalogue(), word, true, parent, siblings, 58) == first_rule(catalogue(), word, true, parent, siblings, 59));
    assert(!rule_applies(catalogue()[59], word, true, parent, siblings));
    assert(first_rule(catalogue(), word, true, parent, siblings, 59) == first_rule(catalogue(), word, true, parent, siblings, 60));
}

/// Rules 61 to 66 of the catalogue pass over a directory named `bin`.
#[verifier::spinoff_prover]
proof fn lemma_bin_needs_project_file_61(parent: Seq<char>, siblings: Seq<Seq<char>>)
    ensures
        first_rule(catalogue(), "bin"@, true, parent, siblings, 61) == first_rule(catalogue(), "bin"@, true, parent, siblings, 67),
{
    let word = "bin"@;
    reveal_strlit("bin");
    assert(word =~= seq!['b', 'i', 'n']);
    assert(!rule_applies(catalogue()[61], word, true, parent, siblings)) by {
        reveal_strlit("packages");
        assert("packages"@.len() == 8);
    }
    assert(first_rule(catalogue(), word, true, parent, siblings, 61) == first_rule(catalogue(), word, true, parent, siblings, 62));
    assert(!rule_applies(catalogue()[62], word, true, parent, siblings)) by {
        reveal_strlit(".vs");
        assert(".vs"@[0] == '.');
    }
    assert(first_rule(catalogue(), word, true, parent, siblings, 62) == first_rule(catalogue(), word, true, parent, siblings, 63));
    assert(!rule_applies(catalogue()[63], word, true, parent, siblings)) by {
        reveal_strlit("vendor");
        assert("vendor"@.len() == 6);
    }
    assert(first_rule(catalogue(), word, true, parent, siblings, 63) == first_rule(catalogue(), word, true, parent, siblings, 64));
    assert(!rule_applies(catalogue()[64], word, true, parent, siblings)) by {
        reveal_strlit("vendor");
        assert("vendor"@.len() == 6);
    }
    assert(first_rule(catalogue(), word, true, parent, siblings, 64) == first_rule(catalogue(), word, true, parent, siblings, 65));
    assert(!rule_applies(catalogue()[65], word, true, parent, siblings)) by {
        reveal_strlit("bundle");
        assert("bundle"@.len() == 6);
    }
    assert(first_rule(catalogue(), word, true, parent, siblings, 65) == first_rule(catalogue(), word, true, parent, siblings, 66));
    assert(!rule_applies(catalogue()[66], word, true, parent, siblings)) by {
        reveal_strlit(".bundle");
        assert(".bundle"@.len() == 7);
    }
    assert(first_rule(catalogue(), word, true, parent, siblings, 66) == first_rule(catalogue(), word, true, parent, siblings, 67));
}

/// Rules 67 to 72 of the catalogue pass over a directory named `bin`.
#[verifier::spinoff_prover]
proof fn lemma_bin_needs_project_file_67(parent: Seq<char>, siblings: Seq<Seq<char>>)
    ensures
        first_rule(catalogue(), "bin"@, true, parent, siblings, 67) == first_rule(catalogue(), "bin"@, true, parent, siblings, 73),
{
    let word = "bin"@;
    reveal_strlit("bin");
    assert(word =~= seq!['b', 'i', 'n']);
    assert(!rule_applies(catalogue()[67], word, true, parent, siblings)) by {
        reveal_strlit("CMakeFiles");
        assert("CMakeFiles"@.len() == 10);
    }
    assert(first_rule(catalogue(), word, true, parent, siblings, 67) == first_rule(catalogue(), word, true, parent, siblings, 68));
    assert(!rule_applies(catalogue()[68], word, true, parent, siblings)) by {
        reveal_strlit("cmake-build-*");
        assert("cmake-build-*"@ =~= seq!['c', 'm', 'a', 'k', 'e', '-', 'b', 'u', 'i', 'l', 'd', '-', '*']);
        lemma_prefix_mismatch("cmake-build-*"@, word, 0);
    }
    assert(first_rule(catalogue(), word, true, parent, siblings, 68) == first_rule(catalogue(), word, true, parent, siblings, 69));
    assert(!rule_applies(catalogue()[69], word, true, parent, siblings));
    assert(first_rule(catalogue(), word, true, parent, siblings, 69) == first_rule(catalogue(), word, true, parent, siblings, 70));
    assert(!rule_applies(catalogue()[70], word, true, parent, siblings)) by {
        reveal_strlit(".ccls-cache");
        assert(".ccls-cache"@.len() == 11);
        reveal_strlit(".clangd");
        assert(".clangd"@.len() == 7);
    }
    assert(first_rule(catalogue(), word, true, parent, siblings, 70) == first_rule(catalogue(), word, true, parent, siblings, 71));
    assert(!rule_applies(catalogue()[71], word, true, parent, siblings));
    assert(first_rule(catalogue(), word, true, parent, siblings, 71) == first_rule(catalogue(), word, true, parent, siblings, 72));
    assert(!rule_applies(catalogue()[72], word, true, parent, siblings)) by {
        reveal_strlit("Debug");
        assert("Debug"@.len() == 5);
        reveal_strlit("Release");
        assert("Release"@.len() == 7);
        reveal_strlit("x64");
        assert("x64"@[0] == 'x');
        reveal_strlit("Win32");
        assert("Win32"@.len() == 5);
        reveal_strlit("ARM64");
        assert("ARM64"@.len() == 5);
        reveal_strlit("ipch");
        assert("ipch"@.len() == 4);
    }
    assert(first_rule(catalogue(), word, true, parent, siblings, 72) == first_rule(catalogue(), word, true, parent, siblings, 73));
}

/// Rules 73 to 78 of the catalogue pass over a directory named `bin`.
#[verifier::spinoff_prover]
proof fn lemma_bin_needs_project_file_73(parent: Seq<char>, siblings: Seq<Seq<char>>)
    ensures
        first_rule(catalogue(), "bin"@, true, parent, siblings, 73) == first_rule(catalogue(), "bin"@, true, parent, siblings, 79),
{
    let word = "bin"@;
    reveal_strlit("bin");
    assert(word =~= seq!['b', 'i', 'n']);
    assert(!rule_applies(catalogue()[73], word, true, parent, siblings)) by {
        reveal_strlit(".deps");
        assert(".deps"@.len() == 5);
        reveal_strlit(".libs");
        assert(".libs"@.len() == 5);
        reveal_strlit("autom4te.cache");
        assert("autom4te.cache"@.len() == 14);
    }
    assert(first_rule(catalogue(), word, true, parent, siblings, 73) == first_rule(catalogue(), word, true, parent, siblings, 74));
    assert(!rule_applies(catalogue()[74], word, true, parent, siblings));
    assert(first_rule(catalogue(), word, true, parent, siblings, 74) == first_rule(catalogue(), word, true, parent, siblings, 75));
    assert(!rule_applies(catalogue()[75], word, true, parent, siblings)) by {
        reveal_strlit("vcpkg_installed");
        assert("vcpkg_installed"@.len() == 15);
    }
    assert(first_rule(catalogue(), word, true, parent, siblings, 75) == first_rule(catalogue(), word, true, parent, siblings, 76));
    assert(!rule_applies(catalogue()[76], word, true, parent, siblings)) by {
        reveal_strlit("DerivedData");
        assert("DerivedData"@.len() == 11);
    }
    assert(first_rule(catalogue(), word, true, parent, siblings, 76) == first_rule(catalogue(), word, true, parent, siblings, 77));
    assert(!rule_applies(catalogue()[77], word, true, parent, siblings)) by {
        reveal_strlit(".build");
        assert(".build"@.len() == 6);
    }
    assert(first_rule(catalogue(), word, true, parent, siblings, 77) == first_rule(catalogue(), word, true, parent, siblings, 78));
    assert(!rule_applies(catalogue()[78], word, true, parent, siblings)) by {
        reveal_strlit("Pods");
        assert("Pods"@.len() == 4);
    }
    assert(first_rule(catalogue(), word, true, parent, siblings, 78) == first_rule(catalogue(), word, true, parent, siblings, 79));
}

/// Rules 79 to 84 of the catalogue pass over a directory named `bin`.
#[verifier::spinoff_prover]
proof fn lemma_bin_needs_project_file_79(parent: Seq<char>, siblings: Seq<Seq<char>>)
    ensures
        first_rule(catalogue(), "bin"@, true, parent, siblings, 79) == first_rule(catalogue(), "bin"@, true, parent, siblings, 85),
{
    let word = "bin"@;
    reveal_strlit("bin");
    assert(word =~= seq!['b', 'i', 'n']);
    assert(!rule_applies(catalogue()[79], word, true, parent, siblings)) by {
        reveal_strlit("Build");
        assert("Build"@.len() == 5);
    }
    assert(first_rule(catalogue(), word, true, parent, siblings, 79) == first_rule(catalogue(), word, true, parent, siblings, 80));
    assert(!rule_applies(catalogue()[80], word, true, parent, siblings)) by {
        reveal_strlit("xcuserdata");
        assert("xcuserdata"@.len() == 10);
        reveal_strlit("*.xcuserdatad");
        assert("*.xcuserdatad"@ =~= seq!['*', '.', 'x', 'c', 'u', 's', 'e', 'r', 'd', 'a', 't', 'a', 'd']);
        lemma_tail_mismatch("*.xcuserdatad"@, word);
    }
    assert(first_rule(catalogue(), word, true, parent, siblings, 80) == first_rule(catalogue(), word, true, parent, siblings, 81));
    assert(!rule_applies(catalogue()[81], word, true, parent, siblings)) by {
        reveal_strlit(".swiftpm");
        assert(".swiftpm"@.len() == 8);
    }
    assert(first_rule(catalogue(), word, true, parent, siblings, 81) == first_rule(catalogue(), word, true, parent, siblings, 82));
    assert(!rule_applies(catalogue()[82], word, true, parent, siblings)) by {
        reveal_strlit(".dart_tool");
        assert(".dart_tool"@.len() == 10);
    }
    assert(first_rule(catalogue(), word, true, parent, siblings, 82) == first_rule(catalogue(), word, true, parent, siblings, 83));
    assert(!rule_applies(catalogue()[83], word, true, parent, siblings));
    assert(first_rule(catalogue(), word, true, parent, siblings, 83) == first_rule(catalogue(), word, true, parent, siblings, 84));
    assert(!rule_applies(catalogue()[84], word, true, parent, siblings)) by {
        reveal_strlit("_build");
        assert("_build"@.len() == 6);
    }
    assert(first_rule(catalogue(), word, true, parent, siblings, 84) == first_rule(catalogue(), word, true, parent, siblings, 85));
}

/// Rules 85 to 90 of the catalogue pass over a directory named `bin`.
#[verifier::spinoff_prover]
proof fn lemma_bin_needs_project_file_85(parent: Seq<char>, siblings: Seq<Seq<char>>)
    ensures
        first_rule(catalogue(), "bin"@, true, parent, siblings, 85) == first_rule(catalogue(), "bin"@, true, parent, siblings, 91),
{
    let word = "bin"@;
    reveal_strlit("bin");
    assert(word =~= seq!['b', 'i', 'n']);
    assert(!rule_applies(catalogue()[85], word, true, parent, siblings)) by {
        reveal_strlit("deps");
        assert("deps"@.len() == 4);
    }
    assert(first_rule(catalogue(), word, true, parent, siblings, 85) == first_rule(catalogue(), word, true, parent, siblings, 86));
    assert(!rule_applies(catalogue()[86], word, true, parent, siblings)) by {
        reveal_strlit(".cxx");
        assert(".cxx"@.len() == 4);
    }
    assert(first_rule(catalogue(), word, true, parent, siblings, 86) == first_rule(catalogue(), word, true, parent, siblings, 87));
    assert(!rule_applies(catalogue()[87], word, true, parent, siblings)) by {
        reveal_strlit("Library");
        assert("Library"@.len() == 7);
        reveal_strlit("Temp");
        assert("Temp"@.len() == 4);
        reveal_strlit("Obj");
        assert("Obj"@[0] == 'O');
        reveal_strlit("Logs");
        assert("Logs"@.len() == 4);
        reveal_strlit("UserSettings");
        assert("UserSettings"@.len() == 12);
    }
    assert(first_rule(catalogue(), word, true, parent, siblings, 87) == first_rule(catalogue(), word, true, parent, siblings, 88));
    assert(!rule_applies(catalogue()[88], word, true, parent, siblings)) by {
        reveal_strlit(".godot");
        assert(".godot"@.len() == 6);
        reveal_strlit(".import");
        assert(".import"@.len() == 7);
    }
    assert(first_rule(catalogue(), word, true, parent, siblings, 88) == first_rule(catalogue(), word, true, parent, siblings, 89));
    assert(!rule_applies(catalogue()[89], word, true, parent, siblings)) by {
        reveal_strlit("Binaries");
        assert("Binaries"@.len() == 8);
        reveal_strlit("Intermediate");
        assert("Intermediate"@.len() == 12);
        reveal_strlit("DerivedDataCache");
        assert("DerivedDataCache"@.len() == 16);
        reveal_strlit("Saved");
        assert("Saved"@.len() == 5);
    }
    assert(first_rule(catalogue(), word, true, parent, siblings, 89) == first_rule(catalogue(), word, true, parent, siblings, 90));
    assert(!rule_applies(catalogue()[90], word, true, parent, siblings)) by {
        reveal_strlit("Build");
        assert("Build"@.len() == 5);
        reveal_strlit("Builds");
        assert("Builds"@.len() == 6);
        reveal_strlit("MemoryCaptures");
        assert("MemoryCaptures"@.len() == 14);
        reveal_strlit("Recordings");
        assert("Recordings"@.len() == 10);
    }
    assert(first_rule(catalogue(), word, true, parent, siblings, 90) == first_rule(catalogue(), word, true, parent, siblings, 91));
}

/// Rules 91 to 96 of the catalogue pass over a directory named `bin`.
#[verifier::spinoff_prover]
proof fn lemma_bin_needs_project_file_91(parent: Seq<char>, siblings: Seq<Seq<char>>)
    ensures
        first_rule(catalogue(), "bin"@, true, parent, siblings, 91) == first_rule(catalogue(), "bin"@, true, parent, siblings, 97),
{
    let word = "bin"@;
    reveal_strlit("bin");
    assert(word =~= seq!['b', 'i', 'n']);
    assert(!rule_applies(catalogue()[91], word, true, parent, siblings)) by {
        reveal_strlit("huggingface");
        assert("huggingface"@.len() == 11);
    }
    assert(first_rule(catalogue(), word, true, parent, siblings, 91) == first_rule(catalogue(), word, true, parent, siblings, 92));
    assert(!rule_applies(catalogue()[92], word, true, parent, siblings));
    assert(first_rule(catalogue(), word, true, parent, siblings, 92) == first_rule(catalogue(), word, true, parent, siblings, 93));
    assert(!rule_applies(catalogue()[93], word, true, parent, siblings));
    assert(first_rule(catalogue(), word, true, parent, siblings, 93) == first_rule(catalogue(), word, true, parent, siblings, 94));
    assert(!rule_applies(catalogue()[94], word, true, parent, siblings)) by {
        reveal_strlit("wandb");
        assert("wandb"@.len() == 5);
        reveal_strlit("mlruns");
        assert("mlruns"@.len() == 6);
        reveal_strlit("lightning_logs");
        assert("lightning_logs"@.len() == 14);
    }
    assert(first_rule(catalogue(), word, true, parent, siblings, 94) == first_rule(catalogue(), word, true, parent, siblings, 95));
    assert(!rule_applies(catalogue()[95], word, true, parent, siblings)) by {
        reveal_strlit("runs");
        assert("runs"@.len() == 4);
        reveal_strlit("multirun");
        assert("multirun"@.len() == 8);
        reveal_strlit(".neptune");
        assert(".neptune"@.len() == 8);
        reveal_strlit("catboost_info");
        assert("catboost_info"@.len() == 13);
        reveal_strlit(".aim");
        assert(".aim"@.len() == 4);
    }
    assert(first_rule(catalogue(), word, true, parent, siblings, 95) == first_rule(catalogue(), word, true, parent, siblings, 96));
    assert(!rule_applies(catalogue()[96], word, true, parent, siblings)) by {
        reveal_strlit(".terraform");
        assert(".terraform"@.len() == 10);
    }
    assert(first_rule(catalogue(), word, true, parent, siblings, 96) == first_rule(catalogue(), word, true, parent, siblings, 97));
}

/// Rules 97 to 102 of the catalogue pass over a directory named `bin`.
#[verifier::spinoff_prover]
proof fn lemma_bin_needs_project_file_97(parent: Seq<char>, siblings: Seq<Seq<char>>)
    ensures
        first_rule(catalogue(), "bin"@, true, parent, siblings, 97) == first_rule(catalogue(), "bin"@, true, parent, siblings, 103),
{
    let word = "bin"@;
    reveal_strlit("bin");
    assert(word =~= seq!['b', 'i', 'n']);
    assert(!rule_applies(catalogue()[97], word, true, parent, siblings)) by {
        reveal_strlit(".terragrunt-cache");
        assert(".terragrunt-cache"@.len() == 17);
    }
    assert(first_rule(catalogue(), word, true, parent, siblings, 97) == first_rule(catalogue(), word, true, parent, siblings, 98));
    assert(!rule_applies(catalogue()[98], word, true, parent, siblings)) by {
        reveal_strlit(".pulumi");
        assert(".pulumi"@.len() == 7);
    }
    assert(first_rule(catalogue(), word, true, parent, siblings, 98) == first_rule(catalogue(), word, true, parent, siblings, 99));
    assert(!rule_applies(catalogue()[99], word, true, parent, siblings)) by {
        reveal_strlit(".vagrant");
        assert(".vagrant"@.len() == 8);
    }
    assert(first_rule(catalogue(), word, true, parent, siblings, 99) == first_rule(catalogue(), word, true, parent, siblings, 100));
    assert(!rule_applies(catalogue()[100], word, true, parent, siblings)) by {
        reveal_strlit("_site");
        assert("_site"@.len() == 5);
        reveal_strlit(".jekyll-cache");
        assert(".jekyll-cache"@.len() == 13);
    }
    assert(first_rule(catalogue(), word, true, parent, siblings, 100) == first_rule(catalogue(), word, true, parent, siblings, 101));
    assert(!rule_applies(catalogue()[101], word, true, parent, siblings)) by {
        reveal_strlit("public");
        assert("public"@.len() == 6);
        reveal_strlit("resources");
        assert("resources"@.len() == 9);
    }
    assert(first_rule(catalogue(), word, true, parent, siblings, 101) == first_rule(catalogue(), word, true, parent, siblings, 102));
    assert(!rule_applies(catalogue()[102], word, true, parent, siblings)) by {
        reveal_strlit(".sass-cache");
        assert(".sass-cache"@.len() == 11);
    }
    assert(first_rule(catalogue(), word, true, parent, siblings, 102) == first_rule(catalogue(), word, true, parent, siblings, 103));
}

/// Rules 103 to 108 of the catalogue pass over a directory named `bin`.
#[verifier::spinoff_prover]
proof fn lemma_bin_needs_project_file_103(parent: Seq<char>, siblings: Seq<Seq<char>>)
    ensures
        first_rule(catalogue(), "bin"@, true, parent, siblings, 103) == first_rule(catalogue(), "bin"@, true, parent, siblings, 109),
{
    let word = "bin"@;
    reveal_strlit("bin");
    assert(word =~= seq!['b', 'i', 'n']);
    assert(!rule_applies(catalogue()[103], word, true, parent, siblings)) by {
        reveal_strlit(".quarto");
        assert(".quarto"@.len() == 7);
        reveal_strlit("_freeze");
        assert("_freeze"@.len() == 7);
    }
    assert(first_rule(catalogue(), word, true, parent, siblings, 103) == first_rule(catalogue(), word, true, parent, siblings, 104));
    assert(!rule_applies(catalogue()[104], word, true, parent, siblings)) by {
        reveal_strlit("_book");
        assert("_book"@.len() == 5);
        reveal_strlit(".docz");
        assert(".docz"@.len() == 5);
    }
    assert(first_rule(catalogue(), word, true, parent, siblings, 104) == first_rule(catalogue(), word, true, parent, siblings, 105));
    assert(!rule_applies(catalogue()[105], word, true, parent, siblings)) by {
        reveal_strlit(".idea");
        assert(".idea"@.len() == 5);
    }
    assert(first_rule(catalogue(), word, true, parent, siblings, 105) == first_rule(catalogue(), word, true, parent, siblings, 106));
    assert(!rule_applies(catalogue()[106], word, true, parent, siblings)) by {
        reveal_strlit(".history");
        assert(".history"@.len() == 8);
    }
    assert(first_rule(catalogue(), word, true, parent, siblings, 106) == first_rule(catalogue(), word, true, parent, siblings, 107));
    assert(!rule_applies(catalogue()[107], word, true, parent, siblings)) by {
        reveal_strlit(".direnv");
        assert(".direnv"@.len() == 7);
    }
    assert(first_rule(catalogue(), word, true, parent, siblings, 107) == first_rule(catalogue(), word, true, parent, siblings, 108));
    assert(!rule_applies(catalogue()[108], word, true, parent, siblings));
    assert(first_rule(catalogue(), word, true, parent, siblings, 108) == first_rule(catalogue(), word, true, parent, siblings, 109));
}

/// Rules 109 to 114 of the catalogue pass over a directory named `bin`.
#[verifier::spinoff_prover]
proof fn lemma_bin_needs_project_file_109(parent: Seq<char>, siblings: Seq<Seq<char>>)
    ensures
        first_rule(catalogue(), "bin"@, true, parent, siblings, 109) == first_rule(catalogue(), "bin"@, true, parent, siblings, 115),
{
    let word = "bin"@;
    reveal_strlit("bin");
    assert(word =~= seq!['b', 'i', 'n']);
    assert(!rule_applies(catalogue()[109], word, true, parent, siblings));
    assert(first_rule(catalogue(), word, true, parent, siblings, 109) == first_rule(catalogue(), word, true, parent, siblings, 110));
    assert(!rule_applies(catalogue()[110], word, true, parent, siblings)) by {
        reveal_strlit(".Spotlight-V100");
        assert(".Spotlight-V100"@.len() == 15);
        reveal_strlit(".Trashes");
        assert(".Trashes"@.len() == 8);
        reveal_strlit(".fseventsd");
        assert(".fseventsd"@.len() == 10);
        reveal_strlit("$RECYCLE.BIN");
        assert("$RECYCLE.BIN"@.len() == 12);
    }
    assert(first_rule(catalogue(), word, true, parent, siblings, 110) == first_rule(catalogue(), word, true, parent, siblings, 111));
    assert(!rule_applies(catalogue()[111], word, true, parent, siblings)) by {
        reveal_strlit("dist");
        assert("dist"@.len() == 4);
        reveal_strlit("out");
        assert("out"@[0] == 'o');
    }
    assert(first_rule(catalogue(), word, true, parent, siblings, 111) == first_rule(catalogue(), word, true, parent, siblings, 112));
    assert(!rule_applies(catalogue()[112], word, true, parent, siblings)) by {
        reveal_strlit("build");
        assert("build"@.len() == 5);
        reveal_strlit("_build");
        assert("_build"@.len() == 6);
    }
    assert(first_rule(catalogue(), word, true, parent, siblings, 112) == first_rule(catalogue(), word, true, parent, siblings, 113));
    assert(!rule_applies(catalogue()[113], word, true, parent, siblings)) by {
        reveal_strlit(".cache");
        assert(".cache"@.len() == 6);
        reveal_strlit(".temp");
        assert(".temp"@.len() == 5);
        reveal_strlit(".tmp");
        assert(".tmp"@.len() == 4);
    }
    assert(first_rule(catalogue(), word, true, parent, siblings, 113) == first_rule(catalogue(), word, true, parent, siblings, 114));
    assert(!rule_applies(catalogue()[114], word, true, parent, siblings)) by {
        reveal_strlit("tmp");
        assert("tmp"@[0] == 't');
        reveal_strlit("temp");
        assert("temp"@.len() == 4);
    }
    assert(first_rule(catalogue(), word, true, parent, siblings, 114) == first_rule(catalogue(), word, true, parent, siblings, 115));
}

/// Rules 115 to 119 of the catalogue pass over a directory named `bin`.
#[verifier::spinoff_prover]
proof fn lemma_bin_needs_project_file_115(parent: Seq<char>, siblings: Seq<Seq<char>>)
    ensures
        first_rule(catalogue(), "bin"@, true, parent, siblings, 115) == first_rule(catalogue(), "bin"@, true, parent, siblings, 120),
{
    let word = "bin"@;
    reveal_strlit("bin");
    assert(word =~= seq!['b', 'i', 'n']);
    assert(!rule_applies(catalogue()[115], word, true, parent, siblings)) by {
        reveal_strlit("coverage");
        assert("coverage"@.len() == 8);
    }
    assert(first_rule(catalogue(), word, true, parent, siblings, 115) == first_rule(catalogue(), word, true, parent, siblings, 116));
    assert(!rule_applies(catalogue()[116], word, true, parent, siblings)) by {
        reveal_strlit("logs");
        assert("logs"@.len() == 4);
    }
    assert(first_rule(catalogue(), word, true, parent, siblings, 116) == first_rule(catalogue(), word, true, parent, siblings, 117));
    assert(!rule_applies(catalogue()[117], word, true, parent, siblings));
    assert(first_rule(catalogue(), word, true, parent, siblings, 117) == first_rule(catalogue(), word, true, parent, siblings, 118));
    assert(!rule_applies(catalogue()[118], word, true, parent, siblings));
    assert(first_rule(catalogue(), word, true, parent, siblings, 118) == first_rule(catalogue(), word, true, parent, siblings, 119));
    assert(!rule_applies(catalogue()[119], word, true, parent, siblings));
    assert(first_rule(catalogue(), word, true, parent, siblings, 119) == first_rule(catalogue(), word, true, parent, siblings, 120));
}

/// A directory named `bin` is claimed as .NET build output only beside a
/// `*.csproj` file, whatever its parent and its other siblings.
pub proof fn lemma_bin_needs_project_file(parent: Seq<char>, siblings: Seq<Seq<char>>)
    ensures
        match first_rule(catalogue(), "bin"@, true, parent, siblings, 0) {
            Some(r) => r.id == "dotnet_bin" && some_name_matches(siblings, "*.csproj"@),
            None => !some_name_matches(siblings, "*.csproj"@),
        },
{
    let word = "bin"@;
    lemma_bin_needs_project_file_0(parent, siblings);
    lemma_bin_needs_project_file_6(parent, siblings);
    lemma_bin_needs_project_file_12(parent, siblings);
    lemma_bin_needs_project_file_18(parent, siblings);
    lemma_bin_needs_project_file_24(parent, siblings);
    lemma_bin_needs_project_file_30(parent, siblings);
    lemma_bin_needs_project_file_36(parent, siblings);
    lemma_bin_needs_project_file_42(parent, siblings);
    lemma_bin_needs_project_file_48(parent, siblings);
    lemma_bin_needs_project_file_54(parent, siblings);
    lemma_bin_needs_project_file_61(parent, siblings);
    lemma_bin_needs_project_file_67(parent, siblings);
    lemma_bin_needs_project_file_73(parent, siblings);
    lemma_bin_needs_project_file_79(parent, siblings);
    lemma_bin_needs_project_file_85(parent, siblings);
    lemma_bin_needs_project_file_91(parent, siblings);
    lemma_bin_needs_project_file_97(parent, siblings);
    lemma_bin_needs_project_file_103(parent, siblings);
    lemma_bin_needs_project_file_109(parent, siblings);
    lemma_bin_needs_project_file_115(parent, siblings);
    assert(strs(catalogue()[60].names@)[0] == word);
    assert(rule_applies(catalogue()[60], word, true, parent, siblings) == some_name_matches(siblings, "*.csproj"@)) by {
        reveal_strlit("*.csproj");
        assert("*.csproj"@ =~= seq!['*', '.', 'c', 's', 'p', 'r', 'o', 'j']);
        let markers = strs(catalogue()[60].requires@);
        assert(markers =~= seq!["*.csproj"@]);
        assert("*.csproj"@[0] == '*');
        assert(marker_present(siblings, "*.csproj"@) == some_name_matches(siblings, "*.csproj"@));
        if some_name_matches(siblings, "*.csproj"@) {
            assert(marker_present(siblings, markers[0]));
        }
    }
    assert(first_rule(catalogue(), word, true, parent, siblings, 60) == if rule_applies(catalogue()[60], word, true, parent, siblings) { Some(catalogue()[60]) } else { first_rule(catalogue(), word, true, parent, siblings, 61) });
    assert(first_rule(catalogue(), word, true, parent, siblings, 120) == None::<Rule>);
}

/// Rules 0 to 5 of the catalogue pass over a directory named `obj`.
#[verifier::spinoff_prover]
proof fn lemma_obj_needs_project_file_0(parent: Seq<char>, siblings: Seq<Seq<char>>)
    ensures
        first_rule(catalogue(), "obj"@, true, parent, siblings, 0) == first_rule(catalogue(), "obj"@, true, parent, siblings, 6),
{
    let word = "obj"@;
    reveal_strlit("obj");
    assert(word =~= seq!['o', 'b', 'j']);
    assert(!rule_applies(catalogue()[0], word, true, parent, siblings)) by {
        reveal_strlit("node_modules");
        assert("node_modules"@.len() == 12);
    }
    assert(first_rule(catalogue(), word, true, parent, siblings, 0) == first_rule(catalogue(), word, true, parent, siblings, 1));
    assert(!rule_applies(catalogue()[1], word, true, parent, siblings)) by {
        reveal_strlit(".next");
        assert(".next"@.len() == 5);
    }
    assert(first_rule(catalogue(), word, true, parent, siblings, 1) == first_rule(catalogue(), word, true, parent, siblings, 2));
    assert(!rule_applies(catalogue()[2], word, true, parent, siblings)) by {
        reveal_strlit(".nuxt");
        assert(".nuxt"@.len() == 5);
    }
    assert(first_rule(catalogue(), word, true, parent, siblings, 2) == first_rule(catalogue(), word, true, parent, siblings, 3));
    assert(!rule_applies(catalogue()[3], word, true, parent, siblings)) by {
        reveal_strlit(".output");
        assert(".output"@.len() == 7);
    }
    assert(first_rule(catalogue(), word, true, parent, siblings, 3) == first_rule(catalogue(), word, true, parent, siblings, 4));
    assert(!rule_applies(catalogue()[4], word, true, parent, siblings)) by {
        reveal_strlit(".svelte-kit");
        assert(".svelte-kit"@.len() == 11);
    }
    assert(first_rule(catalogue(), word, true, parent, siblings, 4) == first_rule(catalogue(), word, true, parent, siblings, 5));
    assert(!rule_applies(catalogue()[5], word, true, parent, siblings)) by {
        reveal_strlit(".astro");
        assert(".astro"@.len() == 6);
    }
    assert(first_rule(catalogue(), word, true, parent, siblings, 5) == first_rule(catalogue(), word, true, parent, siblings, 6));
}

/// Rules 6 to 11 of the catalogue pass over a directory named `obj`.
#[verifier::spinoff_prover]
proof fn lemma_obj_needs_project_file_6(parent: Seq<char>, siblings: Seq<Seq<char>>)
    ensures
        first_rule(catalogue(), "obj"@, true, parent, siblings, 6) == first_rule(catalogue(), "obj"@, true, parent, siblings, 12),
{
    let word = "obj"@;
    reveal_strlit("obj");
    assert(word =~= seq!['o', 'b', 'j']);
    assert(!rule_applies(catalogue()[6], word, true, parent, siblings)) by {
        reveal_strlit(".docusaurus");
        assert(".docusaurus"@.len() == 11);
    }
    assert(first_rule(catalogue(), word, true, parent, siblings, 6) == first_rule(catalogue(), word, true, parent, siblings, 7));
    assert(!rule_applies(catalogue()[7], word, true, parent, siblings)) by {
        reveal_strlit(".angular");
        assert(".angular"@.len() == 8);
    }
    assert(first_rule(catalogue(), word, true, parent, siblings, 7) == first_rule(catalogue(), word, true, parent, siblings, 8));
    assert(!rule_applies(catalogue()[8], word, true, parent, siblings)) by {
        reveal_strlit(".parcel-cache");
        assert(".parcel-cache"@.len() == 13);
    }
    assert(first_rule(catalogue(), word, true, parent, siblings, 8) == first_rule(catalogue(), word, true, parent, siblings, 9));
    assert(!rule_applies(catalogue()[9], word, true, parent, siblings)) by {
        reveal_strlit(".turbo");
        assert(".turbo"@.len() == 6);
    }
    assert(first_rule(catalogue(), word, true, parent, siblings, 9) == first_rule(catalogue(), word, true, parent, siblings, 10));
    assert(!rule_applies(catalogue()[10], word, true, parent, siblings)) by {
        reveal_strlit(".vite");
        assert(".vite"@.len() == 5);
    }
    assert(first_rule(catalogue(), word, true, parent, siblings, 10) == first_rule(catalogue(), word, true, parent, siblings, 11));
    assert(!rule_applies(catalogue()[11], word, true, parent, siblings)) by {
        reveal_strlit(".rollup.cache");
        assert(".rollup.cache"@.len() == 13);
    }
    assert(first_rule(catalogue(), word, true, parent, siblings, 11) == first_rule(catalogue(), word, true, parent, siblings, 12));
}

/// Rules 12 to 17 of the catalogue pass over a directory named `obj`.
#[verifier::spinoff_prover]
proof fn lemma_obj_needs_project_file_12(parent: Seq<char>, siblings: Seq<Seq<char>>)
    ensures
        first_rule(catalogue(), "obj"@, true, parent, siblings, 12) == first_rule(catalogue(), "obj"@, true, parent, siblings, 18),
{
    let word = "obj"@;
    reveal_strlit("obj");
    assert(word =~= seq!['o', 'b', 'j']);
    assert(!rule_applies(catalogue()[12], word, true, parent, siblings)) by {
        reveal_strlit(".webpack");
        assert(".webpack"@.len() == 8);
    }
    assert(first_rule(catalogue(), word, true, parent, siblings, 12) == first_rule(catalogue(), word, true, parent, siblings, 13));
    assert(!rule_applies(catalogue()[13], word, true, parent, siblings)) by {
        reveal_strlit(".serverless");
        assert(".serverless"@.len() == 11);
    }
    assert(first_rule(catalogue(), word, true, parent, siblings, 13) == first_rule(catalogue(), word, true, parent, siblings, 14));
    assert(!rule_applies(catalogue()[14], word, true, parent, siblings)) by {
        reveal_strlit("cache");
        assert("cache"@.len() == 5);
        reveal_strlit("unplugged");
        assert("unplugged"@.len() == 9);
    }
    assert(first_rule(catalogue(), word, true, parent, siblings, 14) == first_rule(catalogue(), word, true, parent, siblings, 15));
    assert(!rule_applies(catalogue()[15], word, true, parent, siblings)) by {
        reveal_strlit(".pnpm-store");
        assert(".pnpm-store"@.len() == 11);
    }
    assert(first_rule(catalogue(), word, true, parent, siblings, 15) == first_rule(catalogue(), word, true, parent, siblings, 16));
    assert(!rule_applies(catalogue()[16], word, true, parent, siblings)) by {
        reveal_strlit(".expo");
        assert(".expo"@.len() == 5);
        reveal_strlit(".expo-shared");
        assert(".expo-shared"@.len() == 12);
    }
    assert(first_rule(catalogue(), word, true, parent, siblings, 16) == first_rule(catalogue(), word, true, parent, siblings, 17));
    assert(!rule_applies(catalogue()[17], word, true, parent, siblings)) by {
        reveal_strlit(".metro-cache");
        assert(".metro-cache"@.len() == 12);
    }
    assert(first_rule(catalogue(), word, true, parent, siblings, 17) == first_rule(catalogue(), word, true, parent, siblings, 18));
}

/// Rules 18 to 23 of the catalogue pass over a directory named `obj`.
#[verifier::spinoff_prover]
proof fn lemma_obj_needs_project_file_18(parent: Seq<char>, siblings: Seq<Seq<char>>)
    ensures
        first_rule(catalogue(), "obj"@, true, parent, siblings, 18) == first_rule(catalogue(), "obj"@, true, parent, siblings, 24),
{
    let word = "obj"@;
    reveal_strlit("obj");
    assert(word =~= seq!['o', 'b', 'j']);
    assert(!rule_applies(catalogue()[18], word, true, parent, siblings)) by {
        reveal_strlit("storybook-static");
        assert("storybook-static"@.len() == 16);
    }
    assert(first_rule(catalogue(), word, true, parent, siblings, 18) == first_rule(catalogue(), word, true, parent, siblings, 19));
    assert(!rule_applies(catalogue()[19], word, true, parent, siblings)) by {
        reveal_strlit(".nyc_output");
        assert(".nyc_output"@.len() == 11);
    }
    assert(first_rule(catalogue(), word, true, parent, siblings, 19) == first_rule(catalogue(), word, true, parent, siblings, 20));
    assert(!rule_applies(catalogue()[20], word, true, parent, siblings));
    assert(first_rule(catalogue(), word, true, parent, siblings, 20) == first_rule(catalogue(), word, true, parent, siblings, 21));
    assert(!rule_applies(catalogue()[21], word, true, parent, siblings));
    assert(first_rule(catalogue(), word, true, parent, siblings, 21) == first_rule(catalogue(), word, true, parent, siblings, 22));
    assert(!rule_applies(catalogue()[22], word, true, parent, siblings)) by {
        reveal_strlit(".nx");
        assert(".nx"@[0] == '.');
    }
    assert(first_rule(catalogue(), word, true, parent, siblings, 22) == first_rule(catalogue(), word, true, parent, siblings, 23));
    assert(!rule_applies(catalogue()[23], word, true, parent, siblings)) by {
        reveal_strlit(".swc");
        assert(".swc"@.len() == 4);
    }
    assert(first_rule(catalogue(), word, true, parent, siblings, 23) == first_rule(catalogue(), word, true, parent, siblings, 24));
}

/// Rules 24 to 29 of the catalogue pass over a directory named `obj`.
#[verifier::spinoff_prover]
proof fn lemma_obj_needs_project_file_24(parent: Seq<char>, siblings: Seq<Seq<char>>)
    ensures
        first_rule(catalogue(), "obj"@, true, parent, siblings, 24) == first_rule(catalogue(), "obj"@, true, parent, siblings, 30),
{
    let word = "obj"@;
    reveal_strlit("obj");
    assert(word =~= seq!['o', 'b', 'j']);
    assert(!rule_applies(catalogue()[24], word, true, parent, siblings)) by {
        reveal_strlit("bower_components");
        assert("bower_components"@.len() == 16);
        reveal_strlit("jspm_packages");
        assert("jspm_packages"@.len() == 13);
        reveal_strlit("web_modules");
        assert("web_modules"@.len() == 11);
    }
    assert(first_rule(catalogue(), word, true, parent, siblings, 24) == first_rule(catalogue(), word, true, parent, siblings, 25));
    assert(!rule_applies(catalogue()[25], word, true, parent, siblings)) by {
        reveal_strlit(".vercel");
        assert(".vercel"@.len() == 7);
        reveal_strlit(".netlify");
        assert(".netlify"@.len() == 8);
        reveal_strlit(".wrangler");
        assert(".wrangler"@.len() == 9);
        reveal_strlit(".firebase");
        assert(".firebase"@.len() == 9);
    }
    assert(first_rule(catalogue(), word, true, parent, siblings, 25) == first_rule(catalogue(), word, true, parent, siblings, 26));
    assert(!rule_applies(catalogue()[26], word, true, parent, siblings)) by {
        reveal_strlit("cache");
        assert("cache"@.len() == 5);
        reveal_strlit("dist");
        assert("dist"@.len() == 4);
    }
    assert(first_rule(catalogue(), word, true, parent, siblings, 26) == first_rule(catalogue(), word, true, parent, siblings, 27));
    assert(!rule_applies(catalogue()[27], word, true, parent, siblings)) by {
        reveal_strlit("dist");
        assert("dist"@.len() == 4);
        reveal_strlit("temp");
        assert("temp"@.len() == 4);
    }
    assert(first_rule(catalogue(), word, true, parent, siblings, 27) == first_rule(catalogue(), word, true, parent, siblings, 28));
    assert(!rule_applies(catalogue()[28], word, true, parent, siblings)) by {
        reveal_strlit("playwright-report");
        assert("playwright-report"@.len() == 17);
        reveal_strlit("test-results");
        assert("test-results"@.len() == 12);
        reveal_strlit(".playwright");
        assert(".playwright"@.len() == 11);
        reveal_strlit("blob-report");
        assert("blob-report"@.len() == 11);
    }
    assert(first_rule(catalogue(), word, true, parent, siblings, 28) == first_rule(catalogue(), word, true, parent, siblings, 29));
    assert(!rule_applies(catalogue()[29], word, true, parent, siblings)) by {
        reveal_strlit("videos");
        assert("videos"@.len() == 6);
        reveal_strlit("screenshots");
        assert("screenshots"@.len() == 11);
        reveal_strlit("downloads");
        assert("downloads"@.len() == 9);
    }
    assert(first_rule(catalogue(), word, true, parent, siblings, 29) == first_rule(catalogue(), word, true, parent, siblings, 30));
}

/// Rules 30 to 35 of the catalogue pass over a directory named `obj`.
#[verifier::spinoff_prover]
proof fn lemma_obj_needs_project_file_30(parent: Seq<char>, siblings: Seq<Seq<char>>)
    ensures
        first_rule(catalogue(), "obj"@, true, parent, siblings, 30) == first_rule(catalogue(), "obj"@, true, parent, siblings, 36),
{
    let word = "obj"@;
    reveal_strlit("obj");
    assert(word =~= seq!['o', 'b', 'j']);
    assert(!rule_applies(catalogue()[30], word, true, parent, siblings)) by {
        reveal_strlit(".rpt2_cache");
        assert(".rpt2_cache"@.len() == 11);
        reveal_strlit(".rts2_cache_*");
        assert(".rts2_cache_*"@ =~= seq!['.', 'r', 't', 's', '2', '_', 'c', 'a', 'c', 'h', 'e', '_', '*']);
        lemma_prefix_mismatch(".rts2_cache_*"@, word, 0);
    }
    assert(first_rule(catalogue(), word, true, parent, siblings, 30) == first_rule(catalogue(), word, true, parent, siblings, 31));
    assert(!rule_applies(catalogue()[31], word, true, parent, siblings)) by {
        reveal_strlit(".grunt");
        assert(".grunt"@.len() == 6);
        reveal_strlit(".fusebox");
        assert(".fusebox"@.len() == 8);
        reveal_strlit(".dynamodb");
        assert(".dynamodb"@.len() == 9);
        reveal_strlit(".node_modules_cache");
        assert(".node_modules_cache"@.len() == 19);
    }
    assert(first_rule(catalogue(), word, true, parent, siblings, 31) == first_rule(catalogue(), word, true, parent, siblings, 32));
    assert(!rule_applies(catalogue()[32], word, true, parent, siblings));
    assert(first_rule(catalogue(), word, true, parent, siblings, 32) == first_rule(catalogue(), word, true, parent, siblings, 33));
    assert(!rule_applies(catalogue()[33], word, true, parent, siblings)) by {
        reveal_strlit("__pycache__");
        assert("__pycache__"@.len() == 11);
    }
    assert(first_rule(catalogue(), word, true, parent, siblings, 33) == first_rule(catalogue(), word, true, parent, siblings, 34));
    assert(!rule_applies(catalogue()[34], word, true, parent, siblings)) by {
        reveal_strlit(".pytest_cache");
        assert(".pytest_cache"@.len() == 13);
    }
    assert(first_rule(catalogue(), word, true, parent, siblings, 34) == first_rule(catalogue(), word, true, parent, siblings, 35));
    assert(!rule_applies(catalogue()[35], word, true, parent, siblings)) by {
        reveal_strlit(".mypy_cache");
        assert(".mypy_cache"@.len() == 11);
    }
    assert(first_rule(catalogue(), word, true, parent, siblings, 35) == first_rule(catalogue(), word, true, parent, siblings, 36));
}

/// Rules 36 to 41 of the catalogue pass over a directory named `obj`.
#[verifier::spinoff_prover]
proof fn lemma_obj_needs_project_file_36(parent: Seq<char>, siblings: Seq<Seq<char>>)
    ensures
        first_rule(catalogue(), "obj"@, true, parent, siblings, 36) == first_rule(catalogue(), "obj"@, true, parent, siblings, 42),
{
    let word = "obj"@;
    reveal_strlit("obj");
    assert(word =~= seq!['o', 'b', 'j']);
    assert(!rule_applies(catalogue()[36], word, true, parent, siblings)) by {
        reveal_strlit(".ruff_cache");
        assert(".ruff_cache"@.len() == 11);
    }
    assert(first_rule(catalogue(), word, true, parent, siblings, 36) == first_rule(catalogue(), word, true, parent, siblings, 37));
    assert(!rule_applies(catalogue()[37], word, true, parent, siblings)) by {
        reveal_strlit(".tox");
        assert(".tox"@.len() == 4);
        reveal_strlit(".nox");
        assert(".nox"@.len() == 4);
    }
    assert(first_rule(catalogue(), word, true, parent, siblings, 37) == first_rule(catalogue(), word, true, parent, siblings, 38));
    assert(!rule_applies(catalogue()[38], word, true, parent, siblings)) by {
        reveal_strlit(".hypothesis");
        assert(".hypothesis"@.len() == 11);
    }
    assert(first_rule(catalogue(), word, true, parent, siblings, 38) == first_rule(catalogue(), word, true, parent, siblings, 39));
    assert(!rule_applies(catalogue()[39], word, true, parent, siblings)) by {
        reveal_strlit("venv");
        assert("venv"@.len() == 4);
        reveal_strlit(".venv");
        assert(".venv"@.len() == 5);
        reveal_strlit("virtualenv");
        assert("virtualenv"@.len() == 10);
        reveal_strlit("env310");
        assert("env310"@.len() == 6);
        reveal_strlit("env311");
        assert("env311"@.len() == 6);
    }
    assert(first_rule(catalogue(), word, true, parent, siblings, 39) == first_rule(catalogue(), word, true, parent, siblings, 40));
    assert(!rule_applies(catalogue()[40], word, true, parent, siblings)) by {
        reveal_strlit("*.egg-info");
        assert("*.egg-info"@ =~= seq!['*', '.', 'e', 'g', 'g', '-', 'i', 'n', 'f', 'o']);
        lemma_tail_mismatch("*.egg-info"@, word);
    }
    assert(first_rule(catalogue(), word, true, parent, siblings, 40) == first_rule(catalogue(), word, true, parent, siblings, 41));
    assert(!rule_applies(catalogue()[41], word, true, parent, siblings)) by {
        reveal_strlit(".eggs");
        assert(".eggs"@.len() == 5);
    }
    assert(first_rule(catalogue(), word, true, parent, siblings, 41) == first_rule(catalogue(), word, true, parent, siblings, 42));
}

/// Rules 42 to 47 of the catalogue pass over a directory named `obj`.
#[verifier::spinoff_prover]
proof fn lemma_obj_needs_project_file_42(parent: Seq<char>, siblings: Seq<Seq<char>>)
    ensures
        first_rule(catalogue(), "obj"@, true, parent, siblings, 42) == first_rule(catalogue(), "obj"@, true, parent, siblings, 48),
{
    let word = "obj"@;
    reveal_strlit("obj");
    assert(word =~= seq!['o', 'b', 'j']);
    assert(!rule_applies(catalogue()[42], word, true, parent, siblings)) by {
        reveal_strlit(".ipynb_checkpoints");
        assert(".ipynb_checkpoints"@.len() == 18);
    }
    assert(first_rule(catalogue(), word, true, parent, siblings, 42) == first_rule(catalogue(), word, true, parent, siblings, 43));
    assert(!rule_applies(catalogue()[43], word, true, parent, siblings)) by {
        reveal_strlit("htmlcov");
        assert("htmlcov"@.len() == 7);
    }
    assert(first_rule(catalogue(), word, true, parent, siblings, 43) == first_rule(catalogue(), word, true, parent, siblings, 44));
    assert(!rule_applies(catalogue()[44], word, true, parent, siblings));
    assert(first_rule(catalogue(), word, true, parent, siblings, 44) == first_rule(catalogue(), word, true, parent, siblings, 45));
    assert(!rule_applies(catalogue()[45], word, true, parent, siblings)) by {
        reveal_strlit("dist");
        assert("dist"@.len() == 4);
        reveal_strlit("build");
        assert("build"@.len() == 5);
    }
    assert(first_rule(catalogue(), word, true, parent, siblings, 45) == first_rule(catalogue(), word, true, parent, siblings, 46));
    assert(!rule_applies(catalogue()[46], word, true, parent, siblings));
    assert(first_rule(catalogue(), word, true, parent, siblings, 46) == first_rule(catalogue(), word, true, parent, siblings, 47));
    assert(!rule_applies(catalogue()[47], word, true, parent, siblings)) by {
        reveal_strlit("site");
        assert("site"@.len() == 4);
    }
    assert(first_rule(catalogue(), word, true, parent, siblings, 47) == first_rule(catalogue(), word, true, parent, siblings, 48));
}

/// Rules 48 to 53 of the catalogue pass over a directory named `obj`.
#[verifier::spinoff_prover]
proof fn lemma_obj_needs_project_file_48(parent: Seq<char>, siblings: Seq<Seq<char>>)
    ensures
        first_rule(catalogue(), "obj"@, true, parent, siblings, 48) == first_rule(catalogue(), "obj"@, true, parent, siblings, 54),
{
    let word = "obj"@;
    reveal_strlit("obj");
    assert(word =~= seq!['o', 'b', 'j']);
    assert(!rule_applies(catalogue()[48], word, true, parent, siblings)) by {
        reveal_strlit("_build");
        assert("_build"@.len() == 6);
    }
    assert(first_rule(catalogue(), word, true, parent, siblings, 48) == first_rule(catalogue(), word, true, parent, siblings, 49));
    assert(!rule_applies(catalogue()[49], word, true, parent, siblings)) by {
        reveal_strlit("__pypackages__");
        assert("__pypackages__"@.len() == 14);
        reveal_strlit(".pdm-build");
        assert(".pdm-build"@.len() == 10);
    }
    assert(first_rule(catalogue(), word, true, parent, siblings, 49) == first_rule(catalogue(), word, true, parent, siblings, 50));
    assert(!rule_applies(catalogue()[50], word, true, parent, siblings)) by {
        reveal_strlit(".pyre");
        assert(".pyre"@.len() == 5);
        reveal_strlit(".pytype");
        assert(".pytype"@.len() == 7);
        reveal_strlit("cython_debug");
        assert("cython_debug"@.len() == 12);
    }
    assert(first_rule(catalogue(), word, true, parent, siblings, 50) == first_rule(catalogue(), word, true, parent, siblings, 51));
    assert(!rule_applies(catalogue()[51], word, true, parent, siblings));
    assert(first_rule(catalogue(), word, true, parent, siblings, 51) == first_rule(catalogue(), word, true, parent, siblings, 52));
    assert(!rule_applies(catalogue()[52], word, true, parent, siblings)) by {
        reveal_strlit(".scrapy");
        assert(".scrapy"@.len() == 7);
        reveal_strlit(".pybuilder");
        assert(".pybuilder"@.len() == 10);
        reveal_strlit("pip-wheel-metadata");
        assert("pip-wheel-metadata"@.len() == 18);
    }
    assert(first_rule(catalogue(), word, true, parent, siblings, 52) == first_rule(catalogue(), word, true, parent, siblings, 53));
    assert(!rule_applies(catalogue()[53], word, true, parent, siblings));
    assert(first_rule(catalogue(), word, true, parent, siblings, 53) == first_rule(catalogue(), word, true, parent, siblings, 54));
}

/// Rules 54 to 59 of the catalogue pass over a directory named `obj`.
#[verifier::spinoff_prover]
proof fn lemma_obj_needs_project_file_54(parent: Seq<char>, siblings: Seq<Seq<char>>)
    ensures
        first_rule(catalogue(), "obj"@, true, parent, siblings, 54) == first_rule(catalogue(), "obj"@, true, parent, siblings, 60),
{
    let word = "obj"@;
    reveal_strlit("obj");
    assert(word =~= seq!['o', 'b', 'j']);
    assert(!rule_applies(catalogue()[54], word, true, parent, siblings)) by {
        reveal_strlit("target");
        assert("target"@.len() == 6);
    }
    assert(first_rule(catalogue(), word, true, parent, siblings, 54) == first_rule(catalogue(), word, true, parent, siblings, 55));
    assert(!rule_applies(catalogue()[55], word, true, parent, siblings)) by {
        reveal_strlit("target");
        assert("target"@.len() == 6);
    }
    assert(first_rule(catalogue(), word, true, parent, siblings, 55) == first_rule(catalogue(), word, true, parent, siblings, 56));
    assert(!rule_applies(catalogue()[56], word, true, parent, siblings)) by {
        reveal_strlit("build");
        assert("build"@.len() == 5);
    }
    assert(first_rule(catalogue(), word, true, parent, siblings, 56) == first_rule(catalogue(), word, true, parent, siblings, 57));
    assert(!rule_applies(catalogue()[57], word, true, parent, siblings)) by {
        reveal_strlit(".gradle");
        assert(".gradle"@.len() == 7);
    }
    assert(first_rule(catalogue(), word, true, parent, siblings, 57) == first_rule(catalogue(), word, true, parent, siblings, 58));
    assert(!rule_applies(catalogue()[58], word, true, parent, siblings)) by {
        reveal_strlit(".kotlin");
        assert(".kotlin"@.len() == 7);
    }
    assert(first_rule(catalogue(), word, true, parent, siblings, 58) == first_rule(catalogue(), word, true, parent, siblings, 59));
    assert(!rule_applies(catalogue()[59], word, true, parent, siblings));
    assert(first_rule(catalogue(), word, true, parent, siblings, 59) == first_rule(catalogue(), word, true, parent, siblings, 60));
}

/// Rules 61 to 66 of the catalogue pass over a directory named `obj`.
#[verifier::spinoff_prover]
proof fn lemma_obj_needs_project_file_61(parent: Seq<char>, siblings: Seq<Seq<char>>)
    ensures
        first_rule(catalogue(), "obj"@, true, parent, siblings, 61) == first_rule(catalogue(), "obj"@, true, parent, siblings, 67),
{
    let word = "obj"@;
    reveal_strlit("obj");
    assert(word =~= seq!['o', 'b', 'j']);
    assert(!rule_applies(catalogue()[61], word, true, parent, siblings)) by {
        reveal_strlit("packages");
        assert("packages"@.len() == 8);
    }
    assert(first_rule(catalogue(), word, true, parent, siblings, 61) == first_rule(catalogue(), word, true, parent, siblings, 62));
    assert(!rule_applies(catalogue()[62], word, true, parent, siblings)) by {
        reveal_strlit(".vs");
        assert(".vs"@[0] == '.');
    }
    assert(first_rule(catalogue(), word, true, parent, siblings, 62) == first_rule(catalogue(), word, true, parent, siblings, 63));
    assert(!rule_applies(catalogue()[63], word, true, parent, siblings)) by {
        reveal_strlit("vendor");
        assert("vendor"@.len() == 6);
    }
    assert(first_rule(catalogue(), word, true, parent, siblings, 63) == first_rule(catalogue(), word, true, parent, siblings, 64));
    assert(!rule_applies(catalogue()[64], word, true, parent, siblings)) by {
        reveal_strlit("vendor");
        assert("vendor"@.len() == 6);
    }
    assert(first_rule(catalogue(), word, true, parent, siblings, 64) == first_rule(catalogue(), word, true, parent, siblings, 65));
    assert(!rule_applies(catalogue()[65], word, true, parent, siblings)) by {
        reveal_strlit("bundle");
        assert("bundle"@.len() == 6);
    }
    assert(first_rule(catalogue(), word, true, parent, siblings, 65) == first_rule(catalogue(), word, true, parent, siblings, 66));
    assert(!rule_applies(catalogue()[66], word, true, parent, siblings)) by {
        reveal_strlit(".bundle");
        assert(".bundle"@.len() == 7);
    }
    assert(first_rule(catalogue(), word, true, parent, siblings, 66) == first_rule(catalogue(), word, true, parent, siblings, 67));
}

/// Rules 67 to 72 of the catalogue pass over a directory named `obj`.
#[verifier::spinoff_prover]
proof fn lemma_obj_needs_project_file_67(parent: Seq<char>, siblings: Seq<Seq<char>>)
    ensures
        first_rule(catalogue(), "obj"@, true, parent, siblings, 67) == first_rule(catalogue(), "obj"@, true, parent, siblings, 73),
{
    let word = "obj"@;
    reveal_strlit("obj");
    assert(word =~= seq!['o', 'b', 'j']);
    assert(!rule_applies(catalogue()[67], word, true, parent, siblings)) by {
        reveal_strlit("CMakeFiles");
        assert("CMakeFiles"@.len() == 10);
    }
    assert(first_rule(catalogue(), word, true, parent, siblings, 67) == first_rule(catalogue(), word, true, parent, siblings, 68));
    assert(!rule_applies(catalogue()[68], word, true, parent, siblings)) by {
        reveal_strlit("cmake-build-*");
        assert("cmake-build-*"@ =~= seq!['c', 'm', 'a', 'k', 'e', '-', 'b', 'u', 'i', 'l', 'd', '-', '*']);
        lemma_prefix_mismatch("cmake-build-*"@, word, 0);
    }
    assert(first_rule(catalogue(), word, true, parent, siblings, 68) == first_rule(catalogue(), word, true, parent, siblings, 69));
    assert(!rule_applies(catalogue()[69], word, true, parent, siblings));
    assert(first_rule(catalogue(), word, true, parent, siblings, 69) == first_rule(catalogue(), word, true, parent, siblings, 70));
    assert(!rule_applies(catalogue()[70], word, true, parent, siblings)) by {
        reveal_strlit(".ccls-cache");
        assert(".ccls-cache"@.len() == 11);
        reveal_strlit(".clangd");
        assert(".clangd"@.len() == 7);
    }
    assert(first_rule(catalogue(), word, true, parent, siblings, 70) == first_rule(catalogue(), word, true, parent, siblings, 71));
    assert(!rule_applies(catalogue()[71], word, true, parent, siblings));
    assert(first_rule(catalogue(), word, true, parent, siblings, 71) == first_rule(catalogue(), word, true, parent, siblings, 72));
    assert(!rule_applies(catalogue()[72], word, true, parent, siblings)) by {
        reveal_strlit("Debug");
        assert("Debug"@.len() == 5);
        reveal_strlit("Release");
        assert("Release"@.len() == 7);
        reveal_strlit("x64");
        assert("x64"@[0] == 'x');
        reveal_strlit("Win32");
        assert("Win32"@.len() == 5);
        reveal_strlit("ARM64");
        assert("ARM64"@.len() == 5);
        reveal_strlit("ipch");
        assert("ipch"@.len() == 4);
    }
    assert(first_rule(catalogue(), word, true, parent, siblings, 72) == first_rule(catalogue(), word, true, parent, siblings, 73));
}

/// Rules 73 to 78 of the catalogue pass over a directory named `obj`.
#[verifier::spinoff_prover]
proof fn lemma_obj_needs_project_file_73(parent: Seq<char>, siblings: Seq<Seq<char>>)
    ensures
        first_rule(catalogue(), "obj"@, true, parent, siblings, 73) == first_rule(catalogue(), "obj"@, true, parent, siblings, 79),
{
    let word = "obj"@;
    reveal_strlit("obj");
    assert(word =~= seq!['o', 'b', 'j']);
    assert(!rule_applies(catalogue()[73], word, true, parent, siblings)) by {
        reveal_strlit(".deps");
        assert(".deps"@.len() == 5);
        reveal_strlit(".libs");
        assert(".libs"@.len() == 5);
        reveal_strlit("autom4te.cache");
        assert("autom4te.cache"@.len() == 14);
    }
    assert(first_rule(catalogue(), word, true, parent, siblings, 73) == first_rule(catalogue(), word, true, parent, siblings, 74));
    assert(!rule_applies(catalogue()[74], word, true, parent, siblings));
    assert(first_rule(catalogue(), word, true, parent, siblings, 74) == first_rule(catalogue(), word, true, parent, siblings, 75));
    assert(!rule_applies(catalogue()[75], word, true, parent, siblings)) by {
        reveal_strlit("vcpkg_installed");
        assert("vcpkg_installed"@.len() == 15);
    }
    assert(first_rule(catalogue(), word, true, parent, siblings, 75) == first_rule(catalogue(), word, true, parent, siblings, 76));
    assert(!rule_applies(catalogue()[76], word, true, parent, siblings)) by {
        reveal_strlit("DerivedData");
        assert("DerivedData"@.len() == 11);
    }
    assert(first_rule(catalogue(), word, true, parent, siblings, 76) == first_rule(catalogue(), word, true, parent, siblings, 77));
    assert(!rule_applies(catalogue()[77], word, true, parent, siblings)) by {
        reveal_strlit(".build");
        assert(".build"@.len() == 6);
    }
    assert(first_rule(catalogue(), word, true, parent, siblings, 77) == first_rule(catalogue(), word, true, parent, siblings, 78));
    assert(!rule_applies(catalogue()[78], word, true, parent, siblings)) by {
        reveal_strlit("Pods");
        assert("Pods"@.len() == 4);
    }
    assert(first_rule(catalogue(), word, true, parent, siblings, 78) == first_rule(catalogue(), word, true, parent, siblings, 79));
}

/// Rules 79 to 84 of the catalogue pass over a directory named `obj`.
#[verifier::spinoff_prover]
proof fn lemma_obj_needs_project_file_79(parent: Seq<char>, siblings: Seq<Seq<char>>)
    ensures
        first_rule(catalogue(), "obj"@, true, parent, siblings, 79) == first_rule(catalogue(), "obj"@, true, parent, siblings, 85),
{
    let word = "obj"@;
    reveal_strlit("obj");
    assert(word =~= seq!['o', 'b', 'j']);
    assert(!rule_applies(catalogue()[79], word, true, parent, siblings)) by {
        reveal_strlit("Build");
        assert("Build"@.len() == 5);
    }
    assert(first_rule(catalogue(), word, true, parent, siblings, 79) == first_rule(catalogue(), word, true, parent, siblings, 80));
    assert(!rule_applies(catalogue()[80], word, true, parent, siblings)) by {
        reveal_strlit("xcuserdata");
        assert("xcuserdata"@.len() == 10);
        reveal_strlit("*.xcuserdatad");
        assert("*.xcuserdatad"@ =~= seq!['*', '.', 'x', 'c', 'u', 's', 'e', 'r', 'd', 'a', 't', 'a', 'd']);
        lemma_tail_mismatch("*.xcuserdatad"@, word);
    }
    assert(first_rule(catalogue(), word, true, parent, siblings, 80) == first_rule(catalogue(), word, true, parent, siblings, 81));
    assert(!rule_applies(catalogue()[81], word, true, parent, siblings)) by {
        reveal_strlit(".swiftpm");
        assert(".swiftpm"@.len() == 8);
    }
    assert(first_rule(catalogue(), word, true, parent, siblings, 81) == first_rule(catalogue(), word, true, parent, siblings, 82));
    assert(!rule_applies(catalogue()[82], word, true, parent, siblings)) by {
        reveal_strlit(".dart_tool");
        assert(".dart_tool"@.len() == 10);
    }
    assert(first_rule(catalogue(), word, true, parent, siblings, 82) == first_rule(catalogue(), word, true, parent, siblings, 83));
    assert(!rule_applies(catalogue()[83], word, true, parent, siblings));
    assert(first_rule(catalogue(), word, true, parent, siblings, 83) == first_rule(catalogue(), word, true, parent, siblings, 84));
    assert(!rule_applies(catalogue()[84], word, true, parent, siblings)) by {
        reveal_strlit("_build");
        assert("_build"@.len() == 6);
    }
    assert(first_rule(catalogue(), word, true, parent, siblings, 84) == first_rule(catalogue(), word, true, parent, siblings, 85));
}

/// Rules 85 to 90 of the catalogue pass over a directory named `obj`.
#[verifier::spinoff_prover]
proof fn lemma_obj_needs_project_file_85(parent: Seq<char>, siblings: Seq<Seq<char>>)
    ensures
        first_rule(catalogue(), "obj"@, true, parent, siblings, 85) == first_rule(catalogue(), "obj"@, true, parent, siblings, 91),
{
    let word = "obj"@;
    reveal_strlit("obj");
    assert(word =~= seq!['o', 'b', 'j']);
    assert(!rule_applies(catalogue()[85], word, true, parent, siblings)) by {
        reveal_strlit("deps");
        assert("deps"@.len() == 4);
    }
    assert(first_rule(catalogue(), word, true, parent, siblings, 85) == first_rule(catalogue(), word, true, parent, siblings, 86));
    assert(!rule_applies(catalogue()[86], word, true, parent, siblings)) by {
        reveal_strlit(".cxx");
        assert(".cxx"@.len() == 4);
    }
    assert(first_rule(catalogue(), word, true, parent, siblings, 86) == first_rule(catalogue(), word, true, parent, siblings, 87));
    assert(!rule_applies(catalogue()[87], word, true, parent, siblings)) by {
        reveal_strlit("Library");
        assert("Library"@.len() == 7);
        reveal_strlit("Temp");
        assert("Temp"@.len() == 4);
        reveal_strlit("Obj");
        assert("Obj"@[0] == 'O');
        reveal_strlit("Logs");
        assert("Logs"@.len() == 4);
        reveal_strlit("UserSettings");
        assert("UserSettings"@.len() == 12);
    }
    assert(first_rule(catalogue(), word, true, parent, siblings, 87) == first_rule(catalogue(), word, true, parent, siblings, 88));
    assert(!rule_applies(catalogue()[88], word, true, parent, siblings)) by {
        reveal_strlit(".godot");
        assert(".godot"@.len() == 6);
        reveal_strlit(".import");
        assert(".import"@.len() == 7);
    }
    assert(first_rule(catalogue(), word, true, parent, siblings, 88) == first_rule(catalogue(), word, true, parent, siblings, 89));
    assert(!rule_applies(catalogue()[89], word, true, parent, siblings)) by {
        reveal_strlit("Binaries");
        assert("Binaries"@.len() == 8);
        reveal_strlit("Intermediate");
        assert("Intermediate"@.len() == 12);
        reveal_strlit("DerivedDataCache");
        assert("DerivedDataCache"@.len() == 16);
        reveal_strlit("Saved");
        assert("Saved"@.len() == 5);
    }
    assert(first_rule(catalogue(), word, true, parent, siblings, 89) == first_rule(catalogue(), word, true, parent, siblings, 90));
    assert(!rule_applies(catalogue()[90], word, true, parent, siblings)) by {
        reveal_strlit("Build");
        assert("Build"@.len() == 5);
        reveal_strlit("Builds");
        assert("Builds"@.len() == 6);
        reveal_strlit("MemoryCaptures");
        assert("MemoryCaptures"@.len() == 14);
        reveal_strlit("Recordings");
        assert("Recordings"@.len() == 10);
    }
    assert(first_rule(catalogue(), word, true, parent, siblings, 90) == first_rule(catalogue(), word, true, parent, siblings, 91));
}

/// Rules 91 to 96 of the catalogue pass over a directory named `obj`.
#[verifier::spinoff_prover]
proof fn lemma_obj_needs_project_file_91(parent: Seq<char>, siblings: Seq<Seq<char>>)
    ensures
        first_rule(catalogue(), "obj"@, true, parent, siblings, 91) == first_rule(catalogue(), "obj"@, true, parent, siblings, 97),
{
    let word = "obj"@;
    reveal_strlit("obj");
    assert(word =~= seq!['o', 'b', 'j']);
    assert(!rule_applies(catalogue()[91], word, true, parent, siblings)) by {
        reveal_strlit("huggingface");
        assert("huggingface"@.len() == 11);
    }
    assert(first_rule(catalogue(), word, true, parent, siblings, 91) == first_rule(catalogue(), word, true, parent, siblings, 92));
    assert(!rule_applies(catalogue()[92], word, true, parent, siblings));
    assert(first_rule(catalogue(), word, true, parent, siblings, 92) == first_rule(catalogue(), word, true, parent, siblings, 93));
    assert(!rule_applies(catalogue()[93], word, true, parent, siblings));
    assert(first_rule(catalogue(), word, true, parent, siblings, 93) == first_rule(catalogue(), word, true, parent, siblings, 94));
    assert(!rule_applies(catalogue()[94], word, true, parent, siblings)) by {
        reveal_strlit("wandb");
        assert("wandb"@.len() == 5);
        reveal_strlit("mlruns");
        assert("mlruns"@.len() == 6);
        reveal_strlit("lightning_logs");
        assert("lightning_logs"@.len() == 14);
    }
    assert(first_rule(catalogue(), word, true, parent, siblings, 94) == first_rule(catalogue(), word, true, parent, siblings, 95));
    assert(!rule_applies(catalogue()[95], word, true, parent, siblings)) by {
        reveal_strlit("runs");
        assert("runs"@.len() == 4);
        reveal_strlit("multirun");
        assert("multirun"@.len() == 8);
        reveal_strlit(".neptune");
        assert(".neptune"@.len() == 8);
        reveal_strlit("catboost_info");
        assert("catboost_info"@.len() == 13);
        reveal_strlit(".aim");
        assert(".aim"@.len() == 4);
    }
    assert(first_rule(catalogue(), word, true, parent, siblings, 95) == first_rule(catalogue(), word, true, parent, siblings, 96));
    assert(!rule_applies(catalogue()[96], word, true, parent, siblings)) by {
        reveal_strlit(".terraform");
        assert(".terraform"@.len() == 10);
    }
    assert(first_rule(catalogue(), word, true, parent, siblings, 96) == first_rule(catalogue(), word, true, parent, siblings, 97));
}

/// Rules 97 to 102 of the catalogue pass over a directory named `obj`.
#[verifier::spinoff_prover]
proof fn lemma_obj_needs_project_file_97(parent: Seq<char>, siblings: Seq<Seq<char>>)
    ensures
        first_rule(catalogue(), "obj"@, true, parent, siblings, 97) == first_rule(catalogue(), "obj"@, true, parent, siblings, 103),
{
    let word = "obj"@;
    reveal_strlit("obj");
    assert(word =~= seq!['o', 'b', 'j']);
    assert(!rule_applies(catalogue()[97], word, true, parent, siblings)) by {
        reveal_strlit(".terragrunt-cache");
        assert(".terragrunt-cache"@.len() == 17);
    }
    assert(first_rule(catalogue(), word, true, parent, siblings, 97) == first_rule(catalogue(), word, true, parent, siblings, 98));
    assert(!rule_applies(catalogue()[98], word, true, parent, siblings)) by {
        reveal_strlit(".pulumi");
        assert(".pulumi"@.len() == 7);
    }
    assert(first_rule(catalogue(), word, true, parent, siblings, 98) == first_rule(catalogue(), word, true, parent, siblings, 99));
    assert(!rule_applies(catalogue()[99], word, true, parent, siblings)) by {
        reveal_strlit(".vagrant");
        assert(".vagrant"@.len() == 8);
    }
    assert(first_rule(catalogue(), word, true, parent, siblings, 99) == first_rule(catalogue(), word, true, parent, siblings, 100));
    assert(!rule_applies(catalogue()[100], word, true, parent, siblings)) by {
        reveal_strlit("_site");
        assert("_site"@.len() == 5);
        reveal_strlit(".jekyll-cache");
        assert(".jekyll-cache"@.len() == 13);
    }
    assert(first_rule(catalogue(), word, true, parent, siblings, 100) == first_rule(catalogue(), word, true, parent, siblings, 101));
    assert(!rule_applies(catalogue()[101], word, true, parent, siblings)) by {
        reveal_strlit("public");
        assert("public"@.len() == 6);
        reveal_strlit("resources");
        assert("resources"@.len() == 9);
    }
    assert(first_rule(catalogue(), word, true, parent, siblings, 101) == first_rule(catalogue(), word, true, parent, siblings, 102));
    assert(!rule_applies(catalogue()[102], word, true, parent, siblings)) by {
        reveal_strlit(".sass-cache");
        assert(".sass-cache"@.len() == 11);
    }
    assert(first_rule(catalogue(), word, true, parent, siblings, 102) == first_rule(catalogue(), word, true, parent, siblings, 103));
}

/// Rules 103 to 108 of the catalogue pass over a directory named `obj`.
#[verifier::spinoff_prover]
proof fn lemma_obj_needs_project_file_103(parent: Seq<char>, siblings: Seq<Seq<char>>)
    ensures
        first_rule(catalogue(), "obj"@, true, parent, siblings, 103) == first_rule(catalogue(), "obj"@, true, parent, siblings, 109),
{
    let word = "obj"@;
    reveal_strlit("obj");
    assert(word =~= seq!['o', 'b', 'j']);
    assert(!rule_applies(catalogue()[103], word, true, parent, siblings)) by {
        reveal_strlit(".quarto");
        assert(".quarto"@.len() == 7);
        reveal_strlit("_freeze");
        assert("_freeze"@.len() == 7);
    }
    assert(first_rule(catalogue(), word, true, parent, siblings, 103) == first_rule(catalogue(), word, true, parent, siblings, 104));
    assert(!rule_applies(catalogue()[104], word, true, parent, siblings)) by {
        reveal_strlit("_book");
        assert("_book"@.len() == 5);
        reveal_strlit(".docz");
        assert(".docz"@.len() == 5);
    }
    assert(first_rule(catalogue(), word, true, parent, siblings, 104) == first_rule(catalogue(), word, true, parent, siblings, 105));
    assert(!rule_applies(catalogue()[105], word, true, parent, siblings)) by {
        reveal_strlit(".idea");
        assert(".idea"@.len() == 5);
    }
    assert(first_rule(catalogue(), word, true, parent, siblings, 105) == first_rule(catalogue(), word, true, parent, siblings, 106));
    assert(!rule_applies(catalogue()[106], word, true, parent, siblings)) by {
        reveal_strlit(".history");
        assert(".history"@.len() == 8);
    }
    assert(first_rule(catalogue(), word, true, parent, siblings, 106) == first_rule(catalogue(), word, true, parent, siblings, 107));
    assert(!rule_applies(catalogue()[107], word, true, parent, siblings)) by {
        reveal_strlit(".direnv");
        assert(".direnv"@.len() == 7);
    }
    assert(first_rule(catalogue(), word, true, parent, siblings, 107) == first_rule(catalogue(), word, true, parent, siblings, 108));
    assert(!rule_applies(catalogue()[108], word, true, parent, siblings));
    assert(first_rule(catalogue(), word, true, parent, siblings, 108) == first_rule(catalogue(), word, true, parent, siblings, 109));
}

/// Rules 109 to 114 of the catalogue pass over a directory named `obj`.
#[verifier::spinoff_prover]
proof fn lemma_obj_needs_project_file_109(parent: Seq<char>, siblings: Seq<Seq<char>>)
    ensures
        first_rule(catalogue(), "obj"@, true, parent, siblings, 109) == first_rule(catalogue(), "obj"@, true, parent, siblings, 115),
{
    let word = "obj"@;
    reveal_strlit("obj");
    assert(word =~= seq!['o', 'b', 'j']);
    assert(!rule_applies(catalogue()[109], word, true, parent, siblings));
    assert(first_rule(catalogue(), word, true, parent, siblings, 109) == first_rule(catalogue(), word, true, parent, siblings, 110));
    assert(!rule_applies(catalogue()[110], word, true, parent, siblings)) by {
        reveal_strlit(".Spotlight-V100");
        assert(".Spotlight-V100"@.len() == 15);
        reveal_strlit(".Trashes");
        assert(".Trashes"@.len() == 8);
        reveal_strlit(".fseventsd");
        assert(".fseventsd"@.len() == 10);
        reveal_strlit("$RECYCLE.BIN");
        assert("$RECYCLE.BIN"@.len() == 12);
    }
    assert(first_rule(catalogue(), word, true, parent, siblings, 110) == first_rule(catalogue(), word, true, parent, siblings, 111));
    assert(!rule_applies(catalogue()[111], word, true, parent, siblings)) by {
        reveal_strlit("dist");
        assert("dist"@.len() == 4);
        reveal_strlit("out");
        assert("out"@[1] == 'u');
    }
    assert(first_rule(catalogue(), word, true, parent, siblings, 111) == first_rule(catalogue(), word, true, parent, siblings, 112));
    assert(!rule_applies(catalogue()[112], word, true, parent, siblings)) by {
        reveal_strlit("build");
        assert("build"@.len() == 5);
        reveal_strlit("_build");
        assert("_build"@.len() == 6);
    }
    assert(first_rule(catalogue(), word, true, parent, siblings, 112) == first_rule(catalogue(), word, true, parent, siblings, 113));
    assert(!rule_applies(catalogue()[113], word, true, parent, siblings)) by {
        reveal_strlit(".cache");
        assert(".cache"@.len() == 6);
        reveal_strlit(".temp");
        assert(".temp"@.len() == 5);
        reveal_strlit(".tmp");
        assert(".tmp"@.len() == 4);
    }
    assert(first_rule(catalogue(), word, true, parent, siblings, 113) == first_rule(catalogue(), word, true, parent, siblings, 114));
    assert(!rule_applies(catalogue()[114], word, true, parent, siblings)) by {
        reveal_strlit("tmp");
        assert("tmp"@[0] == 't');
        reveal_strlit("temp");
        assert("temp"@.len() == 4);
    }
    assert(first_rule(catalogue(), word, true, parent, siblings, 114) == first_rule(catalogue(), word, true, parent, siblings, 115));
}

/// Rules 115 to 119 of the catalogue pass over a directory named `obj`.
#[verifier::spinoff_prover]
proof fn lemma_obj_needs_project_file_115(parent: Seq<char>, siblings: Seq<Seq<char>>)
    ensures
        first_rule(catalogue(), "obj"@, true, parent, siblings, 115) == first_rule(catalogue(), "obj"@, true, parent, siblings, 120),
{
    let word = "obj"@;
    reveal_strlit("obj");
    assert(word =~= seq!['o', 'b', 'j']);
    assert(!rule_applies(catalogue()[115], word, true, parent, siblings)) by {
        reveal_strlit("coverage");
        assert("coverage"@.len() == 8);
    }
    assert(first_rule(catalogue(), word, true, parent, siblings, 115) == first_rule(catalogue(), word, true, parent, siblings, 116));
    assert(!rule_applies(catalogue()[116], word, true, parent, siblings)) by {
        reveal_strlit("logs");
        assert("logs"@.len() == 4);
    }
    assert(first_rule(catalogue(), word, true, parent, siblings, 116) == first_rule(catalogue(), word, true, parent, siblings, 117));
    assert(!rule_applies(catalogue()[117], word, true, parent, siblings));
    assert(first_rule(catalogue(), word, true, parent, siblings, 117) == first_rule(catalogue(), word, true, parent, siblings, 118));
    assert(!rule_applies(catalogue()[118], word, true, parent, siblings));
    assert(first_rule(catalogue(), word, true, parent, siblings, 118) == first_rule(catalogue(), word, true, parent, siblings, 119));
    assert(!rule_applies(catalogue()[119], word, true, parent, siblings));
    assert(first_rule(catalogue(), word, true, parent, siblings, 119) == first_rule(catalogue(), word, true, parent, siblings, 120));
}

/// A directory named `obj` is claimed as .NET build output only beside a
/// `*.csproj` file, whatever its parent and its other siblings.
pub proof fn lemma_obj_needs_project_file(parent: Seq<char>, siblings: Seq<Seq<char>>)
    ensures
        match first_rule(catalogue(), "obj"@, true, parent, siblings, 0) {
            Some(r) => r.id == "dotnet_bin" && some_name_matches(siblings, "*.csproj"@),
            None => !some_name_matches(siblings, "*.csproj"@),
        },
{
    let word = "obj"@;
    lemma_obj_needs_project_file_0(parent, siblings);
    lemma_obj_needs_project_file_6(parent, siblings);
    lemma_obj_needs_project_file_12(parent, siblings);
    lemma_obj_needs_project_file_18(parent, siblings);
    lemma_obj_needs_project_file_24(parent, siblings);
    lemma_obj_needs_project_file_30(parent, siblings);
    lemma_obj_needs_project_file_36(parent, siblings);
    lemma_obj_needs_project_file_42(parent, siblings);
    lemma_obj_needs_project_file_48(parent, siblings);
    lemma_obj_needs_project_file_54(parent, siblings);
    lemma_obj_needs_project_file_61(parent, siblings);
    lemma_obj_needs_project_file_67(parent, siblings);
    lemma_obj_needs_project_file_73(parent, siblings);
    lemma_obj_needs_project_file_79(parent, siblings);
    lemma_obj_needs_project_file_85(parent, siblings);
    lemma_obj_needs_project_file_91(parent, siblings);
    lemma_obj_needs_project_file_97(parent, siblings);
    lemma_obj_needs_project_file_103(parent, siblings);
    lemma_obj_needs_project_file_109(parent, siblings);
    lemma_obj_needs_project_file_115(parent, siblings);
    assert(strs(catalogue()[60].names@)[1] == word);
    assert(rule_applies(catalogue()[60], word, true, parent, siblings) == some_name_matches(siblings, "*.csproj"@)) by {
        reveal_strlit("*.csproj");
        assert("*.csproj"@ =~= seq!['*', '.', 'c', 's', 'p', 'r', 'o', 'j']);
        let markers = strs(catalogue()[60].requires@);
        assert(markers =~= seq!["*.csproj"@]);
        assert("*.csproj"@[0] == '*');
        assert(marker_present(siblings, "*.csproj"@) == some_name_matches(siblings, "*.csproj"@));
        if some_name_matches(siblings, "*.csproj"@) {
            assert(marker_present(siblings, markers[0]));
        }
    }
    assert(first_rule(catalogue(), word, true, parent, siblings, 60) == if rule_applies(catalogue()[60], word, true, parent, siblings) { Some(catalogue()[60]) } else { first_rule(catalogue(), word, true, parent, siblings, 61) });
    assert(first_rule(catalogue(), word, true, parent, siblings, 120) == None::<Rule>);
}

/// Rules 0 to 5 of the catalogue pass over a directory named `models`.
#[verifier::spinoff_prover]
proof fn lemma_models_never_claimed_0(parent: Seq<char>, siblings: Seq<Seq<char>>)
    ensures
        first_rule(catalogue(), "models"@, true, parent, siblings, 0) == first_rule(catalogue(), "models"@, true, parent, siblings, 6),
{
    let word = "models"@;
    reveal_strlit("models");
    assert(word =~= seq!['m', 'o', 'd', 'e', 'l', 's']);
    assert(!rule_applies(catalogue()[0], word, true, parent, siblings)) by {
        reveal_strlit("node_modules");
        assert("node_modules"@.len() == 12);
    }
    assert(first_rule(catalogue(), word, true, parent, siblings, 0) == first_rule(catalogue(), word, true, parent, siblings, 1));
    assert(!rule_applies(catalogue()[1], word, true, parent, siblings)) by {
        reveal_strlit(".next");
        assert(".next"@.len() == 5);
    }
    assert(first_rule(catalogue(), word, true, parent, siblings, 1) == first_rule(catalogue(), word, true, parent, siblings, 2));
    assert(!rule_applies(catalogue()[2], word, true, parent, siblings)) by {
        reveal_strlit(".nuxt");
        assert(".nuxt"@.len() == 5);
    }
    assert(first_rule(catalogue(), word, true, parent, siblings, 2) == first_rule(catalogue(), word, true, parent, siblings, 3));
    assert(!rule_applies(catalogue()[3], word, true, parent, siblings)) by {
        reveal_strlit(".output");
        assert(".output"@.len() == 7);
    }
    assert(first_rule(catalogue(), word, true, parent, siblings, 3) == first_rule(catalogue(), word, true, parent, siblings, 4));
    assert(!rule_applies(catalogue()[4], word, true, parent, siblings)) by {
        reveal_strlit(".svelte-kit");
        assert(".svelte-kit"@.len() == 11);
    }
    assert(first_rule(catalogue(), word, true, parent, siblings, 4) == first_rule(catalogue(), word, true, parent, siblings, 5));
    assert(!rule_applies(catalogue()[5], word, true, parent, siblings)) by {
        reveal_strlit(".astro");
        assert(".astro"@[0] == '.');
    }
    assert(first_rule(catalogue(), word, true, parent, siblings, 5) == first_rule(catalogue(), word, true, parent, siblings, 6));
}

/// Rules 6 to 11 of the catalogue pass over a directory named `models`.
#[verifier::spinoff_prover]
proof fn lemma_models_never_claimed_6(parent: Seq<char>, siblings: Seq<Seq<char>>)
    ensures
        first_rule(catalogue(), "models"@, true, parent, siblings, 6) == first_rule(catalogue(), "models"@, true, parent, siblings, 12),
{
    let word = "models"@;
    reveal_strlit("models");
    assert(word =~= seq!['m', 'o', 'd', 'e', 'l', 's']);
    assert(!rule_applies(catalogue()[6], word, true, parent, siblings)) by {
        reveal_strlit(".docusaurus");
        assert(".docusaurus"@.len() == 11);
    }
    assert(first_rule(catalogue(), word, true, parent, siblings, 6) == first_rule(catalogue(), word, true, parent, siblings, 7));
    assert(!rule_applies(catalogue()[7], word, true, parent, siblings)) by {
        reveal_strlit(".angular");
        assert(".angular"@.len() == 8);
    }
    assert(first_rule(catalogue(), word, true, parent, siblings, 7) == first_rule(catalogue(), word, true, parent, siblings, 8));
    assert(!rule_applies(catalogue()[8], word, true, parent, siblings)) by {
        reveal_strlit(".parcel-cache");
        assert(".parcel-cache"@.len() == 13);
    }
    assert(first_rule(catalogue(), word, true, parent, siblings, 8) == first_rule(catalogue(), word, true, parent, siblings, 9));
    assert(!rule_applies(catalogue()[9], word, true, parent, siblings)) by {
        reveal_strlit(".turbo");
        assert(".turbo"@[0] == '.');
    }
    assert(first_rule(catalogue(), word, true, parent, siblings, 9) == first_rule(catalogue(), word, true, parent, siblings, 10));
    assert(!rule_applies(catalogue()[10], word, true, parent, siblings)) by {
        reveal_strlit(".vite");
        assert(".vite"@.len() == 5);
    }
    assert(first_rule(catalogue(), word, true, parent, siblings, 10) == first_rule(catalogue(), word, true, parent, siblings, 11));
    assert(!rule_applies(catalogue()[11], word, true, parent, siblings)) by {
        reveal_strlit(".rollup.cache");
        assert(".rollup.cache"@.len() == 13);
    }
    assert(first_rule(catalogue(), word, true, parent, siblings, 11) == first_rule(catalogue(), word, true, parent, siblings, 12));
}

/// Rules 12 to 17 of the catalogue pass over a directory named `models`.
#[verifier::spinoff_prover]
proof fn lemma_models_never_claimed_12(parent: Seq<char>, siblings: Seq<Seq<char>>)
    ensures
        first_rule(catalogue(), "models"@, true, parent, siblings, 12) == first_rule(catalogue(), "models"@, true, parent, siblings, 18),
{
    let word = "models"@;
    reveal_strlit("models");
    assert(word =~= seq!['m', 'o', 'd', 'e', 'l', 's']);
    assert(!rule_applies(catalogue()[12], word, true, parent, siblings)) by {
        reveal_strlit(".webpack");
        assert(".webpack"@.len() == 8);
    }
    assert(first_rule(catalogue(), word, true, parent, siblings, 12) == first_rule(catalogue(), word, true, parent, siblings, 13));
    assert(!rule_applies(catalogue()[13], word, true, parent, siblings)) by {
        reveal_strlit(".serverless");
        assert(".serverless"@.len() == 11);
    }
    assert(first_rule(catalogue(), word, true, parent, siblings, 13) == first_rule(catalogue(), word, true, parent, siblings, 14));
    assert(!rule_applies(catalogue()[14], word, true, parent, siblings)) by {
        reveal_strlit("cache");
        assert("cache"@.len() == 5);
        reveal_strlit("unplugged");
        assert("unplugged"@.len() == 9);
    }
    assert(first_rule(catalogue(), word, true, parent, siblings, 14) == first_rule(catalogue(), word, true, parent, siblings, 15));
    assert(!rule_applies(catalogue()[15], word, true, parent, siblings)) by {
        reveal_strlit(".pnpm-store");
        assert(".pnpm-store"@.len() == 11);
    }
    assert(first_rule(catalogue(), word, true, parent, siblings, 15) == first_rule(catalogue(), word, true, parent, siblings, 16));
    assert(!rule_applies(catalogue()[16], word, true, parent, siblings)) by {
        reveal_strlit(".expo");
        assert(".expo"@.len() == 5);
        reveal_strlit(".expo-shared");
        assert(".expo-shared"@.len() == 12);
    }
    assert(first_rule(catalogue(), word, true, parent, siblings, 16) == first_rule(catalogue(), word, true, parent, siblings, 17));
    assert(!rule_applies(catalogue()[17], word, true, parent, siblings)) by {
        reveal_strlit(".metro-cache");
        assert(".metro-cache"@.len() == 12);
    }
    assert(first_rule(catalogue(), word, true, parent, siblings, 17) == first_rule(catalogue(), word, true, parent, siblings, 18));
}

/// Rules 18 to 23 of the catalogue pass over a directory named `models`.
#[verifier::spinoff_prover]
proof fn lemma_models_never_claimed_18(parent: Seq<char>, siblings: Seq<Seq<char>>)
    ensures
        first_rule(catalogue(), "models"@, true, parent, siblings, 18) == first_rule(catalogue(), "models"@, true, parent, siblings, 24),
{
    let word = "models"@;
    reveal_strlit("models");
    assert(word =~= seq!['m', 'o', 'd', 'e', 'l', 's']);
    assert(!rule_applies(catalogue()[18], word, true, parent, siblings)) by {
        reveal_strlit("storybook-static");
        assert("storybook-static"@.len() == 16);
    }
    assert(first_rule(catalogue(), word, true, parent, siblings, 18) == first_rule(catalogue(), word, true, parent, siblings, 19));
    assert(!rule_applies(catalogue()[19], word, true, parent, siblings)) by {
        reveal_strlit(".nyc_output");
        assert(".nyc_output"@.len() == 11);
    }
    assert(first_rule(catalogue(), word, true, parent, siblings, 19) == first_rule(catalogue(), word, true, parent, siblings, 20));
    assert(!rule_applies(catalogue()[20], word, true, parent, siblings));
    assert(first_rule(catalogue(), word, true, parent, siblings, 20) == first_rule(catalogue(), word, true, parent, siblings, 21));
    assert(!rule_applies(catalogue()[21], word, true, parent, siblings));
    assert(first_rule(catalogue(), word, true, parent, siblings, 21) == first_rule(catalogue(), word, true, parent, siblings, 22));
    assert(!rule_applies(catalogue()[22], word, true, parent, siblings)) by {
        reveal_strlit(".nx");
        assert(".nx"@.len() == 3);
    }
    assert(first_rule(catalogue(), word, true, parent, siblings, 22) == first_rule(catalogue(), word, true, parent, siblings, 23));
    assert(!rule_applies(catalogue()[23], word, true, parent, siblings)) by {
        reveal_strlit(".swc");
        assert(".swc"@.len() == 4);
    }
    assert(first_rule(catalogue(), word, true, parent, siblings, 23) == first_rule(catalogue(), word, true, parent, siblings, 24));
}

/// Rules 24 to 29 of the catalogue pass over a directory named `models`.
#[verifier::spinoff_prover]
proof fn lemma_models_never_claimed_24(parent: Seq<char>, siblings: Seq<Seq<char>>)
    ensures
        first_rule(catalogue(), "models"@, true, parent, siblings, 24) == first_rule(catalogue(), "models"@, true, parent, siblings, 30),
{
    let word = "models"@;
    reveal_strlit("models");
    assert(word =~= seq!['m', 'o', 'd', 'e', 'l', 's']);
    assert(!rule_applies(catalogue()[24], word, true, parent, siblings)) by {
        reveal_strlit("bower_components");
        assert("bower_components"@.len() == 16);
        reveal_strlit("jspm_packages");
        assert("jspm_packages"@.len() == 13);
        reveal_strlit("web_modules");
        assert("web_modules"@.len() == 11);
    }
    assert(first_rule(catalogue(), word, true, parent, siblings, 24) == first_rule(catalogue(), word, true, parent, siblings, 25));
    assert(!rule_applies(catalogue()[25], word, true, parent, siblings)) by {
        reveal_strlit(".vercel");
        assert(".vercel"@.len() == 7);
        reveal_strlit(".netlify");
        assert(".netlify"@.len() == 8);
        reveal_strlit(".wrangler");
        assert(".wrangler"@.len() == 9);
        reveal_strlit(".firebase");
        assert(".firebase"@.len() == 9);
    }
    assert(first_rule(catalogue(), word, true, parent, siblings, 25) == first_rule(catalogue(), word, true, parent, siblings, 26));
    assert(!rule_applies(catalogue()[26], word, true, parent, siblings)) by {
        reveal_strlit("cache");
        assert("cache"@.len() == 5);
        reveal_strlit("dist");
        assert("dist"@.len() == 4);
    }
    assert(first_rule(catalogue(), word, true, parent, siblings, 26) == first_rule(catalogue(), word, true, parent, siblings, 27));
    assert(!rule_applies(catalogue()[27], word, true, parent, siblings)) by {
        reveal_strlit("dist");
        assert("dist"@.len() == 4);
        reveal_strlit("temp");
        assert("temp"@.len() == 4);
    }
    assert(first_rule(catalogue(), word, true, parent, siblings, 27) == first_rule(catalogue(), word, true, parent, siblings, 28));
    assert(!rule_applies(catalogue()[28], word, true, parent, siblings)) by {
        reveal_strlit("playwright-report");
        assert("playwright-report"@.len() == 17);
        reveal_strlit("test-results");
        assert("test-results"@.len() == 12);
        reveal_strlit(".playwright");
        assert(".playwright"@.len() == 11);
        reveal_strlit("blob-report");
        assert("blob-report"@.len() == 11);
    }
    assert(first_rule(catalogue(), word, true, parent, siblings, 28) == first_rule(catalogue(), word, true, parent, siblings, 29));
    assert(!rule_applies(catalogue()[29], word, true, parent, siblings)) by {
        reveal_strlit("videos");
        assert("videos"@[0] == 'v');
        reveal_strlit("screenshots");
        assert("screenshots"@.len() == 11);
        reveal_strlit("downloads");
        assert("downloads"@.len() == 9);
    }
    assert(first_rule(catalogue(), word, true, parent, siblings, 29) == first_rule(catalogue(), word, true, parent, siblings, 30));
}

/// Rules 30 to 35 of the catalogue pass over a directory named `models`.
#[verifier::spinoff_prover]
proof fn lemma_models_never_claimed_30(parent: Seq<char>, siblings: Seq<Seq<char>>)
    ensures
        first_rule(catalogue(), "models"@, true, parent, siblings, 30) == first_rule(catalogue(), "models"@, true, parent, siblings, 36),
{
    let word = "models"@;
    reveal_strlit("models");
    assert(word =~= seq!['m', 'o', 'd', 'e', 'l', 's']);
    assert(!rule_applies(catalogue()[30], word, true, parent, siblings)) by {
        reveal_strlit(".rpt2_cache");
        assert(".rpt2_cache"@.len() == 11);
        reveal_strlit(".rts2_cache_*");
        assert(".rts2_cache_*"@ =~= seq!['.', 'r', 't', 's', '2', '_', 'c', 'a', 'c', 'h', 'e', '_', '*']);
        lemma_prefix_mismatch(".rts2_cache_*"@, word, 0);
    }
    assert(first_rule(catalogue(), word, true, parent, siblings, 30) == first_rule(catalogue(), word, true, parent, siblings, 31));
    assert(!rule_applies(catalogue()[31], word, true, parent, siblings)) by {
        reveal_strlit(".grunt");
        assert(".grunt"@[0] == '.');
        reveal_strlit(".fusebox");
        assert(".fusebox"@.len() == 8);
        reveal_strlit(".dynamodb");
        assert(".dynamodb"@.len() == 9);
        reveal_strlit(".node_modules_cache");
        assert(".node_modules_cache"@.len() == 19);
    }
    assert(first_rule(catalogue(), word, true, parent, siblings, 31) == first_rule(catalogue(), word, true, parent, siblings, 32));
    assert(!rule_applies(catalogue()[32], word, true, parent, siblings));
    assert(first_rule(catalogue(), word, true, parent, siblings, 32) == first_rule(catalogue(), word, true, parent, siblings, 33));
    assert(!rule_applies(catalogue()[33], word, true, parent, siblings)) by {
        reveal_strlit("__pycache__");
        assert("__pycache__"@.len() == 11);
    }
    assert(first_rule(catalogue(), word, true, parent, siblings, 33) == first_rule(catalogue(), word, true, parent, siblings, 34));
    assert(!rule_applies(catalogue()[34], word, true, parent, siblings)) by {
        reveal_strlit(".pytest_cache");
        assert(".pytest_cache"@.len() == 13);
    }
    assert(first_rule(catalogue(), word, true, parent, siblings, 34) == first_rule(catalogue(), word, true, parent, siblings, 35));
    assert(!rule_applies(catalogue()[35], word, true, parent, siblings)) by {
        reveal_strlit(".mypy_cache");
        assert(".mypy_cache"@.len() == 11);
    }
    assert(first_rule(catalogue(), word, true, parent, siblings, 35) == first_rule(catalogue(), word, true, parent, siblings, 36));
}

/// Rules 36 to 41 of the catalogue pass over a directory named `models`.
#[verifier::spinoff_prover]
proof fn lemma_models_never_claimed_36(parent: Seq<char>, siblings: Seq<Seq<char>>)
    ensures
        first_rule(catalogue(), "models"@, true, parent, siblings, 36) == first_rule(catalogue(), "models"@, true, parent, siblings, 42),
{
    let word = "models"@;
    reveal_strlit("models");
    assert(word =~= seq!['m', 'o', 'd', 'e', 'l', 's']);
    assert(!rule_applies(catalogue()[36], word, true, parent, siblings)) by {
        reveal_strlit(".ruff_cache");
        assert(".ruff_cache"@.len() == 11);
    }
    assert(first_rule(catalogue(), word, true, parent, siblings, 36) == first_rule(catalogue(), word, true, parent, siblings, 37));
    assert(!rule_applies(catalogue()[37], word, true, parent, siblings)) by {
        reveal_strlit(".tox");
        assert(".tox"@.len() == 4);
        reveal_strlit(".nox");
        assert(".nox"@.len() == 4);
    }
    assert(first_rule(catalogue(), word, true, parent, siblings, 37) == first_rule(catalogue(), word, true, parent, siblings, 38));
    assert(!rule_applies(catalogue()[38], word, true, parent, siblings)) by {
        reveal_strlit(".hypothesis");
        assert(".hypothesis"@.len() == 11);
    }
    assert(first_rule(catalogue(), word, true, parent, siblings, 38) == first_rule(catalogue(), word, true, parent, siblings, 39));
    assert(!rule_applies(catalogue()[39], word, true, parent, siblings)) by {
        reveal_strlit("venv");
        assert("venv"@.len() == 4);
        reveal_strlit(".venv");
        assert(".venv"@.len() == 5);
        reveal_strlit("virtualenv");
        assert("virtualenv"@.len() == 10);
        reveal_strlit("env310");
        assert("env310"@[0] == 'e');
        reveal_strlit("env311");
        assert("env311"@[0] == 'e');
    }
    assert(first_rule(catalogue(), word, true, parent, siblings, 39) == first_rule(catalogue(), word, true, parent, siblings, 40));
    assert(!rule_applies(catalogue()[40], word, true, parent, siblings)) by {
        reveal_strlit("*.egg-info");
        assert("*.egg-info"@ =~= seq!['*', '.', 'e', 'g', 'g', '-', 'i', 'n', 'f', 'o']);
        lemma_tail_mismatch("*.egg-info"@, word);
    }
    assert(first_rule(catalogue(), word, true, parent, siblings, 40) == first_rule(catalogue(), word, true, parent, siblings, 41));
    assert(!rule_applies(catalogue()[41], word, true, parent, siblings)) by {
        reveal_strlit(".eggs");
        assert(".eggs"@.len() == 5);
    }
    assert(first_rule(catalogue(), word, true, parent, siblings, 41) == first_rule(catalogue(), word, true, parent, siblings, 42));
}

/// Rules 42 to 47 of the catalogue pass over a directory named `models`.
#[verifier::spinoff_prover]
proof fn lemma_models_never_claimed_42(parent: Seq<char>, siblings: Seq<Seq<char>>)
    ensures
        first_rule(catalogue(), "models"@, true, parent, siblings, 42) == first_rule(catalogue(), "models"@, true, parent, siblings, 48),
{
    let word = "models"@;
    reveal_strlit("models");
    assert(word =~= seq!['m', 'o', 'd', 'e', 'l', 's']);
    assert(!rule_applies(catalogue()[42], word, true, parent, siblings)) by {
        reveal_strlit(".ipynb_checkpoints");
        assert(".ipynb_checkpoints"@.len() == 18);
    }
    assert(first_rule(catalogue(), word, true, parent, siblings, 42) == first_rule(catalogue(), word, true, parent, siblings, 43));
    assert(!rule_applies(catalogue()[43], word, true, parent, siblings)) by {
        reveal_strlit("htmlcov");
        assert("htmlcov"@.len() == 7);
    }
    assert(first_rule(catalogue(), word, true, parent, siblings, 43) == first_rule(catalogue(), word, true, parent, siblings, 44));
    assert(!rule_applies(catalogue()[44], word, true, parent, siblings));
    assert(first_rule(catalogue(), word, true, parent, siblings, 44) == first_rule(catalogue(), word, true, parent, siblings, 45));
    assert(!rule_applies(catalogue()[45], word, true, parent, siblings)) by {
        reveal_strlit("dist");
        assert("dist"@.len() == 4);
        reveal_strlit("build");
        assert("build"@.len() == 5);
    }
    assert(first_rule(catalogue(), word, true, parent, siblings, 45) == first_rule(catalogue(), word, true, parent, siblings, 46));
    assert(!rule_applies(catalogue()[46], word, true, parent, siblings));
    assert(first_rule(catalogue(), word, true, parent, siblings, 46) == first_rule(catalogue(), word, true, parent, siblings, 47));
    assert(!rule_applies(catalogue()[47], word, true, parent, siblings)) by {
        reveal_strlit("site");
        assert("site"@.len() == 4);
    }
    assert(first_rule(catalogue(), word, true, parent, siblings, 47) == first_rule(catalogue(), word, true, parent, siblings, 48));
}

/// Rules 48 to 53 of the catalogue pass over a directory named `models`.
#[verifier::spinoff_prover]
proof fn lemma_models_never_claimed_48(parent: Seq<char>, siblings: Seq<Seq<char>>)
    ensures
        first_rule(catalogue(), "models"@, true, parent, siblings, 48) == first_rule(catalogue(), "models"@, true, parent, siblings, 54),
{
    let word = "models"@;
    reveal_strlit("models");
    assert(word =~= seq!['m', 'o', 'd', 'e', 'l', 's']);
    assert(!rule_applies(catalogue()[48], word, true, parent, siblings)) by {
        reveal_strlit("_build");
        assert("_build"@[0] == '_');
    }
    assert(first_rule(catalogue(), word, true, parent, siblings, 48) == first_rule(catalogue(), word, true, parent, siblings, 49));
    assert(!rule_applies(catalogue()[49], word, true, parent, siblings)) by {
        reveal_strlit("__pypackages__");
        assert("__pypackages__"@.len() == 14);
        reveal_strlit(".pdm-build");
        assert(".pdm-build"@.len() == 10);
    }
    assert(first_rule(catalogue(), word, true, parent, siblings, 49) == first_rule(catalogue(), word, true, parent, siblings, 50));
    assert(!rule_applies(catalogue()[50], word, true, parent, siblings)) by {
        reveal_strlit(".pyre");
        assert(".pyre"@.len() == 5);
        reveal_strlit(".pytype");
        assert(".pytype"@.len() == 7);
        reveal_strlit("cython_debug");
        assert("cython_debug"@.len() == 12);
    }
    assert(first_rule(catalogue(), word, true, parent, siblings, 50) == first_rule(catalogue(), word, true, parent, siblings, 51));
    assert(!rule_applies(catalogue()[51], word, true, parent, siblings));
    assert(first_rule(catalogue(), word, true, parent, siblings, 51) == first_rule(catalogue(), word, true, parent, siblings, 52));
    assert(!rule_applies(catalogue()[52], word, true, parent, siblings)) by {
        reveal_strlit(".scrapy");
        assert(".scrapy"@.len() == 7);
        reveal_strlit(".pybuilder");
        assert(".pybuilder"@.len() == 10);
        reveal_strlit("pip-wheel-metadata");
        assert("pip-wheel-metadata"@.len() == 18);
    }
    assert(first_rule(catalogue(), word, true, parent, siblings, 52) == first_rule(catalogue(), word, true, parent, siblings, 53));
    assert(!rule_applies(catalogue()[53], word, true, parent, siblings));
    assert(first_rule(catalogue(), word, true, parent, siblings, 53) == first_rule(catalogue(), word, true, parent, siblings, 54));
}

/// Rules 54 to 59 of the catalogue pass over a directory named `models`.
#[verifier::spinoff_prover]
proof fn lemma_models_never_claimed_54(parent: Seq<char>, siblings: Seq<Seq<char>>)
    ensures
        first_rule(catalogue(), "models"@, true, parent, siblings, 54) == first_rule(catalogue(), "models"@, true, parent, siblings, 60),
{
    let word = "models"@;
    reveal_strlit("models");
    assert(word =~= seq!['m', 'o', 'd', 'e', 'l', 's']);
    assert(!rule_applies(catalogue()[54], word, true, parent, siblings)) by {
        reveal_strlit("target");
        assert("target"@[0] == 't');
    }
    assert(first_rule(catalogue(), word, true, parent, siblings, 54) == first_rule(catalogue(), word, true, parent, siblings, 55));
    assert(!rule_applies(catalogue()[55], word, true, parent, siblings)) by {
        reveal_strlit("target");
        assert("target"@[0] == 't');
    }
    assert(first_rule(catalogue(), word, true, parent, siblings, 55) == first_rule(catalogue(), word, true, parent, siblings, 56));
    assert(!rule_applies(catalogue()[56], word, true, parent, siblings)) by {
        reveal_strlit("build");
        assert("build"@.len() == 5);
    }
    assert(first_rule(catalogue(), word, true, parent, siblings, 56) == first_rule(catalogue(), word, true, parent, siblings, 57));
    assert(!rule_applies(catalogue()[57], word, true, parent, siblings)) by {
        reveal_strlit(".gradle");
        assert(".gradle"@.len() == 7);
    }
    assert(first_rule(catalogue(), word, true, parent, siblings, 57) == first_rule(catalogue(), word, true, parent, siblings, 58));
    assert(!rule_applies(catalogue()[58], word, true, parent, siblings)) by {
        reveal_strlit(".kotlin");
        assert(".kotlin"@.len() == 7);
    }
    assert(first_rule(catalogue(), word, true, parent, siblings, 58) == first_rule(catalogue(), word, true, parent, siblings, 59));
    assert(!rule_applies(catalogue()[59], word, true, parent, siblings));
    assert(first_rule(catalogue(), word, true, parent, siblings, 59) == first_rule(catalogue(), word, true, parent, siblings, 60));
}

/// Rules 60 to 65 of the catalogue pass over a directory named `models`.
#[verifier::spinoff_prover]
proof fn lemma_models_never_claimed_60(parent: Seq<char>, siblings: Seq<Seq<char>>)
    ensures
        first_rule(catalogue(), "models"@, true, parent, siblings, 60) == first_rule(catalogue(), "models"@, true, parent, siblings, 66),
{
    let word = "models"@;
    reveal_strlit("models");
    assert(word =~= seq!['m', 'o', 'd', 'e', 'l', 's']);
    assert(!rule_applies(catalogue()[60], word, true, parent, siblings)) by {
        reveal_strlit("bin");
        assert("bin"@.len() == 3);
        reveal_strlit("obj");
        assert("obj"@.len() == 3);
    }
    assert(first_rule(catalogue(), word, true, parent, siblings, 60) == first_rule(catalogue(), word, true, parent, siblings, 61));
    assert(!rule_applies(catalogue()[61], word, true, parent, siblings)) by {
        reveal_strlit("packages");
        assert("packages"@.len() == 8);
    }
    assert(first_rule(catalogue(), word, true, parent, siblings, 61) == first_rule(catalogue(), word, true, parent, siblings, 62));
    assert(!rule_applies(catalogue()[62], word, true, parent, siblings)) by {
        reveal_strlit(".vs");
        assert(".vs"@.len() == 3);
    }
    assert(first_rule(catalogue(), word, true, parent, siblings, 62) == first_rule(catalogue(), word, true, parent, siblings, 63));
    assert(!rule_applies(catalogue()[63], word, true, parent, siblings)) by {
        reveal_strlit("vendor");
        assert("vendor"@[0] == 'v');
    }
    assert(first_rule(catalogue(), word, true, parent, siblings, 63) == first_rule(catalogue(), word, true, parent, siblings, 64));
    assert(!rule_applies(catalogue()[64], word, true, parent, siblings)) by {
        reveal_strlit("vendor");
        assert("vendor"@[0] == 'v');
    }
    assert(first_rule(catalogue(), word, true, parent, siblings, 64) == first_rule(catalogue(), word, true, parent, siblings, 65));
    assert(!rule_applies(catalogue()[65], word, true, parent, siblings)) by {
        reveal_strlit("bundle");
        assert("bundle"@[0] == 'b');
    }
    assert(first_rule(catalogue(), word, true, parent, siblings, 65) == first_rule(catalogue(), word, true, parent, siblings, 66));
}

/// Rules 66 to 71 of the catalogue pass over a directory named `models`.
#[verifier::spinoff_prover]
proof fn lemma_models_never_claimed_66(parent: Seq<char>, siblings: Seq<Seq<char>>)
    ensures
        first_rule(catalogue(), "models"@, true, parent, siblings, 66) == first_rule(catalogue(), "models"@, true, parent, siblings, 72),
{
    let word = "models"@;
    reveal_strlit("models");
    assert(word =~= seq!['m', 'o', 'd', 'e', 'l', 's']);
    assert(!rule_applies(catalogue()[66], word, true, parent, siblings)) by {
        reveal_strlit(".bundle");
        assert(".bundle"@.len() == 7);
    }
    assert(first_rule(catalogue(), word, true, parent, siblings, 66) == first_rule(catalogue(), word, true, parent, siblings, 67));
    assert(!rule_applies(catalogue()[67], word, true, parent, siblings)) by {
        reveal_strlit("CMakeFiles");
        assert("CMakeFiles"@.len() == 10);
    }
    assert(first_rule(catalogue(), word, true, parent, siblings, 67) == first_rule(catalogue(), word, true, parent, siblings, 68));
    assert(!rule_applies(catalogue()[68], word, true, parent, siblings)) by {
        reveal_strlit("cmake-build-*");
        assert("cmake-build-*"@ =~= seq!['c', 'm', 'a', 'k', 'e', '-', 'b', 'u', 'i', 'l', 'd', '-', '*']);
        lemma_prefix_mismatch("cmake-build-*"@, word, 0);
    }
    assert(first_rule(catalogue(), word, true, parent, siblings, 68) == first_rule(catalogue(), word, true, parent, siblings, 69));
    assert(!rule_applies(catalogue()[69], word, true, parent, siblings));
    assert(first_rule(catalogue(), word, true, parent, siblings, 69) == first_rule(catalogue(), word, true, parent, siblings, 70));
    assert(!rule_applies(catalogue()[70], word, true, parent, siblings)) by {
        reveal_strlit(".ccls-cache");
        assert(".ccls-cache"@.len() == 11);
        reveal_strlit(".clangd");
        assert(".clangd"@.len() == 7);
    }
    assert(first_rule(catalogue(), word, true, parent, siblings, 70) == first_rule(catalogue(), word, true, parent, siblings, 71));
    assert(!rule_applies(catalogue()[71], word, true, parent, siblings));
    assert(first_rule(catalogue(), word, true, parent, siblings, 71) == first_rule(catalogue(), word, true, parent, siblings, 72));
}

/// Rules 72 to 77 of the catalogue pass over a directory named `models`.
#[verifier::spinoff_prover]
proof fn lemma_models_never_claimed_72(parent: Seq<char>, siblings: Seq<Seq<char>>)
    ensures
        first_rule(catalogue(), "models"@, true, parent, siblings, 72) == first_rule(catalogue(), "models"@, true, parent, siblings, 78),
{
    let word = "models"@;
    reveal_strlit("models");
    assert(word =~= seq!['m', 'o', 'd', 'e', 'l', 's']);
    assert(!rule_applies(catalogue()[72], word, true, parent, siblings)) by {
        reveal_strlit("Debug");
        assert("Debug"@.len() == 5);
        reveal_strlit("Release");
        assert("Release"@.len() == 7);
        reveal_strlit("x64");
        assert("x64"@.len() == 3);
        reveal_strlit("Win32");
        assert("Win32"@.len() == 5);
        reveal_strlit("ARM64");
        assert("ARM64"@.len() == 5);
        reveal_strlit("ipch");
        assert("ipch"@.len() == 4);
    }
    assert(first_rule(catalogue(), word, true, parent, siblings, 72) == first_rule(catalogue(), word, true, parent, siblings, 73));
    assert(!rule_applies(catalogue()[73], word, true, parent, siblings)) by {
        reveal_strlit(".deps");
        assert(".deps"@.len() == 5);
        reveal_strlit(".libs");
        assert(".libs"@.len() == 5);
        reveal_strlit("autom4te.cache");
        assert("autom4te.cache"@.len() == 14);
    }
    assert(first_rule(catalogue(), word, true, parent, siblings, 73) == first_rule(catalogue(), word, true, parent, siblings, 74));
    assert(!rule_applies(catalogue()[74], word, true, parent, siblings));
    assert(first_rule(catalogue(), word, true, parent, siblings, 74) == first_rule(catalogue(), word, true, parent, siblings, 75));
    assert(!rule_applies(catalogue()[75], word, true, parent, siblings)) by {
        reveal_strlit("vcpkg_installed");
        assert("vcpkg_installed"@.len() == 15);
    }
    assert(first_rule(catalogue(), word, true, parent, siblings, 75) == first_rule(catalogue(), word, true, parent, siblings, 76));
    assert(!rule_applies(catalogue()[76], word, true, parent, siblings)) by {
        reveal_strlit("DerivedData");
        assert("DerivedData"@.len() == 11);
    }
    assert(first_rule(catalogue(), word, true, parent, siblings, 76) == first_rule(catalogue(), word, true, parent, siblings, 77));
    assert(!rule_applies(catalogue()[77], word, true, parent, siblings)) by {
        reveal_strlit(".build");
        assert(".build"@[0] == '.');
    }
    assert(first_rule(catalogue(), word, true, parent, siblings, 77) == first_rule(catalogue(), word, true, parent, siblings, 78));
}

/// Rules 78 to 83 of the catalogue pass over a directory named `models`.
#[verifier::spinoff_prover]
proof fn lemma_models_never_claimed_78(parent: Seq<char>, siblings: Seq<Seq<char>>)
    ensures
        first_rule(catalogue(), "models"@, true, parent, siblings, 78) == first_rule(catalogue(), "models"@, true, parent, siblings, 84),
{
    let word = "models"@;
    reveal_strlit("models");
    assert(word =~= seq!['m', 'o', 'd', 'e', 'l', 's']);
    assert(!rule_applies(catalogue()[78], word, true, parent, siblings)) by {
        reveal_strlit("Pods");
        assert("Pods"@.len() == 4);
    }
    assert(first_rule(catalogue(), word, true, parent, siblings, 78) == first_rule(catalogue(), word, true, parent, siblings, 79));
    assert(!rule_applies(catalogue()[79], word, true, parent, siblings)) by {
        reveal_strlit("Build");
        assert("Build"@.len() == 5);
    }
    assert(first_rule(catalogue(), word, true, parent, siblings, 79) == first_rule(catalogue(), word, true, parent, siblings, 80));
    assert(!rule_applies(catalogue()[80], word, true, parent, siblings)) by {
        reveal_strlit("xcuserdata");
        assert("xcuserdata"@.len() == 10);
        reveal_strlit("*.xcuserdatad");
        assert("*.xcuserdatad"@ =~= seq!['*', '.', 'x', 'c', 'u', 's', 'e', 'r', 'd', 'a', 't', 'a', 'd']);
        lemma_tail_mismatch("*.xcuserdatad"@, word);
    }
    assert(first_rule(catalogue(), word, true, parent, siblings, 80) == first_rule(catalogue(), word, true, parent, siblings, 81));
    assert(!rule_applies(catalogue()[81], word, true, parent, siblings)) by {
        reveal_strlit(".swiftpm");
        assert(".swiftpm"@.len() == 8);
    }
    assert(first_rule(catalogue(), word, true, parent, siblings, 81) == first_rule(catalogue(), word, true, parent, siblings, 82));
    assert(!rule_applies(catalogue()[82], word, true, parent, siblings)) by {
        reveal_strlit(".dart_tool");
        assert(".dart_tool"@.len() == 10);
    }
    assert(first_rule(catalogue(), word, true, parent, siblings, 82) == first_rule(catalogue(), word, true, parent, siblings, 83));
    assert(!rule_applies(catalogue()[83], word, true, parent, siblings));
    assert(first_rule(catalogue(), word, true, parent, siblings, 83) == first_rule(catalogue(), word, true, parent, siblings, 84));
}

/// Rules 84 to 89 of the catalogue pass over a directory named `models`.
#[verifier::spinoff_prover]
proof fn lemma_models_never_claimed_84(parent: Seq<char>, siblings: Seq<Seq<char>>)
    ensures
        first_rule(catalogue(), "models"@, true, parent, siblings, 84) == first_rule(catalogue(), "models"@, true, parent, siblings, 90),
{
    let word = "models"@;
    reveal_strlit("models");
    assert(word =~= seq!['m', 'o', 'd', 'e', 'l', 's']);
    assert(!rule_applies(catalogue()[84], word, true, parent, siblings)) by {
        reveal_strlit("_build");
        assert("_build"@[0] == '_');
    }
    assert(first_rule(catalogue(), word, true, parent, siblings, 84) == first_rule(catalogue(), word, true, parent, siblings, 85));
    assert(!rule_applies(catalogue()[85], word, true, parent, siblings)) by {
        reveal_strlit("deps");
        assert("deps"@.len() == 4);
    }
    assert(first_rule(catalogue(), word, true, parent, siblings, 85) == first_rule(catalogue(), word, true, parent, siblings, 86));
    assert(!rule_applies(catalogue()[86], word, true, parent, siblings)) by {
        reveal_strlit(".cxx");
        assert(".cxx"@.len() == 4);
    }
    assert(first_rule(catalogue(), word, true, parent, siblings, 86) == first_rule(catalogue(), word, true, parent, siblings, 87));
    assert(!rule_applies(catalogue()[87], word, true, parent, siblings)) by {
        reveal_strlit("Library");
        assert("Library"@.len() == 7);
        reveal_strlit("Temp");
        assert("Temp"@.len() == 4);
        reveal_strlit("Obj");
        assert("Obj"@.len() == 3);
        reveal_strlit("Logs");
        assert("Logs"@.len() == 4);
        reveal_strlit("UserSettings");
        assert("UserSettings"@.len() == 12);
    }
    assert(first_rule(catalogue(), word, true, parent, siblings, 87) == first_rule(catalogue(), word, true, parent, siblings, 88));
    assert(!rule_applies(catalogue()[88], word, true, parent, siblings)) by {
        reveal_strlit(".godot");
        assert(".godot"@[0] == '.');
        reveal_strlit(".import");
        assert(".import"@.len() == 7);
    }
    assert(first_rule(catalogue(), word, true, parent, siblings, 88) == first_rule(catalogue(), word, true, parent, siblings, 89));
    assert(!rule_applies(catalogue()[89], word, true, parent, siblings)) by {
        reveal_strlit("Binaries");
        assert("Binaries"@.len() == 8);
        reveal_strlit("Intermediate");
        assert("Intermediate"@.len() == 12);
        reveal_strlit("DerivedDataCache");
        assert("DerivedDataCache"@.len() == 16);
        reveal_strlit("Saved");
        assert("Saved"@.len() == 5);
    }
    assert(first_rule(catalogue(), word, true, parent, siblings, 89) == first_rule(catalogue(), word, true, parent, siblings, 90));
}

/// Rules 90 to 95 of the catalogue pass over a directory named `models`.
#[verifier::spinoff_prover]
proof fn lemma_models_never_claimed_90(parent: Seq<char>, siblings: Seq<Seq<char>>)
    ensures
        first_rule(catalogue(), "models"@, true, parent, siblings, 90) == first_rule(catalogue(), "models"@, true, parent, siblings, 96),
{
    let word = "models"@;
    reveal_strlit("models");
    assert(word =~= seq!['m', 'o', 'd', 'e', 'l', 's']);
    assert(!rule_applies(catalogue()[90], word, true, parent, siblings)) by {
        reveal_strlit("Build");
        assert("Build"@.len() == 5);
        reveal_strlit("Builds");
        assert("Builds"@[0] == 'B');
        reveal_strlit("MemoryCaptures");
        assert("MemoryCaptures"@.len() == 14);
        reveal_strlit("Recordings");
        assert("Recordings"@.len() == 10);
    }
    assert(first_rule(catalogue(), word, true, parent, siblings, 90) == first_rule(catalogue(), word, true, parent, siblings, 91));
    assert(!rule_applies(catalogue()[91], word, true, parent, siblings)) by {
        reveal_strlit("huggingface");
        assert("huggingface"@.len() == 11);
    }
    assert(first_rule(catalogue(), word, true, parent, siblings, 91) == first_rule(catalogue(), word, true, parent, siblings, 92));
    assert(!rule_applies(catalogue()[92], word, true, parent, siblings));
    assert(first_rule(catalogue(), word, true, parent, siblings, 92) == first_rule(catalogue(), word, true, parent, siblings, 93));
    assert(!rule_applies(catalogue()[93], word, true, parent, siblings));
    assert(first_rule(catalogue(), word, true, parent, siblings, 93) == first_rule(catalogue(), word, true, parent, siblings, 94));
    assert(!rule_applies(catalogue()[94], word, true, parent, siblings)) by {
        reveal_strlit("wandb");
        assert("wandb"@.len() == 5);
        reveal_strlit("mlruns");
        assert("mlruns"@[1] == 'l');
        reveal_strlit("lightning_logs");
        assert("lightning_logs"@.len() == 14);
    }
    assert(first_rule(catalogue(), word, true, parent, siblings, 94) == first_rule(catalogue(), word, true, parent, siblings, 95));
    assert(!rule_applies(catalogue()[95], word, true, parent, siblings)) by {
        reveal_strlit("runs");
        assert("runs"@.len() == 4);
        reveal_strlit("multirun");
        assert("multirun"@.len() == 8);
        reveal_strlit(".neptune");
        assert(".neptune"@.len() == 8);
        reveal_strlit("catboost_info");
        assert("catboost_info"@.len() == 13);
        reveal_strlit(".aim");
        assert(".aim"@.len() == 4);
    }
    assert(first_rule(catalogue(), word, true, parent, siblings, 95) == first_rule(catalogue(), word, true, parent, siblings, 96));
}

/// Rules 96 to 101 of the catalogue pass over a directory named `models`.
#[verifier::spinoff_prover]
proof fn lemma_models_never_claimed_96(parent: Seq<char>, siblings: Seq<Seq<char>>)
    ensures
        first_rule(catalogue(), "models"@, true, parent, siblings, 96) == first_rule(catalogue(), "models"@, true, parent, siblings, 102),
{
    let word = "models"@;
    reveal_strlit("models");
    assert(word =~= seq!['m', 'o', 'd', 'e', 'l', 's']);
    assert(!rule_applies(catalogue()[96], word, true, parent, siblings)) by {
        reveal_strlit(".terraform");
        assert(".terraform"@.len() == 10);
    }
    assert(first_rule(catalogue(), word, true, parent, siblings, 96) == first_rule(catalogue(), word, true, parent, siblings, 97));
    assert(!rule_applies(catalogue()[97], word, true, parent, siblings)) by {
        reveal_strlit(".terragrunt-cache");
        assert(".terragrunt-cache"@.len() == 17);
    }
    assert(first_rule(catalogue(), word, true, parent, siblings, 97) == first_rule(catalogue(), word, true, parent, siblings, 98));
    assert(!rule_applies(catalogue()[98], word, true, parent, siblings)) by {
        reveal_strlit(".pulumi");
        assert(".pulumi"@.len() == 7);
    }
    assert(first_rule(catalogue(), word, true, parent, siblings, 98) == first_rule(catalogue(), word, true, parent, siblings, 99));
    assert(!rule_applies(catalogue()[99], word, true, parent, siblings)) by {
        reveal_strlit(".vagrant");
        assert(".vagrant"@.len() == 8);
    }
    assert(first_rule(catalogue(), word, true, parent, siblings, 99) == first_rule(catalogue(), word, true, parent, siblings, 100));
    assert(!rule_applies(catalogue()[100], word, true, parent, siblings)) by {
        reveal_strlit("_site");
        assert("_site"@.len() == 5);
        reveal_strlit(".jekyll-cache");
        assert(".jekyll-cache"@.len() == 13);
    }
    assert(first_rule(catalogue(), word, true, parent, siblings, 100) == first_rule(catalogue(), word, true, parent, siblings, 101));
    assert(!rule_applies(catalogue()[101], word, true, parent, siblings)) by {
        reveal_strlit("public");
        assert("public"@[0] == 'p');
        reveal_strlit("resources");
        assert("resources"@.len() == 9);
    }
    assert(first_rule(catalogue(), word, true, parent, siblings, 101) == first_rule(catalogue(), word, true, parent, siblings, 102));
}

/// Rules 102 to 107 of the catalogue pass over a directory named `models`.
#[verifier::spinoff_prover]
proof fn lemma_models_never_claimed_102(parent: Seq<char>, siblings: Seq<Seq<char>>)
    ensures
        first_rule(catalogue(), "models"@, true, parent, siblings, 102) == first_rule(catalogue(), "models"@, true, parent, siblings, 108),
{
    let word = "models"@;
    reveal_strlit("models");
    assert(word =~= seq!['m', 'o', 'd', 'e', 'l', 's']);
    assert(!rule_applies(catalogue()[102], word, true, parent, siblings)) by {
        reveal_strlit(".sass-cache");
        assert(".sass-cache"@.len() == 11);
    }
    assert(first_rule(catalogue(), word, true, parent, siblings, 102) == first_rule(catalogue(), word, true, parent, siblings, 103));
    assert(!rule_applies(catalogue()[103], word, true, parent, siblings)) by {
        reveal_strlit(".quarto");
        assert(".quarto"@.len() == 7);
        reveal_strlit("_freeze");
        assert("_freeze"@.len() == 7);
    }
    assert(first_rule(catalogue(), word, true, parent, siblings, 103) == first_rule(catalogue(), word, true, parent, siblings, 104));
    assert(!rule_applies(catalogue()[104], word, true, parent, siblings)) by {
        reveal_strlit("_book");
        assert("_book"@.len() == 5);
        reveal_strlit(".docz");
        assert(".docz"@.len() == 5);
    }
    assert(first_rule(catalogue(), word, true, parent, siblings, 104) == first_rule(catalogue(), word, true, parent, siblings, 105));
    assert(!rule_applies(catalogue()[105], word, true, parent, siblings)) by {
        reveal_strlit(".idea");
        assert(".idea"@.len() == 5);
    }
    assert(first_rule(catalogue(), word, true, parent, siblings, 105) == first_rule(catalogue(), word, true, parent, siblings, 106));
    assert(!rule_applies(catalogue()[106], word, true, parent, siblings)) by {
        reveal_strlit(".history");
        assert(".history"@.len() == 8);
    }
    assert(first_rule(catalogue(), word, true, parent, siblings, 106) == first_rule(catalogue(), word, true, parent, siblings, 107));
    assert(!rule_applies(catalogue()[107], word, true, parent, siblings)) by {
        reveal_strlit(".direnv");
        assert(".direnv"@.len() == 7);
    }
    assert(first_rule(catalogue(), word, true, parent, siblings, 107) == first_rule(catalogue(), word, true, parent, siblings, 108));
}

/// Rules 108 to 113 of the catalogue pass over a directory named `models`.
#[verifier::spinoff_prover]
proof fn lemma_models_never_claimed_108(parent: Seq<char>, siblings: Seq<Seq<char>>)
    ensures
        first_rule(catalogue(), "models"@, true, parent, siblings, 108) == first_rule(catalogue(), "models"@, true, parent, siblings, 114),
{
    let word = "models"@;
    reveal_strlit("models");
    assert(word =~= seq!['m', 'o', 'd', 'e', 'l', 's']);
    assert(!rule_applies(catalogue()[108], word, true, parent, siblings));
    assert(first_rule(catalogue(), word, true, parent, siblings, 108) == first_rule(catalogue(), word, true, parent, siblings, 109));
    assert(!rule_applies(catalogue()[109], word, true, parent, siblings));
    assert(first_rule(catalogue(), word, true, parent, siblings, 109) == first_rule(catalogue(), word, true, parent, siblings, 110));
    assert(!rule_applies(catalogue()[110], word, true, parent, siblings)) by {
        reveal_strlit(".Spotlight-V100");
        assert(".Spotlight-V100"@.len() == 15);
        reveal_strlit(".Trashes");
        assert(".Trashes"@.len() == 8);
        reveal_strlit(".fseventsd");
        assert(".fseventsd"@.len() == 10);
        reveal_strlit("$RECYCLE.BIN");
        assert("$RECYCLE.BIN"@.len() == 12);
    }
    assert(first_rule(catalogue(), word, true, parent, siblings, 110) == first_rule(catalogue(), word, true, parent, siblings, 111));
    assert(!rule_applies(catalogue()[111], word, true, parent, siblings)) by {
        reveal_strlit("dist");
        assert("dist"@.len() == 4);
        reveal_strlit("out");
        assert("out"@.len() == 3);
    }
    assert(first_rule(catalogue(), word, true, parent, siblings, 111) == first_rule(catalogue(), word, true, parent, siblings, 112));
    assert(!rule_applies(catalogue()[112], word, true, parent, siblings)) by {
        reveal_strlit("build");
        assert("build"@.len() == 5);
        reveal_strlit("_build");
        assert("_build"@[0] == '_');
    }
    assert(first_rule(catalogue(), word, true, parent, siblings, 112) == first_rule(catalogue(), word, true, parent, siblings, 113));
    assert(!rule_applies(catalogue()[113], word, true, parent, siblings)) by {
        reveal_strlit(".cache");
        assert(".cache"@[0] == '.');
        reveal_strlit(".temp");
        assert(".temp"@.len() == 5);
        reveal_strlit(".tmp");
        assert(".tmp"@.len() == 4);
    }
    assert(first_rule(catalogue(), word, true, parent, siblings, 113) == first_rule(catalogue(), word, true, parent, siblings, 114));
}

/// Rules 114 to 119 of the catalogue pass over a directory named `models`.
#[verifier::spinoff_prover]
proof fn lemma_models_never_claimed_114(parent: Seq<char>, siblings: Seq<Seq<char>>)
    ensures
        first_rule(catalogue(), "models"@, true, parent, siblings, 114) == first_rule(catalogue(), "models"@, true, parent, siblings, 120),
{
    let word = "models"@;
    reveal_strlit("models");
    assert(word =~= seq!['m', 'o', 'd', 'e', 'l', 's']);
    assert(!rule_applies(catalogue()[114], word, true, parent, siblings)) by {
        reveal_strlit("tmp");
        assert("tmp"@.len() == 3);
        reveal_strlit("temp");
        assert("temp"@.len() == 4);
    }
    assert(first_rule(catalogue(), word, true, parent, siblings, 114) == first_rule(catalogue(), word, true, parent, siblings, 115));
    assert(!rule_applies(catalogue()[115], word, true, parent, siblings)) by {
        reveal_strlit("coverage");
        assert("coverage"@.len() == 8);
    }
    assert(first_rule(catalogue(), word, true, parent, siblings, 115) == first_rule(catalogue(), word, true, parent, siblings, 116));
    assert(!rule_applies(catalogue()[116], word, true, parent, siblings)) by {
        reveal_strlit("logs");
        assert("logs"@.len() == 4);
    }
    assert(first_rule(catalogue(), word, true, parent, siblings, 116) == first_rule(catalogue(), word, true, parent, siblings, 117));
    assert(!rule_applies(catalogue()[117], word, true, parent, siblings));
    assert(first_rule(catalogue(), word, true, parent, siblings, 117) == first_rule(catalogue(), word, true, parent, siblings, 118));
    assert(!rule_applies(catalogue()[118], word, true, parent, siblings));
    assert(first_rule(catalogue(), word, true, parent, siblings, 118) == first_rule(catalogue(), word, true, parent, siblings, 119));
    assert(!rule_applies(catalogue()[119], word, true, parent, siblings));
    assert(first_rule(catalogue(), word, true, parent, siblings, 119) == first_rule(catalogue(), word, true, parent, siblings, 120));
}

/// No rule claims a directory named `models`: in a Django or Rails
/// application it holds source code. Weights are found by their file
/// extensions instead.
pub proof fn lemma_models_never_claimed(parent: Seq<char>, siblings: Seq<Seq<char>>)
    ensures
        first_rule(catalogue(), "models"@, true, parent, siblings, 0) == None::<Rule>,
{
    let word = "models"@;
    lemma_models_never_claimed_0(parent, siblings);
    lemma_models_never_claimed_6(parent, siblings);
    lemma_models_never_claimed_12(parent, siblings);
    lemma_models_never_claimed_18(parent, siblings);
    lemma_models_never_claimed_24(parent, siblings);
    lemma_models_never_claimed_30(parent, siblings);
    lemma_models_never_claimed_36(parent, siblings);
    lemma_models_never_claimed_42(parent, siblings);
    lemma_models_never_claimed_48(parent, siblings);
    lemma_models_never_claimed_54(parent, siblings);
    lemma_models_never_claimed_60(parent, siblings);
    lemma_models_never_claimed_66(parent, siblings);
    lemma_models_never_claimed_72(parent, siblings);
    lemma_models_never_claimed_78(parent, siblings);
    lemma_models_never_claimed_84(parent, siblings);
    lemma_models_never_claimed_90(parent, siblings);
    lemma_models_never_claimed_96(parent, siblings);
    lemma_models_never_claimed_102(parent, siblings);
    lemma_models_never_claimed_108(parent, siblings);
    lemma_models_never_claimed_114(parent, siblings);
    assert(first_rule(catalogue(), word, true, parent, siblings, 120) == None::<Rule>);
}

/// Rules 0 to 5 of the catalogue pass over a directory named `checkpoints`.
#[verifier::spinoff_prover]
proof fn lemma_checkpoints_never_claimed_0(parent: Seq<char>, siblings: Seq<Seq<char>>)
    ensures
        first_rule(catalogue(), "checkpoints"@, true, parent, siblings, 0) == first_rule(catalogue(), "checkpoints"@, true, parent, siblings, 6),
{
    let word = "checkpoints"@;
    reveal_strlit("checkpoints");
    assert(word =~= seq!['c', 'h', 'e', 'c', 'k', 'p', 'o', 'i', 'n', 't', 's']);
    assert(!rule_applies(catalogue()[0], word, true, parent, siblings)) by {
        reveal_strlit("node_modules");
        assert("node_modules"@.len() == 12);
    }
    assert(first_rule(catalogue(), word, true, parent, siblings, 0) == first_rule(catalogue(), word, true, parent, siblings, 1));
    assert(!rule_applies(catalogue()[1], word, true, parent, siblings)) by {
        reveal_strlit(".next");
        assert(".next"@.len() == 5);
    }
    assert(first_rule(catalogue(), word, true, parent, siblings, 1) == first_rule(catalogue(), word, true, parent, siblings, 2));
    assert(!rule_applies(catalogue()[2], word, true, parent, siblings)) by {
        reveal_strlit(".nuxt");
        assert(".nuxt"@.len() == 5);
    }
    assert(first_rule(catalogue(), word, true, parent, siblings, 2) == first_rule(catalogue(), word, true, parent, siblings, 3));
    assert(!rule_applies(catalogue()[3], word, true, parent, siblings)) by {
        reveal_strlit(".output");
        assert(".output"@.len() == 7);
    }
    assert(first_rule(catalogue(), word, true, parent, siblings, 3) == first_rule(catalogue(), word, true, parent, siblings, 4));
    assert(!rule_applies(catalogue()[4], word, true, parent, siblings)) by {
        reveal_strlit(".svelte-kit");
        assert(".svelte-kit"@[0] == '.');
    }
    assert(first_rule(catalogue(), word, true, parent, siblings, 4) == first_rule(catalogue(), word, true, parent, siblings, 5));
    assert(!rule_applies(catalogue()[5], word, true, parent, siblings)) by {
        reveal_strlit(".astro");
        assert(".astro"@.len() == 6);
    }
    assert(first_rule(catalogue(), word, true, parent, siblings, 5) == first_rule(catalogue(), word, true, parent, siblings, 6));
}

/// Rules 6 to 11 of the catalogue pass over a directory named `checkpoints`.
#[verifier::spinoff_prover]
proof fn lemma_checkpoints_never_claimed_6(parent: Seq<char>, siblings: Seq<Seq<char>>)
    ensures
        first_rule(catalogue(), "checkpoints"@, true, parent, siblings, 6) == first_rule(catalogue(), "checkpoints"@, true, parent, siblings, 12),
{
    let word = "checkpoints"@;
    reveal_strlit("checkpoints");
    assert(word =~= seq!['c', 'h', 'e', 'c', 'k', 'p', 'o', 'i', 'n', 't', 's']);
    assert(!rule_applies(catalogue()[6], word, true, parent, siblings)) by {
        reveal_strlit(".docusaurus");
        assert(".docusaurus"@[0] == '.');
    }
    assert(first_rule(catalogue(), word, true, parent, siblings, 6) == first_rule(catalogue(), word, true, parent, siblings, 7));
    assert(!rule_applies(catalogue()[7], word, true, parent, siblings)) by {
        reveal_strlit(".angular");
        assert(".angular"@.len() == 8);
    }
    assert(first_rule(catalogue(), word, true, parent, siblings, 7) == first_rule(catalogue(), word, true, parent, siblings, 8));
    assert(!rule_applies(catalogue()[8], word, true, parent, siblings)) by {
        reveal_strlit(".parcel-cache");
        assert(".parcel-cache"@.len() == 13);
    }
    assert(first_rule(catalogue(), word, true, parent, siblings, 8) == first_rule(catalogue(), word, true, parent, siblings, 9));
    assert(!rule_applies(catalogue()[9], word, true, parent, siblings)) by {
        reveal_strlit(".turbo");
        assert(".turbo"@.len() == 6);
    }
    assert(first_rule(catalogue(), word, true, parent, siblings, 9) == first_rule(catalogue(), word, true, parent, siblings, 10));
    assert(!rule_applies(catalogue()[10], word, true, parent, siblings)) by {
        reveal_strlit(".vite");
        assert(".vite"@.len() == 5);
    }
    assert(first_rule(catalogue(), word, true, parent, siblings, 10) == first_rule(catalogue(), word, true, parent, siblings, 11));
    assert(!rule_applies(catalogue()[11], word, true, parent, siblings)) by {
        reveal_strlit(".rollup.cache");
        assert(".rollup.cache"@.len() == 13);
    }
    assert(first_rule(catalogue(), word, true, parent, siblings, 11) == first_rule(catalogue(), word, true, parent, siblings, 12));
}

/// Rules 12 to 17 of the catalogue pass over a directory named `checkpoints`.
#[verifier::spinoff_prover]
proof fn lemma_checkpoints_never_claimed_12(parent: Seq<char>, siblings: Seq<Seq<char>>)
    ensures
        first_rule(catalogue(), "checkpoints"@, true, parent, siblings, 12) == first_rule(catalogue(), "checkpoints"@, true, parent, siblings, 18),
{
    let word = "checkpoints"@;
    reveal_strlit("checkpoints");
    assert(word =~= seq!['c', 'h', 'e', 'c', 'k', 'p', 'o', 'i', 'n', 't', 's']);
    assert(!rule_applies(catalogue()[12], word, true, parent, siblings)) by {
        reveal_strlit(".webpack");
        assert(".webpack"@.len() == 8);
    }
    assert(first_rule(catalogue(), word, true, parent, siblings, 12) == first_rule(catalogue(), word, true, parent, siblings, 13));
    assert(!rule_applies(catalogue()[13], word, true, parent, siblings)) by {
        reveal_strlit(".serverless");
        assert(".serverless"@[0] == '.');
    }
    assert(first_rule(catalogue(), word, true, parent, siblings, 13) == first_rule(catalogue(), word, true, parent, siblings, 14));
    assert(!rule_applies(catalogue()[14], word, true, parent, siblings)) by {
        reveal_strlit("cache");
        assert("cache"@.len() == 5);
        reveal_strlit("unplugged");
        assert("unplugged"@.len() == 9);
    }
    assert(first_rule(catalogue(), word, true, parent, siblings, 14) == first_rule(catalogue(), word, true, parent, siblings, 15));
    assert(!rule_applies(catalogue()[15], word, true, parent, siblings)) by {
        reveal_strlit(".pnpm-store");
        assert(".pnpm-store"@[0] == '.');
    }
    assert(first_rule(catalogue(), word, true, parent, siblings, 15) == first_rule(catalogue(), word, true, parent, siblings, 16));
    assert(!rule_applies(catalogue()[16], word, true, parent, siblings)) by {
        reveal_strlit(".expo");
        assert(".expo"@.len() == 5);
        reveal_strlit(".expo-shared");
        assert(".expo-shared"@.len() == 12);
    }
    assert(first_rule(catalogue(), word, true, parent, siblings, 16) == first_rule(catalogue(), word, true, parent, siblings, 17));
    assert(!rule_applies(catalogue()[17], word, true, parent, siblings)) by {
        reveal_strlit(".metro-cache");
        assert(".metro-cache"@.len() == 12);
    }
    assert(first_rule(catalogue(), word, true, parent, siblings, 17) == first_rule(catalogue(), word, true, parent, siblings, 18));
}

/// Rules 18 to 23 of the catalogue pass over a directory named `checkpoints`.
#[verifier::spinoff_prover]
proof fn lemma_checkpoints_never_claimed_18(parent: Seq<char>, siblings: Seq<Seq<char>>)
    ensures
        first_rule(catalogue(), "checkpoints"@, true, parent, siblings, 18) == first_rule(catalogue(), "checkpoints"@, true, parent, siblings, 24),
{
    let word = "checkpoints"@;
    reveal_strlit("checkpoints");
    assert(word =~= seq!['c', 'h', 'e', 'c', 'k', 'p', 'o', 'i', 'n', 't', 's']);
    assert(!rule_applies(catalogue()[18], word, true, parent, siblings)) by {
        reveal_strlit("storybook-static");
        assert("storybook-static"@.len() == 16);
    }
    assert(first_rule(catalogue(), word, true, parent, siblings, 18) == first_rule(catalogue(), word, true, parent, siblings, 19));
    assert(!rule_applies(catalogue()[19], word, true, parent, siblings)) by {
        reveal_strlit(".nyc_output");
        assert(".nyc_output"@[0] == '.');
    }
    assert(first_rule(catalogue(), word, true, parent, siblings, 19) == first_rule(catalogue(), word, true, parent, siblings, 20));
    assert(!rule_applies(catalogue()[20], word, true, parent, siblings));
    assert(first_rule(catalogue(), word, true, parent, siblings, 20) == first_rule(catalogue(), word, true, parent, siblings, 21));
    assert(!rule_applies(catalogue()[21], word, true, parent, siblings));
    assert(first_rule(catalogue(), word, true, parent, siblings, 21) == first_rule(catalogue(), word, true, parent, siblings, 22));
    assert(!rule_applies(catalogue()[22], word, true, parent, siblings)) by {
        reveal_strlit(".nx");
        assert(".nx"@.len() == 3);
    }
    assert(first_rule(catalogue(), word, true, parent, siblings, 22) == first_rule(catalogue(), word, true, parent, siblings, 23));
    assert(!rule_applies(catalogue()[23], word, true, parent, siblings)) by {
        reveal_strlit(".swc");
        assert(".swc"@.len() == 4);
    }
    assert(first_rule(catalogue(), word, true, parent, siblings, 23) == first_rule(catalogue(), word, true, parent, siblings, 24));
}

/// Rules 24 to 29 of the catalogue pass over a directory named `checkpoints`.
#[verifier::spinoff_prover]
proof fn lemma_checkpoints_never_claimed_24(parent: Seq<char>, siblings: Seq<Seq<char>>)
    ensures
        first_rule(catalogue(), "checkpoints"@, true, parent, siblings, 24) == first_rule(catalogue(), "checkpoints"@, true, parent, siblings, 30),
{
    let word = "checkpoints"@;
    reveal_strlit("checkpoints");
    assert(word =~= seq!['c', 'h', 'e', 'c', 'k', 'p', 'o', 'i', 'n', 't', 's']);
    assert(!rule_applies(catalogue()[24], word, true, parent, siblings)) by {
        reveal_strlit("bower_components");
        assert("bower_components"@.len() == 16);
        reveal_strlit("jspm_packages");
        assert("jspm_packages"@.len() == 13);
        reveal_strlit("web_modules");
        assert("web_modules"@[0] == 'w');
    }
    assert(first_rule(catalogue(), word, true, parent, siblings, 24) == first_rule(catalogue(), word, true, parent, siblings, 25));
    assert(!rule_applies(catalogue()[25], word, true, parent, siblings)) by {
        reveal_strlit(".vercel");
        assert(".vercel"@.len() == 7);
        reveal_strlit(".netlify");
        assert(".netlify"@.len() == 8);
        reveal_strlit(".wrangler");
        assert(".wrangler"@.len() == 9);
        reveal_strlit(".firebase");
        assert(".firebase"@.len() == 9);
    }
    assert(first_rule(catalogue(), word, true, parent, siblings, 25) == first_rule(catalogue(), word, true, parent, siblings, 26));
    assert(!rule_applies(catalogue()[26], word, true, parent, siblings)) by {
        reveal_strlit("cache");
        assert("cache"@.len() == 5);
        reveal_strlit("dist");
        assert("dist"@.len() == 4);
    }
    assert(first_rule(catalogue(), word, true, parent, siblings, 26) == first_rule(catalogue(), word, true, parent, siblings, 27));
    assert(!rule_applies(catalogue()[27], word, true, parent, siblings)) by {
        reveal_strlit("dist");
        assert("dist"@.len() == 4);
        reveal_strlit("temp");
        assert("temp"@.len() == 4);
    }
    assert(first_rule(catalogue(), word, true, parent, siblings, 27) == first_rule(catalogue(), word, true, parent, siblings, 28));
    assert(!rule_applies(catalogue()[28], word, true, parent, siblings)) by {
        reveal_strlit("playwright-report");
        assert("playwright-report"@.len() == 17);
        reveal_strlit("test-results");
        assert("test-results"@.len() == 12);
        reveal_strlit(".playwright");
        assert(".playwright"@[0] == '.');
        reveal_strlit("blob-report");
        assert("blob-report"@[0] == 'b');
    }
    assert(first_rule(catalogue(), word, true, parent, siblings, 28) == first_rule(catalogue(), word, true, parent, siblings, 29));
    assert(!rule_applies(catalogue()[29], word, true, parent, siblings)) by {
        reveal_strlit("videos");
        assert("videos"@.len() == 6);
        reveal_strlit("screenshots");
        assert("screenshots"@[0] == 's');
        reveal_strlit("downloads");
        assert("downloads"@.len() == 9);
    }
    assert(first_rule(catalogue(), word, true, parent, siblings, 29) == first_rule(catalogue(), word, true, parent, siblings, 30));
}

/// Rules 30 to 35 of the catalogue pass over a directory named `checkpoints`.
#[verifier::spinoff_prover]
proof fn lemma_checkpoints_never_claimed_30(parent: Seq<char>, siblings: Seq<Seq<char>>)
    ensures
        first_rule(catalogue(), "checkpoints"@, true, parent, siblings, 30) == first_rule(catalogue(), "checkpoints"@, true, parent, siblings, 36),
{
    let word = "checkpoints"@;
    reveal_strlit("checkpoints");
    assert(word =~= seq!['c', 'h', 'e', 'c', 'k', 'p', 'o', 'i', 'n', 't', 's']);
    assert(!rule_applies(catalogue()[30], word, true, parent, siblings)) by {
        reveal_strlit(".rpt2_cache");
        assert(".rpt2_cache"@[0] == '.');
        reveal_strlit(".rts2_cache_*");
        assert(".rts2_cache_*"@ =~= seq!['.', 'r', 't', 's', '2', '_', 'c', 'a', 'c', 'h', 'e', '_', '*']);
        lemma_prefix_mismatch(".rts2_cache_*"@, word, 0);
    }
    assert(first_rule(catalogue(), word, true, parent, siblings, 30) == first_rule(catalogue(), word, true, parent, siblings, 31));
    assert(!rule_applies(catalogue()[31], word, true, parent, siblings)) by {
        reveal_strlit(".grunt");
        assert(".grunt"@.len() == 6);
        reveal_strlit(".fusebox");
        assert(".fusebox"@.len() == 8);
        reveal_strlit(".dynamodb");
        assert(".dynamodb"@.len() == 9);
        reveal_strlit(".node_modules_cache");
        assert(".node_modules_cache"@.len() == 19);
    }
    assert(first_rule(catalogue(), word, true, parent, siblings, 31) == first_rule(catalogue(), word, true, parent, siblings, 32));
    assert(!rule_applies(catalogue()[32], word, true, parent, siblings));
    assert(first_rule(catalogue(), word, true, parent, siblings, 32) == first_rule(catalogue(), word, true, parent, siblings, 33));
    assert(!rule_applies(catalogue()[33], word, true, parent, siblings)) by {
        reveal_strlit("__pycache__");
        assert("__pycache__"@[0] == '_');
    }
    assert(first_rule(catalogue(), word, true, parent, siblings, 33) == first_rule(catalogue(), word, true, parent, siblings, 34));
    assert(!rule_applies(catalogue()[34], word, true, parent, siblings)) by {
        reveal_strlit(".pytest_cache");
        assert(".pytest_cache"@.len() == 13);
    }
    assert(first_rule(catalogue(), word, true, parent, siblings, 34) == first_rule(catalogue(), word, true, parent, siblings, 35));
    assert(!rule_applies(catalogue()[35], word, true, parent, siblings)) by {
        reveal_strlit(".mypy_cache");
        assert(".mypy_cache"@[0] == '.');
    }
    assert(first_rule(catalogue(), word, true, parent, siblings, 35) == first_rule(catalogue(), word, true, parent, siblings, 36));
}

/// Rules 36 to 41 of the catalogue pass over a directory named `checkpoints`.
#[verifier::spinoff_prover]
proof fn lemma_checkpoints_never_claimed_36(parent: Seq<char>, siblings: Seq<Seq<char>>)
    ensures
        first_rule(catalogue(), "checkpoints"@, true, parent, siblings, 36) == first_rule(catalogue(), "checkpoints"@, true, parent, siblings, 42),
{
    let word = "checkpoints"@;
    reveal_strlit("checkpoints");
    assert(word =~= seq!['c', 'h', 'e', 'c', 'k', 'p', 'o', 'i', 'n', 't', 's']);
    assert(!rule_applies(catalogue()[36], word, true, parent, siblings)) by {
        reveal_strlit(".ruff_cache");
        assert(".ruff_cache"@[0] == '.');
    }
    assert(first_rule(catalogue(), word, true, parent, siblings, 36) == first_rule(catalogue(), word, true, parent, siblings, 37));
    assert(!rule_applies(catalogue()[37], word, true, parent, siblings)) by {
        reveal_strlit(".tox");
        assert(".tox"@.len() == 4);
        reveal_strlit(".nox");
        assert(".nox"@.len() == 4);
    }
    assert(first_rule(catalogue(), word, true, parent, siblings, 37) == first_rule(catalogue(), word, true, parent, siblings, 38));
    assert(!rule_applies(catalogue()[38], word, true, parent, siblings)) by {
        reveal_strlit(".hypothesis");
        assert(".hypothesis"@[0] == '.');
    }
    assert(first_rule(catalogue(), word, true, parent, siblings, 38) == first_rule(catalogue(), word, true, parent, siblings, 39));
    assert(!rule_applies(catalogue()[39], word, true, parent, siblings)) by {
        reveal_strlit("venv");
        assert("venv"@.len() == 4);
        reveal_strlit(".venv");
        assert(".venv"@.len() == 5);
        reveal_strlit("virtualenv");
        assert("virtualenv"@.len() == 10);
        reveal_strlit("env310");
        assert("env310"@.len() == 6);
        reveal_strlit("env311");
        assert("env311"@.len() == 6);
    }
    assert(first_rule(catalogue(), word, true, parent, siblings, 39) == first_rule(catalogue(), word, true, parent, siblings, 40));
    assert(!rule_applies(catalogue()[40], word, true, parent, siblings)) by {
        reveal_strlit("*.egg-info");
        assert("*.egg-info"@ =~= seq!['*', '.', 'e', 'g', 'g', '-', 'i', 'n', 'f', 'o']);
        lemma_tail_mismatch("*.egg-info"@, word);
    }
    assert(first_rule(catalogue(), word, true, parent, siblings, 40) == first_rule(catalogue(), word, true, parent, siblings, 41));
    assert(!rule_applies(catalogue()[41], word, true, parent, siblings)) by {
        reveal_strlit(".eggs");
        assert(".eggs"@.len() == 5);
    }
    assert(first_rule(catalogue(), word, true, parent, siblings, 41) == first_rule(catalogue(), word, true, parent, siblings, 42));
}

/// Rules 42 to 47 of the catalogue pass over a directory named `checkpoints`.
#[verifier::spinoff_prover]
proof fn lemma_checkpoints_never_claimed_42(parent: Seq<char>, siblings: Seq<Seq<char>>)
    ensures
        first_rule(catalogue(), "checkpoints"@, true, parent, siblings, 42) == first_rule(catalogue(), "checkpoints"@, true, parent, siblings, 48),
{
    let word = "checkpoints"@;
    reveal_strlit("checkpoints");
    assert(word =~= seq!['c', 'h', 'e', 'c', 'k', 'p', 'o', 'i', 'n', 't', 's']);
    assert(!rule_applies(catalogue()[42], word, true, parent, siblings)) by {
        reveal_strlit(".ipynb_checkpoints");
        assert(".ipynb_checkpoints"@.len() == 18);
    }
    assert(first_rule(catalogue(), word, true, parent, siblings, 42) == first_rule(catalogue(), word, true, parent, siblings, 43));
    assert(!rule_applies(catalogue()[43], word, true, parent, siblings)) by {
        reveal_strlit("htmlcov");
        assert("htmlcov"@.len() == 7);
    }
    assert(first_rule(catalogue(), word, true, parent, siblings, 43) == first_rule(catalogue(), word, true, parent, siblings, 44));
    assert(!rule_applies(catalogue()[44], word, true, parent, siblings));
    assert(first_rule(catalogue(), word, true, parent, siblings, 44) == first_rule(catalogue(), word, true, parent, siblings, 45));
    assert(!rule_applies(catalogue()[45], word, true, parent, siblings)) by {
        reveal_strlit("dist");
        assert("dist"@.len() == 4);
        reveal_strlit("build");
        assert("build"@.len() == 5);
    }
    assert(first_rule(catalogue(), word, true, parent, siblings, 45) == first_rule(catalogue(), word, true, parent, siblings, 46));
    assert(!rule_applies(catalogue()[46], word, true, parent, siblings));
    assert(first_rule(catalogue(), word, true, parent, siblings, 46) == first_rule(catalogue(), word, true, parent, siblings, 47));
    assert(!rule_applies(catalogue()[47], word, true, parent, siblings)) by {
        reveal_strlit("site");
        assert("site"@.len() == 4);
    }
    assert(first_rule(catalogue(), word, true, parent, siblings, 47) == first_rule(catalogue(), word, true, parent, siblings, 48));
}

/// Rules 48 to 53 of the catalogue pass over a directory named `checkpoints`.
#[verifier::spinoff_prover]
proof fn lemma_checkpoints_never_claimed_48(parent: Seq<char>, siblings: Seq<Seq<char>>)
    ensures
        first_rule(catalogue(), "checkpoints"@, true, parent, siblings, 48) == first_rule(catalogue(), "checkpoints"@, true, parent, siblings, 54),
{
    let word = "checkpoints"@;
    reveal_strlit("checkpoints");
    assert(word =~= seq!['c', 'h', 'e', 'c', 'k', 'p', 'o', 'i', 'n', 't', 's']);
    assert(!rule_applies(catalogue()[48], word, true, parent, siblings)) by {
        reveal_strlit("_build");
        assert("_build"@.len() == 6);
    }
    assert(first_rule(catalogue(), word, true, parent, siblings, 48) == first_rule(catalogue(), word, true, parent, siblings, 49));
    assert(!rule_applies(catalogue()[49], word, true, parent, siblings)) by {
        reveal_strlit("__pypackages__");
        assert("__pypackages__"@.len() == 14);
        reveal_strlit(".pdm-build");
        assert(".pdm-build"@.len() == 10);
    }
    assert(first_rule(catalogue(), word, true, parent, siblings, 49) == first_rule(catalogue(), word, true, parent, siblings, 50));
    assert(!rule_applies(catalogue()[50], word, true, parent, siblings)) by {
        reveal_strlit(".pyre");
        assert(".pyre"@.len() == 5);
        reveal_strlit(".pytype");
        assert(".pytype"@.len() == 7);
        reveal_strlit("cython_debug");
        assert("cython_debug"@.len() == 12);
    }
    assert(first_rule(catalogue(), word, true, parent, siblings, 50) == first_rule(catalogue(), word, true, parent, siblings, 51));
    assert(!rule_applies(catalogue()[51], word, true, parent, siblings));
    assert(first_rule(catalogue(), word, true, parent, siblings, 51) == first_rule(catalogue(), word, true, parent, siblings, 52));
    assert(!rule_applies(catalogue()[52], word, true, parent, siblings)) by {
        reveal_strlit(".scrapy");
        assert(".scrapy"@.len() == 7);
        reveal_strlit(".pybuilder");
        assert(".pybuilder"@.len() == 10);
        reveal_strlit("pip-wheel-metadata");
        assert("pip-wheel-metadata"@.len() == 18);
    }
    assert(first_rule(catalogue(), word, true, parent, siblings, 52) == first_rule(catalogue(), word, true, parent, siblings, 53));
    assert(!rule_applies(catalogue()[53], word, true, parent, siblings));
    assert(first_rule(catalogue(), word, true, parent, siblings, 53) == first_rule(catalogue(), word, true, parent, siblings, 54));
}

/// Rules 54 to 59 of the catalogue pass over a directory named `checkpoints`.
#[verifier::spinoff_prover]
proof fn lemma_checkpoints_never_claimed_54(parent: Seq<char>, siblings: Seq<Seq<char>>)
    ensures
        first_rule(catalogue(), "checkpoints"@, true, parent, siblings, 54) == first_rule(catalogue(), "checkpoints"@, true, parent, siblings, 60),
{
    let word = "checkpoints"@;
    reveal_strlit("checkpoints");
    assert(word =~= seq!['c', 'h', 'e', 'c', 'k', 'p', 'o', 'i', 'n', 't', 's']);
    assert(!rule_applies(catalogue()[54], word, true, parent, siblings)) by {
        reveal_strlit("target");
        assert("target"@.len() == 6);
    }
    assert(first_rule(catalogue(), word, true, parent, siblings, 54) == first_rule(catalogue(), word, true, parent, siblings, 55));
    assert(!rule_applies(catalogue()[55], word, true, parent, siblings)) by {
        reveal_strlit("target");
        assert("target"@.len() == 6);
    }
    assert(first_rule(catalogue(), word, true, parent, siblings, 55) == first_rule(catalogue(), word, true, parent, siblings, 56));
    assert(!rule_applies(catalogue()[56], word, true, parent, siblings)) by {
        reveal_strlit("build");
        assert("build"@.len() == 5);
    }
    assert(first_rule(catalogue(), word, true, parent, siblings, 56) == first_rule(catalogue(), word, true, parent, siblings, 57));
    assert(!rule_applies(catalogue()[57], word, true, parent, siblings)) by {
        reveal_strlit(".gradle");
        assert(".gradle"@.len() == 7);
    }
    assert(first_rule(catalogue(), word, true, parent, siblings, 57) == first_rule(catalogue(), word, true, parent, siblings, 58));
    assert(!rule_applies(catalogue()[58], word, true, parent, siblings)) by {
        reveal_strlit(".kotlin");
        assert(".kotlin"@.len() == 7);
    }
    assert(first_rule(catalogue(), word, true, parent, siblings, 58) == first_rule(catalogue(), word, true, parent, siblings, 59));
    assert(!rule_applies(catalogue()[59], word, true, parent, siblings));
    assert(first_rule(catalogue(), word, true, parent, siblings, 59) == first_rule(catalogue(), word, true, parent, siblings, 60));
}

/// Rules 60 to 65 of the catalogue pass over a directory named `checkpoints`.
#[verifier::spinoff_prover]
proof fn lemma_checkpoints_never_claimed_60(parent: Seq<char>, siblings: Seq<Seq<char>>)
    ensures
        first_rule(catalogue(), "checkpoints"@, true, parent, siblings, 60) == first_rule(catalogue(), "checkpoints"@, true, parent, siblings, 66),
{
    let word = "checkpoints"@;
    reveal_strlit("checkpoints");
    assert(word =~= seq!['c', 'h', 'e', 'c', 'k', 'p', 'o', 'i', 'n', 't', 's']);
    assert(!rule_applies(catalogue()[60], word, true, parent, siblings)) by {
        reveal_strlit("bin");
        assert("bin"@.len() == 3);
        reveal_strlit("obj");
        assert("obj"@.len() == 3);
    }
    assert(first_rule(catalogue(), word, true, parent, siblings, 60) == first_rule(catalogue(), word, true, parent, siblings, 61));
    assert(!rule_applies(catalogue()[61], word, true, parent, siblings)) by {
        reveal_strlit("packages");
        assert("packages"@.len() == 8);
    }
    assert(first_rule(catalogue(), word, true, parent, siblings, 61) == first_rule(catalogue(), word, true, parent, siblings, 62));
    assert(!rule_applies(catalogue()[62], word, true, parent, siblings)) by {
        reveal_strlit(".vs");
        assert(".vs"@.len() == 3);
    }
    assert(first_rule(catalogue(), word, true, parent, siblings, 62) == first_rule(catalogue(), word, true, parent, siblings, 63));
    assert(!rule_applies(catalogue()[63], word, true, parent, siblings)) by {
        reveal_strlit("vendor");
        assert("vendor"@.len() == 6);
    }
    assert(first_rule(catalogue(), word, true, parent, siblings, 63) == first_rule(catalogue(), word, true, parent, siblings, 64));
    assert(!rule_applies(catalogue()[64], word, true, parent, siblings)) by {
        reveal_strlit("vendor");
        assert("vendor"@.len() == 6);
    }
    assert(first_rule(catalogue(), word, true, parent, siblings, 64) == first_rule(catalogue(), word, true, parent, siblings, 65));
    assert(!rule_applies(catalogue()[65], word, true, parent, siblings)) by {
        reveal_strlit("bundle");
        assert("bundle"@.len() == 6);
    }
    assert(first_rule(catalogue(), word, true, parent, siblings, 65) == first_rule(catalogue(), word, true, parent, siblings, 66));
}

/// Rules 66 to 71 of the catalogue pass over a directory named `checkpoints`.
#[verifier::spinoff_prover]
proof fn lemma_checkpoints_never_claimed_66(parent: Seq<char>, siblings: Seq<Seq<char>>)
    ensures
        first_rule(catalogue(), "checkpoints"@, true, parent, siblings, 66) == first_rule(catalogue(), "checkpoints"@, true, parent, siblings, 72),
{
    let word = "checkpoints"@;
    reveal_strlit("checkpoints");
    assert(word =~= seq!['c', 'h', 'e', 'c', 'k', 'p', 'o', 'i', 'n', 't', 's']);
    assert(!rule_applies(catalogue()[66], word, true, parent, siblings)) by {
        reveal_strlit(".bundle");
        assert(".bundle"@.len() == 7);
    }
    assert(first_rule(catalogue(), word, true, parent, siblings, 66) == first_rule(catalogue(), word, true, parent, siblings, 67));
    assert(!rule_applies(catalogue()[67], word, true, parent, siblings)) by {
        reveal_strlit("CMakeFiles");
        assert("CMakeFiles"@.len() == 10);
    }
    assert(first_rule(catalogue(), word, true, parent, siblings, 67) == first_rule(catalogue(), word, true, parent, siblings, 68));
    assert(!rule_applies(catalogue()[68], word, true, parent, siblings)) by {
        reveal_strlit("cmake-build-*");
        assert("cmake-build-*"@ =~= seq!['c', 'm', 'a', 'k', 'e', '-', 'b', 'u', 'i', 'l', 'd', '-', '*']);
        lemma_prefix_mismatch("cmake-build-*"@, word, 1);
    }
    assert(first_rule(catalogue(), word, true, parent, siblings, 68) == first_rule(catalogue(), word, true, parent, siblings, 69));
    assert(!rule_applies(catalogue()[69], word, true, parent, siblings));
    assert(first_rule(catalogue(), word, true, parent, siblings, 69) == first_rule(catalogue(), word, true, parent, siblings, 70));
    assert(!rule_applies(catalogue()[70], word, true, parent, siblings)) by {
        reveal_strlit(".ccls-cache");
        assert(".ccls-cache"@[0] == '.');
        reveal_strlit(".clangd");
        assert(".clangd"@.len() == 7);
    }
    assert(first_rule(catalogue(), word, true, parent, siblings, 70) == first_rule(catalogue(), word, true, parent, siblings, 71));
    assert(!rule_applies(catalogue()[71], word, true, parent, siblings));
    assert(first_rule(catalogue(), word, true, parent, siblings, 71) == first_rule(catalogue(), word, true, parent, siblings, 72));
}

/// Rules 72 to 77 of the catalogue pass over a directory named `checkpoints`.
#[verifier::spinoff_prover]
proof fn lemma_checkpoints_never_claimed_72(parent: Seq<char>, siblings: Seq<Seq<char>>)
    ensures
        first_rule(catalogue(), "checkpoints"@, true, parent, siblings, 72) == first_rule(catalogue(), "checkpoints"@, true, parent, siblings, 78),
{
    let word = "checkpoints"@;
    reveal_strlit("checkpoints");
    assert(word =~= seq!['c', 'h', 'e', 'c', 'k', 'p', 'o', 'i', 'n', 't', 's']);
    assert(!rule_applies(catalogue()[72], word, true, parent, siblings)) by {
        reveal_strlit("Debug");
        assert("Debug"@.len() == 5);
        reveal_strlit("Release");
        assert("Release"@.len() == 7);
        reveal_strlit("x64");
        assert("x64"@.len() == 3);
        reveal_strlit("Win32");
        assert("Win32"@.len() == 5);
        reveal_strlit("ARM64");
        assert("ARM64"@.len() == 5);
        reveal_strlit("ipch");
        assert("ipch"@.len() == 4);
    }
    assert(first_rule(catalogue(), word, true, parent, siblings, 72) == first_rule(catalogue(), word, true, parent, siblings, 73));
    assert(!rule_applies(catalogue()[73], word, true, parent, siblings)) by {
        reveal_strlit(".deps");
        assert(".deps"@.len() == 5);
        reveal_strlit(".libs");
        assert(".libs"@.len() == 5);
        reveal_strlit("autom4te.cache");
        assert("autom4te.cache"@.len() == 14);
    }
    assert(first_rule(catalogue(), word, true, parent, siblings, 73) == first_rule(catalogue(), word, true, parent, siblings, 74));
    assert(!rule_applies(catalogue()[74], word, true, parent, siblings));
    assert(first_rule(catalogue(), word, true, parent, siblings, 74) == first_rule(catalogue(), word, true, parent, siblings, 75));
    assert(!rule_applies(catalogue()[75], word, true, parent, siblings)) by {
        reveal_strlit("vcpkg_installed");
        assert("vcpkg_installed"@.len() == 15);
    }
    assert(first_rule(catalogue(), word, true, parent, siblings, 75) == first_rule(catalogue(), word, true, parent, siblings, 76));
    assert(!rule_applies(catalogue()[76], word, true, parent, siblings)) by {
        reveal_strlit("DerivedData");
        assert("DerivedData"@[0] == 'D');
    }
    assert(first_rule(catalogue(), word, true, parent, siblings, 76) == first_rule(catalogue(), word, true, parent, siblings, 77));
    assert(!rule_applies(catalogue()[77], word, true, parent, siblings)) by {
        reveal_strlit(".build");
        assert(".build"@.len() == 6);
    }
    assert(first_rule(catalogue(), word, true, parent, siblings, 77) == first_rule(catalogue(), word, true, parent, siblings, 78));
}

/// Rules 78 to 83 of the catalogue pass over a directory named `checkpoints`.
#[verifier::spinoff_prover]
proof fn lemma_checkpoints_never_claimed_78(parent: Seq<char>, siblings: Seq<Seq<char>>)
    ensures
        first_rule(catalogue(), "checkpoints"@, true, parent, siblings, 78) == first_rule(catalogue(), "checkpoints"@, true, parent, siblings, 84),
{
    let word = "checkpoints"@;
    reveal_strlit("checkpoints");
    assert(word =~= seq!['c', 'h', 'e', 'c', 'k', 'p', 'o', 'i', 'n', 't', 's']);
    assert(!rule_applies(catalogue()[78], word, true, parent, siblings)) by {
        reveal_strlit("Pods");
        assert("Pods"@.len() == 4);
    }
    assert(first_rule(catalogue(), word, true, parent, siblings, 78) == first_rule(catalogue(), word, true, parent, siblings, 79));
    assert(!rule_applies(catalogue()[79], word, true, parent, siblings)) by {
        reveal_strlit("Build");
        assert("Build"@.len() == 5);
    }
    assert(first_rule(catalogue(), word, true, parent, siblings, 79) == first_rule(catalogue(), word, true, parent, siblings, 80));
    assert(!rule_applies(catalogue()[80], word, true, parent, siblings)) by {
        reveal_strlit("xcuserdata");
        assert("xcuserdata"@.len() == 10);
        reveal_strlit("*.xcuserdatad");
        assert("*.xcuserdatad"@ =~= seq!['*', '.', 'x', 'c', 'u', 's', 'e', 'r', 'd', 'a', 't', 'a', 'd']);
        lemma_tail_mismatch("*.xcuserdatad"@, word);
    }
    assert(first_rule(catalogue(), word, true, parent, siblings, 80) == first_rule(catalogue(), word, true, parent, siblings, 81));
    assert(!rule_applies(catalogue()[81], word, true, parent, siblings)) by {
        reveal_strlit(".swiftpm");
        assert(".swiftpm"@.len() == 8);
    }
    assert(first_rule(catalogue(), word, true, parent, siblings, 81) == first_rule(catalogue(), word, true, parent, siblings, 82));
    assert(!rule_applies(catalogue()[82], word, true, parent, siblings)) by {
        reveal_strlit(".dart_tool");
        assert(".dart_tool"@.len() == 10);
    }
    assert(first_rule(catalogue(), word, true, parent, siblings, 82) == first_rule(catalogue(), word, true, parent, siblings, 83));
    assert(!rule_applies(catalogue()[83], word, true, parent, siblings));
    assert(first_rule(catalogue(), word, true, parent, siblings, 83) == first_rule(catalogue(), word, true, parent, siblings, 84));
}

/// Rules 84 to 89 of the catalogue pass over a directory named `checkpoints`.
#[verifier::spinoff_prover]
proof fn lemma_checkpoints_never_claimed_84(parent: Seq<char>, siblings: Seq<Seq<char>>)
    ensures
        first_rule(catalogue(), "checkpoints"@, true, parent, siblings, 84) == first_rule(catalogue(), "checkpoints"@, true, parent, siblings, 90),
{
    let word = "checkpoints"@;
    reveal_strlit("checkpoints");
    assert(word =~= seq!['c', 'h', 'e', 'c', 'k', 'p', 'o', 'i', 'n', 't', 's']);
    assert(!rule_applies(catalogue()[84], word, true, parent, siblings)) by {
        reveal_strlit("_build");
        assert("_build"@.len() == 6);
    }
    assert(first_rule(catalogue(), word, true, parent, siblings, 84) == first_rule(catalogue(), word, true, parent, siblings, 85));
    assert(!rule_applies(catalogue()[85], word, true, parent, siblings)) by {
        reveal_strlit("deps");
        assert("deps"@.len() == 4);
    }
    assert(first_rule(catalogue(), word, true, parent, siblings, 85) == first_rule(catalogue(), word, true, parent, siblings, 86));
    assert(!rule_applies(catalogue()[86], word, true, parent, siblings)) by {
        reveal_strlit(".cxx");
        assert(".cxx"@.len() == 4);
    }
    assert(first_rule(catalogue(), word, true, parent, siblings, 86) == first_rule(catalogue(), word, true, parent, siblings, 87));
    assert(!rule_applies(catalogue()[87], word, true, parent, siblings)) by {
        reveal_strlit("Library");
        assert("Library"@.len() == 7);
        reveal_strlit("Temp");
        assert("Temp"@.len() == 4);
        reveal_strlit("Obj");
        assert("Obj"@.len() == 3);
        reveal_strlit("Logs");
        assert("Logs"@.len() == 4);
        reveal_strlit("UserSettings");
        assert("UserSettings"@.len() == 12);
    }
    assert(first_rule(catalogue(), word, true, parent, siblings, 87) == first_rule(catalogue(), word, true, parent, siblings, 88));
    assert(!rule_applies(catalogue()[88], word, true, parent, siblings)) by {
        reveal_strlit(".godot");
        assert(".godot"@.len() == 6);
        reveal_strlit(".import");
        assert(".import"@.len() == 7);
    }
    assert(first_rule(catalogue(), word, true, parent, siblings, 88) == first_rule(catalogue(), word, true, parent, siblings, 89));
    assert(!rule_applies(catalogue()[89], word, true, parent, siblings)) by {
        reveal_strlit("Binaries");
        assert("Binaries"@.len() == 8);
        reveal_strlit("Intermediate");
        assert("Intermediate"@.len() == 12);
        reveal_strlit("DerivedDataCache");
        assert("DerivedDataCache"@.len() == 16);
        reveal_strlit("Saved");
        assert("Saved"@.len() == 5);
    }
    assert(first_rule(catalogue(), word, true, parent, siblings, 89) == first_rule(catalogue(), word, true, parent, siblings, 90));
}

/// Rules 90 to 95 of the catalogue pass over a directory named `checkpoints`.
#[verifier::spinoff_prover]
proof fn lemma_checkpoints_never_claimed_90(parent: Seq<char>, siblings: Seq<Seq<char>>)
    ensures
        first_rule(catalogue(), "checkpoints"@, true, parent, siblings, 90) == first_rule(catalogue(), "checkpoints"@, true, parent, siblings, 96),
{
    let word = "checkpoints"@;
    reveal_strlit("checkpoints");
    assert(word =~= seq!['c', 'h', 'e', 'c', 'k', 'p', 'o', 'i', 'n', 't', 's']);
    assert(!rule_applies(catalogue()[90], word, true, parent, siblings)) by {
        reveal_strlit("Build");
        assert("Build"@.len() == 5);
        reveal_strlit("Builds");
        assert("Builds"@.len() == 6);
        reveal_strlit("MemoryCaptures");
        assert("MemoryCaptures"@.len() == 14);
        reveal_strlit("Recordings");
        assert("Recordings"@.len() == 10);
    }
    assert(first_rule(catalogue(), word, true, parent, siblings, 90) == first_rule(catalogue(), word, true, parent, siblings, 91));
    assert(!rule_applies(catalogue()[91], word, true, parent, siblings)) by {
        reveal_strlit("huggingface");
        assert("huggingface"@[0] == 'h');
    }
    assert(first_rule(catalogue(), word, true, parent, siblings, 91) == first_rule(catalogue(), word, true, parent, siblings, 92));
    assert(!rule_applies(catalogue()[92], word, true, parent, siblings));
    assert(first_rule(catalogue(), word, true, parent, siblings, 92) == first_rule(catalogue(), word, true, parent, siblings, 93));
    assert(!rule_applies(catalogue()[93], word, true, parent, siblings));
    assert(first_rule(catalogue(), word, true, parent, siblings, 93) == first_rule(catalogue(), word, true, parent, siblings, 94));
    assert(!rule_applies(catalogue()[94], word, true, parent, siblings)) by {
        reveal_strlit("wandb");
        assert("wandb"@.len() == 5);
        reveal_strlit("mlruns");
        assert("mlruns"@.len() == 6);
        reveal_strlit("lightning_logs");
        assert("lightning_logs"@.len() == 14);
    }
    assert(first_rule(catalogue(), word, true, parent, siblings, 94) == first_rule(catalogue(), word, true, parent, siblings, 95));
    assert(!rule_applies(catalogue()[95], word, true, parent, siblings)) by {
        reveal_strlit("runs");
        assert("runs"@.len() == 4);
        reveal_strlit("multirun");
        assert("multirun"@.len() == 8);
        reveal_strlit(".neptune");
        assert(".neptune"@.len() == 8);
        reveal_strlit("catboost_info");
        assert("catboost_info"@.len() == 13);
        reveal_strlit(".aim");
        assert(".aim"@.len() == 4);
    }
    assert(first_rule(catalogue(), word, true, parent, siblings, 95) == first_rule(catalogue(), word, true, parent, siblings, 96));
}

/// Rules 96 to 101 of the catalogue pass over a directory named `checkpoints`.
#[verifier::spinoff_prover]
proof fn lemma_checkpoints_never_claimed_96(parent: Seq<char>, siblings: Seq<Seq<char>>)
    ensures
        first_rule(catalogue(), "checkpoints"@, true, parent, siblings, 96) == first_rule(catalogue(), "checkpoints"@, true, parent, siblings, 102),
{
    let word = "checkpoints"@;
    reveal_strlit("checkpoints");
    assert(word =~= seq!['c', 'h', 'e', 'c', 'k', 'p', 'o', 'i', 'n', 't', 's']);
    assert(!rule_applies(catalogue()[96], word, true, parent, siblings)) by {
        reveal_strlit(".terraform");
        assert(".terraform"@.len() == 10);
    }
    assert(first_rule(catalogue(), word, true, parent, siblings, 96) == first_rule(catalogue(), word, true, parent, siblings, 97));
    assert(!rule_applies(catalogue()[97], word, true, parent, siblings)) by {
        reveal_strlit(".terragrunt-cache");
        assert(".terragrunt-cache"@.len() == 17);
    }
    assert(first_rule(catalogue(), word, true, parent, siblings, 97) == first_rule(catalogue(), word, true, parent, siblings, 98));
    assert(!rule_applies(catalogue()[98], word, true, parent, siblings)) by {
        reveal_strlit(".pulumi");
        assert(".pulumi"@.len() == 7);
    }
    assert(first_rule(catalogue(), word, true, parent, siblings, 98) == first_rule(catalogue(), word, true, parent, siblings, 99));
    assert(!rule_applies(catalogue()[99], word, true, parent, siblings)) by {
        reveal_strlit(".vagrant");
        assert(".vagrant"@.len() == 8);
    }
    assert(first_rule(catalogue(), word, true, parent, siblings, 99) == first_rule(catalogue(), word, true, parent, siblings, 100));
    assert(!rule_applies(catalogue()[100], word, true, parent, siblings)) by {
        reveal_strlit("_site");
        assert("_site"@.len() == 5);
        reveal_strlit(".jekyll-cache");
        assert(".jekyll-cache"@.len() == 13);
    }
    assert(first_rule(catalogue(), word, true, parent, siblings, 100) == first_rule(catalogue(), word, true, parent, siblings, 101));
    assert(!rule_applies(catalogue()[101], word, true, parent, siblings)) by {
        reveal_strlit("public");
        assert("public"@.len() == 6);
        reveal_strlit("resources");
        assert("resources"@.len() == 9);
    }
    assert(first_rule(catalogue(), word, true, parent, siblings, 101) == first_rule(catalogue(), word, true, parent, siblings, 102));
}

/// Rules 102 to 107 of the catalogue pass over a directory named `checkpoints`.
#[verifier::spinoff_prover]
proof fn lemma_checkpoints_never_claimed_102(parent: Seq<char>, siblings: Seq<Seq<char>>)
    ensures
        first_rule(catalogue(), "checkpoints"@, true, parent, siblings, 102) == first_rule(catalogue(), "checkpoints"@, true, parent, siblings, 108),
{
    let word = "checkpoints"@;
    reveal_strlit("checkpoints");
    assert(word =~= seq!['c', 'h', 'e', 'c', 'k', 'p', 'o', 'i', 'n', 't', 's']);
    assert(!rule_applies(catalogue()[102], word, true, parent, siblings)) by {
        reveal_strlit(".sass-cache");
        assert(".sass-cache"@[0] == '.');
    }
    assert(first_rule(catalogue(), word, true, parent, siblings, 102) == first_rule(catalogue(), word, true, parent, siblings, 103));
    assert(!rule_applies(catalogue()[103], word, true, parent, siblings)) by {
        reveal_strlit(".quarto");
        assert(".quarto"@.len() == 7);
        reveal_strlit("_freeze");
        assert("_freeze"@.len() == 7);
    }
    assert(first_rule(catalogue(), word, true, parent, siblings, 103) == first_rule(catalogue(), word, true, parent, siblings, 104));
    assert(!rule_applies(catalogue()[104], word, true, parent, siblings)) by {
        reveal_strlit("_book");
        assert("_book"@.len() == 5);
        reveal_strlit(".docz");
        assert(".docz"@.len() == 5);
    }
    assert(first_rule(catalogue(), word, true, parent, siblings, 104) == first_rule(catalogue(), word, true, parent, siblings, 105));
    assert(!rule_applies(catalogue()[105], word, true, parent, siblings)) by {
        reveal_strlit(".idea");
        assert(".idea"@.len() == 5);
    }
    assert(first_rule(catalogue(), word, true, parent, siblings, 105) == first_rule(catalogue(), word, true, parent, siblings, 106));
    assert(!rule_applies(catalogue()[106], word, true, parent, siblings)) by {
        reveal_strlit(".history");
        assert(".history"@.len() == 8);
    }
    assert(first_rule(catalogue(), word, true, parent, siblings, 106) == first_rule(catalogue(), word, true, parent, siblings, 107));
    assert(!rule_applies(catalogue()[107], word, true, parent, siblings)) by {
        reveal_strlit(".direnv");
        assert(".direnv"@.len() == 7);
    }
    assert(first_rule(catalogue(), word, true, parent, siblings, 107) == first_rule(catalogue(), word, true, parent, siblings, 108));
}

/// Rules 108 to 113 of the catalogue pass over a directory named `checkpoints`.
#[verifier::spinoff_prover]
proof fn lemma_checkpoints_never_claimed_108(parent: Seq<char>, siblings: Seq<Seq<char>>)
    ensures
        first_rule(catalogue(), "checkpoints"@, true, parent, siblings, 108) == first_rule(catalogue(), "checkpoints"@, true, parent, siblings, 114),
{
    let word = "checkpoints"@;
    reveal_strlit("checkpoints");
    assert(word =~= seq!['c', 'h', 'e', 'c', 'k', 'p', 'o', 'i', 'n', 't', 's']);
    assert(!rule_applies(catalogue()[108], word, true, parent, siblings));
    assert(first_rule(catalogue(), word, true, parent, siblings, 108) == first_rule(catalogue(), word, true, parent, siblings, 109));
    assert(!rule_applies(catalogue()[109], word, true, parent, siblings));
    assert(first_rule(catalogue(), word, true, parent, siblings, 109) == first_rule(catalogue(), word, true, parent, siblings, 110));
    assert(!rule_applies(catalogue()[110], word, true, parent, siblings)) by {
        reveal_strlit(".Spotlight-V100");
        assert(".Spotlight-V100"@.len() == 15);
        reveal_strlit(".Trashes");
        assert(".Trashes"@.len() == 8);
        reveal_strlit(".fseventsd");
        assert(".fseventsd"@.len() == 10);
        reveal_strlit("$RECYCLE.BIN");
        assert("$RECYCLE.BIN"@.len() == 12);
    }
    assert(first_rule(catalogue(), word, true, parent, siblings, 110) == first_rule(catalogue(), word, true, parent, siblings, 111));
    assert(!rule_applies(catalogue()[111], word, true, parent, siblings)) by {
        reveal_strlit("dist");
        assert("dist"@.len() == 4);
        reveal_strlit("out");
        assert("out"@.len() == 3);
    }
    assert(first_rule(catalogue(), word, true, parent, siblings, 111) == first_rule(catalogue(), word, true, parent, siblings, 112));
    assert(!rule_applies(catalogue()[112], word, true, parent, siblings)) by {
        reveal_strlit("build");
        assert("build"@.len() == 5);
        reveal_strlit("_build");
        assert("_build"@.len() == 6);
    }
    assert(first_rule(catalogue(), word, true, parent, siblings, 112) == first_rule(catalogue(), word, true, parent, siblings, 113));
    assert(!rule_applies(catalogue()[113], word, true, parent, siblings)) by {
        reveal_strlit(".cache");
        assert(".cache"@.len() == 6);
        reveal_strlit(".temp");
        assert(".temp"@.len() == 5);
        reveal_strlit(".tmp");
        assert(".tmp"@.len() == 4);
    }
    assert(first_rule(catalogue(), word, true, parent, siblings, 113) == first_rule(catalogue(), word, true, parent, siblings, 114));
}

/// Rules 114 to 119 of the catalogue pass over a directory named `checkpoints`.
#[verifier::spinoff_prover]
proof fn lemma_checkpoints_never_claimed_114(parent: Seq<char>, siblings: Seq<Seq<char>>)
    ensures
        first_rule(catalogue(), "checkpoints"@, true, parent, siblings, 114) == first_rule(catalogue(), "checkpoints"@, true, parent, siblings, 120),
{
    let word = "checkpoints"@;
    reveal_strlit("checkpoints");
    assert(word =~= seq!['c', 'h', 'e', 'c', 'k', 'p', 'o', 'i', 'n', 't', 's']);
    assert(!rule_applies(catalogue()[114], word, true, parent, siblings)) by {
        reveal_strlit("tmp");
        assert("tmp"@.len() == 3);
        reveal_strlit("temp");
        assert("temp"@.len() == 4);
    }
    assert(first_rule(catalogue(), word, true, parent, siblings, 114) == first_rule(catalogue(), word, true, parent, siblings, 115));
    assert(!rule_applies(catalogue()[115], word, true, parent, siblings)) by {
        reveal_strlit("coverage");
        assert("coverage"@.len() == 8);
    }
    assert(first_rule(catalogue(), word, true, parent, siblings, 115) == first_rule(catalogue(), word, true, parent, siblings, 116));
    assert(!rule_applies(catalogue()[116], word, true, parent, siblings)) by {
        reveal_strlit("logs");
        assert("logs"@.len() == 4);
    }
    assert(first_rule(catalogue(), word, true, parent, siblings, 116) == first_rule(catalogue(), word, true, parent, siblings, 117));
    assert(!rule_applies(catalogue()[117], word, true, parent, siblings));
    assert(first_rule(catalogue(), word, true, parent, siblings, 117) == first_rule(catalogue(), word, true, parent, siblings, 118));
    assert(!rule_applies(catalogue()[118], word, true, parent, siblings));
    assert(first_rule(catalogue(), word, true, parent, siblings, 118) == first_rule(catalogue(), word, true, parent, siblings, 119));
    assert(!rule_applies(catalogue()[119], word, true, parent, siblings));
    assert(first_rule(catalogue(), word, true, parent, siblings, 119) == first_rule(catalogue(), word, true, parent, siblings, 120));
}

/// No rule claims a directory named `checkpoints`; the weights inside are
/// found by their file extensions.
pub proof fn lemma_checkpoints_never_claimed(parent: Seq<char>, siblings: Seq<Seq<char>>)
    ensures
        first_rule(catalogue(), "checkpoints"@, true, parent, siblings, 0) == None::<Rule>,
{
    let word = "checkpoints"@;
    lemma_checkpoints_never_claimed_0(parent, siblings);
    lemma_checkpoints_never_claimed_6(parent, siblings);
    lemma_checkpoints_never_claimed_12(parent, siblings);
    lemma_checkpoints_never_claimed_18(parent, siblings);
    lemma_checkpoints_never_claimed_24(parent, siblings);
    lemma_checkpoints_never_claimed_30(parent, siblings);
    lemma_checkpoints_never_claimed_36(parent, siblings);
    lemma_checkpoints_never_claimed_42(parent, siblings);
    lemma_checkpoints_never_claimed_48(parent, siblings);
    lemma_checkpoints_never_claimed_54(parent, siblings);
    lemma_checkpoints_never_claimed_60(parent, siblings);
    lemma_checkpoints_never_claimed_66(parent, siblings);
    lemma_checkpoints_never_claimed_72(parent, siblings);
    lemma_checkpoints_never_claimed_78(parent, siblings);
    lemma_checkpoints_never_claimed_84(parent, siblings);
    lemma_checkpoints_never_claimed_90(parent, siblings);
    lemma_checkpoints_never_claimed_96(parent, siblings);
    lemma_checkpoints_never_claimed_102(parent, siblings);
    lemma_checkpoints_never_claimed_108(parent, siblings);
    lemma_checkpoints_never_claimed_114(parent, siblings);
    assert(first_rule(catalogue(), word, true, parent, siblings, 120) == None::<Rule>);
}

} // verus!

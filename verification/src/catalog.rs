//! Catalogue of regenerable artifacts, per ecosystem, and the matching that
//! decides which rule an entry of a project falls under.

use vstd::prelude::*;
use crate::text::{lower, to_lowercase, chars_of, str_eq, has_char, views, strs, join, push_str, contains_str};
use vstd::string::*;

verus! {

/// Whether the pattern from index `i` matches the name from index `j`, where
/// `*` stands for any run of characters and `?` for exactly one.
pub open spec fn glob_from(p: Seq<char>, n: Seq<char>, i: int, j: int) -> bool
    decreases p.len() - i, n.len() - j,
{
    if i < 0 || j < 0 {
        false
    } else if i >= p.len() {
        j == n.len()
    } else if p[i] == '*' {
        glob_from(p, n, i + 1, j) || (j < n.len() && glob_from(p, n, i, j + 1))
    } else {
        j < n.len() && (p[i] == '?' || p[i] == n[j]) && glob_from(p, n, i + 1, j + 1)
    }
}

/// Whole-string wildcard match of `n` against the pattern `p`.
pub open spec fn glob_match(p: Seq<char>, n: Seq<char>) -> bool {
    glob_from(p, n, 0, 0)
}

/// Characters from `i` to `k` of the pattern hold no `*`.
pub open spec fn no_star_between(p: Seq<char>, i: int, k: int) -> bool {
    forall|x: int| i <= x < k ==> p[x] != '*'
}

proof fn lemma_beyond_end(p: Seq<char>, n: Seq<char>, i: int, j: int)
    requires
        j > n.len(),
    ensures
        !glob_from(p, n, i, j),
    decreases p.len() - i,
{
    if i >= 0 && i < p.len() && p[i] == '*' {
        lemma_beyond_end(p, n, i + 1, j);
    }
}

proof fn lemma_star_absorbs(p: Seq<char>, n: Seq<char>, i: int, j: int, m: int)
    requires
        0 <= i < p.len(),
        p[i] == '*',
        0 <= j <= m,
        glob_from(p, n, i, m),
    ensures
        glob_from(p, n, i, j),
    decreases m - j,
{
    if j < m {
        if m > n.len() {
            lemma_beyond_end(p, n, i, m);
        }
        lemma_star_absorbs(p, n, i, j + 1, m);
    }
}

proof fn lemma_consume_segment(p: Seq<char>, n: Seq<char>, i: int, len: int, k: int)
    requires
        0 <= i,
        0 <= len,
        i + len <= p.len(),
        0 <= k,
        no_star_between(p, i, i + len),
        glob_from(p, n, i, k),
    ensures
        glob_from(p, n, i + len, k + len),
    decreases len,
{
    if len > 0 {
        assert(p[i] != '*');
        lemma_consume_segment(p, n, i + 1, len - 1, k + 1);
    }
}

/// Once a segment without `*` has matched right after the star at `s`, the
/// later alignments of that star can only end beyond `n`.
proof fn lemma_old_star(p: Seq<char>, n: Seq<char>, s: int, bt: int, q: int, m: int, k: int)
    requires
        0 <= s < q <= p.len(),
        p[s] == '*',
        no_star_between(p, s + 1, q),
        q - s - 1 == m - bt,
        0 <= bt,
        bt < k,
        glob_from(p, n, s, k),
    ensures
        exists|e: int| e > m && glob_from(p, n, q, e),
    decreases n.len() + 1 - k,
{
    if k > n.len() {
        lemma_beyond_end(p, n, s, k);
    } else if glob_from(p, n, s + 1, k) {
        lemma_consume_segment(p, n, s + 1, q - s - 1, k);
        assert(glob_from(p, n, q, k + (q - s - 1)));
    } else {
        lemma_old_star(p, n, s, bt, q, m, k + 1);
    }
}

proof fn lemma_only_stars_left(p: Seq<char>, n: Seq<char>, i: int)
    requires
        0 <= i <= p.len(),
        forall|x: int| i <= x < p.len() ==> p[x] == '*',
    ensures
        glob_from(p, n, i, n.len() as int),
    decreases p.len() - i,
{
    if i < p.len() {
        lemma_only_stars_left(p, n, i + 1);
    }
}

/// One step of the left-to-right wildcard scan over the lowercased pattern
/// `p` and name `n`: `i` and `j` are the positions reached, `star` the last
/// `*` met in the pattern (negative while there is none) and `bt` the name
/// position that star currently stops at.
///
/// A `*` records a restart point; any other pattern character that equals
/// the name character, or `?`, is consumed; a mismatch lets the last star
/// absorb one more character. At the end of the name only `*` may remain.
spec fn wildcard_scan(p: Seq<char>, n: Seq<char>, i: int, j: int, star: int, bt: int) -> bool
    decreases
        (if star < 0 { n.len() + 1int } else { n.len() - bt }),
        n.len() - j,
        p.len() - i,
{
    if !(0 <= i <= p.len() && 0 <= j <= n.len() && (star < 0 || (star < i && 0 <= bt <= j))) {
        false
    } else if j >= n.len() {
        forall|x: int| i <= x < p.len() ==> p[x] == '*'
    } else if i < p.len() && p[i] == '*' {
        wildcard_scan(p, n, i + 1, j, i, j)
    } else if i < p.len() && (p[i] == '?' || p[i] == n[j]) {
        wildcard_scan(p, n, i + 1, j + 1, star, bt)
    } else if star >= 0 {
        wildcard_scan(p, n, star + 1, bt + 1, star, bt + 1)
    } else {
        false
    }
}

/// Case-insensitive wildcard match of `name` against `pattern`, where `*`
/// stands for any run of characters and `?` for exactly one.
pub open spec fn wildcard(pattern: Seq<char>, name: Seq<char>) -> bool {
    glob_match(lower(pattern), lower(name))
}

/// The facts that tie a state of the scan to the plain wildcard reading.
spec fn scan_state_ok(p: Seq<char>, n: Seq<char>, i: int, j: int, star: int, bt: int) -> bool {
    &&& 0 <= i <= p.len()
    &&& 0 <= j <= n.len()
    &&& star < 0 ==> (glob_from(p, n, i, j) <==> glob_match(p, n))
    &&& star >= 0 ==> {
        &&& star < i
        &&& p[star] == '*'
        &&& 0 <= bt <= j
        &&& i - star - 1 == j - bt
        &&& (glob_from(p, n, i, j) ==> glob_match(p, n))
        &&& (glob_from(p, n, star, bt) ==> glob_match(p, n))
        &&& no_star_between(p, star + 1, i)
        &&& (glob_match(p, n) ==> (glob_from(p, n, i, j) || glob_from(p, n, star, bt + 1)))
    }
}

/// From any state that the scan can reach, it accepts exactly when the
/// wildcard reading does.
proof fn lemma_scan_matches_glob(p: Seq<char>, n: Seq<char>, i: int, j: int, star: int, bt: int)
    requires
        scan_state_ok(p, n, i, j, star, bt),
    ensures
        wildcard_scan(p, n, i, j, star, bt) == glob_match(p, n),
    decreases
        (if star < 0 { n.len() + 1int } else { n.len() - bt }),
        n.len() - j,
        p.len() - i,
{
    if j >= n.len() {
        if star >= 0 && glob_match(p, n) && !glob_from(p, n, i, j) {
            lemma_old_star(p, n, star, bt, i, j, bt + 1);
            let e = choose|e: int| e > j && glob_from(p, n, i, e);
            lemma_beyond_end(p, n, i, e);
        }
        if forall|x: int| i <= x < p.len() ==> p[x] == '*' {
            lemma_only_stars_left(p, n, i);
        } else {
            let q = choose|q: int| i <= q < p.len() && p[q] != '*';
            lemma_first_literal(p, n, i, q);
        }
    } else if i < p.len() && p[i] == '*' {
        if star >= 0 && glob_match(p, n) && !glob_from(p, n, i, j) {
            lemma_old_star(p, n, star, bt, i, j, bt + 1);
            let e = choose|e: int| e > j && glob_from(p, n, i, e);
            lemma_star_absorbs(p, n, i, j, e);
        }
        lemma_scan_matches_glob(p, n, i + 1, j, i, j);
    } else if i < p.len() && (p[i] == '?' || p[i] == n[j]) {
        lemma_scan_matches_glob(p, n, i + 1, j + 1, star, bt);
    } else if star >= 0 {
        assert(!glob_from(p, n, i, j));
        if glob_from(p, n, star + 1, bt + 1) {
            assert(glob_from(p, n, star, bt + 1));
        }
        if glob_from(p, n, star, bt + 1) {
            assert(glob_from(p, n, star, bt));
        }
        lemma_scan_matches_glob(p, n, star + 1, bt + 1, star, bt + 1);
    } else {
        assert(!glob_from(p, n, i, j));
    }
}

/// Wildcard match limited to `*` and `?`, case-insensitive.
pub fn wildcard_match(pattern: &str, name: &str) -> (r: bool)
    ensures
        r == glob_match(lower(pattern@), lower(name@)),
{
    let lp = to_lowercase(pattern);
    let ln = to_lowercase(name);
    let pat = chars_of(lp.as_str());
    let nam = chars_of(ln.as_str());
    let ghost gp = pat@;
    let ghost gn = nam@;
    proof {
        lemma_scan_matches_glob(gp, gn, 0, 0, -1, 0);
    }

    let mut p: usize = 0;
    let mut n: usize = 0;
    let mut star: usize = usize::MAX;
    let mut backtrack: usize = 0;

    while n < nam.len()
        invariant
            gp == pat@,
            gn == nam@,
            gp == lower(pattern@),
            gn == lower(name@),
            glob_match(gp, gn) == wildcard_scan(gp, gn, p as int, n as int,
                if star == usize::MAX { -1 } else { star as int }, backtrack as int),
            p <= gp.len(),
            n <= gn.len(),
            star != usize::MAX ==> star < p && backtrack <= n,
        decreases
            (if star == usize::MAX { gn.len() + 1int } else { gn.len() - backtrack }),
            gn.len() - n,
            gp.len() - p,
    {
        if p < pat.len() && pat[p] == '*' {
            star = p;
            backtrack = n;
            p = p + 1;
        } else if p < pat.len() && (pat[p] == '?' || pat[p] == nam[n]) {
            p = p + 1;
            n = n + 1;
        } else if star != usize::MAX {
            p = star + 1;
            backtrack = backtrack + 1;
            n = backtrack;
        } else {
            return false;
        }
    }

    let ghost p0 = p;
    while p < pat.len() && pat[p] == '*'
        invariant
            gp == pat@,
            p0 <= p <= gp.len(),
            forall|x: int| p0 <= x < p ==> gp[x] == '*',
        decreases gp.len() - p,
    {
        p = p + 1;
    }
    proof {
        if p < gp.len() {
            assert(!(forall|x: int| p0 <= x < gp.len() ==> gp[x] == '*'));
        }
    }
    p == pat.len()
}

proof fn lemma_first_literal(p: Seq<char>, n: Seq<char>, i: int, q: int)
    requires
        0 <= i <= q < p.len(),
        p[q] != '*',
    ensures
        !glob_from(p, n, i, n.len() as int),
    decreases q - i,
{
    lemma_beyond_end(p, n, i + 1, n.len() + 1 as int);
    if p[i] == '*' {
        lemma_beyond_end(p, n, i, n.len() + 1 as int);
        lemma_first_literal(p, n, i + 1, q);
    }
}

} // verus!

verus! {

/// Risk level: a pure build artifact, rebuilt by one command.
pub const SAFE: &'static str = "safe";
/// Risk level: usually generated, but may hold sources in some projects.
pub const CHECK: &'static str = "check";
/// Risk level: re-downloadable payloads; the loss is bandwidth.
pub const DATA: &'static str = "data";

/// Whether a rule applies to directories or to files.
#[derive(Clone, Copy, PartialEq, Eq, Structural, Debug)]
pub enum Kind {
    Dir,
    File,
}

/// One detection rule of the catalogue.
///
/// `names` are exact entry names, `globs` case-insensitive wildcard
/// patterns; `under` asks for the name of the parent directory, `requires`
/// for at least one sibling marker. `restore` is the command that rebuilds
/// the artifact and `ignore` the pattern to put in a `.gitignore`.
#[derive(Clone, Copy, Debug)]
pub struct Rule {
    pub id: &'static str,
    pub cat: &'static str,
    pub risk: &'static str,
    pub kind: Kind,
    pub names: &'static [&'static str],
    pub globs: &'static [&'static str],
    pub under: Option<&'static str>,
    pub requires: &'static [&'static str],
    pub restore: &'static str,
    pub ignore: &'static str,
}

/// A risk level of the catalogue.
pub open spec fn is_risk_level(risk: &str) -> bool {
    risk == SAFE || risk == CHECK || risk == DATA
}

/// A rule on names and patterns without further constraint.
pub open spec fn plain_rule(id: &'static str, cat: &'static str, risk: &'static str, kind: Kind,
    names: &'static [&'static str], globs: &'static [&'static str], restore: &'static str,
    ignore: &'static str) -> Rule {
    Rule { id, cat, risk, kind, names, globs, under: None, requires: &[], restore, ignore }
}

/// A plain rule on directory names.
pub open spec fn dir_rule(id: &'static str, cat: &'static str, risk: &'static str,
    names: &'static [&'static str], restore: &'static str, ignore: &'static str) -> Rule {
    plain_rule(id, cat, risk, Kind::Dir, names, &[], restore, ignore)
}

/// A plain rule on file names.
pub open spec fn file_rule(id: &'static str, cat: &'static str, risk: &'static str,
    names: &'static [&'static str], restore: &'static str, ignore: &'static str) -> Rule {
    plain_rule(id, cat, risk, Kind::File, names, &[], restore, ignore)
}

/// A rule on file name patterns.
pub open spec fn file_glob_rule(id: &'static str, cat: &'static str, risk: &'static str,
    globs: &'static [&'static str], restore: &'static str, ignore: &'static str) -> Rule {
    plain_rule(id, cat, risk, Kind::File, &[], globs, restore, ignore)
}

/// A directory rule that needs one of the `markers` beside it.
pub open spec fn gated_rule(id: &'static str, cat: &'static str, risk: &'static str,
    names: &'static [&'static str], markers: &'static [&'static str], restore: &'static str,
    ignore: &'static str) -> Rule {
    Rule { id, cat, risk, kind: Kind::Dir, names, globs: &[], under: None, requires: markers, restore, ignore }
}

/// A directory rule that needs its parent directory to be named `under`.
pub open spec fn under_rule(id: &'static str, cat: &'static str, risk: &'static str,
    names: &'static [&'static str], under: &'static str, restore: &'static str,
    ignore: &'static str) -> Rule {
    Rule { id, cat, risk, kind: Kind::Dir, names, globs: &[], under: Some(under), requires: &[], restore, ignore }
}

fn rule(id: &'static str, cat: &'static str, risk: &'static str, kind: Kind,
    names: &'static [&'static str], globs: &'static [&'static str],
    restore: &'static str, ignore: &'static str) -> (r: Rule)
    ensures
        r == plain_rule(id, cat, risk, kind, names, globs, restore, ignore),
{
    Rule { id, cat, risk, kind, names, globs, under: None, requires: &[], restore, ignore }
}

fn d(id: &'static str, cat: &'static str, risk: &'static str, names: &'static [&'static str],
    restore: &'static str, ignore: &'static str) -> (r: Rule)
    ensures
        r == dir_rule(id, cat, risk, names, restore, ignore),
{
    rule(id, cat, risk, Kind::Dir, names, &[], restore, ignore)
}

fn f(id: &'static str, cat: &'static str, risk: &'static str, names: &'static [&'static str],
    restore: &'static str, ignore: &'static str) -> (r: Rule)
    ensures
        r == file_rule(id, cat, risk, names, restore, ignore),
{
    rule(id, cat, risk, Kind::File, names, &[], restore, ignore)
}

fn fg(id: &'static str, cat: &'static str, risk: &'static str, globs: &'static [&'static str],
    restore: &'static str, ignore: &'static str) -> (r: Rule)
    ensures
        r == file_glob_rule(id, cat, risk, globs, restore, ignore),
{
    rule(id, cat, risk, Kind::File, &[], globs, restore, ignore)
}

fn dreq(id: &'static str, cat: &'static str, risk: &'static str, names: &'static [&'static str],
    markers: &'static [&'static str], restore: &'static str, ignore: &'static str) -> (r: Rule)
    ensures
        r == gated_rule(id, cat, risk, names, markers, restore, ignore),
{
    Rule { id, cat, risk, kind: Kind::Dir, names, globs: &[], under: None, requires: markers, restore, ignore }
}

fn dunder(id: &'static str, cat: &'static str, risk: &'static str, names: &'static [&'static str],
    under: &'static str, restore: &'static str, ignore: &'static str) -> (r: Rule)
    ensures
        r == under_rule(id, cat, risk, names, under, restore, ignore),
{
    Rule { id, cat, risk, kind: Kind::Dir, names, globs: &[], under: Some(under), requires: &[], restore, ignore }
}

/// The detection rules, in matching order.
pub open spec fn catalogue() -> Seq<Rule> {
    seq![
        // js
        dir_rule("node_modules", "js", SAFE, &["node_modules"], "npm install", "node_modules/"),
        dir_rule("next", "js", SAFE, &[".next"], "npm run build", ".next/"),
        dir_rule("nuxt", "js", SAFE, &[".nuxt"], "npm run build", ".nuxt/"),
        dir_rule("nitro_output", "js", SAFE, &[".output"], "npm run build", ".output/"),
        dir_rule("svelte_kit", "js", SAFE, &[".svelte-kit"], "npm run build", ".svelte-kit/"),
        dir_rule("astro", "js", SAFE, &[".astro"], "npm run build", ".astro/"),
        dir_rule("docusaurus", "js", SAFE, &[".docusaurus"], "npm run build", ".docusaurus/"),
        dir_rule("angular_cache", "js", SAFE, &[".angular"], "ng build", ".angular/"),
        dir_rule("parcel_cache", "js", SAFE, &[".parcel-cache"], "npm run build", ".parcel-cache/"),
        dir_rule("turbo", "js", SAFE, &[".turbo"], "npm run build", ".turbo/"),
        dir_rule("vite_cache", "js", SAFE, &[".vite"], "npm run dev", ".vite/"),
        dir_rule("rollup_cache", "js", SAFE, &[".rollup.cache"], "npm run build", ".rollup.cache/"),
        dir_rule("webpack_cache", "js", SAFE, &[".webpack"], "npm run build", ".webpack/"),
        dir_rule("serverless", "js", SAFE, &[".serverless"], "serverless package", ".serverless/"),
        under_rule("yarn_cache", "js", SAFE, &["cache", "unplugged"], ".yarn", "yarn install", ".yarn/cache/"),
        dir_rule("pnpm_store", "js", SAFE, &[".pnpm-store"], "pnpm install", ".pnpm-store/"),
        dir_rule("expo", "js", SAFE, &[".expo", ".expo-shared"], "npx expo start", ".expo/"),
        dir_rule("metro_cache", "js", SAFE, &[".metro-cache"], "npx react-native start", ".metro-cache/"),
        dir_rule("storybook_static", "js", SAFE, &["storybook-static"], "npm run build-storybook", "storybook-static/"),
        dir_rule("nyc_output", "js", SAFE, &[".nyc_output"], "npm test", ".nyc_output/"),
        file_rule("eslintcache", "js", SAFE, &[".eslintcache", ".stylelintcache"], "npm run lint", ".eslintcache"),
        file_glob_rule("tsbuildinfo", "js", SAFE, &["*.tsbuildinfo"], "tsc -b", "*.tsbuildinfo"),
        dir_rule("nx_cache", "js", SAFE, &[".nx"], "npx nx build", ".nx/"),
        dir_rule("swc_cache", "js", SAFE, &[".swc"], "npm run build", ".swc/"),
        dir_rule("legacy_modules", "js", SAFE, &["bower_components", "jspm_packages", "web_modules"], "bower install", "bower_components/"),
        dir_rule("deploy_cache", "js", SAFE, &[".vercel", ".netlify", ".wrangler", ".firebase"], "deploy CLI", ".vercel/"),
        under_rule("vitepress_out", "js", SAFE, &["cache", "dist"], ".vitepress", "npm run docs:build", ".vitepress/cache/"),
        under_rule("vuepress_out", "js", SAFE, &["dist", "temp"], ".vuepress", "npm run docs:build", ".vuepress/dist/"),
        dir_rule("playwright", "js", SAFE, &["playwright-report", "test-results", ".playwright", "blob-report"], "npx playwright test", "playwright-report/"),
        under_rule("cypress_artifacts", "js", SAFE, &["videos", "screenshots", "downloads"], "cypress", "npx cypress run", "cypress/videos/"),
        plain_rule("rpt2_cache", "js", SAFE, Kind::Dir, &[".rpt2_cache"], &[".rts2_cache_*"], "npm run build", ".rpt2_cache/"),
        dir_rule("legacy_task_cache", "js", SAFE, &[".grunt", ".fusebox", ".dynamodb", ".node_modules_cache"], "npm run build", ".grunt/"),
        file_rule("npm_misc", "js", SAFE, &[".yarn-integrity", ".node_repl_history"], "npm install", ".yarn-integrity"),
        // python
        dir_rule("pycache", "python", SAFE, &["__pycache__"], "python", "__pycache__/"),
        dir_rule("pytest_cache", "python", SAFE, &[".pytest_cache"], "pytest", ".pytest_cache/"),
        dir_rule("mypy_cache", "python", SAFE, &[".mypy_cache"], "mypy .", ".mypy_cache/"),
        dir_rule("ruff_cache", "python", SAFE, &[".ruff_cache"], "ruff check .", ".ruff_cache/"),
        dir_rule("tox", "python", SAFE, &[".tox", ".nox"], "tox", ".tox/"),
        dir_rule("hypothesis", "python", SAFE, &[".hypothesis"], "pytest", ".hypothesis/"),
        dir_rule("venv", "python", SAFE, &["venv", ".venv", "virtualenv", "env310", "env311"], "python -m venv venv && pip install -r requirements.txt", "venv/"),
        plain_rule("egg_info", "python", SAFE, Kind::Dir, &[], &["*.egg-info"], "pip install -e .", "*.egg-info/"),
        dir_rule("eggs", "python", SAFE, &[".eggs"], "pip install -e .", ".eggs/"),
        dir_rule("ipynb_checkpoints", "python", SAFE, &[".ipynb_checkpoints"], "jupyter", ".ipynb_checkpoints/"),
        dir_rule("htmlcov", "python", SAFE, &["htmlcov"], "coverage html", "htmlcov/"),
        plain_rule("coverage_file", "python", SAFE, Kind::File, &[".coverage"], &[".coverage.*"], "coverage run", ".coverage"),
        gated_rule("py_dist", "python", CHECK, &["dist", "build"], &["setup.py", "pyproject.toml", "setup.cfg"], "python -m build", "dist/"),
        file_glob_rule("pyc", "python", SAFE, &["*.pyc", "*.pyo", "*.pyd"], "python", "*.py[cod]"),
        gated_rule("mkdocs_site", "python", SAFE, &["site"], &["mkdocs.yml", "mkdocs.yaml"], "mkdocs build", "site/"),
        under_rule("sphinx_build", "python", SAFE, &["_build"], "docs", "sphinx-build", "docs/_build/"),
        dir_rule("pdm_packages", "python", SAFE, &["__pypackages__", ".pdm-build"], "pdm install", "__pypackages__/"),
        dir_rule("type_checker_cache", "python", SAFE, &[".pyre", ".pytype", "cython_debug"], "pyre check", ".pyre/"),
        file_rule("dmypy", "python", SAFE, &[".dmypy.json", "dmypy.json"], "dmypy run", ".dmypy.json"),
        dir_rule("scrapy_pybuilder", "python", SAFE, &[".scrapy", ".pybuilder", "pip-wheel-metadata"], "pyb", ".scrapy/"),
        plain_rule("egg_files", "python", SAFE, Kind::File, &[".installed.cfg"], &["*.egg"], "pip install -e .", "*.egg"),
        // rust
        gated_rule("cargo_target", "rust", SAFE, &["target"], &["Cargo.toml"], "cargo build", "target/"),
        // jvm
        gated_rule("maven_target", "jvm", SAFE, &["target"], &["pom.xml"], "mvn package", "target/"),
        gated_rule("gradle_build", "jvm", SAFE, &["build"], &["build.gradle", "build.gradle.kts", "settings.gradle"], "gradle build", "build/"),
        dir_rule("gradle_cache", "jvm", SAFE, &[".gradle"], "gradle build", ".gradle/"),
        dir_rule("kotlin_cache", "jvm", SAFE, &[".kotlin"], "gradle build", ".kotlin/"),
        file_glob_rule("class_files", "jvm", SAFE, &["*.class"], "javac", "*.class"),
        // dotnet
        gated_rule("dotnet_bin", "dotnet", SAFE, &["bin", "obj"], &["*.csproj"], "dotnet build", "bin/"),
        gated_rule("dotnet_packages", "dotnet", SAFE, &["packages"], &["packages.config"], "nuget restore", "packages/"),
        dir_rule("vs_cache", "dotnet", SAFE, &[".vs"], "Visual Studio", ".vs/"),
        // go
        gated_rule("go_vendor", "go", CHECK, &["vendor"], &["go.mod"], "go mod vendor", "vendor/"),
        // php
        gated_rule("composer_vendor", "php", SAFE, &["vendor"], &["composer.json"], "composer install", "vendor/"),
        // ruby
        under_rule("bundle_vendor", "ruby", SAFE, &["bundle"], "vendor", "bundle install", "vendor/bundle/"),
        dir_rule("bundle_config", "ruby", SAFE, &[".bundle"], "bundle install", ".bundle/"),
        // native
        dir_rule("cmake_files", "native", SAFE, &["CMakeFiles"], "cmake .", "CMakeFiles/"),
        plain_rule("cmake_build", "native", SAFE, Kind::Dir, &[], &["cmake-build-*"], "cmake --build .", "cmake-build-*/"),
        file_rule("cmake_cache", "native", SAFE, &["CMakeCache.txt"], "cmake .", "CMakeCache.txt"),
        dir_rule("ccls_cache", "native", SAFE, &[".ccls-cache", ".clangd"], "clangd", ".ccls-cache/"),
        file_glob_rule("object_files", "native", SAFE, &["*.o", "*.obj", "*.gch", "*.pch", "*.ilk", "*.pdb"], "make", "*.o"),
        gated_rule("msvc_config", "native", SAFE, &["Debug", "Release", "x64", "Win32", "ARM64", "ipch"], &["*.vcxproj", "*.sln"], "msbuild", "Debug/"),
        dir_rule("autotools", "native", SAFE, &[".deps", ".libs", "autom4te.cache"], "./configure", ".deps/"),
        file_rule("autotools_files", "native", SAFE, &["config.status", "config.log"], "./configure", "config.status"),
        dir_rule("vcpkg", "native", SAFE, &["vcpkg_installed"], "vcpkg install", "vcpkg_installed/"),
        // apple
        dir_rule("derived_data", "apple", SAFE, &["DerivedData"], "xcodebuild", "DerivedData/"),
        gated_rule("swift_build", "apple", SAFE, &[".build"], &["Package.swift"], "swift build", ".build/"),
        gated_rule("cocoapods", "apple", SAFE, &["Pods"], &["Podfile"], "pod install", "Pods/"),
        under_rule("carthage_build", "apple", SAFE, &["Build"], "Carthage", "carthage bootstrap", "Carthage/Build/"),
        plain_rule("xcuserdata", "apple", SAFE, Kind::Dir, &["xcuserdata"], &["*.xcuserdatad"], "Xcode", "xcuserdata/"),
        dir_rule("swiftpm_state", "apple", SAFE, &[".swiftpm"], "swift build", ".swiftpm/"),
        // mobile
        dir_rule("dart_tool", "mobile", SAFE, &[".dart_tool"], "flutter pub get", ".dart_tool/"),
        file_rule("flutter_plugins", "mobile", SAFE, &[".flutter-plugins", ".flutter-plugins-dependencies"], "flutter pub get", ".flutter-plugins"),
        gated_rule("elixir_build", "mobile", SAFE, &["_build"], &["mix.exs"], "mix compile", "_build/"),
        gated_rule("elixir_deps", "mobile", SAFE, &["deps"], &["mix.exs"], "mix deps.get", "deps/"),
        dir_rule("android_cxx", "mobile", SAFE, &[".cxx"], "gradle build", ".cxx/"),
        // gamedev
        gated_rule("unity_library", "gamedev", SAFE, &["Library", "Temp", "Obj", "Logs", "UserSettings"], &["Assets", "ProjectSettings"], "Unity Editor", "Library/"),
        dir_rule("godot_cache", "gamedev", SAFE, &[".godot", ".import"], "Godot Editor", ".godot/"),
        gated_rule("unreal_build", "gamedev", SAFE, &["Binaries", "Intermediate", "DerivedDataCache", "Saved"], &["*.uproject"], "Unreal Build Tool", "Binaries/"),
        gated_rule("unity_builds", "gamedev", CHECK, &["Build", "Builds", "MemoryCaptures", "Recordings"], &["Assets", "ProjectSettings"], "Unity Editor", "Builds/"),
        // ml
        under_rule("hf_cache", "ml", DATA, &["huggingface"], ".cache", "huggingface-cli download", ".cache/"),
        file_glob_rule("hf_incomplete", "ml", SAFE, &["*.incomplete"], "huggingface-cli download", "*.incomplete"),
        file_glob_rule("model_weights", "ml", DATA, &["*.safetensors", "*.ckpt", "*.pth", "*.pt", "*.gguf", "*.onnx", "*.h5"], "huggingface-cli download", "*.safetensors"),
        dir_rule("wandb", "ml", DATA, &["wandb", "mlruns", "lightning_logs"], "training run", "wandb/"),
        dir_rule("tracking_runs", "ml", DATA, &["runs", "multirun", ".neptune", "catboost_info", ".aim"], "training run", "runs/"),
        // infra
        dir_rule("terraform", "infra", SAFE, &[".terraform"], "terraform init", ".terraform/"),
        dir_rule("terragrunt", "infra", SAFE, &[".terragrunt-cache"], "terragrunt init", ".terragrunt-cache/"),
        dir_rule("pulumi", "infra", SAFE, &[".pulumi"], "pulumi up", ".pulumi/"),
        dir_rule("vagrant", "infra", SAFE, &[".vagrant"], "vagrant up", ".vagrant/"),
        // docs
        gated_rule("jekyll_site", "docs", SAFE, &["_site", ".jekyll-cache"], &["_config.yml"], "jekyll build", "_site/"),
        gated_rule("hugo_public", "docs", SAFE, &["public", "resources"], &["hugo.toml", "config.toml", "hugo.yaml"], "hugo", "public/"),
        dir_rule("sass_cache", "docs", SAFE, &[".sass-cache"], "sass", ".sass-cache/"),
        dir_rule("quarto", "docs", SAFE, &[".quarto", "_freeze"], "quarto render", ".quarto/"),
        dir_rule("gitbook", "docs", SAFE, &["_book", ".docz"], "gitbook build", "_book/"),
        // ide
        dir_rule("idea", "ide", CHECK, &[".idea"], "JetBrains IDE", ".idea/"),
        dir_rule("vscode_history", "ide", SAFE, &[".history"], "VS Code Local History", ".history/"),
        dir_rule("direnv", "ide", SAFE, &[".direnv"], "direnv allow", ".direnv/"),
        file_glob_rule("editor_swap", "ide", SAFE, &["*.swp", "*.swo", "*.swn", "*~"], "editeur", "*.sw[nop]"),
        // os
        plain_rule("os_junk", "os", SAFE, Kind::File, &[".DS_Store", "Thumbs.db", "ehthumbs.db", "desktop.ini"], &["._*"], "OS", ".DS_Store"),
        dir_rule("os_junk_dirs", "os", SAFE, &[".Spotlight-V100", ".Trashes", ".fseventsd", "$RECYCLE.BIN"], "OS", ".Spotlight-V100/"),
        // misc
        dir_rule("generic_dist", "misc", CHECK, &["dist", "out"], "build", "dist/"),
        dir_rule("generic_build", "misc", CHECK, &["build", "_build"], "build", "build/"),
        dir_rule("generic_cache", "misc", CHECK, &[".cache", ".temp", ".tmp"], "build", ".cache/"),
        dir_rule("generic_tmp", "misc", CHECK, &["tmp", "temp"], "runtime", "tmp/"),
        dir_rule("generic_coverage", "misc", SAFE, &["coverage"], "test runner", "coverage/"),
        dir_rule("log_dir", "misc", CHECK, &["logs"], "runtime", "logs/"),
        file_glob_rule("log_files", "misc", CHECK, &["*.log", "npm-debug.log*", "yarn-error.log*"], "runtime", "*.log"),
        file_glob_rule("pid_files", "misc", SAFE, &["*.pid", "*.pid.lock", "*.seed"], "runtime", "*.pid"),
        file_glob_rule("patch_leftovers", "misc", CHECK, &["*.orig", "*.rej", "*.bak", "*.rs.bk"], "outil de patch", "*.orig"),
    ]
}

/// The catalogue, in matching order: rules constrained by `under` or
/// `requires` come before the generic ones, and the first rule that applies
/// to an entry wins.
#[verifier::rlimit(60)]
pub fn rules() -> (r: Vec<Rule>)
    ensures
        r@ == catalogue(),
        r.len() == 120,
        forall|i: int| 0 <= i < r.len() ==> #[trigger] is_risk_level(r[i].risk),
{
    vec![
        // js
        d("node_modules", "js", SAFE, &["node_modules"], "npm install", "node_modules/"),
        d("next", "js", SAFE, &[".next"], "npm run build", ".next/"),
        d("nuxt", "js", SAFE, &[".nuxt"], "npm run build", ".nuxt/"),
        d("nitro_output", "js", SAFE, &[".output"], "npm run build", ".output/"),
        d("svelte_kit", "js", SAFE, &[".svelte-kit"], "npm run build", ".svelte-kit/"),
        d("astro", "js", SAFE, &[".astro"], "npm run build", ".astro/"),
        d("docusaurus", "js", SAFE, &[".docusaurus"], "npm run build", ".docusaurus/"),
        d("angular_cache", "js", SAFE, &[".angular"], "ng build", ".angular/"),
        d("parcel_cache", "js", SAFE, &[".parcel-cache"], "npm run build", ".parcel-cache/"),
        d("turbo", "js", SAFE, &[".turbo"], "npm run build", ".turbo/"),
        d("vite_cache", "js", SAFE, &[".vite"], "npm run dev", ".vite/"),
        d("rollup_cache", "js", SAFE, &[".rollup.cache"], "npm run build", ".rollup.cache/"),
        d("webpack_cache", "js", SAFE, &[".webpack"], "npm run build", ".webpack/"),
        d("serverless", "js", SAFE, &[".serverless"], "serverless package", ".serverless/"),
        dunder("yarn_cache", "js", SAFE, &["cache", "unplugged"], ".yarn", "yarn install", ".yarn/cache/"),
        d("pnpm_store", "js", SAFE, &[".pnpm-store"], "pnpm install", ".pnpm-store/"),
        d("expo", "js", SAFE, &[".expo", ".expo-shared"], "npx expo start", ".expo/"),
        d("metro_cache", "js", SAFE, &[".metro-cache"], "npx react-native start", ".metro-cache/"),
        d("storybook_static", "js", SAFE, &["storybook-static"], "npm run build-storybook", "storybook-static/"),
        d("nyc_output", "js", SAFE, &[".nyc_output"], "npm test", ".nyc_output/"),
        f("eslintcache", "js", SAFE, &[".eslintcache", ".stylelintcache"], "npm run lint", ".eslintcache"),
        fg("tsbuildinfo", "js", SAFE, &["*.tsbuildinfo"], "tsc -b", "*.tsbuildinfo"),
        d("nx_cache", "js", SAFE, &[".nx"], "npx nx build", ".nx/"),
        d("swc_cache", "js", SAFE, &[".swc"], "npm run build", ".swc/"),
        d("legacy_modules", "js", SAFE, &["bower_components", "jspm_packages", "web_modules"], "bower install", "bower_components/"),
        d("deploy_cache", "js", SAFE, &[".vercel", ".netlify", ".wrangler", ".firebase"], "deploy CLI", ".vercel/"),
        dunder("vitepress_out", "js", SAFE, &["cache", "dist"], ".vitepress", "npm run docs:build", ".vitepress/cache/"),
        dunder("vuepress_out", "js", SAFE, &["dist", "temp"], ".vuepress", "npm run docs:build", ".vuepress/dist/"),
        d("playwright", "js", SAFE, &["playwright-report", "test-results", ".playwright", "blob-report"], "npx playwright test", "playwright-report/"),
        dunder("cypress_artifacts", "js", SAFE, &["videos", "screenshots", "downloads"], "cypress", "npx cypress run", "cypress/videos/"),
        rule("rpt2_cache", "js", SAFE, Kind::Dir, &[".rpt2_cache"], &[".rts2_cache_*"], "npm run build", ".rpt2_cache/"),
        d("legacy_task_cache", "js", SAFE, &[".grunt", ".fusebox", ".dynamodb", ".node_modules_cache"], "npm run build", ".grunt/"),
        f("npm_misc", "js", SAFE, &[".yarn-integrity", ".node_repl_history"], "npm install", ".yarn-integrity"),
        // python
        d("pycache", "python", SAFE, &["__pycache__"], "python", "__pycache__/"),
        d("pytest_cache", "python", SAFE, &[".pytest_cache"], "pytest", ".pytest_cache/"),
        d("mypy_cache", "python", SAFE, &[".mypy_cache"], "mypy .", ".mypy_cache/"),
        d("ruff_cache", "python", SAFE, &[".ruff_cache"], "ruff check .", ".ruff_cache/"),
        d("tox", "python", SAFE, &[".tox", ".nox"], "tox", ".tox/"),
        d("hypothesis", "python", SAFE, &[".hypothesis"], "pytest", ".hypothesis/"),
        d("venv", "python", SAFE, &["venv", ".venv", "virtualenv", "env310", "env311"], "python -m venv venv && pip install -r requirements.txt", "venv/"),
        rule("egg_info", "python", SAFE, Kind::Dir, &[], &["*.egg-info"], "pip install -e .", "*.egg-info/"),
        d("eggs", "python", SAFE, &[".eggs"], "pip install -e .", ".eggs/"),
        d("ipynb_checkpoints", "python", SAFE, &[".ipynb_checkpoints"], "jupyter", ".ipynb_checkpoints/"),
        d("htmlcov", "python", SAFE, &["htmlcov"], "coverage html", "htmlcov/"),
        rule("coverage_file", "python", SAFE, Kind::File, &[".coverage"], &[".coverage.*"], "coverage run", ".coverage"),
        dreq("py_dist", "python", CHECK, &["dist", "build"], &["setup.py", "pyproject.toml", "setup.cfg"], "python -m build", "dist/"),
        fg("pyc", "python", SAFE, &["*.pyc", "*.pyo", "*.pyd"], "python", "*.py[cod]"),
        dreq("mkdocs_site", "python", SAFE, &["site"], &["mkdocs.yml", "mkdocs.yaml"], "mkdocs build", "site/"),
        dunder("sphinx_build", "python", SAFE, &["_build"], "docs", "sphinx-build", "docs/_build/"),
        d("pdm_packages", "python", SAFE, &["__pypackages__", ".pdm-build"], "pdm install", "__pypackages__/"),
        d("type_checker_cache", "python", SAFE, &[".pyre", ".pytype", "cython_debug"], "pyre check", ".pyre/"),
        f("dmypy", "python", SAFE, &[".dmypy.json", "dmypy.json"], "dmypy run", ".dmypy.json"),
        d("scrapy_pybuilder", "python", SAFE, &[".scrapy", ".pybuilder", "pip-wheel-metadata"], "pyb", ".scrapy/"),
        rule("egg_files", "python", SAFE, Kind::File, &[".installed.cfg"], &["*.egg"], "pip install -e .", "*.egg"),
        // rust
        dreq("cargo_target", "rust", SAFE, &["target"], &["Cargo.toml"], "cargo build", "target/"),
        // jvm
        dreq("maven_target", "jvm", SAFE, &["target"], &["pom.xml"], "mvn package", "target/"),
        dreq("gradle_build", "jvm", SAFE, &["build"], &["build.gradle", "build.gradle.kts", "settings.gradle"], "gradle build", "build/"),
        d("gradle_cache", "jvm", SAFE, &[".gradle"], "gradle build", ".gradle/"),
        d("kotlin_cache", "jvm", SAFE, &[".kotlin"], "gradle build", ".kotlin/"),
        fg("class_files", "jvm", SAFE, &["*.class"], "javac", "*.class"),
        // dotnet
        dreq("dotnet_bin", "dotnet", SAFE, &["bin", "obj"], &["*.csproj"], "dotnet build", "bin/"),
        dreq("dotnet_packages", "dotnet", SAFE, &["packages"], &["packages.config"], "nuget restore", "packages/"),
        d("vs_cache", "dotnet", SAFE, &[".vs"], "Visual Studio", ".vs/"),
        // go
        dreq("go_vendor", "go", CHECK, &["vendor"], &["go.mod"], "go mod vendor", "vendor/"),
        // php
        dreq("composer_vendor", "php", SAFE, &["vendor"], &["composer.json"], "composer install", "vendor/"),
        // ruby
        dunder("bundle_vendor", "ruby", SAFE, &["bundle"], "vendor", "bundle install", "vendor/bundle/"),
        d("bundle_config", "ruby", SAFE, &[".bundle"], "bundle install", ".bundle/"),
        // native
        d("cmake_files", "native", SAFE, &["CMakeFiles"], "cmake .", "CMakeFiles/"),
        rule("cmake_build", "native", SAFE, Kind::Dir, &[], &["cmake-build-*"], "cmake --build .", "cmake-build-*/"),
        f("cmake_cache", "native", SAFE, &["CMakeCache.txt"], "cmake .", "CMakeCache.txt"),
        d("ccls_cache", "native", SAFE, &[".ccls-cache", ".clangd"], "clangd", ".ccls-cache/"),
        fg("object_files", "native", SAFE, &["*.o", "*.obj", "*.gch", "*.pch", "*.ilk", "*.pdb"], "make", "*.o"),
        dreq("msvc_config", "native", SAFE, &["Debug", "Release", "x64", "Win32", "ARM64", "ipch"], &["*.vcxproj", "*.sln"], "msbuild", "Debug/"),
        d("autotools", "native", SAFE, &[".deps", ".libs", "autom4te.cache"], "./configure", ".deps/"),
        f("autotools_files", "native", SAFE, &["config.status", "config.log"], "./configure", "config.status"),
        d("vcpkg", "native", SAFE, &["vcpkg_installed"], "vcpkg install", "vcpkg_installed/"),
        // apple
        d("derived_data", "apple", SAFE, &["DerivedData"], "xcodebuild", "DerivedData/"),
        dreq("swift_build", "apple", SAFE, &[".build"], &["Package.swift"], "swift build", ".build/"),
        dreq("cocoapods", "apple", SAFE, &["Pods"], &["Podfile"], "pod install", "Pods/"),
        dunder("carthage_build", "apple", SAFE, &["Build"], "Carthage", "carthage bootstrap", "Carthage/Build/"),
        rule("xcuserdata", "apple", SAFE, Kind::Dir, &["xcuserdata"], &["*.xcuserdatad"], "Xcode", "xcuserdata/"),
        d("swiftpm_state", "apple", SAFE, &[".swiftpm"], "swift build", ".swiftpm/"),
        // mobile
        d("dart_tool", "mobile", SAFE, &[".dart_tool"], "flutter pub get", ".dart_tool/"),
        f("flutter_plugins", "mobile", SAFE, &[".flutter-plugins", ".flutter-plugins-dependencies"], "flutter pub get", ".flutter-plugins"),
        dreq("elixir_build", "mobile", SAFE, &["_build"], &["mix.exs"], "mix compile", "_build/"),
        dreq("elixir_deps", "mobile", SAFE, &["deps"], &["mix.exs"], "mix deps.get", "deps/"),
        d("android_cxx", "mobile", SAFE, &[".cxx"], "gradle build", ".cxx/"),
        // gamedev
        dreq("unity_library", "gamedev", SAFE, &["Library", "Temp", "Obj", "Logs", "UserSettings"], &["Assets", "ProjectSettings"], "Unity Editor", "Library/"),
        d("godot_cache", "gamedev", SAFE, &[".godot", ".import"], "Godot Editor", ".godot/"),
        dreq("unreal_build", "gamedev", SAFE, &["Binaries", "Intermediate", "DerivedDataCache", "Saved"], &["*.uproject"], "Unreal Build Tool", "Binaries/"),
        dreq("unity_builds", "gamedev", CHECK, &["Build", "Builds", "MemoryCaptures", "Recordings"], &["Assets", "ProjectSettings"], "Unity Editor", "Builds/"),
        // ml
        dunder("hf_cache", "ml", DATA, &["huggingface"], ".cache", "huggingface-cli download", ".cache/"),
        fg("hf_incomplete", "ml", SAFE, &["*.incomplete"], "huggingface-cli download", "*.incomplete"),
        fg("model_weights", "ml", DATA, &["*.safetensors", "*.ckpt", "*.pth", "*.pt", "*.gguf", "*.onnx", "*.h5"], "huggingface-cli download", "*.safetensors"),
        d("wandb", "ml", DATA, &["wandb", "mlruns", "lightning_logs"], "training run", "wandb/"),
        d("tracking_runs", "ml", DATA, &["runs", "multirun", ".neptune", "catboost_info", ".aim"], "training run", "runs/"),
        // infra
        d("terraform", "infra", SAFE, &[".terraform"], "terraform init", ".terraform/"),
        d("terragrunt", "infra", SAFE, &[".terragrunt-cache"], "terragrunt init", ".terragrunt-cache/"),
        d("pulumi", "infra", SAFE, &[".pulumi"], "pulumi up", ".pulumi/"),
        d("vagrant", "infra", SAFE, &[".vagrant"], "vagrant up", ".vagrant/"),
        // docs
        dreq("jekyll_site", "docs", SAFE, &["_site", ".jekyll-cache"], &["_config.yml"], "jekyll build", "_site/"),
        dreq("hugo_public", "docs", SAFE, &["public", "resources"], &["hugo.toml", "config.toml", "hugo.yaml"], "hugo", "public/"),
        d("sass_cache", "docs", SAFE, &[".sass-cache"], "sass", ".sass-cache/"),
        d("quarto", "docs", SAFE, &[".quarto", "_freeze"], "quarto render", ".quarto/"),
        d("gitbook", "docs", SAFE, &["_book", ".docz"], "gitbook build", "_book/"),
        // ide
        d("idea", "ide", CHECK, &[".idea"], "JetBrains IDE", ".idea/"),
        d("vscode_history", "ide", SAFE, &[".history"], "VS Code Local History", ".history/"),
        d("direnv", "ide", SAFE, &[".direnv"], "direnv allow", ".direnv/"),
        fg("editor_swap", "ide", SAFE, &["*.swp", "*.swo", "*.swn", "*~"], "editeur", "*.sw[nop]"),
        // os
        rule("os_junk", "os", SAFE, Kind::File, &[".DS_Store", "Thumbs.db", "ehthumbs.db", "desktop.ini"], &["._*"], "OS", ".DS_Store"),
        d("os_junk_dirs", "os", SAFE, &[".Spotlight-V100", ".Trashes", ".fseventsd", "$RECYCLE.BIN"], "OS", ".Spotlight-V100/"),
        // misc
        d("generic_dist", "misc", CHECK, &["dist", "out"], "build", "dist/"),
        d("generic_build", "misc", CHECK, &["build", "_build"], "build", "build/"),
        d("generic_cache", "misc", CHECK, &[".cache", ".temp", ".tmp"], "build", ".cache/"),
        d("generic_tmp", "misc", CHECK, &["tmp", "temp"], "runtime", "tmp/"),
        d("generic_coverage", "misc", SAFE, &["coverage"], "test runner", "coverage/"),
        d("log_dir", "misc", CHECK, &["logs"], "runtime", "logs/"),
        fg("log_files", "misc", CHECK, &["*.log", "npm-debug.log*", "yarn-error.log*"], "runtime", "*.log"),
        fg("pid_files", "misc", SAFE, &["*.pid", "*.pid.lock", "*.seed"], "runtime", "*.pid"),
        fg("patch_leftovers", "misc", CHECK, &["*.orig", "*.rej", "*.bak", "*.rs.bk"], "outil de patch", "*.orig"),
    ]
}

/// Names that mark a directory as a project during discovery.
pub open spec fn project_marker_list() -> Seq<Seq<char>> {
    seq![".git"@, "package.json"@, "Cargo.toml"@, "pyproject.toml"@, "setup.py"@,
        "requirements.txt"@, "go.mod"@, "pom.xml"@, "build.gradle"@, "build.gradle.kts"@,
        "composer.json"@, "Gemfile"@, "mix.exs"@, "Package.swift"@, "pubspec.yaml"@,
        "CMakeLists.txt"@, "Makefile"@, "*.sln"@, "*.csproj"@, "*.uproject"@,
        "ProjectSettings"@, "project.godot"@, "Dockerfile"@]
}

/// The project markers, in the order they are tried.
pub fn project_markers() -> (r: Vec<&'static str>)
    ensures
        strs(r@) == project_marker_list(),
{
    let r = vec![".git", "package.json", "Cargo.toml", "pyproject.toml", "setup.py",
        "requirements.txt", "go.mod", "pom.xml", "build.gradle", "build.gradle.kts",
        "composer.json", "Gemfile", "mix.exs", "Package.swift", "pubspec.yaml",
        "CMakeLists.txt", "Makefile", "*.sln", "*.csproj", "*.uproject",
        "ProjectSettings", "project.godot", "Dockerfile"];
    assert(strs(r@) =~= project_marker_list());
    r
}

/// The entry name is one of the rule's names, or matches one of its patterns.
pub open spec fn names_match(rule: Rule, name: Seq<char>) -> bool {
    ||| strs(rule.names@).contains(name)
    ||| exists|k: int| 0 <= k < rule.globs@.len() && wildcard(#[trigger] rule.globs@[k]@, name)
}

fn name_matches(rule: &Rule, name: &str) -> (r: bool)
    ensures
        r == names_match(*rule, name@),
{
    let mut i: usize = 0;
    while i < rule.names.len()
        invariant
            i <= rule.names@.len(),
            forall|x: int| 0 <= x < i ==> rule.names@[x]@ != name@,
        decreases rule.names@.len() - i,
    {
        if str_eq(rule.names[i], name) {
            assert(strs(rule.names@)[i as int] == name@);
            return true;
        }
        i = i + 1;
    }
    assert(!strs(rule.names@).contains(name@));
    let mut k: usize = 0;
    while k < rule.globs.len()
        invariant
            k <= rule.globs@.len(),
            forall|x: int| 0 <= x < k ==> !wildcard(#[trigger] rule.globs@[x]@, name@),
        decreases rule.globs@.len() - k,
    {
        if wildcard_match(rule.globs[k], name) {
            return true;
        }
        k = k + 1;
    }
    false
}

/// A marker holding `*` or `?` is a pattern; others are exact names.
pub open spec fn is_pattern(marker: Seq<char>) -> bool {
    marker.contains('*') || marker.contains('?')
}

/// The marker is among the sibling names.
pub open spec fn marker_present(siblings: Seq<Seq<char>>, marker: Seq<char>) -> bool {
    if is_pattern(marker) {
        some_name_matches(siblings, marker)
    } else {
        siblings.contains(marker)
    }
}

/// At least one of the markers is present among the siblings.
pub open spec fn any_marker(siblings: Seq<Seq<char>>, markers: Seq<Seq<char>>) -> bool {
    exists|i: int| 0 <= i < markers.len() && marker_present(siblings, #[trigger] markers[i])
}

/// Some of the names matches the wildcard pattern.
pub open spec fn some_name_matches(names: Seq<Seq<char>>, pattern: Seq<char>) -> bool {
    exists|k: int| 0 <= k < names.len() && wildcard(pattern, #[trigger] names[k])
}

fn any_wildcard(names: &Vec<String>, pattern: &str) -> (r: bool)
    ensures
        r == some_name_matches(views(names@), pattern@),
{
    let mut k: usize = 0;
    while k < names.len()
        invariant
            k <= names@.len(),
            forall|x: int| 0 <= x < k ==> !wildcard(pattern@, #[trigger] views(names@)[x]),
        decreases names@.len() - k,
    {
        if wildcard_match(pattern, names[k].as_str()) {
            assert(wildcard(pattern@, views(names@)[k as int]));
            return true;
        }
        k = k + 1;
    }
    false
}

fn marker_in(siblings: &Vec<String>, marker: &str) -> (r: bool)
    ensures
        r == marker_present(views(siblings@), marker@),
{
    if has_char(marker, '*') || has_char(marker, '?') {
        any_wildcard(siblings, marker)
    } else {
        contains_str(siblings, marker)
    }
}

fn has_marker(siblings: &Vec<String>, markers: &[&str]) -> (r: bool)
    ensures
        r == any_marker(views(siblings@), strs(markers@)),
{
    let mut i: usize = 0;
    while i < markers.len()
        invariant
            i <= markers@.len(),
            forall|x: int| 0 <= x < i ==> !marker_present(views(siblings@), #[trigger] strs(markers@)[x]),
        decreases markers@.len() - i,
    {
        if marker_in(siblings, markers[i]) {
            assert(marker_present(views(siblings@), strs(markers@)[i as int]));
            return true;
        }
        i = i + 1;
    }
    false
}

/// The rule applies to an entry named `name`, of the given kind, whose
/// parent directory is `parent` and whose directory also holds `siblings`.
pub open spec fn rule_applies(rule: Rule, name: Seq<char>, is_dir: bool, parent: Seq<char>,
    siblings: Seq<Seq<char>>) -> bool {
    &&& rule.kind == (if is_dir { Kind::Dir } else { Kind::File })
    &&& names_match(rule, name)
    &&& match rule.under {
        Some(under) => under@ == parent,
        None => true,
    }
    &&& (rule.requires@.len() == 0 || any_marker(siblings, strs(rule.requires@)))
}

/// The first rule of `rules`, from index `k` on, that applies to the entry.
pub open spec fn first_rule(rules: Seq<Rule>, name: Seq<char>, is_dir: bool, parent: Seq<char>,
    siblings: Seq<Seq<char>>, k: int) -> Option<Rule>
    decreases rules.len() - k,
{
    if k < 0 || k >= rules.len() {
        None
    } else if rule_applies(rules[k], name, is_dir, parent, siblings) {
        Some(rules[k])
    } else {
        first_rule(rules, name, is_dir, parent, siblings, k + 1)
    }
}

/// The first match wins, and only a rule that applies can match: a rule
/// that names a parent directory matches only under it, one that names
/// markers only beside one of them. `None` means that no rule applies.
pub proof fn lemma_first_rule_applies(rules: Seq<Rule>, name: Seq<char>, is_dir: bool, parent: Seq<char>,
    siblings: Seq<Seq<char>>, k: int)
    requires
        0 <= k,
    ensures
        match first_rule(rules, name, is_dir, parent, siblings, k) {
            Some(r) => exists|i: int|
                k <= i < rules.len() && rules[i] == r && rule_applies(r, name, is_dir, parent, siblings)
                    && forall|j: int| k <= j < i ==> !rule_applies(#[trigger] rules[j], name, is_dir, parent, siblings),
            None => forall|j: int| k <= j < rules.len() ==> !rule_applies(#[trigger] rules[j], name, is_dir, parent, siblings),
        },
    decreases rules.len() - k,
{
    if k < rules.len() && !rule_applies(rules[k], name, is_dir, parent, siblings) {
        lemma_first_rule_applies(rules, name, is_dir, parent, siblings, k + 1);
        match first_rule(rules, name, is_dir, parent, siblings, k) {
            Some(r) => {
                let i = choose|i: int|
                    k + 1 <= i < rules.len() && rules[i] == r && rule_applies(r, name, is_dir, parent, siblings)
                        && forall|j: int| k + 1 <= j < i ==> !rule_applies(#[trigger] rules[j], name, is_dir, parent, siblings);
                assert(forall|j: int| k <= j < i ==> !rule_applies(#[trigger] rules[j], name, is_dir, parent, siblings));
            },
            None => {},
        }
    }
}

/// First rule of the catalogue that applies to the entry, or `None`.
pub fn find_rule(rules: &[Rule], name: &str, is_dir: bool, parent_name: &str,
    siblings: &Vec<String>) -> (r: Option<Rule>)
    ensures
        r == first_rule(rules@, name@, is_dir, parent_name@, views(siblings@), 0),
{
    let kind = if is_dir { Kind::Dir } else { Kind::File };
    let mut i: usize = 0;
    while i < rules.len()
        invariant
            i <= rules@.len(),
            kind == (if is_dir { Kind::Dir } else { Kind::File }),
            first_rule(rules@, name@, is_dir, parent_name@, views(siblings@), 0)
                == first_rule(rules@, name@, is_dir, parent_name@, views(siblings@), i as int),
        decreases rules@.len() - i,
    {
        let rule = rules[i];
        let under_ok = match rule.under {
            Some(under) => str_eq(under, parent_name),
            None => true,
        };
        if rule.kind == kind && name_matches(&rule, name) && under_ok
            && (rule.requires.len() == 0 || has_marker(siblings, rule.requires)) {
            return Some(rule);
        }
        i = i + 1;
    }
    None
}

/// The first rule, from index `k` on, whose identifier is `id`.
pub open spec fn first_with_id(rules: Seq<Rule>, id: Seq<char>, k: int) -> Option<Rule>
    decreases rules.len() - k,
{
    if k < 0 || k >= rules.len() {
        None
    } else if rules[k].id@ == id {
        Some(rules[k])
    } else {
        first_with_id(rules, id, k + 1)
    }
}

/// The rule with the given identifier.
pub fn rule_by_id(rules: &[Rule], id: &str) -> (r: Option<Rule>)
    ensures
        r == first_with_id(rules@, id@, 0),
{
    let mut i: usize = 0;
    while i < rules.len()
        invariant
            i <= rules@.len(),
            first_with_id(rules@, id@, 0) == first_with_id(rules@, id@, i as int),
        decreases rules@.len() - i,
    {
        if str_eq(rules[i].id, id) {
            return Some(rules[i]);
        }
        i = i + 1;
    }
    None
}

/// One part of a rule's label: the name or pattern, behind `under/` when the
/// rule asks for a parent directory.
pub open spec fn label_part(rule: Rule, part: Seq<char>) -> Seq<char> {
    match rule.under {
        Some(under) => under@ + seq!['/'] + part,
        None => part,
    }
}

/// All label parts of a rule: its names, then its patterns.
pub open spec fn label_parts(rule: Rule) -> Seq<Seq<char>> {
    (strs(rule.names@) + strs(rule.globs@)).map_values(|part: Seq<char>| label_part(rule, part))
}

/// The displayed label: at most four parts joined by spaces, then ` ...` when
/// some were left out.
pub open spec fn display_label(rule: Rule) -> Seq<char> {
    let parts = label_parts(rule);
    if parts.len() > 4 {
        join(parts.take(4), seq![' ']) + seq![' ', '.', '.', '.']
    } else {
        join(parts, seq![' '])
    }
}

/// Label shown for a rule: its patterns themselves, which are not text to
/// translate.
pub fn display_name(rule: &Rule) -> (label: String)
    ensures
        label@ == display_label(*rule),
{
    let ghost parts = label_parts(*rule);
    let mut all: Vec<&'static str> = Vec::new();
    let mut j: usize = 0;
    while j < rule.names.len()
        invariant
            j <= rule.names@.len(),
            all@ == rule.names@.take(j as int),
        decreases rule.names@.len() - j,
    {
        all.push(rule.names[j]);
        assert(rule.names@.take(j + 1) =~= rule.names@.take(j as int).push(rule.names@[j as int]));
        j = j + 1;
    }
    let mut j: usize = 0;
    while j < rule.globs.len()
        invariant
            j <= rule.globs@.len(),
            all@ == rule.names@ + rule.globs@.take(j as int),
        decreases rule.globs@.len() - j,
    {
        all.push(rule.globs[j]);
        assert(rule.globs@.take(j + 1) =~= rule.globs@.take(j as int).push(rule.globs@[j as int]));
        j = j + 1;
    }
    assert(rule.globs@.take(rule.globs@.len() as int) =~= rule.globs@);
    assert(strs(all@) =~= strs(rule.names@) + strs(rule.globs@));
    let total = all.len();
    let mut label = String::new();
    let mut i: usize = 0;
    while i < total && i < 4
        invariant
            parts == label_parts(*rule),
            parts == strs(all@).map_values(|part: Seq<char>| label_part(*rule, part)),
            total == all@.len(),
            total == parts.len(),
            i <= total,
            i <= 4,
            label@ == join(parts.take(i as int), seq![' ']),
        decreases total - i,
    {
        let part = all[i];
        assert(parts[i as int] == label_part(*rule, part@));
        if i > 0 {
            push_str(&mut label, " ");
        }
        match rule.under {
            Some(under) => {
                push_str(&mut label, under);
                push_str(&mut label, "/");
            },
            None => {},
        }
        push_str(&mut label, part);
        proof {
            reveal_strlit(" ");
            reveal_strlit("/");
            assert(parts.take(i + 1).drop_last() =~= parts.take(i as int));
        }
        i = i + 1;
    }
    if total > 4 {
        push_str(&mut label, " ...");
        proof {
            reveal_strlit(" ...");
        }
    } else {
        assert(parts.take(i as int) =~= parts);
    }
    label
}

/// The marker is present among the names: matched as a pattern when it
/// holds `*`, exactly otherwise.
pub open spec fn project_marker_present(names: Seq<Seq<char>>, marker: Seq<char>) -> bool {
    if marker.contains('*') {
        some_name_matches(names, marker)
    } else {
        names.contains(marker)
    }
}

/// Some project marker is among the names.
pub open spec fn looks_like_project_spec(names: Seq<Seq<char>>) -> bool {
    exists|i: int| 0 <= i < project_marker_list().len()
        && project_marker_present(names, #[trigger] project_marker_list()[i])
}

/// Whether a directory holding `names` is a project.
pub fn looks_like_project(names: &Vec<String>) -> (r: bool)
    ensures
        r == looks_like_project_spec(views(names@)),
{
    let markers = project_markers();
    let ghost list = project_marker_list();
    let mut i: usize = 0;
    while i < markers.len()
        invariant
            strs(markers@) == list,
            list == project_marker_list(),
            i <= markers@.len(),
            forall|x: int| 0 <= x < i ==> !project_marker_present(views(names@), #[trigger] list[x]),
        decreases markers@.len() - i,
    {
        let marker = markers[i];
        assert(list[i as int] == marker@);
        let found = if has_char(marker, '*') {
            any_wildcard(names, marker)
        } else {
            contains_str(names, marker)
        };
        if found {
            return true;
        }
        i = i + 1;
    }
    false
}

} // verus!

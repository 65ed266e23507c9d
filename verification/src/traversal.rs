//! Selection of input files: supported extensions, included/excluded glob
//! patterns, and the ordering of the files found.
use vstd::prelude::*;

use crate::input::{path_extension, path_extension_of, path_file_name, path_file_name_of};
use crate::reader::{to_lowercase, unicode_lowercase};
use crate::text::{ascii_lower, chars_of, eq_ignore_ascii_case, push_char, str_eq};

verus! {

/// `regex::Regex`, carried inside [`CompiledPattern`].
#[verifier::external_type_specification]
#[verifier::external_body]
pub struct ExRegex(regex::Regex);

/// Whether `regex::Regex::new` accepts a pattern.
pub uninterp spec fn regex_compiles(pattern: Seq<char>) -> bool;

/// Whether the regular expression `pattern` matches somewhere in `text`
/// (`regex::Regex::is_match`).
pub uninterp spec fn regex_is_match(pattern: Seq<char>, text: Seq<char>) -> bool;

/// A regular expression together with the pattern it was compiled from.
pub struct CompiledPattern {
    pattern: String,
    re: regex::Regex,
}

impl CompiledPattern {
    /// The pattern this expression was compiled from.
    pub closed spec fn pattern(&self) -> Seq<char> {
        self.pattern@
    }
}

/// Calls `regex::Regex::new`. Whether it succeeds is named by
/// `regex_compiles`; the compiled expression keeps its pattern beside it.
#[verifier::external_body]
fn regex_new(pattern: &str) -> (r: Option<CompiledPattern>)
    ensures
        r is Some <==> regex_compiles(pattern@),
        r matches Some(c) ==> c.pattern() == pattern@,
{
    match regex::Regex::new(pattern) {
        Ok(re) => Some(CompiledPattern { pattern: pattern.to_owned(), re }),
        Err(_) => None,
    }
}

/// Calls `regex::Regex::is_match`; its result is named by `regex_is_match`
/// applied to the pattern the expression was compiled from.
#[verifier::external_body]
fn regex_find(c: &CompiledPattern, text: &str) -> (r: bool)
    ensures
        r == regex_is_match(c.pattern(), text@),
{
    c.re.is_match(text)
}

/// Characters that must be escaped in a regular expression.
pub open spec fn is_regex_meta(c: char) -> bool {
    c == '.' || c == '+' || c == '(' || c == ')' || c == '[' || c == ']' || c == '{' || c == '}'
        || c == '|' || c == '^' || c == '$' || c == '\\'
}

/// The regular expression text of one glob character.
pub open spec fn glob_piece(c: char) -> Seq<char> {
    if c == '*' {
        seq!['.', '*']
    } else if c == '?' {
        seq!['.']
    } else if is_regex_meta(c) {
        seq!['\\', c]
    } else {
        seq![c]
    }
}

/// The regular expression text of a glob pattern, unanchored.
pub open spec fn glob_body(p: Seq<char>) -> Seq<char>
    decreases p.len(),
{
    if p.len() == 0 {
        Seq::empty()
    } else {
        glob_body(p.drop_last()) + glob_piece(p.last())
    }
}

/// The anchored regular expression of a glob pattern (`*` and `?` wildcards).
pub open spec fn glob_regex(p: Seq<char>) -> Seq<char> {
    seq!['^'] + glob_body(p) + seq!['$']
}

/// What a piece of regular-expression text means, read the way a regex
/// engine reads the expressions made of glob patterns.
pub enum RegexToken {
    /// `.*`: any text.
    AnyText,
    /// `.`: any one character.
    AnyChar,
    /// A literal character: an escaped metacharacter or a plain character.
    Char(char),
    /// Anything else (a bare metacharacter or quantifier, a stray escape).
    Other,
}

/// The tokens of regular-expression text, read from the front.
pub open spec fn regex_tokens(r: Seq<char>) -> Seq<RegexToken>
    decreases r.len(),
{
    if r.len() == 0 {
        Seq::empty()
    } else if r[0] == '\\' {
        if r.len() >= 2 && is_regex_meta(r[1]) {
            seq![RegexToken::Char(r[1])] + regex_tokens(r.skip(2))
        } else {
            seq![RegexToken::Other] + regex_tokens(r.skip(1))
        }
    } else if r[0] == '.' {
        if r.len() >= 2 && r[1] == '*' {
            seq![RegexToken::AnyText] + regex_tokens(r.skip(2))
        } else {
            seq![RegexToken::AnyChar] + regex_tokens(r.skip(1))
        }
    } else if is_regex_meta(r[0]) || r[0] == '*' || r[0] == '?' {
        seq![RegexToken::Other] + regex_tokens(r.skip(1))
    } else {
        seq![RegexToken::Char(r[0])] + regex_tokens(r.skip(1))
    }
}

/// What a glob character stands for: `*` any text, `?` exactly one
/// character, any other character itself.
pub open spec fn glob_meaning(c: char) -> RegexToken {
    if c == '*' {
        RegexToken::AnyText
    } else if c == '?' {
        RegexToken::AnyChar
    } else {
        RegexToken::Char(c)
    }
}

proof fn lemma_glob_body_front(p: Seq<char>)
    requires
        p.len() > 0,
    ensures
        glob_body(p) == glob_piece(p[0]) + glob_body(p.drop_first()),
    decreases p.len(),
{
    if p.len() > 1 {
        lemma_glob_body_front(p.drop_last());
        assert(p.drop_last().drop_first() =~= p.drop_first().drop_last());
        assert(p.drop_last()[0] == p[0]);
        assert(p.drop_first().last() == p.last());
        assert(glob_body(p.drop_first()) == glob_body(p.drop_first().drop_last()) + glob_piece(p.last()));
        assert(glob_body(p) =~= glob_piece(p[0]) + glob_body(p.drop_first()));
    } else {
        assert(p.drop_last() =~= Seq::<char>::empty());
        assert(p.drop_first() =~= Seq::<char>::empty());
        assert(glob_body(p) =~= glob_piece(p[0]) + glob_body(p.drop_first()));
    }
}

proof fn lemma_glob_body_start(p: Seq<char>)
    ensures
        glob_body(p).len() == 0 || glob_body(p)[0] != '*',
{
    if p.len() > 0 {
        lemma_glob_body_front(p);
    }
}

proof fn lemma_piece_tokens(c: char, rest: Seq<char>)
    requires
        rest.len() == 0 || rest[0] != '*',
    ensures
        regex_tokens(glob_piece(c) + rest) == seq![glob_meaning(c)] + regex_tokens(rest),
{
    let s = glob_piece(c) + rest;
    if c == '*' {
        assert(s.skip(2) =~= rest);
    } else if c == '?' {
        assert(s.skip(1) =~= rest);
    } else if is_regex_meta(c) {
        assert(s.skip(2) =~= rest);
    } else {
        assert(s.skip(1) =~= rest);
    }
}

/// The regular expression of a glob pattern is anchored at both ends, and
/// between the anchors it reads back as the pattern: each `*` as any text,
/// each `?` as exactly one character, and each other character as itself.
pub proof fn law_glob_regex_reads_back(p: Seq<char>)
    ensures
        glob_regex(p)[0] == '^',
        glob_regex(p).last() == '$',
        regex_tokens(glob_regex(p).subrange(1, glob_regex(p).len() - 1)) == p.map_values(
            |c: char| glob_meaning(c),
        ),
{
    let r = glob_regex(p);
    assert(r.subrange(1, r.len() - 1) =~= glob_body(p));
    lemma_glob_body_tokens(p);
}

proof fn lemma_glob_body_tokens(p: Seq<char>)
    ensures
        regex_tokens(glob_body(p)) == p.map_values(|c: char| glob_meaning(c)),
    decreases p.len(),
{
    if p.len() == 0 {
        assert(p.map_values(|c: char| glob_meaning(c)) =~= Seq::<RegexToken>::empty());
    } else {
        lemma_glob_body_front(p);
        lemma_glob_body_start(p.drop_first());
        lemma_piece_tokens(p[0], glob_body(p.drop_first()));
        lemma_glob_body_tokens(p.drop_first());
        assert(p.map_values(|c: char| glob_meaning(c)) =~= seq![glob_meaning(p[0])]
            + p.drop_first().map_values(|c: char| glob_meaning(c)));
    }
}

/// Whether `text` matches the glob `pattern`: the anchored regular
/// expression of the pattern compiles and matches.
pub open spec fn glob_matches(text: Seq<char>, pattern: Seq<char>) -> bool {
    regex_compiles(glob_regex(pattern)) && regex_is_match(glob_regex(pattern), text)
}

/// The anchored regular expression of a glob pattern.
pub fn glob_to_regex(pattern: &str) -> (r: String)
    ensures
        r@ == glob_regex(pattern@),
{
    let p = chars_of(pattern);
    let mut s = String::new();
    push_char(&mut s, '^');
    let mut i: usize = 0;
    while i < p.len()
        invariant
            i <= p.len(),
            s@ == seq!['^'] + glob_body(p@.take(i as int)),
        decreases p.len() - i,
    {
        let c = p[i];
        assert(p@.take(i + 1).drop_last() =~= p@.take(i as int));
        assert(p@.take(i + 1).last() == c);
        if c == '*' {
            push_char(&mut s, '.');
            push_char(&mut s, '*');
        } else if c == '?' {
            push_char(&mut s, '.');
        } else if c == '.' || c == '+' || c == '(' || c == ')' || c == '[' || c == ']' || c == '{'
            || c == '}' || c == '|' || c == '^' || c == '$' || c == '\\' {
            push_char(&mut s, '\\');
            push_char(&mut s, c);
        } else {
            push_char(&mut s, c);
        }
        assert(s@ =~= seq!['^'] + glob_body(p@.take(i + 1)));
        i = i + 1;
    }
    push_char(&mut s, '$');
    assert(p@.take(p.len() as int) =~= p@);
    s
}

/// Simple glob pattern matching (supports * and ? wildcards)
pub fn matches_glob_pattern(text: &str, pattern: &str) -> (r: bool)
    ensures
        r == glob_matches(text@, pattern@),
{
    let re = glob_to_regex(pattern);
    match regex_new(re.as_str()) {
        Some(c) => regex_find(&c, text),
        None => false,
    }
}

/// Whether a file name passes the included patterns (any of them, or all
/// names when there are none) and none of the excluded patterns.
pub open spec fn passes_patterns(
    name: Seq<char>,
    included: Seq<Seq<char>>,
    excluded: Seq<Seq<char>>,
) -> bool {
    &&& (included.len() == 0 || exists|i: int| 0 <= i < included.len() && glob_matches(name, #[trigger] included[i]))
    &&& !exists|i: int| 0 <= i < excluded.len() && glob_matches(name, #[trigger] excluded[i])
}

/// Whether some pattern of the list matches `name`.
fn any_pattern_matches(name: &str, patterns: &Vec<String>) -> (r: bool)
    ensures
        r == exists|i: int| 0 <= i < patterns@.len() && glob_matches(name@, #[trigger] crate::text::views(patterns@)[i]),
{
    let mut i: usize = 0;
    while i < patterns.len()
        invariant
            i <= patterns.len(),
            forall|k: int| 0 <= k < i ==> !glob_matches(name@, #[trigger] crate::text::views(patterns@)[k]),
        decreases patterns.len() - i,
    {
        assert(crate::text::views(patterns@)[i as int] == patterns@[i as int]@);
        if matches_glob_pattern(name, patterns[i].as_str()) {
            return true;
        }
        i = i + 1;
    }
    false
}

/// Check if a filename matches included/excluded patterns
pub fn matches_patterns(filename: &str, include_patterns: &Vec<String>, exclude_patterns: &Vec<String>) -> (r: bool)
    ensures
        r == passes_patterns(
            filename@,
            crate::text::views(include_patterns@),
            crate::text::views(exclude_patterns@),
        ),
{
    if include_patterns.len() > 0 && !any_pattern_matches(filename, include_patterns) {
        return false;
    }
    !any_pattern_matches(filename, exclude_patterns)
}

/// The extensions (lower case) of the formats the readers support.
pub open spec fn supported_extension(e: Seq<char>) -> bool {
    e == "json"@ || e == "jsonl"@ || e == "cjseq"@ || e == "fcb"@ || e == "parquet"@ || e == "gml"@
        || e == "xml"@ || e == "zip"@ || e == "gz"@
}

/// A path whose extension, in lower case, is a supported one.
pub open spec fn is_supported_path(path: Seq<char>) -> bool {
    match path_extension_of(path) {
        Some(e) => supported_extension(unicode_lowercase(e)),
        None => false,
    }
}

/// Check if a file has a supported extension
pub fn is_supported_file(path: &str) -> (r: bool)
    ensures
        r == is_supported_path(path@),
{
    match path_extension(path) {
        Some(e) => {
            let l = to_lowercase(e.as_str());
            let s = l.as_str();
            str_eq(s, "json") || str_eq(s, "jsonl") || str_eq(s, "cjseq") || str_eq(s, "fcb")
                || str_eq(s, "parquet") || str_eq(s, "gml") || str_eq(s, "xml") || str_eq(s, "zip")
                || str_eq(s, "gz")
        },
        None => false,
    }
}

/// Whether two strings are equal once ASCII letters are folded to lower case
/// (`str::eq_ignore_ascii_case`).
pub fn str_eq_ignore_ascii_case(a: &str, b: &str) -> (r: bool)
    ensures
        r == eq_ignore_ascii_case(a@, b@),
{
    let va = chars_of(a);
    let vb = chars_of(b);
    if va.len() != vb.len() {
        return false;
    }
    let mut i: usize = 0;
    while i < va.len()
        invariant
            va@ == a@,
            vb@ == b@,
            va.len() == vb.len(),
            i <= va.len(),
            forall|k: int| 0 <= k < i ==> ascii_lower(#[trigger] va@[k]) == ascii_lower(vb@[k]),
        decreases va.len() - i,
    {
        let x = lower_char(va[i]);
        let y = lower_char(vb[i]);
        if x != y {
            return false;
        }
        i = i + 1;
    }
    true
}

/// The ASCII lower-case form of a character.
pub fn lower_char(c: char) -> (r: char)
    ensures
        r == ascii_lower(c),
{
    if 'A' <= c && c <= 'Z' {
        ((c as u32) + 32) as u8 as char
    } else {
        c
    }
}

/// A file whose extension equals one of `extensions`, ignoring ASCII case.
pub open spec fn has_listed_extension(path: Seq<char>, extensions: Seq<Seq<char>>) -> bool {
    match path_extension_of(path) {
        Some(e) => exists|i: int| 0 <= i < extensions.len() && eq_ignore_ascii_case(#[trigger] extensions[i], e),
        None => false,
    }
}

/// Filter files by specific extensions
pub fn filter_by_extensions(files: Vec<String>, extensions: &Vec<String>) -> (r: Vec<String>)
    ensures
        crate::text::views(r@) == crate::text::views(files@).filter(
            |p: Seq<char>| has_listed_extension(p, crate::text::views(extensions@)),
        ),
{
    let ghost exts = crate::text::views(extensions@);
    let ghost pred = |p: Seq<char>| has_listed_extension(p, exts);
    let mut r: Vec<String> = Vec::new();
    let mut i: usize = 0;
    while i < files.len()
        invariant
            i <= files.len(),
            exts == crate::text::views(extensions@),
            pred == (|p: Seq<char>| has_listed_extension(p, exts)),
            crate::text::views(r@) == crate::text::views(files@).take(i as int).filter(pred),
        decreases files.len() - i,
    {
        let ghost vs = crate::text::views(files@);
        assert(vs.take(i + 1).drop_last() =~= vs.take(i as int));
        assert(vs.take(i + 1).last() == files@[i as int]@);
        let keep = match path_extension(files[i].as_str()) {
            Some(e) => {
                let mut found = false;
                let mut k: usize = 0;
                while k < extensions.len()
                    invariant
                        k <= extensions.len(),
                        exts == crate::text::views(extensions@),
                        found == exists|j: int| 0 <= j < k && eq_ignore_ascii_case(#[trigger] exts[j], e@),
                    decreases extensions.len() - k,
                {
                    assert(exts[k as int] == extensions@[k as int]@);
                    if str_eq_ignore_ascii_case(extensions[k].as_str(), e.as_str()) {
                        found = true;
                    }
                    k = k + 1;
                }
                found
            },
            None => false,
        };
        assert(keep == pred(files@[i as int]@));
        proof {
            reveal_with_fuel(Seq::<Seq<char>>::filter, 1);
        }
        let ghost before = r@;
        if keep {
            r.push(crate::text::copy_string(&files[i]));
            assert(crate::text::views(r@) =~= crate::text::views(before).push(files@[i as int]@));
        }
        i = i + 1;
    }
    assert(crate::text::views(files@).take(files.len() as int) =~= crate::text::views(files@));
    r
}

/// Whether `a` comes before `b` in the order of `std::path::Path`
/// (component by component).
pub uninterp spec fn path_precedes(a: Seq<char>, b: Seq<char>) -> bool;

/// Whether `a` and `b` are equal as `std::path::Path`s (component by component).
pub uninterp spec fn path_same(a: Seq<char>, b: Seq<char>) -> bool;

/// Calls `<Path as PartialOrd>::lt`. Its result is named by `path_precedes`;
/// the ordering is asymmetric, as the `Ord` contract of `Path` documents.
#[verifier::external_body]
fn path_lt(a: &str, b: &str) -> (r: bool)
    ensures
        r == path_precedes(a@, b@),
        r ==> !path_precedes(b@, a@),
{
    std::path::Path::new(a) < std::path::Path::new(b)
}

/// Calls `<Path as PartialEq>::eq`. Its result is named by `path_same`.
#[verifier::external_body]
fn path_eq(a: &str, b: &str) -> (r: bool)
    ensures
        r == path_same(a@, b@),
{
    std::path::Path::new(a) == std::path::Path::new(b)
}

/// The paths of `s` without those equal (as paths) to one kept before them.
pub open spec fn dedup_paths(s: Seq<Seq<char>>) -> Seq<Seq<char>>
    decreases s.len(),
{
    if s.len() == 0 {
        s
    } else {
        let d = dedup_paths(s.drop_last());
        if exists|k: int| 0 <= k < d.len() && path_same(#[trigger] d[k], s.last()) {
            d
        } else {
            d.push(s.last())
        }
    }
}

/// A list of paths in non-decreasing path order.
pub open spec fn path_sorted(s: Seq<Seq<char>>) -> bool {
    forall|i: int| 0 <= i < s.len() - 1 ==> !path_precedes(#[trigger] s[i + 1], s[i])
}

/// Removes duplicate paths (keeping the first of each) and sorts the rest in
/// path order.
pub fn dedup_and_sort_paths(files: &Vec<String>) -> (r: Vec<String>)
    ensures
        path_sorted(crate::text::views(r@)),
        crate::text::views(r@).to_multiset() == dedup_paths(crate::text::views(files@)).to_multiset(),
{
    // remove duplicates, keeping the first occurrence
    let mut kept: Vec<String> = Vec::new();
    let mut i: usize = 0;
    while i < files.len()
        invariant
            i <= files.len(),
            crate::text::views(kept@) == dedup_paths(crate::text::views(files@).take(i as int)),
        decreases files.len() - i,
    {
        let ghost vs = crate::text::views(files@);
        assert(vs.take(i + 1).drop_last() =~= vs.take(i as int));
        assert(vs.take(i + 1).last() == files@[i as int]@);
        let mut dup = false;
        let mut k: usize = 0;
        while k < kept.len()
            invariant
                k <= kept.len(),
                i < files.len(),
                dup == exists|j: int| 0 <= j < k && path_same(#[trigger] crate::text::views(kept@)[j], files@[i as int]@),
            decreases kept.len() - k,
        {
            assert(crate::text::views(kept@)[k as int] == kept@[k as int]@);
            if path_eq(kept[k].as_str(), files[i].as_str()) {
                dup = true;
            }
            k = k + 1;
        }
        if !dup {
            let ghost before = kept@;
            kept.push(crate::text::copy_string(&files[i]));
            assert(crate::text::views(kept@) =~= crate::text::views(before).push(files@[i as int]@));
        }
        i = i + 1;
    }
    assert(crate::text::views(files@).take(files.len() as int) =~= crate::text::views(files@));
    // insertion sort in path order
    let mut sorted: Vec<String> = Vec::new();
    let mut j: usize = 0;
    proof {
        broadcast use vstd::seq_lib::group_to_multiset_ensures;
        assert(crate::text::views(sorted@) =~= Seq::<Seq<char>>::empty());
        assert(crate::text::views(kept@).take(0) =~= Seq::<Seq<char>>::empty());
    }
    while j < kept.len()
        invariant
            j <= kept.len(),
            path_sorted(crate::text::views(sorted@)),
            crate::text::views(sorted@).to_multiset() == crate::text::views(kept@).take(j as int).to_multiset(),
        decreases kept.len() - j,
    {
        let x = crate::text::copy_string(&kept[j]);
        let mut p: usize = 0;
        while p < sorted.len() && !path_lt(x.as_str(), sorted[p].as_str())
            invariant
                p <= sorted.len(),
                forall|q: int| 0 <= q < p ==> !path_precedes(x@, #[trigger] crate::text::views(sorted@)[q]),
            decreases sorted.len() - p,
        {
            assert(crate::text::views(sorted@)[p as int] == sorted@[p as int]@);
            p = p + 1;
        }
        let ghost old_views = crate::text::views(sorted@);
        proof {
            if p < sorted.len() {
                assert(old_views[p as int] == sorted@[p as int]@);
                assert(path_precedes(x@, old_views[p as int]));
                assert(!path_precedes(old_views[p as int], x@));
            }
        }
        sorted.insert(p, x);
        proof {
            let nv = crate::text::views(sorted@);
            assert(nv =~= old_views.insert(p as int, x@));
            assert forall|q: int| 0 <= q < nv.len() - 1 implies !path_precedes(#[trigger] nv[q + 1], nv[q]) by {
                assert(path_sorted(old_views));
                if q + 1 < p {
                    assert(nv[q] == old_views[q] && nv[q + 1] == old_views[q + 1]);
                    assert(!path_precedes(old_views[q + 1], old_views[q]));
                } else if q + 1 == p {
                    assert(nv[q] == old_views[q] && nv[q + 1] == x@);
                    assert(!path_precedes(x@, old_views[q]));
                } else if q == p {
                    assert(nv[q] == x@ && nv[q + 1] == old_views[p as int]);
                } else {
                    assert(nv[q] == old_views[q - 1] && nv[q + 1] == old_views[q]);
                    assert(!path_precedes(old_views[(q - 1) + 1], old_views[q - 1]));
                }
            }
            broadcast use vstd::seq_lib::group_to_multiset_ensures;
            let kv = crate::text::views(kept@);
            assert(kv.take(j + 1) =~= kv.take(j as int).push(x@));
            old_views.insert_ensures(p as int, x@);
            let a = old_views.subrange(0, p as int);
            let b = old_views.subrange(p as int, old_views.len() as int);
            assert(old_views =~= a + b);
            assert(nv =~= a.push(x@) + b);
            vstd::seq_lib::lemma_multiset_commutative(a, b);
            vstd::seq_lib::lemma_multiset_commutative(a.push(x@), b);
            assert(nv.to_multiset() =~= old_views.to_multiset().insert(x@));
        }
        j = j + 1;
    }
    assert(crate::text::views(kept@).take(kept.len() as int) =~= crate::text::views(kept@));
    sorted
}

/// Keeps the supported files of a directory listing (or glob expansion)
/// whose file names pass the patterns.
pub fn select_files(candidates: &Vec<String>, included: &Vec<String>, excluded: &Vec<String>) -> (r: Vec<String>)
    ensures
        crate::text::views(r@) == crate::text::views(candidates@).filter(
            |p: Seq<char>| selected_path(p, crate::text::views(included@), crate::text::views(excluded@)),
        ),
{
    let ghost inc = crate::text::views(included@);
    let ghost exc = crate::text::views(excluded@);
    let ghost pred = |p: Seq<char>| selected_path(p, inc, exc);
    let mut r: Vec<String> = Vec::new();
    let mut i: usize = 0;
    while i < candidates.len()
        invariant
            i <= candidates.len(),
            inc == crate::text::views(included@),
            exc == crate::text::views(excluded@),
            pred == (|p: Seq<char>| selected_path(p, inc, exc)),
            crate::text::views(r@) == crate::text::views(candidates@).take(i as int).filter(pred),
        decreases candidates.len() - i,
    {
        let ghost vs = crate::text::views(candidates@);
        assert(vs.take(i + 1).drop_last() =~= vs.take(i as int));
        assert(vs.take(i + 1).last() == candidates@[i as int]@);
        let path = candidates[i].as_str();
        let keep = if is_supported_file(path) {
            let name = match path_file_name(path) {
                Some(n) => n,
                None => String::new(),
            };
            matches_patterns(name.as_str(), included, excluded)
        } else {
            false
        };
        assert(keep == pred(candidates@[i as int]@));
        proof {
            reveal_with_fuel(Seq::<Seq<char>>::filter, 1);
        }
        let ghost before = r@;
        if keep {
            r.push(crate::text::copy_string(&candidates[i]));
            assert(crate::text::views(r@) =~= crate::text::views(before).push(candidates@[i as int]@));
        }
        i = i + 1;
    }
    assert(crate::text::views(candidates@).take(candidates.len() as int) =~= crate::text::views(candidates@));
    r
}

/// A file that is supported and whose name passes the patterns.
pub open spec fn selected_path(path: Seq<char>, included: Seq<Seq<char>>, excluded: Seq<Seq<char>>) -> bool {
    is_supported_path(path) && passes_patterns(
        match path_file_name_of(path) {
            Some(n) => n,
            None => Seq::empty(),
        },
        included,
        excluded,
    )
}

/// Whether an input that does not exist is a glob pattern (has `*` or `?`).
pub fn is_glob_pattern(input: &str) -> (r: bool)
    ensures
        r == (input@.contains('*') || input@.contains('?')),
{
    let v = chars_of(input);
    let mut i: usize = 0;
    while i < v.len()
        invariant
            i <= v.len(),
            v@ == input@,
            forall|k: int| 0 <= k < i ==> v@[k] != '*' && v@[k] != '?',
        decreases v.len() - i,
    {
        if v[i] == '*' || v[i] == '?' {
            return true;
        }
        i = i + 1;
    }
    false
}

/// What the file system reports of one input of [`find_files_with_patterns`].
pub enum InputProbe {
    /// The input does not exist; holds the input and the files that
    /// expanding it as a glob pattern found.
    Missing(String, Vec<String>),
    /// The input is a file.
    File(String),
    /// The input is a directory; holds the files that walking it found.
    Directory(Vec<String>),
    /// The input exists but is neither a file nor a directory.
    Other,
}

/// The files an input contributes, before duplicates are removed.
pub open spec fn probe_files(p: InputProbe, inc: Seq<Seq<char>>, exc: Seq<Seq<char>>) -> Seq<Seq<char>> {
    match p {
        InputProbe::Missing(input, expansion) => if input@.contains('*') || input@.contains('?') {
            crate::text::views(expansion@).filter(|q: Seq<char>| selected_path(q, inc, exc))
        } else {
            Seq::empty()
        },
        InputProbe::File(path) => if is_supported_path(path@) {
            seq![path@]
        } else {
            Seq::empty()
        },
        InputProbe::Directory(files) => crate::text::views(files@).filter(
            |q: Seq<char>| selected_path(q, inc, exc),
        ),
        InputProbe::Other => Seq::empty(),
    }
}

/// The files all inputs contribute, in order.
pub open spec fn probes_files(ps: Seq<InputProbe>, inc: Seq<Seq<char>>, exc: Seq<Seq<char>>) -> Seq<Seq<char>>
    decreases ps.len(),
{
    if ps.len() == 0 {
        Seq::empty()
    } else {
        probes_files(ps.drop_last(), inc, exc) + probe_files(ps.last(), inc, exc)
    }
}

/// Find files from multiple input sources with pattern matching.
///
/// Each input is a file (kept when its extension is supported), a directory
/// (its files kept when supported and their names pass the patterns), or a
/// glob pattern that matched no existing path (its expansion filtered the
/// same way). Duplicates are removed and the result is sorted.
pub fn find_files_with_patterns(
    inputs: &Vec<InputProbe>,
    include_patterns: &Vec<String>,
    exclude_patterns: &Vec<String>,
) -> (r: Vec<String>)
    ensures
        path_sorted(crate::text::views(r@)),
        crate::text::views(r@).to_multiset() == dedup_paths(
            probes_files(
                inputs@,
                crate::text::views(include_patterns@),
                crate::text::views(exclude_patterns@),
            ),
        ).to_multiset(),
{
    let ghost inc = crate::text::views(include_patterns@);
    let ghost exc = crate::text::views(exclude_patterns@);
    let mut all: Vec<String> = Vec::new();
    let mut i: usize = 0;
    while i < inputs.len()
        invariant
            i <= inputs.len(),
            inc == crate::text::views(include_patterns@),
            exc == crate::text::views(exclude_patterns@),
            crate::text::views(all@) == probes_files(inputs@.take(i as int), inc, exc),
        decreases inputs.len() - i,
    {
        assert(inputs@.take(i + 1).drop_last() =~= inputs@.take(i as int));
        assert(inputs@.take(i + 1).last() == inputs@[i as int]);
        let ghost before = crate::text::views(all@);
        let found: Vec<String> = match &inputs[i] {
            InputProbe::Missing(input, expansion) => {
                if is_glob_pattern(input.as_str()) {
                    select_files(expansion, include_patterns, exclude_patterns)
                } else {
                    Vec::new()
                }
            },
            InputProbe::File(path) => {
                let mut v: Vec<String> = Vec::new();
                if is_supported_file(path.as_str()) {
                    v.push(crate::text::copy_string(path));
                }
                v
            },
            InputProbe::Directory(files) => select_files(files, include_patterns, exclude_patterns),
            InputProbe::Other => Vec::new(),
        };
        assert(crate::text::views(found@) =~= probe_files(inputs@[i as int], inc, exc));
        append_strings(&mut all, &found);
        i = i + 1;
    }
    assert(inputs@.take(inputs.len() as int) =~= inputs@);
    dedup_and_sort_paths(&all)
}

/// Removing duplicate paths leaves no two entries that name the same path:
/// a later entry is never the same path as an earlier one.
pub proof fn law_dedup_paths_distinct(s: Seq<Seq<char>>)
    ensures
        forall|i: int, j: int|
            0 <= i < j < dedup_paths(s).len() ==> !path_same(#[trigger] dedup_paths(s)[i], #[trigger] dedup_paths(s)[j]),
    decreases s.len(),
{
    if s.len() > 0 {
        law_dedup_paths_distinct(s.drop_last());
        let d = dedup_paths(s.drop_last());
        if !(exists|k: int| 0 <= k < d.len() && path_same(#[trigger] d[k], s.last())) {
            let e = d.push(s.last());
            assert forall|i: int, j: int| 0 <= i < j < e.len() implies !path_same(#[trigger] e[i], #[trigger] e[j]) by {
                if j < d.len() {
                    assert(e[i] == d[i] && e[j] == d[j]);
                } else {
                    assert(e[i] == d[i]);
                }
            }
        }
    }
}

/// What removing duplicates keeps was there before.
proof fn lemma_dedup_paths_within(s: Seq<Seq<char>>, x: Seq<char>)
    requires
        dedup_paths(s).contains(x),
    ensures
        s.contains(x),
    decreases s.len(),
{
    if s.len() > 0 {
        let d = dedup_paths(s.drop_last());
        if d.contains(x) {
            lemma_dedup_paths_within(s.drop_last(), x);
            let k = choose|k: int| 0 <= k < s.drop_last().len() && s.drop_last()[k] == x;
            assert(s[k] == x);
        } else {
            assert(x == s.last());
            assert(s[s.len() - 1] == x);
        }
    }
}

/// A file that one input contributes is supported; unless the input names
/// it as a file, it also passes the patterns.
proof fn lemma_probe_file_selected(p: InputProbe, inc: Seq<Seq<char>>, exc: Seq<Seq<char>>, x: Seq<char>)
    requires
        probe_files(p, inc, exc).contains(x),
    ensures
        is_supported_path(x),
        (p matches InputProbe::File(path) && path@ == x) || selected_path(x, inc, exc),
{
    let pred = |q: Seq<char>| selected_path(q, inc, exc);
    let f = probe_files(p, inc, exc);
    let i = choose|i: int| 0 <= i < f.len() && f[i] == x;
    match p {
        InputProbe::Missing(input, expansion) => {
            crate::text::views(expansion@).lemma_filter_pred(pred, i);
        },
        InputProbe::File(path) => {},
        InputProbe::Directory(files) => {
            crate::text::views(files@).lemma_filter_pred(pred, i);
        },
        InputProbe::Other => {},
    }
}

/// Every file that discovery keeps has a supported extension, and passes the
/// include and exclude patterns unless an input names it as a file: files
/// found by walking a directory or expanding a glob pattern are filtered by
/// the patterns, files given by name are not.
pub proof fn law_found_files_selected(
    ps: Seq<InputProbe>,
    inc: Seq<Seq<char>>,
    exc: Seq<Seq<char>>,
    x: Seq<char>,
)
    requires
        dedup_paths(probes_files(ps, inc, exc)).contains(x),
    ensures
        is_supported_path(x),
        selected_path(x, inc, exc) || exists|k: int|
            0 <= k < ps.len() && (#[trigger] ps[k] matches InputProbe::File(path) && path@ == x),
{
    lemma_dedup_paths_within(probes_files(ps, inc, exc), x);
    lemma_probes_file_selected(ps, inc, exc, x);
}

proof fn lemma_probes_file_selected(ps: Seq<InputProbe>, inc: Seq<Seq<char>>, exc: Seq<Seq<char>>, x: Seq<char>)
    requires
        probes_files(ps, inc, exc).contains(x),
    ensures
        is_supported_path(x),
        selected_path(x, inc, exc) || exists|k: int|
            0 <= k < ps.len() && (#[trigger] ps[k] matches InputProbe::File(path) && path@ == x),
    decreases ps.len(),
{
    let a = probes_files(ps.drop_last(), inc, exc);
    let b = probe_files(ps.last(), inc, exc);
    let s = probes_files(ps, inc, exc);
    assert(s == a + b);
    let i = choose|i: int| 0 <= i < s.len() && s[i] == x;
    if i < a.len() {
        assert(a[i] == x);
        lemma_probes_file_selected(ps.drop_last(), inc, exc, x);
        if !selected_path(x, inc, exc) {
            let k = choose|k: int|
                0 <= k < ps.drop_last().len() && (#[trigger] ps.drop_last()[k] matches InputProbe::File(path) && path@ == x);
            assert(ps[k] == ps.drop_last()[k]);
        }
    } else {
        assert(b[i - a.len()] == x);
        lemma_probe_file_selected(ps.last(), inc, exc, x);
        assert(ps[ps.len() - 1] == ps.last());
    }
}

/// Appends copies of the strings of `src` to `dst`.
pub fn append_strings(dst: &mut Vec<String>, src: &Vec<String>)
    ensures
        crate::text::views(final(dst)@) == crate::text::views(old(dst)@) + crate::text::views(src@),
{
    let mut i: usize = 0;
    while i < src.len()
        invariant
            i <= src.len(),
            crate::text::views(dst@) == crate::text::views(old(dst)@) + crate::text::views(src@).take(i as int),
        decreases src.len() - i,
    {
        let ghost before = dst@;
        dst.push(crate::text::copy_string(&src[i]));
        assert(crate::text::views(dst@) =~= crate::text::views(before).push(src@[i as int]@));
        assert(crate::text::views(src@).take(i + 1) =~= crate::text::views(src@).take(i as int).push(src@[i as int]@));
        i = i + 1;
    }
    assert(crate::text::views(src@).take(src.len() as int) =~= crate::text::views(src@));
}

/// The depth limit of a directory walk: one level when not recursive,
/// otherwise the given limit (none for unlimited).
pub fn walk_depth(recursive: bool, max_depth: Option<usize>) -> (r: Option<usize>)
    ensures
        !recursive ==> r == Some(1usize),
        recursive ==> r == max_depth,
{
    if !recursive {
        Some(1)
    } else {
        max_depth
    }
}

/// The message of a missing directory.
pub open spec fn dir_not_found_message(dir: Seq<char>) -> Seq<char> {
    "Directory not found: "@ + dir
}

/// Find all supported files in a directory.
///
/// `exists` and `is_dir` say what the directory path is; `entries` are the
/// files that walking it found (see [`walk_depth`]). The supported files are
/// returned in path order.
pub fn find_files(directory: &str, exists: bool, is_dir: bool, entries: &Vec<String>) -> (r: crate::error::Result<Vec<String>>)
    ensures
        !exists ==> (r matches Err(crate::error::CityJsonStacError::IoError(m)) && m@
            == dir_not_found_message(directory@)),
        exists && !is_dir ==> (r matches Err(crate::error::CityJsonStacError::IoError(m)) && m@
            == "Not a directory: "@ + directory@),
        exists && is_dir ==> (r matches Ok(v) && path_sorted(crate::text::views(v@))
            && crate::text::views(v@).to_multiset() == dedup_paths(
            crate::text::views(entries@).filter(|q: Seq<char>| is_supported_path(q)),
        ).to_multiset()),
{
    if !exists {
        return Err(crate::error::CityJsonStacError::IoError(crate::error::concat("Directory not found: ", directory)));
    }
    if !is_dir {
        return Err(crate::error::CityJsonStacError::IoError(crate::error::concat("Not a directory: ", directory)));
    }
    let ghost pred = |q: Seq<char>| is_supported_path(q);
    let mut files: Vec<String> = Vec::new();
    let mut i: usize = 0;
    while i < entries.len()
        invariant
            i <= entries.len(),
            pred == (|q: Seq<char>| is_supported_path(q)),
            crate::text::views(files@) == crate::text::views(entries@).take(i as int).filter(pred),
        decreases entries.len() - i,
    {
        let ghost vs = crate::text::views(entries@);
        assert(vs.take(i + 1).drop_last() =~= vs.take(i as int));
        assert(vs.take(i + 1).last() == entries@[i as int]@);
        proof {
            reveal_with_fuel(Seq::<Seq<char>>::filter, 1);
        }
        let ghost before = files@;
        if is_supported_file(entries[i].as_str()) {
            files.push(crate::text::copy_string(&entries[i]));
            assert(crate::text::views(files@) =~= crate::text::views(before).push(entries@[i as int]@));
        }
        i = i + 1;
    }
    assert(crate::text::views(entries@).take(entries.len() as int) =~= crate::text::views(entries@));
    Ok(dedup_and_sort_paths(&files))
}

} // verus!

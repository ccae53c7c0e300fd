//! The listing classifier: a deterministic heuristic that decides whether an
//! announcement signals a new token listing and extracts the token symbols
//! mentioned in brackets.
//!
//! Listing detection is a case-insensitive substring match of title or
//! content against a fixed multilingual keyword set.  Symbol extraction
//! scans title then content for a 2-10 character alphanumeric token enclosed
//! in parentheses or square brackets, upper-cases each match, and keeps the
//! first occurrence of each distinct symbol.

use vstd::prelude::*;

use crate::text::{
    chars_of, contains_chars, contains_sub, eq_chars, lower, lower_chars, string_of_chars,
    to_upper_char, upper,
};

verus! {

/// The fixed keyword set that signals a listing announcement.
pub open spec fn keyword_views() -> Seq<Seq<char>> {
    seq![
        "new listing"@,
        "listing"@,
        "new token"@,
        "new coin"@,
        "new cryptocurrency"@,
        "will list"@,
        "now available"@,
        "deposits open"@,
        "trading pair"@,
        "添加"@,
        "上线"@,
    ]
}

/// The keyword set, as string slices, in the order of [`keyword_views`].
pub fn listing_keywords() -> (r: Vec<&'static str>)
    ensures
        r@.len() == keyword_views().len(),
        forall|i: int| 0 <= i < r@.len() ==> r@[i]@ == keyword_views()[i],
{
    let mut r: Vec<&'static str> = Vec::new();
    r.push("new listing");
    r.push("listing");
    r.push("new token");
    r.push("new coin");
    r.push("new cryptocurrency");
    r.push("will list");
    r.push("now available");
    r.push("deposits open");
    r.push("trading pair");
    r.push("添加");
    r.push("上线");
    r
}

/// A text signals a listing when its lower-cased title or content contains
/// one of the keywords.
pub open spec fn spec_is_listing(title: Seq<char>, content: Seq<char>) -> bool {
    exists|k: int|
        0 <= k < keyword_views().len() && (contains_sub(lower(title), keyword_views()[k])
            || contains_sub(lower(content), keyword_views()[k]))
}

/// Decides listing intent for a title/content pair.
pub fn is_listing_text(title: &Vec<char>, content: &Vec<char>) -> (r: bool)
    ensures
        r == spec_is_listing(title@, content@),
{
    let lt = lower_chars(title);
    let lc = lower_chars(content);
    let kws = listing_keywords();
    let mut k: usize = 0;
    while k < kws.len()
        invariant
            kws@.len() == keyword_views().len(),
            forall|i: int| 0 <= i < kws@.len() ==> kws@[i]@ == keyword_views()[i],
            lt@ == lower(title@),
            lc@ == lower(content@),
            k <= kws@.len(),
            forall|i: int|
                0 <= i < k ==> !contains_sub(lower(title@), keyword_views()[i])
                    && !contains_sub(lower(content@), keyword_views()[i]),
        decreases kws@.len() - k,
    {
        let kv = chars_of(kws[k]);
        if contains_chars(&lt, &kv) || contains_chars(&lc, &kv) {
            return true;
        }
        k = k + 1;
    }
    false
}

/// An opening symbol delimiter.
pub open spec fn is_open_bracket(c: char) -> bool {
    c == '(' || c == '['
}

/// A closing symbol delimiter.
pub open spec fn is_close_bracket(c: char) -> bool {
    c == ')' || c == ']'
}

/// A character that may appear inside a token symbol.
pub open spec fn is_symbol_char(c: char) -> bool {
    (48 <= c as u32 && c as u32 <= 57) || (65 <= c as u32 && c as u32 <= 90) || (97 <= c as u32
        && c as u32 <= 122)
}

/// Length of the maximal run of symbol characters starting at `i`.
pub open spec fn run_len(s: Seq<char>, i: int) -> nat
    decreases s.len() - i when i >= 0
{
    if i < 0 || i >= s.len() || !is_symbol_char(s[i]) {
        0
    } else {
        1 + run_len(s, i + 1)
    }
}

/// Position of the expected closing delimiter for an opening delimiter at `i`.
pub open spec fn symbol_end(s: Seq<char>, i: int) -> int {
    i + 1 + run_len(s, i + 1)
}

/// A symbol stands at `i`: an opening delimiter, a run of 2 to 10 symbol
/// characters, then a closing delimiter.
pub open spec fn has_symbol_at(s: Seq<char>, i: int) -> bool {
    &&& 0 <= i < s.len()
    &&& is_open_bracket(s[i])
    &&& 2 <= run_len(s, i + 1) <= 10
    &&& symbol_end(s, i) < s.len()
    &&& is_close_bracket(s[symbol_end(s, i)])
}

/// The upper-cased symbol standing at `i`.
pub open spec fn symbol_at(s: Seq<char>, i: int) -> Seq<char> {
    upper(s.subrange(i + 1, symbol_end(s, i)))
}

/// All symbols found scanning left to right from `i`, upper-cased, in order
/// of occurrence, duplicates included.
pub open spec fn scan_symbols_from(s: Seq<char>, i: int) -> Seq<Seq<char>>
    decreases s.len() - i when i >= 0
{
    if i < 0 || i >= s.len() {
        Seq::empty()
    } else if has_symbol_at(s, i) {
        seq![symbol_at(s, i)] + scan_symbols_from(s, symbol_end(s, i) + 1)
    } else {
        scan_symbols_from(s, i + 1)
    }
}

/// All symbols of a text, in order, duplicates included.
pub open spec fn scan_symbols(s: Seq<char>) -> Seq<Seq<char>> {
    scan_symbols_from(s, 0)
}

/// Appends `x` unless already present.
pub open spec fn push_unique(acc: Seq<Seq<char>>, x: Seq<char>) -> Seq<Seq<char>> {
    if acc.contains(x) {
        acc
    } else {
        acc.push(x)
    }
}

/// Folds `xs` into `acc`, keeping only first occurrences.
pub open spec fn dedup_into(acc: Seq<Seq<char>>, xs: Seq<Seq<char>>) -> Seq<Seq<char>>
    decreases xs.len(),
{
    if xs.len() == 0 {
        acc
    } else {
        dedup_into(push_unique(acc, xs[0]), xs.drop_first())
    }
}

/// The symbols reported for a listing announcement: title first, then
/// content, first occurrence of each distinct symbol only.
pub open spec fn spec_symbols(title: Seq<char>, content: Seq<char>) -> Seq<Seq<char>> {
    dedup_into(dedup_into(Seq::empty(), scan_symbols(title)), scan_symbols(content))
}

/// What `analyze` returns for a title/content pair: the listing decision,
/// and the extracted symbols when the decision is positive.
pub open spec fn spec_analyze(title: Seq<char>, content: Seq<char>) -> (bool, Seq<Seq<char>>) {
    if spec_is_listing(title, content) {
        (true, spec_symbols(title, content))
    } else {
        (false, Seq::empty())
    }
}

/// The views of a sequence of character vectors.
pub open spec fn views_of(s: Seq<Vec<char>>) -> Seq<Seq<char>> {
    s.map_values(|v: Vec<char>| v@)
}

/// Tests a character for membership in the symbol alphabet.
fn symbol_char(c: char) -> (r: bool)
    ensures
        r == is_symbol_char(c),
{
    let u = c as u32;
    (48 <= u && u <= 57) || (65 <= u && u <= 90) || (97 <= u && u <= 122)
}

/// Computes the length of the maximal symbol-character run starting at `i`.
fn run_len_exec(s: &Vec<char>, i: usize) -> (r: usize)
    requires
        i <= s@.len(),
    ensures
        r == run_len(s@, i as int),
        i + r <= s@.len(),
{
    let len = s.len();
    let mut j: usize = i;
    while j < len && symbol_char(s[j])
        invariant
            len == s@.len(),
            i <= j <= len,
            run_len(s@, i as int) == j - i + run_len(s@, j as int),
        decreases len - j,
    {
        j = j + 1;
    }
    proof {
        assert(run_len(s@, j as int) == 0);
    }
    j - i
}

/// Whether `acc` already holds a vector with the contents of `x`.
fn holds_chars(acc: &Vec<Vec<char>>, x: &Vec<char>) -> (r: bool)
    ensures
        r == views_of(acc@).contains(x@),
{
    let mut i: usize = 0;
    while i < acc.len()
        invariant
            i <= acc@.len(),
            forall|k: int| 0 <= k < i ==> views_of(acc@)[k] != x@,
        decreases acc@.len() - i,
    {
        if eq_chars(&acc[i], x) {
            assert(views_of(acc@)[i as int] == x@);
            return true;
        }
        i = i + 1;
    }
    false
}

/// Scans `s` for symbols, folding each into `acc` with first-seen
/// deduplication.
fn scan_symbols_push(s: &Vec<char>, acc: Vec<Vec<char>>) -> (r: Vec<Vec<char>>)
    ensures
        views_of(r@) == dedup_into(views_of(acc@), scan_symbols(s@)),
{
    let ghost target = dedup_into(views_of(acc@), scan_symbols(s@));
    let mut acc = acc;
    let len = s.len();
    let mut i: usize = 0;
    while i < len
        invariant
            len == s@.len(),
            i <= len,
            dedup_into(views_of(acc@), scan_symbols_from(s@, i as int)) == target,
        decreases len - i,
    {
        let c = s[i];
        if c == '(' || c == '[' {
            let run = run_len_exec(s, i + 1);
            let end = i + 1 + run;
            if 2 <= run && run <= 10 && end < len && {
                let e = s[end];
                e == ')' || e == ']'
            } {
                proof {
                    assert(has_symbol_at(s@, i as int));
                }
                let mut sym: Vec<char> = Vec::new();
                let mut j: usize = i + 1;
                while j < end
                    invariant
                        i + 1 <= j <= end,
                        end <= s@.len(),
                        sym@ == upper(s@.subrange(i + 1 as int, j as int)),
                    decreases end - j,
                {
                    sym.push(to_upper_char(s[j]));
                    proof {
                        assert(sym@ =~= upper(s@.subrange(i + 1 as int, j + 1 as int)));
                    }
                    j = j + 1;
                }
                proof {
                    assert(sym@ == symbol_at(s@, i as int));
                }
                let ghost rest = scan_symbols_from(s@, end + 1 as int);
                proof {
                    let whole = seq![symbol_at(s@, i as int)] + rest;
                    assert(scan_symbols_from(s@, i as int) == whole);
                    assert(whole[0] == symbol_at(s@, i as int));
                    assert(whole.drop_first() =~= rest);
                    assert(dedup_into(views_of(acc@), whole) == dedup_into(
                        push_unique(views_of(acc@), sym@),
                        rest,
                    ));
                }
                if !holds_chars(&acc, &sym) {
                    proof {
                        assert(views_of(acc@.push(sym)) =~= views_of(acc@).push(sym@));
                    }
                    acc.push(sym);
                }
                i = end + 1;
            } else {
                proof {
                    assert(!has_symbol_at(s@, i as int));
                }
                i = i + 1;
            }
        } else {
            proof {
                assert(!has_symbol_at(s@, i as int));
            }
            i = i + 1;
        }
    }
    proof {
        assert(scan_symbols_from(s@, i as int) == Seq::<Seq<char>>::empty());
    }
    acc
}

/// Extracts the deduplicated, upper-cased symbols of a listing announcement,
/// title first.
pub fn extract_symbols(title: &Vec<char>, content: &Vec<char>) -> (r: Vec<Vec<char>>)
    ensures
        views_of(r@) == spec_symbols(title@, content@),
{
    proof {
        assert(views_of(Seq::empty()) =~= Seq::<Seq<char>>::empty());
    }
    let first = scan_symbols_push(title, Vec::new());
    scan_symbols_push(content, first)
}

/// Extracts the symbols of a title/content pair as strings, regardless of
/// the listing decision.
pub fn extract_symbol_strings(title: &str, content: &str) -> (r: Vec<String>)
    ensures
        r.deep_view() == spec_symbols(title@, content@),
{
    let tc = chars_of(title);
    let cc = chars_of(content);
    let syms = extract_symbols(&tc, &cc);
    let mut out: Vec<String> = Vec::new();
    let mut i: usize = 0;
    while i < syms.len()
        invariant
            i <= syms@.len(),
            out@.len() == i,
            forall|k: int| 0 <= k < i ==> out@[k]@ == views_of(syms@)[k],
        decreases syms@.len() - i,
    {
        out.push(string_of_chars(&syms[i]));
        i = i + 1;
    }
    proof {
        assert(out.deep_view() =~~= views_of(syms@));
    }
    out
}

/// Classifies a title/content pair: whether it signals a new listing, and
/// the token symbols it mentions.
pub fn analyze(title: &str, content: &str) -> (r: (bool, Vec<String>))
    ensures
        r.0 == spec_analyze(title@, content@).0,
        r.1.deep_view() == spec_analyze(title@, content@).1,
{
    let tc = chars_of(title);
    let cc = chars_of(content);
    let listed = is_listing_text(&tc, &cc);
    if listed {
        let out = extract_symbol_strings(title, content);
        (listed, out)
    } else {
        let out: Vec<String> = Vec::new();
        proof {
            assert(out.deep_view() =~~= Seq::<Seq<char>>::empty());
        }
        (listed, out)
    }
}

/// A remote category name that flags a listing out of band.
pub open spec fn category_signals_listing(cat: Seq<char>) -> bool {
    ||| contains_sub(lower(cat), "listing"@)
    ||| contains_sub(lower(cat), "new asset"@)
    ||| contains_sub(lower(cat), "new crypto"@)
}

/// Some category in the list flags a listing out of band.
pub open spec fn spec_categories_signal_listing(cats: Seq<Seq<char>>) -> bool {
    exists|i: int| 0 <= i < cats.len() && category_signals_listing(cats[i])
}

/// Whether remote category metadata flags an item as a listing.
pub fn categories_signal_listing(categories: &Vec<String>) -> (r: bool)
    ensures
        r == spec_categories_signal_listing(categories@.map_values(|s: String| s@)),
{
    let ghost cats = categories@.map_values(|s: String| s@);
    let needle_a = chars_of("listing");
    let needle_b = chars_of("new asset");
    let needle_c = chars_of("new crypto");
    let mut i: usize = 0;
    while i < categories.len()
        invariant
            cats == categories@.map_values(|s: String| s@),
            needle_a@ == "listing"@,
            needle_b@ == "new asset"@,
            needle_c@ == "new crypto"@,
            i <= categories@.len(),
            forall|k: int| 0 <= k < i ==> !category_signals_listing(cats[k]),
        decreases categories@.len() - i,
    {
        let cc = chars_of(categories[i].as_str());
        let lc = lower_chars(&cc);
        if contains_chars(&lc, &needle_a) || contains_chars(&lc, &needle_b) || contains_chars(
            &lc,
            &needle_c,
        ) {
            proof {
                assert(category_signals_listing(cats[i as int]));
            }
            return true;
        }
        i = i + 1;
    }
    false
}

/// The classifier is a function of title and content alone: any two results
/// that satisfy its contract on equal inputs are equal.
pub proof fn lemma_analyze_deterministic(
    title: Seq<char>,
    content: Seq<char>,
    r1: (bool, Seq<Seq<char>>),
    r2: (bool, Seq<Seq<char>>),
)
    requires
        r1 == spec_analyze(title, content),
        r2 == spec_analyze(title, content),
    ensures
        r1 == r2,
{
}

} // verus!

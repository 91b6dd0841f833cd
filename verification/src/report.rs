use vstd::prelude::*;

use crate::feed::{feeds_view, Feed, FeedView};
use crate::strutil::{lower_of, lowercase, push_char, str_eq};
use crate::urlinfo::{host_of, url_host};

verus! {

/// The Markdown-safe form of one character.
pub open spec fn spec_escape_char(c: char) -> Seq<char> {
    if c == '&' {
        "&amp;"@
    } else if c == '<' {
        "&lt;"@
    } else if c == '>' {
        "&gt;"@
    } else if c == '"' {
        "&quot;"@
    } else {
        seq![c]
    }
}

/// The text with `&`, `<`, `>` and `"` replaced by their entities.
pub open spec fn spec_escape(s: Seq<char>) -> Seq<char>
    decreases s.len(),
{
    if s.len() == 0 {
        Seq::empty()
    } else {
        spec_escape(s.drop_last()) + spec_escape_char(s.last())
    }
}

/// Escapes the characters that would break Markdown or XML-ish output.
#[verifier::loop_isolation(false)]
pub fn escape_special_chars(text: &str) -> (r: String)
    ensures
        r@ == spec_escape(text@),
{
    let mut r = String::new();
    let n = text.unicode_len();
    proof {
        assert(r@ =~= spec_escape(text@.take(0)));
    }
    let mut i: usize = 0;
    while i < n
        invariant
            0 <= i <= n,
            r@ == spec_escape(text@.take(i as int)),
        decreases n - i,
    {
        let c = text.get_char(i);
        if c == '&' {
            r.append("&amp;");
        } else if c == '<' {
            r.append("&lt;");
        } else if c == '>' {
            r.append("&gt;");
        } else if c == '"' {
            r.append("&quot;");
        } else {
            push_char(&mut r, c);
        }
        proof {
            assert(text@.take(i + 1).drop_last() =~= text@.take(i as int));
            assert(text@.take(i + 1).last() == text@[i as int]);
            assert(r@ =~= spec_escape(text@.take(i + 1)));
        }
        i = i + 1;
    }
    proof {
        assert(text@.take(n as int) =~= text@);
    }
    r
}

/// The mathematical value of a list of keyed counts.
pub open spec fn counts_view(v: Seq<(String, usize)>) -> Seq<(Seq<char>, int)> {
    v.map_values(|p: (String, usize)| (p.0@, p.1 as int))
}

/// The position of the first count entry with the given key.
pub open spec fn spec_count_index(counts: Seq<(Seq<char>, int)>, key: Seq<char>, from: int) -> Option<
    int,
>
    decreases counts.len() - from,
{
    if from < 0 || from >= counts.len() {
        None
    } else if counts[from].0 == key {
        Some(from)
    } else {
        spec_count_index(counts, key, from + 1)
    }
}

pub(crate) proof fn lemma_count_index_found(counts: Seq<(Seq<char>, int)>, key: Seq<char>, from: int)
    requires
        spec_count_index(counts, key, from) is Some,
    ensures
        match spec_count_index(counts, key, from) {
            Some(k) => from <= k < counts.len() && counts[k].0 == key,
            None => false,
        },
    decreases counts.len() - from,
{
    if !(from < 0 || from >= counts.len()) && !(counts[from].0 == key) {
        lemma_count_index_found(counts, key, from + 1);
    }
}

/// One more occurrence of `key`: its count goes up by one, or a new entry
/// with count one is appended.
pub open spec fn spec_bump(counts: Seq<(Seq<char>, int)>, key: Seq<char>) -> Seq<(Seq<char>, int)> {
    match spec_count_index(counts, key, 0) {
        Some(k) => counts.update(k, (counts[k].0, counts[k].1 + 1)),
        None => counts.push((key, 1)),
    }
}

/// Every count after a bump is at most one above the largest count before.
pub(crate) proof fn lemma_bump_bound(counts: Seq<(Seq<char>, int)>, key: Seq<char>, b: int)
    requires
        b >= 0,
        forall|t: int| 0 <= t < counts.len() ==> (#[trigger] counts[t]).1 <= b,
    ensures
        forall|t: int|
            0 <= t < spec_bump(counts, key).len() ==> (#[trigger] spec_bump(counts, key)[t]).1 <= b
                + 1,
{
    if spec_count_index(counts, key, 0) is Some {
        lemma_count_index_found(counts, key, 0);
    }
}

fn find_count(counts: &Vec<(String, usize)>, key: &str) -> (r: Option<usize>)
    ensures
        match r {
            Some(k) => k < counts@.len() && spec_count_index(counts_view(counts@), key@, 0)
                == Some(k as int),
            None => spec_count_index(counts_view(counts@), key@, 0) == None::<int>,
        },
{
    let ghost cv = counts_view(counts@);
    proof {
        assert(cv.len() == counts@.len());
    }
    let n = counts.len();
    let mut i: usize = 0;
    while i < n
        invariant
            n == counts.len(),
            cv == counts_view(counts@),
            cv.len() == n,
            0 <= i <= n,
            spec_count_index(cv, key@, 0) == spec_count_index(cv, key@, i as int),
        decreases n - i,
    {
        proof {
            assert(cv[i as int] == (counts@[i as int].0@, counts@[i as int].1 as int));
        }
        if str_eq(counts[i].0.as_str(), key) {
            return Some(i);
        }
        i = i + 1;
    }
    None
}

/// Counts one more occurrence of `key`.
pub(crate) fn bump_count(counts: &mut Vec<(String, usize)>, key: &String)
    requires
        forall|t: int|
            0 <= t < old(counts)@.len() ==> (#[trigger] old(counts)@[t]).1 < usize::MAX,
    ensures
        counts_view(final(counts)@) == spec_bump(counts_view(old(counts)@), key@),
{
    let ghost cv = counts_view(counts@);
    match find_count(counts, key.as_str()) {
        Some(k) => {
            proof {
                lemma_count_index_found(cv, key@, 0);
            }
            let ghost before = counts@;
            let pair = counts.remove(k);
            let bumped = (pair.0, pair.1 + 1);
            counts.insert(k, bumped);
            proof {
                let target = cv.update(k as int, (cv[k as int].0, cv[k as int].1 + 1));
                assert(counts@.len() == before.len());
                assert forall|t: int| 0 <= t < counts@.len() implies counts_view(counts@)[t]
                    == target[t] by {
                    if t != k as int {
                        assert(counts@[t] == before[t]);
                    }
                }
                assert(counts_view(counts@) =~= target);
            }
        },
        None => {
            counts.push((key.clone(), 1));
            proof {
                assert(counts_view(counts@) =~= cv.push((key@, 1int)));
            }
        },
    }
}

/// Whether a string is among the collected ones.
pub open spec fn spec_contains_str(seen: Seq<Seq<char>>, x: Seq<char>) -> bool {
    exists|i: int| 0 <= i < seen.len() && seen[i] == x
}

pub(crate) fn contains_str(seen: &Vec<String>, x: &str) -> (r: bool)
    ensures
        r == spec_contains_str(seen.deep_view(), x@),
{
    let ghost sv = seen.deep_view();
    proof {
        assert(sv.len() == seen@.len());
    }
    let n = seen.len();
    let mut i: usize = 0;
    while i < n
        invariant
            n == seen.len(),
            sv == seen.deep_view(),
            sv.len() == n,
            0 <= i <= n,
            forall|t: int| 0 <= t < i ==> sv[t] != x@,
        decreases n - i,
    {
        proof {
            assert(sv[i as int] == seen@[i as int]@);
        }
        if str_eq(seen[i].as_str(), x) {
            return true;
        }
        i = i + 1;
    }
    false
}

/// The distinct lower-cased feed URLs, in order of first appearance.
pub open spec fn spec_seen_urls(feeds: Seq<FeedView>) -> Seq<Seq<char>>
    decreases feeds.len(),
{
    if feeds.len() == 0 {
        Seq::empty()
    } else {
        let prev = spec_seen_urls(feeds.drop_last());
        let low = lower_of(feeds.last().xml_url);
        if spec_contains_str(prev, low) {
            prev
        } else {
            prev.push(low)
        }
    }
}

/// The feeds whose lower-cased URL already appeared earlier in the list.
pub open spec fn spec_duplicates(feeds: Seq<FeedView>) -> Seq<FeedView>
    decreases feeds.len(),
{
    if feeds.len() == 0 {
        Seq::empty()
    } else {
        let prev = spec_duplicates(feeds.drop_last());
        let low = lower_of(feeds.last().xml_url);
        if spec_contains_str(spec_seen_urls(feeds.drop_last()), low) {
            prev.push(feeds.last())
        } else {
            prev
        }
    }
}

/// All category names after one feed: the new ones appended in order.
pub open spec fn spec_add_cats(acc: Seq<Seq<char>>, cats: Seq<Seq<char>>) -> Seq<Seq<char>>
    decreases cats.len(),
{
    if cats.len() == 0 {
        acc
    } else {
        let prev = spec_add_cats(acc, cats.drop_last());
        if spec_contains_str(prev, cats.last()) {
            prev
        } else {
            prev.push(cats.last())
        }
    }
}

/// The distinct category names across all feeds, in order of first
/// appearance.
pub open spec fn spec_categories(feeds: Seq<FeedView>) -> Seq<Seq<char>>
    decreases feeds.len(),
{
    if feeds.len() == 0 {
        Seq::empty()
    } else {
        spec_add_cats(spec_categories(feeds.drop_last()), feeds.last().category)
    }
}

/// The key under which a feed's URL is counted: its host when the URL
/// parses, `unknown` when it parses without a host, nothing when it does not
/// parse.
pub open spec fn spec_domain_key(url: Seq<char>) -> Option<Seq<char>> {
    match host_of(url) {
        None => None,
        Some(Some(h)) => Some(h),
        Some(None) => Some("unknown"@),
    }
}

/// How many feeds each domain serves, domains in order of first appearance.
pub open spec fn spec_domain_counter(feeds: Seq<FeedView>) -> Seq<(Seq<char>, int)>
    decreases feeds.len(),
{
    if feeds.len() == 0 {
        Seq::empty()
    } else {
        let prev = spec_domain_counter(feeds.drop_last());
        match spec_domain_key(feeds.last().xml_url) {
            Some(k) => spec_bump(prev, k),
            None => prev,
        }
    }
}

/// Walks a feed list once and collects: the distinct lower-cased URLs, the
/// feeds that repeat an earlier URL, the distinct category names, and how
/// many feeds each URL domain serves.
#[verifier::loop_isolation(false)]
pub fn generate_summary(feeds: &Vec<Feed>) -> (r: (
    Vec<String>,
    Vec<Feed>,
    Vec<String>,
    Vec<(String, usize)>,
))
    ensures
        r.0.deep_view() == spec_seen_urls(feeds_view(feeds@)),
        feeds_view(r.1@) == spec_duplicates(feeds_view(feeds@)),
        r.2.deep_view() == spec_categories(feeds_view(feeds@)),
        counts_view(r.3@) == spec_domain_counter(feeds_view(feeds@)),
{
    let ghost fv = feeds_view(feeds@);
    let mut seen_urls: Vec<String> = Vec::new();
    let mut duplicates: Vec<Feed> = Vec::new();
    let mut categories: Vec<String> = Vec::new();
    let mut domain_counter: Vec<(String, usize)> = Vec::new();
    proof {
        assert(fv.len() == feeds@.len());
        assert(seen_urls.deep_view() =~= spec_seen_urls(fv.take(0)));
        assert(feeds_view(duplicates@) =~= spec_duplicates(fv.take(0)));
        assert(categories.deep_view() =~= spec_categories(fv.take(0)));
        assert(counts_view(domain_counter@) =~= spec_domain_counter(fv.take(0)));
    }
    let n = feeds.len();
    let mut i: usize = 0;
    while i < n
        invariant
            0 <= i <= n,
            seen_urls.deep_view() == spec_seen_urls(fv.take(i as int)),
            feeds_view(duplicates@) == spec_duplicates(fv.take(i as int)),
            categories.deep_view() == spec_categories(fv.take(i as int)),
            counts_view(domain_counter@) == spec_domain_counter(fv.take(i as int)),
            forall|t: int|
                0 <= t < domain_counter@.len() ==> (#[trigger] domain_counter@[t]).1 <= i,
        decreases n - i,
    {
        proof {
            assert(fv[i as int] == feeds@[i as int]@);
            assert(fv.take(i + 1).drop_last() =~= fv.take(i as int));
        }
        let low = lowercase(feeds[i].xml_url.as_str());
        if contains_str(&seen_urls, low.as_str()) {
            duplicates.push(feeds[i].duplicate());
            proof {
                assert(feeds_view(duplicates@) =~= spec_duplicates(fv.take(i + 1)));
            }
        } else {
            seen_urls.push(low);
            proof {
                assert(seen_urls.deep_view() =~= spec_seen_urls(fv.take(i + 1)));
            }
        }
        match url_host(feeds[i].xml_url.as_str()) {
            Some(host) => {
                let key = match host {
                    Some(h) => h,
                    None => String::from_str("unknown"),
                };
                proof {
                    assert(spec_domain_key(fv[i as int].xml_url) == Some(key@));
                    lemma_bump_bound(counts_view(domain_counter@), key@, i as int);
                }
                bump_count(&mut domain_counter, &key);
                proof {
                    assert(counts_view(domain_counter@) =~= spec_domain_counter(fv.take(i + 1)));
                    assert forall|t: int|
                        0 <= t < domain_counter@.len() implies (#[trigger] domain_counter@[t]).1
                        <= i + 1 by {
                        assert(counts_view(domain_counter@)[t] == (
                            domain_counter@[t].0@,
                            domain_counter@[t].1 as int,
                        ));
                    }
                }
            },
            None => {
                proof {
                    assert(spec_domain_key(fv[i as int].xml_url) == None::<Seq<char>>);
                }
            },
        }
        let cats = &feeds[i].category;
        let ghost catv = fv[i as int].category;
        proof {
            assert(catv == cats.deep_view());
            assert(catv.len() == cats@.len());
        }
        let m = cats.len();
        let mut j: usize = 0;
        while j < m
            invariant
                0 <= j <= m,
                categories.deep_view() == spec_add_cats(
                    spec_categories(fv.take(i as int)),
                    catv.take(j as int),
                ),
            decreases m - j,
        {
            proof {
                assert(catv[j as int] == cats@[j as int]@);
                assert(catv.take(j + 1).drop_last() =~= catv.take(j as int));
            }
            if !contains_str(&categories, cats[j].as_str()) {
                categories.push(cats[j].clone());
            }
            proof {
                assert(categories.deep_view() =~= spec_add_cats(
                    spec_categories(fv.take(i as int)),
                    catv.take(j + 1),
                ));
            }
            j = j + 1;
        }
        proof {
            assert(catv.take(m as int) =~= catv);
            assert(categories.deep_view() =~= spec_categories(fv.take(i + 1)));
        }
        i = i + 1;
    }
    proof {
        assert(fv.take(n as int) =~= fv);
    }
    (seen_urls, duplicates, categories, domain_counter)
}

/// The total number of category entries across all feeds.
pub open spec fn spec_total_cats(feeds: Seq<FeedView>) -> int
    decreases feeds.len(),
{
    if feeds.len() == 0 {
        0
    } else {
        spec_total_cats(feeds.drop_last()) + feeds.last().category.len()
    }
}

proof fn lemma_total_cats_nonneg(feeds: Seq<FeedView>)
    ensures
        spec_total_cats(feeds) >= 0,
    decreases feeds.len(),
{
    if feeds.len() > 0 {
        lemma_total_cats_nonneg(feeds.drop_last());
    }
}

proof fn lemma_total_cats_take(feeds: Seq<FeedView>, i: int)
    requires
        0 <= i <= feeds.len(),
    ensures
        0 <= spec_total_cats(feeds.take(i)) <= spec_total_cats(feeds),
    decreases feeds.len(),
{
    if i == feeds.len() {
        assert(feeds.take(i) =~= feeds);
        lemma_total_cats_nonneg(feeds);
    } else {
        assert(feeds.drop_last().take(i) =~= feeds.take(i));
        lemma_total_cats_take(feeds.drop_last(), i);
    }
}

/// The counts after every name in `cats` is counted once, in order.
pub open spec fn spec_bump_all(counts: Seq<(Seq<char>, int)>, cats: Seq<Seq<char>>) -> Seq<
    (Seq<char>, int),
>
    decreases cats.len(),
{
    if cats.len() == 0 {
        counts
    } else {
        spec_bump(spec_bump_all(counts, cats.drop_last()), cats.last())
    }
}

/// How many feeds carry each category name, names in order of first
/// appearance.
pub open spec fn spec_category_counter(feeds: Seq<FeedView>) -> Seq<(Seq<char>, int)>
    decreases feeds.len(),
{
    if feeds.len() == 0 {
        Seq::empty()
    } else {
        spec_bump_all(spec_category_counter(feeds.drop_last()), feeds.last().category)
    }
}

/// `x` inserted into a list sorted by count descending: after every entry
/// whose count is at least as large (so insertion keeps earlier-inserted
/// entries with equal counts first).
pub open spec fn spec_insert_desc(s: Seq<(Seq<char>, int)>, x: (Seq<char>, int)) -> Seq<
    (Seq<char>, int),
>
    decreases s.len(),
{
    if s.len() == 0 {
        seq![x]
    } else if s[0].1 >= x.1 {
        seq![s[0]] + spec_insert_desc(s.skip(1), x)
    } else {
        seq![x] + s
    }
}

/// The list stably sorted by count descending.
pub open spec fn spec_sort_desc(s: Seq<(Seq<char>, int)>) -> Seq<(Seq<char>, int)>
    decreases s.len(),
{
    if s.len() == 0 {
        Seq::empty()
    } else {
        spec_insert_desc(spec_sort_desc(s.drop_last()), s.last())
    }
}

proof fn lemma_insert_desc_at(s: Seq<(Seq<char>, int)>, x: (Seq<char>, int), p: int)
    requires
        0 <= p <= s.len(),
        forall|t: int| 0 <= t < p ==> (#[trigger] s[t]).1 >= x.1,
        p < s.len() ==> s[p].1 < x.1,
    ensures
        spec_insert_desc(s, x) == s.take(p) + seq![x] + s.skip(p),
    decreases p,
{
    if p == 0 {
        if s.len() == 0 {
            assert(spec_insert_desc(s, x) =~= s.take(0) + seq![x] + s.skip(0));
        } else {
            assert(s[0].1 < x.1);
            assert(spec_insert_desc(s, x) =~= s.take(0) + seq![x] + s.skip(0));
        }
    } else {
        assert(s[0].1 >= x.1);
        let rest = s.skip(1);
        assert(forall|t: int| 0 <= t < p - 1 ==> (#[trigger] rest[t]).1 == s[t + 1].1 >= x.1);
        assert(p - 1 < rest.len() ==> rest[p - 1].1 < x.1);
        lemma_insert_desc_at(rest, x, p - 1);
        assert(seq![s[0]] + (rest.take(p - 1) + seq![x] + rest.skip(p - 1)) =~= s.take(p)
            + seq![x] + s.skip(p));
    }
}

#[verifier::loop_isolation(false)]
fn insert_desc(r: &mut Vec<(String, usize)>, x: (String, usize))
    ensures
        counts_view(final(r)@) == spec_insert_desc(counts_view(old(r)@), (x.0@, x.1 as int)),
{
    let ghost cv = counts_view(r@);
    proof {
        assert(cv.len() == r@.len());
    }
    let ghost xv = (x.0@, x.1 as int);
    let n = r.len();
    let mut p: usize = 0;
    while p < n
        invariant
            0 <= p <= n,
            n == r@.len(),
            cv == counts_view(r@),
            forall|t: int| 0 <= t < p ==> (#[trigger] cv[t]).1 >= xv.1,
        decreases n - p,
    {
        proof {
            assert(cv[p as int] == (r@[p as int].0@, r@[p as int].1 as int));
        }
        if r[p].1 < x.1 {
            break ;
        }
        p = p + 1;
    }
    proof {
        assert(p < n ==> cv[p as int].1 < xv.1);
        lemma_insert_desc_at(cv, xv, p as int);
    }
    r.insert(p, x);
    proof {
        assert(counts_view(r@) =~= cv.take(p as int) + seq![xv] + cv.skip(p as int));
    }
}

/// The counts sorted by count descending; entries with equal counts keep
/// their first-appearance order.
#[verifier::loop_isolation(false)]
fn sort_desc(v: &Vec<(String, usize)>) -> (r: Vec<(String, usize)>)
    ensures
        counts_view(r@) == spec_sort_desc(counts_view(v@)),
{
    let ghost cv = counts_view(v@);
    let mut r: Vec<(String, usize)> = Vec::new();
    proof {
        assert(cv.len() == v@.len());
        assert(counts_view(r@) =~= spec_sort_desc(cv.take(0)));
    }
    let n = v.len();
    let mut i: usize = 0;
    while i < n
        invariant
            0 <= i <= n,
            counts_view(r@) == spec_sort_desc(cv.take(i as int)),
        decreases n - i,
    {
        proof {
            assert(cv[i as int] == (v@[i as int].0@, v@[i as int].1 as int));
            assert(cv.take(i + 1).drop_last() =~= cv.take(i as int));
        }
        insert_desc(&mut r, (v[i].0.clone(), v[i].1));
        proof {
            assert(counts_view(r@) =~= spec_sort_desc(cv.take(i + 1)));
        }
        i = i + 1;
    }
    proof {
        assert(cv.take(n as int) =~= cv);
    }
    r
}

/// One table row per count: the escaped key and the decimal count.
pub open spec fn spec_count_rows(counts: Seq<(Seq<char>, int)>) -> Seq<char>
    decreases counts.len(),
{
    if counts.len() == 0 {
        Seq::empty()
    } else {
        spec_count_rows(counts.drop_last()) + "| "@ + spec_escape(counts.last().0) + " | "@
            + crate::numfmt::spec_decimal(counts.last().1 as nat) + " |\n"@
    }
}

#[verifier::loop_isolation(false)]
fn push_count_rows(out: &mut String, counts: &Vec<(String, usize)>, upto: usize)
    requires
        upto <= counts@.len(),
    ensures
        final(out)@ == old(out)@ + spec_count_rows(counts_view(counts@).take(upto as int)),
{
    let ghost cv = counts_view(counts@);
    proof {
        assert(cv.len() == counts@.len());
        assert(out@ =~= old(out)@ + spec_count_rows(cv.take(0)));
    }
    let mut i: usize = 0;
    while i < upto
        invariant
            0 <= i <= upto,
            out@ == old(out)@ + spec_count_rows(cv.take(i as int)),
        decreases upto - i,
    {
        proof {
            assert(cv[i as int] == (counts@[i as int].0@, counts@[i as int].1 as int));
            assert(cv.take(i + 1).drop_last() =~= cv.take(i as int));
        }
        out.append("| ");
        let escaped = escape_special_chars(counts[i].0.as_str());
        out.append(escaped.as_str());
        out.append(" | ");
        let digits = crate::numfmt::usize_to_string(counts[i].1);
        out.append(digits.as_str());
        out.append(" |\n");
        proof {
            assert(out@ =~= old(out)@ + spec_count_rows(cv.take(i + 1)));
        }
        i = i + 1;
    }
}

/// The categories table, or the fixed line when no categories exist.
pub open spec fn spec_categories_section(feeds: Seq<FeedView>, cats: Seq<Seq<char>>) -> Seq<char> {
    if cats.len() == 0 {
        "No categories found\n\n"@
    } else {
        "## Categories\n\n"@ + "| Category | Feed Count |\n"@ + "|----------|------------|\n"@
            + spec_count_rows(spec_sort_desc(spec_category_counter(feeds))) + "\n"@
    }
}

/// The top-domains table: at most the ten domains with the most feeds.
pub open spec fn spec_domains_section(domains: Seq<(Seq<char>, int)>) -> Seq<char> {
    let sorted = spec_sort_desc(domains);
    let upto: int = if sorted.len() < 10 {
        sorted.len() as int
    } else {
        10
    };
    "## Top Domains\n\n"@ + "| Domain | Feed Count |\n"@ + "|--------|------------|\n"@
        + spec_count_rows(sorted.take(upto)) + "\n"@
}

/// The category names each escaped.
pub open spec fn spec_escaped_cats(cats: Seq<Seq<char>>) -> Seq<Seq<char>> {
    cats.map_values(|c: Seq<char>| spec_escape(c))
}

/// One duplicate feed's entry: its escaped title, URL, and category path.
pub open spec fn spec_dup_entry(f: FeedView) -> Seq<char> {
    "### "@ + spec_escape(f.title) + "\n\n"@ + "- URL: "@ + spec_escape(f.xml_url) + "\n"@ + (
    if f.category.len() > 0 {
        "- Categories: "@ + crate::strutil::spec_join(spec_escaped_cats(f.category), " > "@)
            + "\n"@
    } else {
        Seq::<char>::empty()
    }) + "\n"@
}

/// The duplicate entries, in order.
pub open spec fn spec_dup_entries(dups: Seq<FeedView>) -> Seq<char>
    decreases dups.len(),
{
    if dups.len() == 0 {
        Seq::empty()
    } else {
        spec_dup_entries(dups.drop_last()) + spec_dup_entry(dups.last())
    }
}

/// The duplicates section, or the fixed line when there are none.
pub open spec fn spec_dups_section(dups: Seq<FeedView>) -> Seq<char> {
    if dups.len() == 0 {
        "No duplicate feeds found\n\n"@
    } else {
        "## Duplicate Feeds Found\n\n"@ + spec_dup_entries(dups)
    }
}

/// The escaped titles of all feeds, one bullet line each.
pub open spec fn spec_title_lines(feeds: Seq<FeedView>) -> Seq<char>
    decreases feeds.len(),
{
    if feeds.len() == 0 {
        Seq::empty()
    } else {
        spec_title_lines(feeds.drop_last()) + "- "@ + spec_escape(feeds.last().title) + "\n"@
    }
}

/// The whole analysis report for a feed list and its summary, dated with the
/// given string.
pub open spec fn spec_format_report(
    feeds: Seq<FeedView>,
    seen: Seq<Seq<char>>,
    dups: Seq<FeedView>,
    cats: Seq<Seq<char>>,
    domains: Seq<(Seq<char>, int)>,
    date: Seq<char>,
) -> Seq<char> {
    "# OPML Analysis Report\n\n"@ + "Generated on: "@ + date + "\n\n"@ + "## Summary\n\n"@
        + "Total Feeds: "@ + crate::numfmt::spec_decimal(feeds.len()) + "\n"@ + "Unique Feeds: "@
        + crate::numfmt::spec_decimal(seen.len()) + "\n"@ + "Categories Found: "@
        + crate::numfmt::spec_decimal(cats.len()) + "\n"@ + "Unique Domains: "@
        + crate::numfmt::spec_decimal(domains.len()) + "\n\n"@ + spec_categories_section(
        feeds,
        cats,
    ) + spec_domains_section(domains) + spec_dups_section(dups) + "## All Feeds\n\n"@
        + spec_title_lines(feeds) + "\n"@
}

#[verifier::loop_isolation(false)]
fn build_category_counter(feeds: &Vec<Feed>) -> (r: Vec<(String, usize)>)
    requires
        spec_total_cats(feeds_view(feeds@)) <= usize::MAX,
    ensures
        counts_view(r@) == spec_category_counter(feeds_view(feeds@)),
{
    let ghost fv = feeds_view(feeds@);
    let mut counter: Vec<(String, usize)> = Vec::new();
    proof {
        assert(fv.len() == feeds@.len());
        assert(counts_view(counter@) =~= spec_category_counter(fv.take(0)));
        lemma_total_cats_take(fv, 0);
    }
    let n = feeds.len();
    let mut i: usize = 0;
    while i < n
        invariant
            0 <= i <= n,
            counts_view(counter@) == spec_category_counter(fv.take(i as int)),
            forall|t: int|
                0 <= t < counter@.len() ==> (#[trigger] counter@[t]).1 <= spec_total_cats(
                    fv.take(i as int),
                ),
        decreases n - i,
    {
        proof {
            assert(fv[i as int] == feeds@[i as int]@);
            assert(fv.take(i + 1).drop_last() =~= fv.take(i as int));
            lemma_total_cats_take(fv, i as int);
            lemma_total_cats_take(fv, i + 1);
        }
        let cats = &feeds[i].category;
        let ghost catv = fv[i as int].category;
        proof {
            assert(catv == cats.deep_view());
            assert(catv.len() == cats@.len());
        }
        let m = cats.len();
        let mut j: usize = 0;
        while j < m
            invariant
                0 <= j <= m,
                counts_view(counter@) == spec_bump_all(
                    spec_category_counter(fv.take(i as int)),
                    catv.take(j as int),
                ),
                forall|t: int|
                    0 <= t < counter@.len() ==> (#[trigger] counter@[t]).1 <= spec_total_cats(
                        fv.take(i as int),
                    ) + j,
            decreases m - j,
        {
            proof {
                assert(catv[j as int] == cats@[j as int]@);
                assert(catv.take(j + 1).drop_last() =~= catv.take(j as int));
                lemma_bump_bound(
                    counts_view(counter@),
                    catv[j as int],
                    spec_total_cats(fv.take(i as int)) + j,
                );
                assert(spec_total_cats(fv.take(i as int)) + j < spec_total_cats(fv.take(i + 1)));
            }
            bump_count(&mut counter, &cats[j]);
            proof {
                assert(counts_view(counter@) =~= spec_bump_all(
                    spec_category_counter(fv.take(i as int)),
                    catv.take(j + 1),
                ));
                assert forall|t: int| 0 <= t < counter@.len() implies (#[trigger] counter@[t]).1
                    <= spec_total_cats(fv.take(i as int)) + j + 1 by {
                    assert(counts_view(counter@)[t] == (counter@[t].0@, counter@[t].1 as int));
                }
            }
            j = j + 1;
        }
        proof {
            assert(catv.take(m as int) =~= catv);
            assert(counts_view(counter@) =~= spec_category_counter(fv.take(i + 1)));
        }
        i = i + 1;
    }
    proof {
        assert(fv.take(n as int) =~= fv);
    }
    counter
}

#[verifier::loop_isolation(false)]
fn push_dup_entry(out: &mut String, dup: &Feed)
    ensures
        final(out)@ == old(out)@ + spec_dup_entry(dup@),
{
    out.append("### ");
    let t = escape_special_chars(dup.title.as_str());
    out.append(t.as_str());
    out.append("\n\n");
    out.append("- URL: ");
    let u = escape_special_chars(dup.xml_url.as_str());
    out.append(u.as_str());
    out.append("\n");
    if !dup.category.is_empty() {
        let ghost catv = dup@.category;
        let cats = &dup.category;
        proof {
            assert(catv == cats.deep_view());
            assert(catv.len() == cats@.len());
        }
        let m = cats.len();
        let mut escaped: Vec<String> = Vec::new();
        proof {
            assert(escaped.deep_view() =~= spec_escaped_cats(catv).take(0));
            assert(spec_escaped_cats(catv).len() == catv.len());
        }
        let mut j: usize = 0;
        while j < m
            invariant
                0 <= j <= m,
                escaped.deep_view() == spec_escaped_cats(catv).take(j as int),
            decreases m - j,
        {
            proof {
                assert(catv[j as int] == cats@[j as int]@);
            }
            escaped.push(escape_special_chars(cats[j].as_str()));
            proof {
                assert(escaped.deep_view() =~= spec_escaped_cats(catv).take(j + 1));
            }
            j = j + 1;
        }
        proof {
            assert(spec_escaped_cats(catv).take(m as int) =~= spec_escaped_cats(catv));
        }
        out.append("- Categories: ");
        let joined = crate::strutil::join_strings(&escaped, " > ");
        out.append(joined.as_str());
        out.append("\n");
    }
    out.append("\n");
    proof {
        assert(out@ =~= old(out)@ + spec_dup_entry(dup@));
    }
}

#[verifier::loop_isolation(false)]
fn push_dup_entries(out: &mut String, dups: &Vec<Feed>)
    ensures
        final(out)@ == old(out)@ + spec_dup_entries(feeds_view(dups@)),
{
    let ghost dv = feeds_view(dups@);
    proof {
        assert(dv.len() == dups@.len());
        assert(out@ =~= old(out)@ + spec_dup_entries(dv.take(0)));
    }
    let n = dups.len();
    let mut i: usize = 0;
    while i < n
        invariant
            0 <= i <= n,
            out@ == old(out)@ + spec_dup_entries(dv.take(i as int)),
        decreases n - i,
    {
        proof {
            assert(dv[i as int] == dups@[i as int]@);
            assert(dv.take(i + 1).drop_last() =~= dv.take(i as int));
        }
        push_dup_entry(out, &dups[i]);
        proof {
            assert(out@ =~= old(out)@ + spec_dup_entries(dv.take(i + 1)));
        }
        i = i + 1;
    }
    proof {
        assert(dv.take(n as int) =~= dv);
    }
}

/// Renders the whole analysis report, with the given generation date: the
/// summary numbers, the category and domain tables sorted by count
/// descending, the duplicate feeds, and every feed's title.
#[verifier::rlimit(60)]
#[verifier::loop_isolation(false)]
pub fn format_markdown_report_with_date(
    feeds: &Vec<Feed>,
    seen_urls: &Vec<String>,
    duplicates: &Vec<Feed>,
    categories: &Vec<String>,
    domain_counter: &Vec<(String, usize)>,
    date: &str,
) -> (r: String)
    requires
        spec_total_cats(feeds_view(feeds@)) <= usize::MAX,
    ensures
        r@ == spec_format_report(
            feeds_view(feeds@),
            seen_urls.deep_view(),
            feeds_view(duplicates@),
            categories.deep_view(),
            counts_view(domain_counter@),
            date@,
        ),
{
    let ghost fv = feeds_view(feeds@);
    let ghost dv = feeds_view(duplicates@);
    let ghost domv = counts_view(domain_counter@);
    proof {
        assert(fv.len() == feeds@.len());
        assert(dv.len() == duplicates@.len());
        assert(domv.len() == domain_counter@.len());
        assert(seen_urls.deep_view().len() == seen_urls@.len());
        assert(categories.deep_view().len() == categories@.len());
    }
    let mut out = String::from_str("# OPML Analysis Report\n\n");
    out.append("Generated on: ");
    out.append(date);
    out.append("\n\n");
    out.append("## Summary\n\n");
    out.append("Total Feeds: ");
    let d1 = crate::numfmt::usize_to_string(feeds.len());
    out.append(d1.as_str());
    out.append("\n");
    out.append("Unique Feeds: ");
    let d2 = crate::numfmt::usize_to_string(seen_urls.len());
    out.append(d2.as_str());
    out.append("\n");
    out.append("Categories Found: ");
    let d3 = crate::numfmt::usize_to_string(categories.len());
    out.append(d3.as_str());
    out.append("\n");
    out.append("Unique Domains: ");
    let d4 = crate::numfmt::usize_to_string(domain_counter.len());
    out.append(d4.as_str());
    out.append("\n\n");
    let ghost summary_part = out@;
    // Categories table.
    if categories.is_empty() {
        out.append("No categories found\n\n");
    } else {
        out.append("## Categories\n\n");
        out.append("| Category | Feed Count |\n");
        out.append("|----------|------------|\n");
        let counter = build_category_counter(feeds);
        let sorted = sort_desc(&counter);
        let upto = sorted.len();
        push_count_rows(&mut out, &sorted, upto);
        proof {
            assert(counts_view(sorted@).take(upto as int) =~= counts_view(sorted@));
        }
        out.append("\n");
    }
    proof {
        assert(out@ =~= summary_part + spec_categories_section(fv, categories.deep_view()));
    }
    let ghost cats_part = out@;
    // Top domains table.
    out.append("## Top Domains\n\n");
    out.append("| Domain | Feed Count |\n");
    out.append("|--------|------------|\n");
    let sorted_domains = sort_desc(domain_counter);
    let upto = if sorted_domains.len() < 10 {
        sorted_domains.len()
    } else {
        10
    };
    push_count_rows(&mut out, &sorted_domains, upto);
    out.append("\n");
    proof {
        assert(out@ =~= cats_part + spec_domains_section(domv));
    }
    let ghost dom_part = out@;
    // Duplicates.
    if duplicates.is_empty() {
        out.append("No duplicate feeds found\n\n");
    } else {
        out.append("## Duplicate Feeds Found\n\n");
        push_dup_entries(&mut out, duplicates);
    }
    proof {
        assert(out@ =~= dom_part + spec_dups_section(dv));
    }
    let ghost dups_part = out@;
    // Every feed's title.
    out.append("## All Feeds\n\n");
    let n = feeds.len();
    let mut i: usize = 0;
    while i < n
        invariant
            0 <= i <= n,
            out@ == dups_part + "## All Feeds\n\n"@ + spec_title_lines(fv.take(i as int)),
        decreases n - i,
    {
        proof {
            assert(fv[i as int] == feeds@[i as int]@);
            assert(fv.take(i + 1).drop_last() =~= fv.take(i as int));
        }
        out.append("- ");
        let t = escape_special_chars(feeds[i].title.as_str());
        out.append(t.as_str());
        out.append("\n");
        proof {
            assert(out@ =~= dups_part + "## All Feeds\n\n"@ + spec_title_lines(fv.take(i + 1)));
        }
        i = i + 1;
    }
    out.append("\n");
    proof {
        assert(fv.take(n as int) =~= fv);
        assert(out@ =~= spec_format_report(
            fv,
            seen_urls.deep_view(),
            dv,
            categories.deep_view(),
            domv,
            date@,
        ));
    }
    out
}

/// Renders the whole analysis report, dated now.
pub fn format_markdown_report(
    feeds: &Vec<Feed>,
    seen_urls: &Vec<String>,
    duplicates: &Vec<Feed>,
    categories: &Vec<String>,
    domain_counter: &Vec<(String, usize)>,
) -> (r: String)
    requires
        spec_total_cats(feeds_view(feeds@)) <= usize::MAX,
    ensures
        exists|date: Seq<char>|
            r@ == spec_format_report(
                feeds_view(feeds@),
                seen_urls.deep_view(),
                feeds_view(duplicates@),
                categories.deep_view(),
                counts_view(domain_counter@),
                date,
            ),
{
    let date = crate::clock::now_report_date();
    let r = format_markdown_report_with_date(
        feeds,
        seen_urls,
        duplicates,
        categories,
        domain_counter,
        date.as_str(),
    );
    proof {
        assert(r@ == spec_format_report(
            feeds_view(feeds@),
            seen_urls.deep_view(),
            feeds_view(duplicates@),
            categories.deep_view(),
            counts_view(domain_counter@),
            date@,
        ));
    }
    r
}

/// The feeds kept by duplicate removal: a feed stays exactly when no earlier
/// feed has the same lower-cased URL; order and categories are preserved.
pub open spec fn spec_dedupe(feeds: Seq<FeedView>) -> Seq<FeedView>
    decreases feeds.len(),
{
    if feeds.len() == 0 {
        Seq::empty()
    } else {
        let prev = spec_dedupe(feeds.drop_last());
        if spec_contains_str(
            spec_seen_urls(feeds.drop_last()),
            lower_of(feeds.last().xml_url),
        ) {
            prev
        } else {
            prev.push(feeds.last())
        }
    }
}

/// Removes duplicate feeds, keeping the first occurrence of each lower-cased
/// URL.
#[verifier::loop_isolation(false)]
pub fn dedupe_feeds(feeds: &Vec<Feed>) -> (r: Vec<Feed>)
    ensures
        feeds_view(r@) == spec_dedupe(feeds_view(feeds@)),
{
    let ghost fv = feeds_view(feeds@);
    let mut seen: Vec<String> = Vec::new();
    let mut kept: Vec<Feed> = Vec::new();
    proof {
        assert(fv.len() == feeds@.len());
        assert(seen.deep_view() =~= spec_seen_urls(fv.take(0)));
        assert(feeds_view(kept@) =~= spec_dedupe(fv.take(0)));
    }
    let n = feeds.len();
    let mut i: usize = 0;
    while i < n
        invariant
            0 <= i <= n,
            seen.deep_view() == spec_seen_urls(fv.take(i as int)),
            feeds_view(kept@) == spec_dedupe(fv.take(i as int)),
        decreases n - i,
    {
        proof {
            assert(fv[i as int] == feeds@[i as int]@);
            assert(fv.take(i + 1).drop_last() =~= fv.take(i as int));
        }
        let low = lowercase(feeds[i].xml_url.as_str());
        if !contains_str(&seen, low.as_str()) {
            kept.push(feeds[i].duplicate());
            seen.push(low);
            proof {
                assert(seen.deep_view() =~= spec_seen_urls(fv.take(i + 1)));
                assert(feeds_view(kept@) =~= spec_dedupe(fv.take(i + 1)));
            }
        }
        i = i + 1;
    }
    proof {
        assert(fv.take(n as int) =~= fv);
    }
    kept
}

} // verus!

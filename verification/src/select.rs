use vstd::prelude::*;

use crate::{labels_view, lookup_label, spec_lookup};

verus! {

broadcast use vstd::string::group_string_axioms;

/// The label-name alphabet: ASCII letters and digits.
pub open spec fn is_alnum(c: char) -> bool {
    ('a' <= c && c <= 'z') || ('A' <= c && c <= 'Z') || ('0' <= c && c <= '9')
}

/// The character classes the selector grammar scans over.
#[derive(Clone, Copy, Debug)]
pub enum CharClass {
    /// A label-name character: alphanumeric or hyphen.
    NameChar,
    /// A list-item character: anything but comma, space and tab.
    ItemChar,
    /// A regex-pattern character: anything but the `/` delimiter.
    PatternChar,
}

pub open spec fn class_holds(k: CharClass, c: char) -> bool {
    match k {
        CharClass::NameChar => is_alnum(c) || c == '-',
        CharClass::ItemChar => !(c == ',' || c == ' ' || c == '\t'),
        CharClass::PatternChar => c != '/',
    }
}

fn class_test(k: CharClass, c: char) -> (r: bool)
    ensures
        r == class_holds(k, c),
{
    match k {
        CharClass::NameChar => ('a' <= c && c <= 'z') || ('A' <= c && c <= 'Z') || ('0' <= c
            && c <= '9') || c == '-',
        CharClass::ItemChar => !(c == ',' || c == ' ' || c == '\t'),
        CharClass::PatternChar => c != '/',
    }
}

/// The end of the run of `k`-class characters that starts at `i`: the first
/// position at or after `i` holding a character outside the class, or the
/// end of the text.
pub open spec fn run_end(s: Seq<char>, i: int, k: CharClass) -> int
    decreases s.len() - i,
    when 0 <= i <= s.len()
{
    if i >= s.len() || !class_holds(k, s[i]) {
        i
    } else {
        run_end(s, i + 1, k)
    }
}

pub proof fn lemma_run_end(s: Seq<char>, i: int, k: CharClass)
    requires
        0 <= i <= s.len(),
    ensures
        ({
            let e = run_end(s, i, k);
            &&& i <= e <= s.len()
            &&& forall|j: int| i <= j < e ==> #[trigger] class_holds(k, s[j])
            &&& e < s.len() ==> !class_holds(k, s[e])
        }),
    decreases s.len() - i,
{
    if i < s.len() && class_holds(k, s[i]) {
        lemma_run_end(s, i + 1, k);
    }
}

/// Shifting the start of the text shifts the run end with it.
pub proof fn lemma_run_end_shift(s: Seq<char>, i: int, d: int, k: CharClass)
    requires
        0 <= i,
        0 <= d,
        i + d <= s.len(),
    ensures
        run_end(s, i + d, k) == i + run_end(s.skip(i), d, k),
    decreases s.len() - i - d,
{
    assert(s.skip(i).len() == s.len() - i);
    if i + d < s.len() {
        assert(s.skip(i)[d] == s[i + d]);
        if class_holds(k, s[i + d]) {
            lemma_run_end_shift(s, i, d + 1, k);
        }
    }
}

/// Scans forward from `from` while the characters stay in class `k`.
fn scan(s: &str, from: usize, k: CharClass) -> (r: usize)
    requires
        from as int <= s@.len(),
    ensures
        r == run_end(s@, from as int, k),
        from <= r <= s@.len(),
{
    let n = s.unicode_len();
    let mut i = from;
    while i < n && class_test(k, s.get_char(i))
        invariant
            from <= i <= n,
            n == s@.len(),
            run_end(s@, from as int, k) == run_end(s@, i as int, k),
        decreases n - i,
    {
        i = i + 1;
    }
    proof {
        lemma_run_end(s@, from as int, k);
    }
    i
}

/// Whether `regex::Regex::new` accepts a pattern: a function of the pattern
/// alone.
pub uninterp spec fn regex_valid(pat: Seq<char>) -> bool;

/// Whether the compiled pattern search-matches a text, as
/// `regex::Regex::is_match` decides it: a function of pattern and text alone.
pub uninterp spec fn regex_matches(pat: Seq<char>, text: Seq<char>) -> bool;

/// Relies on regex::Regex::new: compiling the same pattern either always
/// succeeds or always fails.
#[verifier::external_body]
fn regex_is_valid(pat: &str) -> (r: bool)
    ensures
        r == regex_valid(pat@),
{
    regex::Regex::new(pat).is_ok()
}

/// Relies on regex::Regex::new and regex::Regex::is_match: `None` exactly
/// when the pattern does not compile, otherwise whether the compiled regex
/// search-matches the text.
#[verifier::external_body]
fn regex_try_is_match(pat: &str, text: &str) -> (r: Option<bool>)
    ensures
        r is Some <==> regex_valid(pat@),
        regex_valid(pat@) ==> r == Some(regex_matches(pat@, text@)),
{
    match regex::Regex::new(pat) {
        Ok(re) => Some(re.is_match(text)),
        Err(_) => None,
    }
}

/// The view of a list of owned strings.
pub open spec fn items_view(s: Seq<String>) -> Seq<Seq<char>> {
    s.map_values(|x: String| x@)
}

/// Matches a label value against an explicit list of accepted values.
#[derive(Debug)]
pub struct ListMatcher {
    pub list: Vec<String>,
}

impl View for ListMatcher {
    type V = Seq<Seq<char>>;

    open spec fn view(&self) -> Seq<Seq<char>> {
        items_view(self.list@)
    }
}

impl ListMatcher {
    pub fn new(list: Vec<&str>) -> (r: ListMatcher)
        ensures
            r@ == list@.map_values(|s: &str| s@),
    {
        let mut owned: Vec<String> = Vec::new();
        let mut i: usize = 0;
        while i < list.len()
            invariant
                0 <= i <= list.len(),
                owned@.len() == i,
                forall|j: int| 0 <= j < i ==> owned@[j]@ == list@[j]@,
            decreases list.len() - i,
        {
            owned.push(list[i].to_owned());
            i = i + 1;
        }
        let r = ListMatcher { list: owned };
        proof {
            assert(r@ =~= list@.map_values(|s: &str| s@));
        }
        r
    }

    /// Exact string membership.
    pub fn matches(&self, label_value: &str) -> (r: bool)
        ensures
            r == self@.contains(label_value@),
    {
        let wanted = label_value.to_owned();
        let mut i: usize = 0;
        while i < self.list.len()
            invariant
                0 <= i <= self.list.len(),
                wanted@ == label_value@,
                forall|j: int| 0 <= j < i ==> self@[j] != label_value@,
            decreases self.list.len() - i,
        {
            assert(self@[i as int] == self.list@[i as int]@);
            if self.list[i].eq(&wanted) {
                return true;
            }
            i = i + 1;
        }
        false
    }
}

/// Matches a label value by searching it with a regular expression.
#[derive(Debug)]
pub struct RegexMatcher {
    pub pattern: String,
}

impl View for RegexMatcher {
    type V = Seq<char>;

    open spec fn view(&self) -> Seq<char> {
        self.pattern@
    }
}

impl RegexMatcher {
    /// Accepts the pattern only if the regex engine does.
    pub fn new(pattern: String) -> (r: Option<RegexMatcher>)
        ensures
            r is Some <==> regex_valid(pattern@),
            r is Some ==> r.unwrap()@ == pattern@,
    {
        if regex_is_valid(pattern.as_str()) {
            Some(RegexMatcher { pattern })
        } else {
            None
        }
    }

    /// Search-match (not anchored) against the value; a pattern the engine
    /// rejects matches nothing.
    pub fn matches(&self, label_value: &str) -> (r: bool)
        ensures
            r == (regex_valid(self@) && regex_matches(self@, label_value@)),
    {
        match regex_try_is_match(self.pattern.as_str(), label_value) {
            Some(m) => m,
            None => false,
        }
    }
}

/// The two matcher forms of the grammar.
#[derive(Debug)]
pub enum Matcher {
    List(ListMatcher),
    Regex(RegexMatcher),
}

/// Mathematical image of a `Matcher`.
pub enum SpecMatcher {
    List(Seq<Seq<char>>),
    Regex(Seq<char>),
}

impl View for Matcher {
    type V = SpecMatcher;

    open spec fn view(&self) -> SpecMatcher {
        match self {
            Matcher::List(m) => SpecMatcher::List(m@),
            Matcher::Regex(m) => SpecMatcher::Regex(m@),
        }
    }
}

/// When a matcher accepts a label value.
pub open spec fn spec_matcher_accepts(m: SpecMatcher, value: Seq<char>) -> bool {
    match m {
        SpecMatcher::List(items) => items.contains(value),
        SpecMatcher::Regex(pat) => regex_valid(pat) && regex_matches(pat, value),
    }
}

/// One selector term `name:matcher`.
#[derive(Debug)]
pub struct Term {
    pub name: String,
    pub matcher: Matcher,
}

/// Mathematical image of a `Term`.
pub struct SpecTerm {
    pub name: Seq<char>,
    pub matcher: SpecMatcher,
}

impl View for Term {
    type V = SpecTerm;

    open spec fn view(&self) -> SpecTerm {
        SpecTerm { name: self.name@, matcher: self.matcher@ }
    }
}

/// A term selects a label set iff the set holds the term's label name and
/// the matcher accepts that label's value; a missing key is a non-match.
pub open spec fn spec_term_matches(t: SpecTerm, labels: Seq<(Seq<char>, Seq<char>)>) -> bool {
    match spec_lookup(labels, t.name) {
        None => false,
        Some(v) => spec_matcher_accepts(t.matcher, v),
    }
}

/// The name end after dropping the hyphens a greedy scan consumed but the
/// grammar cannot keep: a name may not end in a hyphen.
pub open spec fn trim_hyphens(s: Seq<char>, e: int) -> int
    decreases e,
    when 0 <= e <= s.len()
{
    if e <= 0 {
        0
    } else if s[e - 1] == '-' {
        trim_hyphens(s, e - 1)
    } else {
        e
    }
}

pub proof fn lemma_trim_hyphens(s: Seq<char>, e: int)
    requires
        0 <= e <= s.len(),
    ensures
        0 <= trim_hyphens(s, e) <= e,
    decreases e,
{
    if e > 0 && s[e - 1] == '-' {
        lemma_trim_hyphens(s, e - 1);
    }
}

/// Where a label name parse ends: the greedy run of name characters with
/// trailing hyphens given back. `None` when no name starts the text — it is
/// empty, or its first character is not alphanumeric.
pub open spec fn spec_label_name(s: Seq<char>) -> Option<int> {
    let e = run_end(s, 0, CharClass::NameChar);
    let j = trim_hyphens(s, e);
    if j > 0 && is_alnum(s[0]) {
        Some(j)
    } else {
        None
    }
}

/// Parses a label name — `[A-Za-z0-9]` runs joined by hyphens, as in an
/// RFC 1123 hostname — off the front of `i`. Returns the rest and the name.
pub fn label_name<'a>(i: &'a str) -> (r: Option<(&'a str, &'a str)>)
    ensures
        match spec_label_name(i@) {
            Some(j) => {
                &&& 0 < j <= i@.len()
                &&& r is Some
                &&& r.unwrap().0@ == i@.skip(j)
                &&& r.unwrap().1@ == i@.take(j)
            },
            None => r is None,
        },
{
    let n = i.unicode_len();
    let e = scan(i, 0, CharClass::NameChar);
    proof {
        lemma_run_end(i@, 0, CharClass::NameChar);
        lemma_trim_hyphens(i@, e as int);
    }
    let mut j = e;
    while j > 0 && i.get_char(j - 1) == '-'
        invariant
            0 <= j <= e <= n,
            n == i@.len(),
            trim_hyphens(i@, e as int) == trim_hyphens(i@, j as int),
        decreases j,
    {
        j = j - 1;
    }
    if j == 0 {
        return None;
    }
    if !alnum_test(i.get_char(0)) {
        return None;
    }
    proof {
        assert(trim_hyphens(i@, j as int) == j);
        assert(i@.take(j as int) =~= i@.subrange(0, j as int));
        assert(i@.skip(j as int) =~= i@.subrange(j as int, n as int));
    }
    Some((i.substring_char(j, n), i.substring_char(0, j)))
}

fn alnum_test(c: char) -> (r: bool)
    ensures
        r == is_alnum(c),
{
    ('a' <= c && c <= 'z') || ('A' <= c && c <= 'Z') || ('0' <= c && c <= '9')
}

/// The items and the consumed length of a comma-separated list at the front
/// of `s`: each item a maximal nonempty run of item characters, items joined
/// by single commas. A comma not followed by an item is not consumed.
pub open spec fn spec_list(s: Seq<char>) -> (Seq<Seq<char>>, int)
    decreases s.len(),
{
    let e = run_end(s, 0, CharClass::ItemChar);
    if e <= 0 {
        (Seq::empty(), 0)
    } else if e < s.len() && s[e] == ',' && run_end(s.skip(e + 1), 0, CharClass::ItemChar) > 0 {
        let rest = spec_list(s.skip(e + 1));
        (seq![s.take(e)] + rest.0, e + 1 + rest.1)
    } else {
        (seq![s.take(e)], e)
    }
}

/// Appends the items of the list starting at `pos` and returns where the
/// list ends.
fn list_items_from(i: &str, pos: usize, items: &mut Vec<String>) -> (end: usize)
    requires
        pos as int <= i@.len(),
        run_end(i@, pos as int, CharClass::ItemChar) > pos,
    ensures
        ({
            let sub = spec_list(i@.skip(pos as int));
            &&& end == pos + sub.1
            &&& pos <= end <= i@.len()
            &&& items_view(final(items)@) == items_view(old(items)@) + sub.0
        }),
    decreases i@.len() - pos,
{
    let ghost s = i@;
    let ghost sub = s.skip(pos as int);
    let n = i.unicode_len();
    let e = scan(i, pos, CharClass::ItemChar);
    proof {
        lemma_run_end(s, pos as int, CharClass::ItemChar);
        lemma_run_end_shift(s, pos as int, 0, CharClass::ItemChar);
        assert(run_end(sub, 0, CharClass::ItemChar) == e - pos);
        assert(sub.take(e - pos) =~= s.subrange(pos as int, e as int));
    }
    let item = i.substring_char(pos, e);
    items.push(item.to_owned());
    let ghost mid_items = items@;
    if e < n && i.get_char(e) == ',' {
        proof {
            assert(sub[e - pos] == s[e as int]);
        }
        let e2 = scan(i, e + 1, CharClass::ItemChar);
        proof {
            lemma_run_end_shift(s, e as int + 1, 0, CharClass::ItemChar);
            assert(sub.skip(e - pos + 1) =~= s.skip(e as int + 1));
            assert(run_end(sub.skip(e - pos + 1), 0, CharClass::ItemChar) == e2 - (e + 1));
        }
        if e2 > e + 1 {
            let end = list_items_from(i, e + 1, items);
            proof {
                let rest = spec_list(s.skip(e as int + 1));
                assert(spec_list(sub).0 == seq![sub.take(e - pos)] + rest.0);
                assert(spec_list(sub).1 == (e - pos) + 1 + rest.1);
                assert(items_view(mid_items) =~= items_view(old(items)@) + seq![
                    sub.take(e - pos),
                ]);
                assert(items_view(items@) =~= items_view(old(items)@) + spec_list(sub).0);
            }
            end
        } else {
            proof {
                assert(spec_list(sub).0 == seq![sub.take(e - pos)]);
                assert(spec_list(sub).1 == e - pos);
                assert(items_view(items@) =~= items_view(old(items)@) + spec_list(sub).0);
            }
            e
        }
    } else {
        proof {
            if e < n {
                assert(sub[e - pos] == s[e as int]);
            }
            assert(spec_list(sub).0 == seq![sub.take(e - pos)]);
            assert(spec_list(sub).1 == e - pos);
            assert(items_view(items@) =~= items_view(old(items)@) + spec_list(sub).0);
        }
        e
    }
}

/// Parses a comma-separated value list off the front of `i` into a
/// `ListMatcher`. Fails only when no item character starts the text.
pub fn list_value<'a>(i: &'a str) -> (r: Option<(&'a str, ListMatcher)>)
    ensures
        match r {
            Some(p) => {
                &&& run_end(i@, 0, CharClass::ItemChar) > 0
                &&& p.1@ == spec_list(i@).0
                &&& p.0@ == i@.skip(spec_list(i@).1)
            },
            None => run_end(i@, 0, CharClass::ItemChar) == 0,
        },
{
    proof {
        lemma_run_end(i@, 0, CharClass::ItemChar);
    }
    let e0 = scan(i, 0, CharClass::ItemChar);
    if e0 == 0 {
        return None;
    }
    let mut items: Vec<String> = Vec::new();
    proof {
        assert(i@.skip(0) =~= i@);
        assert(items_view(items@) =~= Seq::<Seq<char>>::empty());
    }
    let end = list_items_from(i, 0, &mut items);
    let m = ListMatcher { list: items };
    proof {
        assert(m@ =~= spec_list(i@).0);
    }
    Some((i.substring_char(end, i.unicode_len()), m))
}

/// A list parse never consumes more than the text it was given.
pub proof fn lemma_spec_list_bounds(s: Seq<char>)
    ensures
        0 <= spec_list(s).1 <= s.len(),
    decreases s.len(),
{
    let e = run_end(s, 0, CharClass::ItemChar);
    lemma_run_end(s, 0, CharClass::ItemChar);
    if e > 0 && e < s.len() && s[e] == ',' && run_end(s.skip(e + 1), 0, CharClass::ItemChar)
        > 0 {
        lemma_spec_list_bounds(s.skip(e + 1));
    }
}

/// The pattern and the consumed length of a `/`-delimited regex at the front
/// of `s`: a leading `/`, at least one non-`/` character, a closing `/`.
/// Whether the pattern compiles is not this function's concern.
pub open spec fn spec_regex(s: Seq<char>) -> Option<(Seq<char>, int)> {
    if s.len() >= 1 && s[0] == '/' {
        let e = run_end(s, 1, CharClass::PatternChar);
        if e > 1 && e < s.len() {
            Some((s.subrange(1, e), e + 1))
        } else {
            None
        }
    } else {
        None
    }
}

/// Parses a `/`-delimited regex off the front of `i`. Fails when the
/// delimiters are not there or the regex engine rejects the pattern.
pub fn regex_value<'a>(i: &'a str) -> (r: Option<(&'a str, RegexMatcher)>)
    ensures
        match r {
            Some(p) => {
                &&& spec_regex(i@) is Some
                &&& regex_valid(spec_regex(i@).unwrap().0)
                &&& p.1@ == spec_regex(i@).unwrap().0
                &&& p.0@ == i@.skip(spec_regex(i@).unwrap().1)
            },
            None => spec_regex(i@) is None || !regex_valid(spec_regex(i@).unwrap().0),
        },
{
    let n = i.unicode_len();
    if n == 0 {
        return None;
    }
    if i.get_char(0) != '/' {
        return None;
    }
    let e = scan(i, 1, CharClass::PatternChar);
    proof {
        lemma_run_end(i@, 1, CharClass::PatternChar);
    }
    if !(e > 1 && e < n) {
        return None;
    }
    let pat = i.substring_char(1, e);
    if !regex_is_valid(pat) {
        return None;
    }
    proof {
        assert(i@.skip(e as int + 1) =~= i@.subrange(e as int + 1, n as int));
    }
    Some((i.substring_char(e + 1, n), RegexMatcher { pattern: pat.to_owned() }))
}

/// Where a matcher parse ends and what it yields: a valid `/regex/` first,
/// else a value list. A structurally correct regex whose pattern the engine
/// rejects falls back to being read as a list.
pub open spec fn spec_label_value(s: Seq<char>) -> Option<(SpecMatcher, int)> {
    match spec_regex(s) {
        Some(p) => if regex_valid(p.0) {
            Some((SpecMatcher::Regex(p.0), p.1))
        } else {
            spec_list_value(s)
        },
        None => spec_list_value(s),
    }
}

pub open spec fn spec_list_value(s: Seq<char>) -> Option<(SpecMatcher, int)> {
    if run_end(s, 0, CharClass::ItemChar) > 0 {
        Some((SpecMatcher::List(spec_list(s).0), spec_list(s).1))
    } else {
        None
    }
}

/// Parses a matcher — regex or list — off the front of `i`.
pub fn label_value<'a>(i: &'a str) -> (r: Option<(&'a str, Matcher)>)
    ensures
        match spec_label_value(i@) {
            Some(p) => {
                &&& r is Some
                &&& r.unwrap().1@ == p.0
                &&& r.unwrap().0@ == i@.skip(p.1)
            },
            None => r is None,
        },
{
    match regex_value(i) {
        Some((rest, m)) => Some((rest, Matcher::Regex(m))),
        None => match list_value(i) {
            Some((rest, m)) => Some((rest, Matcher::List(m))),
            None => None,
        },
    }
}

/// What parsing a whole term `name:matcher` off the front of `s` yields,
/// and how much it consumes.
pub open spec fn spec_term(s: Seq<char>) -> Option<(SpecTerm, int)> {
    match spec_label_name(s) {
        None => None,
        Some(j) => if j < s.len() && s[j] == ':' {
            match spec_label_value(s.skip(j + 1)) {
                None => None,
                Some(p) => Some((SpecTerm { name: s.take(j), matcher: p.0 }, j + 1 + p.1)),
            }
        } else {
            None
        },
    }
}

/// Parses one selector term `name:matcher` off the front of `i`, returning
/// the rest of the text and the term.
pub fn term<'a>(i: &'a str) -> (r: Option<(&'a str, Term)>)
    ensures
        match spec_term(i@) {
            None => r is None,
            Some(p) => {
                &&& r is Some
                &&& r.unwrap().1@ == p.0
                &&& r.unwrap().0@ == i@.skip(p.1)
            },
        },
{
    match label_name(i) {
        None => None,
        Some((rest, name)) => {
            let ghost j = spec_label_name(i@).unwrap();
            let rn = rest.unicode_len();
            if rn == 0 {
                return None;
            }
            proof {
                assert(rest@[0] == i@[j]);
            }
            if rest.get_char(0) != ':' {
                return None;
            }
            let after = rest.substring_char(1, rn);
            proof {
                assert(after@ =~= i@.skip(j + 1));
            }
            match label_value(after) {
                None => None,
                Some((rest2, m)) => {
                    proof {
                        let sub2 = i@.skip(j + 1);
                        let p = spec_label_value(sub2).unwrap();
                        lemma_spec_list_bounds(sub2);
                        if sub2.len() >= 1 {
                            lemma_run_end(sub2, 1, CharClass::PatternChar);
                        }
                        assert(0 <= p.1 <= sub2.len());
                        assert(after@.skip(p.1) =~= i@.skip(j + 1 + p.1));
                    }
                    Some((rest2, Term { name: name.to_owned(), matcher: m }))
                },
            }
        },
    }
}

impl Term {
    pub fn matches(&self, labels: &Vec<(String, String)>) -> (r: bool)
        ensures
            r == spec_term_matches(self@, labels_view(labels@)),
    {
        match lookup_label(labels, &self.name) {
            None => false,
            Some(value) => match &self.matcher {
                Matcher::List(m) => m.matches(value.as_str()),
                Matcher::Regex(m) => m.matches(value.as_str()),
            },
        }
    }
}

} // verus!

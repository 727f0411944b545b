//! Incremental prefix filtering of the catalog by the typed text.
use vstd::prelude::*;
use crate::catalog::models;
use crate::entry::{AppInfo, AppModel};

verus! {

/// The lower-case form of a text, as `str::to_lowercase` gives it.
pub uninterp spec fn lower_of(s: Seq<char>) -> Seq<char>;

/// Whether a pattern that matches a text depends on the text and the pattern
/// alone, as `regex::Regex::is_match` decides it.
pub uninterp spec fn regex_match(pattern: Seq<char>, hay: Seq<char>) -> bool;

/// Whether a pattern compiles, as `regex::Regex::new` decides it: it depends
/// on the pattern alone (its syntax, and the size the compiled form takes).
pub uninterp spec fn compiles(pattern: Seq<char>) -> bool;

/// The characters that have a meaning of their own in a pattern.
pub open spec fn is_meta_char(c: char) -> bool {
    c == '\\' || c == '.' || c == '+' || c == '*' || c == '?' || c == '(' || c == ')' || c == '|'
        || c == '[' || c == ']' || c == '{' || c == '}' || c == '^' || c == '$' || c == '#' || c
        == '&' || c == '-' || c == '~'
}

/// A text written as a pattern that matches it literally: a backslash before
/// each meta character.
pub open spec fn escaped(t: Seq<char>) -> Seq<char>
    decreases t.len(),
{
    if t.len() == 0 {
        seq![]
    } else {
        let c = t.last();
        escaped(t.drop_last()) + if is_meta_char(c) {
            seq!['\\', c]
        } else {
            seq![c]
        }
    }
}

/// The pattern that matches the texts starting with `t`.
pub open spec fn prefix_pattern_of(t: Seq<char>) -> Seq<char> {
    seq!['^'] + escaped(t)
}

/// Whether an application is selected by the lower-cased query `q`: its name,
/// lower-cased, starts with `q`.
pub open spec fn selects(q: Seq<char>, app: AppModel) -> bool {
    q.is_prefix_of(lower_of(app.name))
}

/// The applications shown for the lower-cased query `q`: none for an empty
/// query, otherwise those selected, in catalog order.
pub open spec fn filter_spec(apps: Seq<AppModel>, q: Seq<char>) -> Seq<AppModel> {
    if q.len() == 0 {
        seq![]
    } else {
        apps.filter(|a: AppModel| selects(q, a))
    }
}

#[verifier::external_type_specification]
#[verifier::external_body]
pub struct ExRegex(regex::Regex);

#[verifier::external_type_specification]
#[verifier::external_body]
pub struct ExRegexError(regex::Error);

/// Relies on `str::to_lowercase`: the result depends on the characters alone;
/// an empty text stays empty, and each character becomes one or more
/// characters, so a non-empty text stays non-empty.
#[verifier::external_body]
fn lowercase(s: &str) -> (r: String)
    ensures
        r@ == lower_of(s@),
        s@.len() == 0 ==> r@.len() == 0,
        s@.len() > 0 ==> r@.len() > 0,
{
    s.to_lowercase()
}

/// Relies on `regex::escape`: a backslash is put before each meta character.
#[verifier::external_body]
fn escape(s: &str) -> (r: String)
    ensures
        r@ == escaped(s@),
{
    regex::escape(s)
}

/// A compiled pattern together with the text it was compiled from.
pub struct Matcher {
    re: regex::Regex,
    source: String,
}

impl Matcher {
    /// The text the pattern was compiled from.
    pub closed spec fn source(&self) -> Seq<char> {
        self.source@
    }
}

/// Relies on `regex::Regex::new`: it compiles the given pattern or reports an
/// error, depending on the pattern alone; the matcher keeps the text it
/// compiled.
#[verifier::external_body]
fn compile(source: String) -> (r: Result<Matcher, regex::Error>)
    ensures
        r is Ok <==> compiles(source@),
        r is Ok ==> r->Ok_0.source() == source@,
{
    regex::Regex::new(&source).map(|re| Matcher { re, source })
}

/// Relies on `regex::Regex::is_match`: whether the pattern matches somewhere in
/// the text. A pattern made of `^` and an escaped text matches exactly the
/// texts that start with that text: `^` anchors at the start, and an escaped
/// text matches itself only.
#[verifier::external_body]
fn is_match(m: &Matcher, hay: &str) -> (r: bool)
    ensures
        r == regex_match(m.source(), hay@),
        forall|t: Seq<char>|
            m.source() == #[trigger] prefix_pattern_of(t) ==> (r <==> t.is_prefix_of(hay@)),
{
    m.re.is_match(hay)
}

/// Why filtering could not be done.
#[derive(Debug)]
pub enum FilterError {
    /// The pattern built from the query did not compile.
    Pattern(regex::Error),
}

impl Matcher {
    /// A matcher of the texts starting with `text`, every character of it
    /// taken literally.
    pub fn literal_prefix(text: &str) -> (r: Result<Matcher, FilterError>)
        ensures
            r is Ok <==> compiles(prefix_pattern_of(text@)),
            r is Ok ==> r->Ok_0.source() == prefix_pattern_of(text@),
    {
        let esc = escape(text);
        let mut source = String::from_str("^");
        proof {
            reveal_strlit("^");
        }
        source.append(esc.as_str());
        assert(source@ =~= prefix_pattern_of(text@));
        match compile(source) {
            Ok(m) => Ok(m),
            Err(e) => Err(FilterError::Pattern(e)),
        }
    }

    /// Whether `hay` starts with the text this matcher was built from.
    pub fn matches(&self, hay: &str) -> (r: bool)
        ensures
            forall|t: Seq<char>| self.source() == #[trigger] prefix_pattern_of(t) ==> (r <==> t.is_prefix_of(hay@)),
    {
        is_match(self, hay)
    }
}

/// The applications whose lower-cased name starts with the text `q` that
/// `m` was built from, in catalog order.
fn select_matching(apps: &Vec<AppInfo>, m: &Matcher, Ghost(q): Ghost<Seq<char>>) -> (r: Vec<AppInfo>)
    requires
        m.source() == prefix_pattern_of(q),
    ensures
        models(r@) == models(apps@).filter(|a: AppModel| selects(q, a)),
{
    let ghost pred = |a: AppModel| selects(q, a);
    let mut out: Vec<AppInfo> = Vec::new();
    let mut i: usize = 0;
    while i < apps.len()
        invariant
            i <= apps@.len(),
            m.source() == prefix_pattern_of(q),
            pred == (|a: AppModel| selects(q, a)),
            models(out@) == models(apps@).subrange(0, i as int).filter(pred),
        decreases apps@.len() - i,
    {
        let ghost before = models(apps@).subrange(0, i as int);
        let ghost after = models(apps@).subrange(0, i + 1);
        assert(after.drop_last() =~= before);
        reveal(Seq::filter);
        assert(after.last() == apps@[i as int]@);
        let name = lowercase(apps[i].name.as_str());
        let hit = m.matches(name.as_str());
        assert(hit <==> q.is_prefix_of(name@));
        assert(hit <==> pred(apps@[i as int]@));
        if hit {
            out.push(apps[i].duplicate());
            assert(models(out@) =~= before.filter(pred).push(apps@[i as int]@));
        } else {
            assert(models(out@) =~= after.filter(pred));
        }
        i = i + 1;
    }
    assert(models(apps@).subrange(0, apps@.len() as int) =~= models(apps@));
    out
}

/// The applications whose name, lower-cased, starts with the lower-cased
/// `text`, in catalog order; none at all for an empty text. Every character of
/// the text is matched literally. It fails only when the pattern for the
/// lower-cased text does not compile.
pub fn filter(apps: &Vec<AppInfo>, text: &str) -> (r: Result<Vec<AppInfo>, FilterError>)
    ensures
        text@.len() == 0 ==> r is Ok && r->Ok_0@.len() == 0,
        r is Ok <==> (text@.len() == 0 || compiles(prefix_pattern_of(lower_of(text@)))),
        r is Ok ==> models(r->Ok_0@) == filter_spec(models(apps@), lower_of(text@)),
{
    let lowered = lowercase(text);
    if lowered.as_str().is_empty() {
        return Ok(Vec::new());
    }
    let m = match Matcher::literal_prefix(lowered.as_str()) {
        Ok(m) => m,
        Err(e) => return Err(e),
    };
    Ok(select_matching(apps, &m, Ghost(lowered@)))
}

/// `idx` places each element of `sub` at a position of `s`, the positions
/// strictly increasing: `sub` keeps the relative order it has in `s`.
pub open spec fn positions_in(sub: Seq<AppModel>, s: Seq<AppModel>, idx: Seq<int>) -> bool {
    &&& idx.len() == sub.len()
    &&& forall|k: int| 0 <= k < idx.len() ==> 0 <= #[trigger] idx[k] < s.len() && sub[k] == s[idx[k]]
    &&& forall|k: int, l: int| 0 <= k < l < idx.len() ==> #[trigger] idx[k] < #[trigger] idx[l]
}

proof fn filter_positions(s: Seq<AppModel>, pred: spec_fn(AppModel) -> bool) -> (idx: Seq<int>)
    ensures
        positions_in(s.filter(pred), s, idx),
    decreases s.len(),
{
    reveal(Seq::filter);
    if s.len() == 0 {
        seq![]
    } else {
        let prev = filter_positions(s.drop_last(), pred);
        if pred(s.last()) {
            let idx = prev.push(s.len() - 1);
            assert forall|k: int| 0 <= k < idx.len() implies 0 <= #[trigger] idx[k] < s.len()
                && s.filter(pred)[k] == s[idx[k]] by {
                if k < prev.len() {
                    assert(s.drop_last()[prev[k]] == s[prev[k]]);
                }
            }
            idx
        } else {
            assert forall|k: int| 0 <= k < prev.len() implies 0 <= #[trigger] prev[k] < s.len()
                && s.filter(pred)[k] == s[prev[k]] by {
                assert(s.drop_last()[prev[k]] == s[prev[k]]);
            }
            prev
        }
    }
}

/// For a text whose lower-cased form is not empty, the filter keeps exactly
/// the applications whose lower-cased name starts with it: every application
/// shown is selected, and every application of the catalog left out is not.
pub proof fn lemma_filter_exact(apps: Seq<AppModel>, text: Seq<char>)
    requires
        lower_of(text).len() > 0,
    ensures
        forall|a: AppModel| #[trigger]
            filter_spec(apps, lower_of(text)).contains(a) ==> selects(lower_of(text), a),
        forall|a: AppModel|
            apps.contains(a) && !#[trigger] filter_spec(apps, lower_of(text)).contains(a)
                ==> !selects(lower_of(text), a),
{
    let q = lower_of(text);
    let pred = |a: AppModel| selects(q, a);
    assert forall|a: AppModel| #[trigger] filter_spec(apps, q).contains(a) implies selects(q, a) by {
        let k = choose|k: int| 0 <= k < apps.filter(pred).len() && apps.filter(pred)[k] == a;
        apps.lemma_filter_pred(pred, k);
    }
    assert forall|a: AppModel|
        apps.contains(a) && !#[trigger] filter_spec(apps, q).contains(a) implies !selects(q, a) by {
        let k = choose|k: int| 0 <= k < apps.len() && apps[k] == a;
        if selects(q, a) {
            apps.lemma_filter_contains(pred, k);
        }
    }
}

/// Pattern characters in the query match themselves: for a query `.*`, every
/// application shown has a lower-cased name that literally starts with `.*`.
pub proof fn lemma_filter_literal_meta(apps: Seq<AppModel>, text: Seq<char>)
    requires
        lower_of(text) == seq!['.', '*'],
    ensures
        forall|a: AppModel| #[trigger]
            filter_spec(apps, lower_of(text)).contains(a) ==> seq!['.', '*'].is_prefix_of(
                lower_of(a.name),
            ),
{
    lemma_filter_exact(apps, text);
}

/// Typing more characters never adds a result: when the lower-cased `text1`
/// is not empty and is a prefix of the lower-cased `text2`, the applications
/// shown for `text2` are those shown for `text1` that `text2` selects, in the
/// same order.
pub proof fn lemma_filter_narrows(apps: Seq<AppModel>, text1: Seq<char>, text2: Seq<char>)
    requires
        lower_of(text1).len() > 0,
        lower_of(text1).is_prefix_of(lower_of(text2)),
    ensures
        filter_spec(apps, lower_of(text2)) == filter_spec(apps, lower_of(text1)).filter(
            |a: AppModel| selects(lower_of(text2), a),
        ),
{
    let q1 = lower_of(text1);
    let q2 = lower_of(text2);
    let p1 = |a: AppModel| selects(q1, a);
    let p2 = |a: AppModel| selects(q2, a);
    assert forall|a: AppModel| #[trigger] p2(a) implies p1(a) by {
        assert(q1 =~= q2.subrange(0, q1.len() as int));
        assert(q1 =~= lower_of(a.name).subrange(0, q1.len() as int));
    }
    lemma_filter_twice(apps, p1, p2);
}

proof fn lemma_filter_twice(s: Seq<AppModel>, p1: spec_fn(AppModel) -> bool, p2: spec_fn(AppModel) -> bool)
    requires
        forall|a: AppModel| #[trigger] p2(a) ==> p1(a),
    ensures
        s.filter(p2) == s.filter(p1).filter(p2),
    decreases s.len(),
{
    reveal(Seq::filter);
    if s.len() > 0 {
        lemma_filter_twice(s.drop_last(), p1, p2);
        if p1(s.last()) {
            assert(s.filter(p1).drop_last() =~= s.drop_last().filter(p1));
        }
    }
}

/// The filter keeps the relative catalog order of the applications it shows.
pub proof fn lemma_filter_keeps_order(apps: Seq<AppModel>, text: Seq<char>)
    ensures
        exists|idx: Seq<int>| positions_in(filter_spec(apps, lower_of(text)), apps, idx),
{
    let q = lower_of(text);
    if q.len() == 0 {
        assert(positions_in(filter_spec(apps, q), apps, seq![]));
    } else {
        let idx = filter_positions(apps, |a: AppModel| selects(q, a));
        assert(positions_in(filter_spec(apps, q), apps, idx));
    }
}

} // verus!

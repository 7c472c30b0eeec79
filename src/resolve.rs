use vstd::prelude::*;

use crate::error::UploadError;
use crate::template::{names_unique, UploaderTemplate};

verus! {

/// Declared so that a compiled pattern can be held in verified code.
#[verifier::external_type_specification]
#[verifier::external_body]
pub struct ExRegex(regex::Regex);

/// Declared so that a pattern compile failure can be carried as a cause.
#[verifier::external_type_specification]
#[verifier::external_body]
pub struct ExRegexError(regex::Error);

/// Whether `regex::Regex::new` accepts the pattern text.
pub uninterp spec fn pattern_compiles(pattern: Seq<char>) -> bool;

/// The capture groups of the leftmost-first match of `pattern` in `body`, or
/// `None` when there is no match. Group 0 is the whole match; a group that did
/// not participate is `None`.
pub uninterp spec fn pattern_captures(pattern: Seq<char>, body: Seq<char>) -> Option<
    Seq<Option<Seq<char>>>,
>;

/// The decimal digits of `n`, most significant first.
pub open spec fn decimal(n: nat) -> Seq<char>
    decreases n,
{
    let d = seq!['0', '1', '2', '3', '4', '5', '6', '7', '8', '9'][(n % 10) as int];
    if n < 10 {
        seq![d]
    } else {
        decimal(n / 10).push(d)
    }
}

/// The placeholder text `$regex:<i>$` that stands for capture group `i`.
pub open spec fn token(i: nat) -> Seq<char> {
    seq!['$', 'r', 'e', 'g', 'e', 'x', ':'] + decimal(i) + seq!['$']
}

/// `s` with every non-overlapping occurrence of `pat`, scanned from the left,
/// replaced by `rep`. An empty `pat` leaves `s` as it is.
pub open spec fn replace_all(s: Seq<char>, pat: Seq<char>, rep: Seq<char>) -> Seq<char>
    decreases s.len(),
{
    if pat.len() == 0 || s.len() < pat.len() {
        s
    } else if s.subrange(0, pat.len() as int) == pat {
        rep + replace_all(s.subrange(pat.len() as int, s.len() as int), pat, rep)
    } else {
        seq![s[0]] + replace_all(s.subrange(1, s.len() as int), pat, rep)
    }
}

/// Substitution of capture group `i`: a participating group replaces its
/// token; a group that did not participate leaves the text untouched.
pub open spec fn apply_group(s: Seq<char>, i: nat, g: Option<Seq<char>>) -> Seq<char> {
    match g {
        Some(text) => replace_all(s, token(i), text),
        None => s,
    }
}

/// Substitution of the groups in increasing index order, one pass per index.
pub open spec fn apply_groups(s: Seq<char>, groups: Seq<Option<Seq<char>>>) -> Seq<char>
    decreases groups.len(),
{
    if groups.len() == 0 {
        s
    } else {
        apply_group(
            apply_groups(s, groups.drop_last()),
            (groups.len() - 1) as nat,
            groups.last(),
        )
    }
}

/// The indices, in increasing order, of the groups that did not participate.
pub open spec fn missing_indices(groups: Seq<Option<Seq<char>>>) -> Seq<usize>
    decreases groups.len(),
{
    if groups.len() == 0 {
        Seq::empty()
    } else if groups.last() is None {
        missing_indices(groups.drop_last()).push((groups.len() - 1) as usize)
    } else {
        missing_indices(groups.drop_last())
    }
}

/// `pat` occurs in `s` at position `k`.
pub open spec fn occurs_at(s: Seq<char>, pat: Seq<char>, k: int) -> bool {
    0 <= k && k + pat.len() <= s.len() && s.subrange(k, k + pat.len()) == pat
}

/// `pat` occurs somewhere in `s`.
pub open spec fn occurs_in(s: Seq<char>, pat: Seq<char>) -> bool {
    exists|k: int| occurs_at(s, pat, k)
}

proof fn lemma_replace_absent(s: Seq<char>, pat: Seq<char>, rep: Seq<char>)
    requires
        !occurs_in(s, pat),
    ensures
        replace_all(s, pat, rep) == s,
    decreases s.len(),
{
    if pat.len() == 0 || s.len() < pat.len() {
    } else {
        assert(!occurs_at(s, pat, 0));
        let tail = s.subrange(1, s.len() as int);
        assert forall|k: int| !occurs_at(tail, pat, k) by {
            if occurs_at(tail, pat, k) {
                assert(tail.subrange(k, k + pat.len()) =~= s.subrange(k + 1, k + 1 + pat.len()));
                assert(occurs_at(s, pat, k + 1));
            }
        }
        lemma_replace_absent(tail, pat, rep);
        assert(seq![s[0]] + tail =~= s);
    }
}

proof fn lemma_replace_first(a: Seq<char>, pat: Seq<char>, b: Seq<char>, rep: Seq<char>)
    requires
        pat.len() > 0,
        forall|k: int| 0 <= k < a.len() ==> !#[trigger] occurs_at(a + pat + b, pat, k),
    ensures
        replace_all(a + pat + b, pat, rep) == a + rep + replace_all(b, pat, rep),
    decreases a.len(),
{
    let s = a + pat + b;
    if a.len() == 0 {
        assert(a + pat + b =~= pat + b);
        assert(s.subrange(0, pat.len() as int) =~= pat);
        assert(s.subrange(pat.len() as int, s.len() as int) =~= b);
        assert(a + rep =~= rep);
    } else {
        assert(!occurs_at(s, pat, 0));
        let a1 = a.subrange(1, a.len() as int);
        let tail = s.subrange(1, s.len() as int);
        assert(tail =~= a1 + pat + b);
        assert forall|k: int| 0 <= k < a1.len() implies !#[trigger] occurs_at(a1 + pat + b, pat, k) by {
            if occurs_at(a1 + pat + b, pat, k) {
                assert(tail.subrange(k, k + pat.len()) =~= s.subrange(k + 1, k + 1 + pat.len()));
                assert(occurs_at(s, pat, k + 1));
            }
        }
        lemma_replace_first(a1, pat, b, rep);
        assert(seq![s[0]] + (a1 + rep + replace_all(b, pat, rep)) =~= a + rep + replace_all(
            b,
            pat,
            rep,
        ));
    }
}

/// Substituting group `i` leaves a URL template in which the placeholder of
/// `i` does not occur exactly as it was, whether or not the group
/// participated: a group never touches another index's placeholders.
pub proof fn law_other_placeholders_untouched(s: Seq<char>, i: nat, g: Option<Seq<char>>)
    requires
        !occurs_in(s, token(i)),
    ensures
        apply_group(s, i, g) == s,
{
    if let Some(text) = g {
        lemma_replace_absent(s, token(i), text);
    }
}

/// Substituting a participating group `i` into `a + $regex:i$ + b`, where the
/// placeholder first occurs after `a`, gives `a`, then exactly the captured
/// text, then `b` with its own occurrences substituted in the same way.
pub proof fn law_placeholder_replaced_by_capture(
    a: Seq<char>,
    b: Seq<char>,
    i: nat,
    text: Seq<char>,
)
    requires
        forall|k: int| 0 <= k < a.len() ==> !#[trigger] occurs_at(a + token(i) + b, token(i), k),
    ensures
        apply_group(a + token(i) + b, i, Some(text)) == a + text + apply_group(b, i, Some(text)),
{
    lemma_replace_first(a, token(i), b, text);
}

proof fn lemma_decimal(n: nat)
    ensures
        decimal(n).len() >= 1,
        n >= 10 ==> decimal(n).len() >= 2,
        forall|k: int| 0 <= k < decimal(n).len() ==> #[trigger] decimal(n)[k] != '$',
    decreases n,
{
    let digits = seq!['0', '1', '2', '3', '4', '5', '6', '7', '8', '9'];
    assert(forall|d: int| 0 <= d < 10 ==> #[trigger] digits[d] != '$');
    if n >= 10 {
        lemma_decimal(n / 10);
    }
}

proof fn lemma_decimal_injective(i: nat, j: nat)
    requires
        decimal(i) == decimal(j),
    ensures
        i == j,
    decreases i,
{
    let digits = seq!['0', '1', '2', '3', '4', '5', '6', '7', '8', '9'];
    assert(forall|a: int, b: int|
        0 <= a < 10 && 0 <= b < 10 && #[trigger] digits[a] == #[trigger] digits[b] ==> a == b);
    lemma_decimal(i);
    lemma_decimal(j);
    if i >= 10 && j >= 10 {
        assert(decimal(i).drop_last() =~= decimal(i / 10));
        assert(decimal(j).drop_last() =~= decimal(j / 10));
        lemma_decimal_injective(i / 10, j / 10);
        assert(decimal(i).last() == digits[(i % 10) as int]);
        assert(decimal(j).last() == digits[(j % 10) as int]);
        assert(i % 10 == j % 10);
        assert(i == (i / 10) * 10 + i % 10);
        assert(j == (j / 10) * 10 + j % 10);
    } else if i < 10 && j < 10 {
        assert(decimal(i)[0] == digits[i as int]);
        assert(decimal(j)[0] == digits[j as int]);
    }
}

/// The placeholder of one index never occurs inside the placeholder of
/// another, so substituting one group cannot rewrite another index's
/// placeholders.
pub proof fn law_placeholders_distinct(i: nat, j: nat)
    requires
        i != j,
    ensures
        !occurs_in(token(j), token(i)),
{
    lemma_decimal(i);
    lemma_decimal(j);
    let ti = token(i);
    let tj = token(j);
    let prefix = seq!['$', 'r', 'e', 'g', 'e', 'x', ':'];
    assert forall|m: int| 0 < m < tj.len() - 1 implies #[trigger] tj[m] != '$' by {
        if m >= 7 {
            assert(tj[m] == decimal(j)[m - 7]);
        }
    }
    if occurs_in(tj, ti) {
        let k = choose|k: int| occurs_at(tj, ti, k);
        assert(tj.subrange(k, k + ti.len())[0] == ti[0]);
        assert(k == 0);
        assert(tj.subrange(0, ti.len() as int)[ti.len() - 1] == ti[ti.len() - 1]);
        assert(ti.len() == tj.len());
        assert(tj.subrange(0, ti.len() as int) =~= tj);
        assert(ti.subrange(7, ti.len() - 1) =~= decimal(i));
        assert(tj.subrange(7, tj.len() - 1) =~= decimal(j));
        lemma_decimal_injective(i, j);
    }
}

/// A capture group that did not participate in the match is listed among the
/// missing groups, and its own substitution leaves every URL template as it
/// was.
pub proof fn law_missing_group_listed(groups: Seq<Option<Seq<char>>>, i: int)
    requires
        0 <= i < groups.len(),
        groups[i] is None,
    ensures
        missing_indices(groups).contains(i as usize),
        forall|s: Seq<char>| #[trigger] apply_group(s, i as nat, groups[i]) == s,
    decreases groups.len(),
{
    if i == groups.len() - 1 {
        let m = missing_indices(groups);
        assert(m.last() == i as usize);
        assert(m[m.len() - 1] == i as usize);
    } else {
        assert(groups.drop_last()[i] == groups[i]);
        law_missing_group_listed(groups.drop_last(), i);
        let k = choose|k: int|
            0 <= k < missing_indices(groups.drop_last()).len() && missing_indices(
                groups.drop_last(),
            )[k] == i as usize;
        if groups.last() is None {
            assert(missing_indices(groups)[k] == i as usize);
        }
    }
}

/// A URL template in which only placeholders of groups that did not
/// participate (or of no group at all) occur comes out of the substitution
/// unchanged: those placeholders stay in place.
pub proof fn law_unmatched_placeholders_stay(s: Seq<char>, groups: Seq<Option<Seq<char>>>)
    requires
        forall|j: int|
            0 <= j < groups.len() && #[trigger] groups[j] is Some ==> !occurs_in(s, token(j as nat)),
    ensures
        apply_groups(s, groups) == s,
    decreases groups.len(),
{
    if groups.len() > 0 {
        let last = groups.len() - 1;
        assert forall|j: int|
            0 <= j < groups.drop_last().len() && #[trigger] groups.drop_last()[j] is Some implies !occurs_in(
                s,
                token(j as nat),
            ) by {
            assert(groups[j] == groups.drop_last()[j]);
        }
        law_unmatched_placeholders_stay(s, groups.drop_last());
        if groups[last] is Some {
            law_other_placeholders_untouched(s, last as nat, groups.last());
        }
    }
}

/// The views of a list of optional strings.
pub open spec fn groups_view(groups: Seq<Option<String>>) -> Seq<Option<Seq<char>>> {
    groups.map_values(
        |g: Option<String>|
            match g {
                Some(t) => Some(t@),
                None => None,
            },
    )
}

/// Relies on `regex::Regex::new`: it compiles the pattern or reports why not.
#[verifier::external_body]
fn compile_regex(pattern: &str) -> (r: Result<regex::Regex, regex::Error>)
    ensures
        r is Ok <==> pattern_compiles(pattern@),
{
    regex::Regex::new(pattern)
}

/// Relies on `regex::Regex::captures`: the groups of the leftmost-first match,
/// each as the matched text or `None` when the group did not participate.
/// `p.re` was compiled from `p.source` (see `Pattern::new`).
#[verifier::external_body]
fn regex_captures(p: &Pattern, body: &str) -> (r: Option<Vec<Option<String>>>)
    ensures
        r is None <==> pattern_captures(p.source@, body@) is None,
        r matches Some(gs) ==> pattern_captures(p.source@, body@) == Some(groups_view(gs@)),
{
    match p.re.captures(body) {
        None => None,
        Some(caps) => Some(caps.iter().map(|m| m.map(|m| m.as_str().to_string())).collect()),
    }
}

/// Relies on `str::replace`: every non-overlapping match of `from`, from the
/// left, replaced by `to`. (An empty `from` would match between characters.)
#[verifier::external_body]
fn replace_str(s: &str, from: &str, to: &str) -> (r: String)
    requires
        from@.len() > 0,
    ensures
        r@ == replace_all(s@, from@, to@),
{
    s.replace(from, to)
}

/// Relies on `ToString` for `usize` (its `Display`): the decimal digits of
/// `i`, without sign or padding.
#[verifier::external_body]
fn usize_to_decimal(i: usize) -> (r: String)
    ensures
        r@ == decimal(i as nat),
{
    i.to_string()
}

/// The placeholder text of capture group `i`.
fn group_token(i: usize) -> (r: String)
    ensures
        r@ == token(i as nat),
{
    let mut t = String::from_str("$regex:");
    t.append(usize_to_decimal(i).as_str());
    t.append("$");
    proof {
        reveal_strlit("$regex:");
        reveal_strlit("$");
    }
    assert(t@ =~= token(i as nat));
    t
}

/// A compiled pattern together with the text it was compiled from.
pub struct Pattern {
    source: String,
    re: regex::Regex,
}

impl Pattern {
    pub closed spec fn view(&self) -> Seq<char> {
        self.source@
    }

    /// Compiles `pattern`; fails exactly when the regex engine rejects it.
    pub fn new(pattern: &String) -> (r: Result<Pattern, UploadError>)
        ensures
            r is Ok <==> pattern_compiles(pattern@),
            r matches Ok(p) ==> p.view() == pattern@,
            r is Err ==> r matches Err(UploadError::Regex(_)),
    {
        match compile_regex(pattern.as_str()) {
            Ok(re) => Ok(Pattern { source: pattern.clone(), re }),
            Err(e) => Err(UploadError::Regex(e)),
        }
    }

    /// The capture groups of the first match of the pattern in `body`.
    pub fn captures(&self, body: &str) -> (r: Option<Vec<Option<String>>>)
        ensures
            r is None <==> pattern_captures(self.view(), body@) is None,
            r matches Some(gs) ==> pattern_captures(self.view(), body@) == Some(groups_view(gs@)),
    {
        regex_captures(self, body)
    }
}

/// The URLs an upload produced: the primary one and the named secondary ones,
/// in template order. `missing_groups` lists the capture groups that did not
/// participate in the match, whose placeholders were left in place; each one
/// deserves a warning.
#[derive(Debug)]
pub struct UploadResponse {
    pub url: String,
    pub additional_urls: Vec<(String, String)>,
    pub missing_groups: Vec<usize>,
}

/// `res` holds the names of `orig` in the same order, each with its URL
/// template substituted by `groups`.
pub open spec fn urls_resolved(
    orig: Seq<(String, String)>,
    res: Seq<(String, String)>,
    groups: Seq<Option<Seq<char>>>,
) -> bool {
    &&& res.len() == orig.len()
    &&& forall|j: int|
        #![trigger res[j]]
        0 <= j < orig.len() ==> res[j].0 == orig[j].0 && res[j].1@ == apply_groups(
            orig[j].1@,
            groups,
        )
}

/// `resp` holds the template's URLs, each substituted by `groups`.
pub open spec fn resolved(
    t: UploaderTemplate,
    groups: Seq<Option<Seq<char>>>,
    resp: UploadResponse,
) -> bool {
    &&& resp.url@ == apply_groups(t.url@, groups)
    &&& urls_resolved(t.additional_urls@, resp.additional_urls@, groups)
    &&& resp.missing_groups@ == missing_indices(groups)
}

/// What resolving the template's URLs against a response body gives.
pub open spec fn find_outcome(
    body: Seq<char>,
    t: UploaderTemplate,
    r: Result<UploadResponse, UploadError>,
) -> bool {
    match t.regex {
        None => r matches Ok(resp) && resp.url == t.url && resp.additional_urls
            == t.additional_urls && resp.missing_groups@.len() == 0,
        Some(p) => if !pattern_compiles(p@) {
            r matches Err(UploadError::Regex(_))
        } else {
            match pattern_captures(p@, body) {
                None => r matches Err(UploadError::RegexNotFound(q)) && q@ == p@,
                Some(groups) => r matches Ok(resp) && resolved(t, groups, resp),
            }
        },
    }
}

impl UploadResponse {
    /// Substitutes the capture groups into the primary and secondary URL
    /// templates, index by index from 0.
    pub fn substitute_captures(
        url: String,
        additional_urls: Vec<(String, String)>,
        groups: &Vec<Option<String>>,
    ) -> (r: UploadResponse)
        ensures
            r.url@ == apply_groups(url@, groups_view(groups@)),
            urls_resolved(additional_urls@, r.additional_urls@, groups_view(groups@)),
            r.missing_groups@ == missing_indices(groups_view(groups@)),
            names_unique(additional_urls@) ==> names_unique(r.additional_urls@),
    {
        let ghost gv = groups_view(groups@);
        let ghost url0 = url@;
        let ghost extra0 = additional_urls@;
        let mut url = url;
        let mut extra = additional_urls;
        let n = extra.len();
        let mut missing: Vec<usize> = Vec::new();
        let mut i: usize = 0;
        assert(gv.take(0) =~= Seq::<Option<Seq<char>>>::empty());
        while i < groups.len()
            invariant
                0 <= i <= groups@.len(),
                gv == groups_view(groups@),
                url@ == apply_groups(url0, gv.take(i as int)),
                urls_resolved(extra0, extra@, gv.take(i as int)),
                n == extra0.len(),
                missing@ == missing_indices(gv.take(i as int)),
            decreases groups.len() - i,
        {
            assert(gv.take(i + 1).drop_last() =~= gv.take(i as int));
            assert(gv.take(i + 1).last() == gv[i as int]);
            match &groups[i] {
                Some(g) => {
                    let tok = group_token(i);
                    url = replace_str(url.as_str(), tok.as_str(), g.as_str());
                    let mut next: Vec<(String, String)> = Vec::new();
                    let mut j: usize = 0;
                    while j < n
                        invariant
                            0 <= j <= n,
                            n == extra@.len(),
                            n == extra0.len(),
                            tok@ == token(i as nat),
                            i < gv.len(),
                            gv.take(i + 1).drop_last() == gv.take(i as int),
                            gv.take(i + 1).last() == gv[i as int],
                            gv[i as int] == Some(g@),
                            urls_resolved(extra0, extra@, gv.take(i as int)),
                            next@.len() == j,
                            forall|k: int|
                                #![trigger next@[k]]
                                0 <= k < j ==> next@[k].0 == extra0[k].0 && next@[k].1@
                                    == apply_groups(extra0[k].1@, gv.take(i + 1)),
                        decreases n - j,
                    {
                        let name = extra[j].0.clone();
                        let value = replace_str(extra[j].1.as_str(), tok.as_str(), g.as_str());
                        assert(apply_groups(extra0[j as int].1@, gv.take(i + 1)) == value@);
                        next.push((name, value));
                        j += 1;
                    }
                    extra = next;
                },
                None => {
                    assert(gv[i as int] is None);
                    assert forall|k: int| #![trigger extra@[k]] 0 <= k < n implies extra@[k].0 == extra0[k].0
                        && extra@[k].1@ == apply_groups(extra0[k].1@, gv.take(i + 1)) by {}
                    missing.push(i);
                },
            }
            i += 1;
        }
        assert(gv.take(groups@.len() as int) =~= gv);
        UploadResponse { url, additional_urls: extra, missing_groups: missing }
    }

    /// Resolves the template's URLs against the response body: literal when
    /// the template has no pattern, otherwise substituted by the capture
    /// groups of the pattern's first match.
    pub fn find(body: &str, template: UploaderTemplate) -> (r: Result<UploadResponse, UploadError>)
        ensures
            find_outcome(body@, template, r),
            template.wf() ==> (r matches Ok(resp) ==> names_unique(resp.additional_urls@)),
    {
        match template.regex {
            None => Ok(
                UploadResponse {
                    url: template.url,
                    additional_urls: template.additional_urls,
                    missing_groups: Vec::new(),
                },
            ),
            Some(text) => {
                let pattern = match Pattern::new(&text) {
                    Ok(p) => p,
                    Err(e) => {
                        return Err(e);
                    },
                };
                match pattern.captures(body) {
                    None => Err(UploadError::RegexNotFound(text)),
                    Some(groups) => Ok(
                        UploadResponse::substitute_captures(
                            template.url,
                            template.additional_urls,
                            &groups,
                        ),
                    ),
                }
            },
        }
    }
}

} // verus!

use vstd::prelude::*;
use crate::statement::{CancelStatement, render_spec};

verus! {

/// The rule of the grammar at which a parse stopped.
#[derive(Clone, Copy, Debug, PartialEq, Eq, Structural)]
pub enum Rule {
    /// The statement keyword was not found.
    Keyword,
    /// The keyword ran on into further identifier characters.
    Boundary,
    /// Whitespace was required and none was found.
    Space,
}

/// A structured parse failure: the rule that failed and the character
/// position at which it was tried.
#[derive(Clone, Copy, Debug, PartialEq, Eq, Structural)]
pub struct ParseError {
    pub rule: Rule,
    pub pos: usize,
}

pub open spec fn cancel_keyword() -> Seq<char> {
    "CANCEL"@
}

pub open spec fn transaction_keyword() -> Seq<char> {
    "TRANSACTION"@
}

/// Whitespace between tokens.
pub open spec fn is_space(c: char) -> bool {
    c == ' ' || c == '\t' || c == '\n' || c == '\r'
}

/// What `char::is_alphanumeric` says of `c`: alphabetic or numeric in the
/// Unicode sense.
pub uninterp spec fn alnum_of(c: char) -> bool;

/// A character that may continue an identifier.
pub open spec fn is_word_char(c: char) -> bool {
    alnum_of(c) || c == '_'
}

/// A keyword of the grammar: upper-case ASCII letters only.
pub open spec fn is_upper_word(kw: Seq<char>) -> bool {
    forall|j: int| 0 <= j < kw.len() ==> ('A' as u32) <= (#[trigger] kw[j] as u32) <= ('Z' as u32)
}

/// `c` is the upper-case ASCII letter `k` in either case.
pub open spec fn same_letter(c: char, k: char) -> bool {
    c as u32 == k as u32 || c as u32 == k as u32 + 32
}

/// The keyword `kw` stands at position `i` of `s`, in any mix of cases.
pub open spec fn keyword_at(s: Seq<char>, i: int, kw: Seq<char>) -> bool {
    &&& 0 <= i
    &&& i + kw.len() <= s.len()
    &&& forall|j: int| 0 <= j < kw.len() ==> #[trigger] same_letter(s[i + j], kw[j])
}

/// A token may end at position `i`: the input ends there, or the next
/// character cannot continue an identifier.
pub open spec fn boundary_at(s: Seq<char>, i: int) -> bool {
    i == s.len() || (0 <= i < s.len() && (is_space(s[i]) || !is_word_char(s[i])))
}

/// The position at which the run of whitespace that starts at `i` ends.
pub open spec fn space_end(s: Seq<char>, i: nat) -> nat
    decreases s.len() - i,
{
    if i < s.len() && is_space(s[i as int]) {
        space_end(s, i + 1)
    } else {
        i
    }
}

/// The bare form: the keyword alone, ending at a token boundary.
/// Gives the number of characters consumed.
pub open spec fn basic_len(s: Seq<char>) -> Option<nat> {
    let k = cancel_keyword().len();
    if keyword_at(s, 0, cancel_keyword()) && boundary_at(s, k as int) {
        Some(k)
    } else {
        None
    }
}

/// The qualified form: the keyword, mandatory whitespace, then the optional
/// qualifier keyword. Gives the number of characters consumed.
pub open spec fn query_len(s: Seq<char>) -> Option<nat> {
    let k = cancel_keyword().len();
    let q = transaction_keyword().len();
    let e = space_end(s, k);
    if basic_len(s) is None || e == k {
        None
    } else if keyword_at(s, e as int, transaction_keyword()) && boundary_at(s, (e + q) as int) {
        Some(e + q)
    } else {
        Some(e)
    }
}

/// The statement as a whole: the qualified form where it applies, which is
/// never shorter, else the bare form.
pub open spec fn accepted_len(s: Seq<char>) -> Option<nat> {
    if query_len(s) is Some {
        query_len(s)
    } else {
        basic_len(s)
    }
}

/// Why the bare form fails on `s`.
pub open spec fn basic_failure(s: Seq<char>) -> ParseError {
    if !keyword_at(s, 0, cancel_keyword()) {
        ParseError { rule: Rule::Keyword, pos: 0 }
    } else {
        ParseError { rule: Rule::Boundary, pos: cancel_keyword().len() as usize }
    }
}

/// Why the qualified form fails on `s`.
pub open spec fn query_failure(s: Seq<char>) -> ParseError {
    if basic_len(s) is None {
        basic_failure(s)
    } else {
        ParseError { rule: Rule::Space, pos: cancel_keyword().len() as usize }
    }
}

/// The outcome that the parser owes on `s`: the statement with what is left
/// of the input, or the failure.
pub open spec fn parses_to(s: Seq<char>, r: Result<(&str, CancelStatement), ParseError>) -> bool {
    match r {
        Ok((rest, _)) => accepted_len(s) is Some && rest@ == s.skip(accepted_len(s)->0 as int),
        Err(e) => accepted_len(s) is None && e == basic_failure(s),
    }
}

fn is_space_char(c: char) -> (r: bool)
    ensures
        r == is_space(c),
{
    c == ' ' || c == '\t' || c == '\n' || c == '\r'
}

/// Relies on `char::is_alphanumeric`, whose result depends on the character
/// alone.
#[verifier::external_body]
fn is_alphanumeric(c: char) -> (r: bool)
    ensures
        r == alnum_of(c),
{
    c.is_alphanumeric()
}

fn is_word_character(c: char) -> (r: bool)
    ensures
        r == is_word_char(c),
{
    is_alphanumeric(c) || c == '_'
}

/// Matches the keyword `kw` at position `at`, ignoring case.
fn tag_no_case(s: &str, n: usize, at: usize, kw: &str) -> (r: bool)
    requires
        n == s@.len(),
        at <= n,
        is_upper_word(kw@),
    ensures
        r == keyword_at(s@, at as int, kw@),
{
    let m = kw.unicode_len();
    if m > n - at {
        return false;
    }
    let mut j: usize = 0;
    while j < m
        invariant
            m == kw@.len(),
            n == s@.len(),
            at + m <= n,
            j <= m,
            is_upper_word(kw@),
            forall|i: int| 0 <= i < j ==> #[trigger] same_letter(s@[at + i], kw@[i]),
        decreases m - j,
    {
        let c = s.get_char(at + j);
        let k = kw.get_char(j);
        assert(('A' as u32) <= (kw@[j as int] as u32) <= ('Z' as u32));
        if !(c as u32 == k as u32 || c as u32 == k as u32 + 32) {
            assert(!same_letter(s@[at + j], kw@[j as int]));
            return false;
        }
        j += 1;
    }
    true
}

/// Whether a token may end at position `at`.
fn boundary(s: &str, n: usize, at: usize) -> (r: bool)
    requires
        n == s@.len(),
        at <= n,
    ensures
        r == boundary_at(s@, at as int),
{
    if at == n {
        return true;
    }
    let c = s.get_char(at);
    is_space_char(c) || !is_word_character(c)
}

/// Skips the run of whitespace that starts at `at`; gives where it ends.
fn skip_space(s: &str, n: usize, at: usize) -> (r: usize)
    requires
        n == s@.len(),
        at <= n,
    ensures
        r as nat == space_end(s@, at as nat),
        at <= r <= n,
{
    let mut j: usize = at;
    while j < n && is_space_char(s.get_char(j))
        invariant
            n == s@.len(),
            at <= j <= n,
            space_end(s@, at as nat) == space_end(s@, j as nat),
        decreases n - j,
    {
        j += 1;
    }
    j
}

/// Parses the bare form: the keyword alone.
pub fn cancel_basic(i: &str) -> (r: Result<(&str, CancelStatement), ParseError>)
    ensures
        match r {
            Ok((rest, _)) => basic_len(i@) is Some && rest@ == i@.skip(basic_len(i@)->0 as int),
            Err(e) => basic_len(i@) is None && e == basic_failure(i@),
        },
{
    proof {
        reveal_strlit("CANCEL");
    }
    let n = i.unicode_len();
    let k = "CANCEL".unicode_len();
    if !tag_no_case(i, n, 0, "CANCEL") {
        return Err(ParseError { rule: Rule::Keyword, pos: 0 });
    }
    if !boundary(i, n, k) {
        return Err(ParseError { rule: Rule::Boundary, pos: k });
    }
    Ok((i.substring_char(k, n), CancelStatement))
}

/// Parses the qualified form: the keyword, mandatory whitespace, then the
/// optional qualifier keyword.
pub fn cancel_query(i: &str) -> (r: Result<(&str, CancelStatement), ParseError>)
    ensures
        match r {
            Ok((rest, _)) => query_len(i@) is Some && rest@ == i@.skip(query_len(i@)->0 as int),
            Err(e) => query_len(i@) is None && e == query_failure(i@),
        },
{
    proof {
        reveal_strlit("CANCEL");
        reveal_strlit("TRANSACTION");
    }
    let n = i.unicode_len();
    let k = "CANCEL".unicode_len();
    let q = "TRANSACTION".unicode_len();
    if !tag_no_case(i, n, 0, "CANCEL") {
        return Err(ParseError { rule: Rule::Keyword, pos: 0 });
    }
    if !boundary(i, n, k) {
        return Err(ParseError { rule: Rule::Boundary, pos: k });
    }
    let e = skip_space(i, n, k);
    if e == k {
        return Err(ParseError { rule: Rule::Space, pos: k });
    }
    if tag_no_case(i, n, e, "TRANSACTION") && boundary(i, n, e + q) {
        Ok((i.substring_char(e + q, n), CancelStatement))
    } else {
        Ok((i.substring_char(e, n), CancelStatement))
    }
}

/// Parses a CANCEL statement at the start of `i`, handing back the statement
/// and the input that follows it. The longer qualified form is preferred,
/// so that a qualifier is never left behind as unconsumed input.
pub fn cancel(i: &str) -> (r: Result<(&str, CancelStatement), ParseError>)
    ensures
        parses_to(i@, r),
{
    match cancel_query(i) {
        Ok(res) => Ok(res),
        Err(_) => cancel_basic(i),
    }
}

/// `a` spells the keyword `kw`, each letter in either case.
pub open spec fn spells(a: Seq<char>, kw: Seq<char>) -> bool {
    &&& a.len() == kw.len()
    &&& forall|j: int| 0 <= j < kw.len() ==> #[trigger] same_letter(a[j], kw[j])
}

/// `w` is whitespace only.
pub open spec fn all_space(w: Seq<char>) -> bool {
    forall|j: int| 0 <= j < w.len() ==> #[trigger] is_space(w[j])
}

/// A token may end just before `t`.
pub open spec fn starts_at_boundary(t: Seq<char>) -> bool {
    t.len() == 0 || is_space(t[0]) || !is_word_char(t[0])
}

proof fn lemma_space_run(s: Seq<char>, i: nat, m: nat)
    requires
        i + m <= s.len(),
        forall|j: int| i <= j < i + m ==> #[trigger] is_space(s[j]),
        i + m == s.len() || !is_space(s[(i + m) as int]),
    ensures
        space_end(s, i) == i + m,
    decreases m,
{
    if m > 0 {
        lemma_space_run(s, i + 1, (m - 1) as nat);
    }
}

proof fn lemma_space_end_bounds(s: Seq<char>, i: nat)
    ensures
        space_end(s, i) >= i,
    decreases s.len() - i,
{
    if i < s.len() && is_space(s[i as int]) {
        lemma_space_end_bounds(s, i + 1);
    }
}

/// Any spelling of the bare keyword, followed by a token boundary, parses,
/// consuming at least the keyword.
pub proof fn lemma_bare_spelling_accepted(a: Seq<char>, t: Seq<char>)
    requires
        spells(a, cancel_keyword()),
        starts_at_boundary(t),
    ensures
        accepted_len(a + t) is Some,
        accepted_len(a + t)->0 >= a.len(),
        forall|r: Result<(&str, CancelStatement), ParseError>| #[trigger]
            parses_to(a + t, r) ==> r is Ok,
{
    let s = a + t;
    assert forall|j: int| 0 <= j < cancel_keyword().len() implies #[trigger] same_letter(
        s[0 + j],
        cancel_keyword()[j],
    ) by {
        assert(s[0 + j] == a[j]);
    }
    if t.len() > 0 {
        assert(s[a.len() as int] == t[0]);
    }
    lemma_space_end_bounds(s, a.len());
}

/// The keyword, whitespace and the qualifier, in any case and followed by a
/// token boundary, parse to the statement and consume exactly those three.
pub proof fn lemma_qualified_spelling_accepted(
    a: Seq<char>,
    w: Seq<char>,
    b: Seq<char>,
    t: Seq<char>,
)
    requires
        spells(a, cancel_keyword()),
        w.len() > 0,
        all_space(w),
        spells(b, transaction_keyword()),
        starts_at_boundary(t),
    ensures
        accepted_len(a + w + b + t) == Some((a.len() + w.len() + b.len()) as nat),
        forall|r: Result<(&str, CancelStatement), ParseError>| #[trigger]
            parses_to(a + w + b + t, r) ==> (r matches Ok((rest, _)) && rest@ == t),
{
    reveal_strlit("CANCEL");
    reveal_strlit("TRANSACTION");
    let s = a + w + b + t;
    let k = a.len();
    let e = k + w.len();
    assert forall|j: int| 0 <= j < cancel_keyword().len() implies #[trigger] same_letter(
        s[0 + j],
        cancel_keyword()[j],
    ) by {
        assert(s[0 + j] == a[j]);
    }
    assert(s[k as int] == w[0]);
    assert forall|j: int| k <= j < k + w.len() implies #[trigger] is_space(s[j]) by {
        assert(s[j] == w[j - k]);
    }
    assert(same_letter(b[0], transaction_keyword()[0]));
    assert(s[e as int] == b[0]);
    lemma_space_run(s, k, w.len());
    assert forall|j: int| 0 <= j < transaction_keyword().len() implies #[trigger] same_letter(
        s[e + j],
        transaction_keyword()[j],
    ) by {
        assert(s[e + j] == b[j]);
    }
    if t.len() > 0 {
        assert(s[(e + b.len()) as int] == t[0]);
    }
    assert(s.skip((e + b.len()) as int) =~= t);
}

/// Parsing the rendered text of a statement gives that statement back, with
/// no input left over.
pub proof fn lemma_render_parses(v: CancelStatement)
    ensures
        accepted_len(render_spec()) == Some(render_spec().len()),
        forall|r: Result<(&str, CancelStatement), ParseError>| #[trigger]
            parses_to(render_spec(), r) ==> (r matches Ok((rest, u)) && rest@.len() == 0 && u
                == v),
{
    reveal_strlit("CANCEL TRANSACTION");
    reveal_strlit("CANCEL");
    reveal_strlit("TRANSACTION");
    let a = cancel_keyword();
    let w = seq![' '];
    let b = transaction_keyword();
    let t = Seq::<char>::empty();
    assert(spells(a, cancel_keyword()));
    assert(spells(b, transaction_keyword()));
    assert(all_space(w));
    assert(render_spec() =~= a + w + b + t);
    lemma_qualified_spelling_accepted(a, w, b, t);
}

} // verus!

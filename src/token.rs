//! The HKEX access token: read from the quote page, and held as a
//! process-wide cache entry with an explicit refresh.
use vstd::prelude::*;
use vstd::string::{StrSliceExecFns, StringExecFns};

verus! {

broadcast use vstd::string::axiom_spec_iter;

/// The characters of `s`, one by one.
pub fn chars_of(s: &str) -> (r: Vec<char>)
    ensures
        r@ == s@,
{
    let mut out: Vec<char> = Vec::new();
    for c in it: s.chars()
        invariant
            out@ == it.seq().subrange(0, it.index() as int),
    {
        out.push(c);
    }
    out
}

/// `pat` occurs in `s` starting at `i`.
pub open spec fn occurs_at(s: Seq<char>, pat: Seq<char>, i: int) -> bool {
    0 <= i && i + pat.len() <= s.len() && s.subrange(i, i + pat.len()) == pat
}

/// The first position at or after `from` where `pat` occurs in `s`.
pub open spec fn find_from(s: Seq<char>, pat: Seq<char>, from: int) -> Option<int>
    decreases s.len() + 1 - from,
{
    if from < 0 || from + pat.len() > s.len() {
        None
    } else if occurs_at(s, pat, from) {
        Some(from)
    } else {
        find_from(s, pat, from + 1)
    }
}

/// `s` with every double quote taken out.
pub open spec fn without_quotes(s: Seq<char>) -> Seq<char>
    decreases s.len(),
{
    if s.len() == 0 {
        Seq::empty()
    } else if s.last() == '"' {
        without_quotes(s.drop_last())
    } else {
        without_quotes(s.drop_last()).push(s.last())
    }
}

/// The token on an HKEX quote page: after the `"Base64-AES-Encrypted-Token";`
/// marker, after the next `return`, the text from the next double quote up
/// to the next `;`, with its double quotes taken out.
pub open spec fn spec_hkex_token(page: Seq<char>) -> Option<Seq<char>> {
    match find_from(page, "\"Base64-AES-Encrypted-Token\";"@, 0) {
        None => None,
        Some(a) => match find_from(page, "return"@, a) {
            None => None,
            Some(b) => match find_from(page, "\""@, b) {
                None => None,
                Some(c) => match find_from(page, ";"@, c) {
                    None => None,
                    Some(d) => Some(without_quotes(page.subrange(c, d))),
                },
            },
        },
    }
}

fn occurs_here(s: &Vec<char>, pat: &Vec<char>, i: usize) -> (r: bool)
    requires
        i + pat@.len() <= s@.len(),
    ensures
        r == occurs_at(s@, pat@, i as int),
{
    let mut j: usize = 0;
    while j < pat.len()
        invariant
            i + pat@.len() <= s@.len(),
            j <= pat@.len(),
            s@.subrange(i as int, i + j) == pat@.subrange(0, j as int),
        decreases pat@.len() - j,
    {
        let n = s.len();
        assert(i + j < n);
        if s[i + j] != pat[j] {
            assert(s@.subrange(i as int, i + pat@.len())[j as int] == s@[i + j]);
            return false;
        }
        assert(s@.subrange(i as int, i + j + 1) == s@.subrange(i as int, i + j).push(s@[i + j]));
        assert(pat@.subrange(0, j + 1) == pat@.subrange(0, j as int).push(pat@[j as int]));
        j = j + 1;
    }
    assert(pat@.subrange(0, pat@.len() as int) == pat@);
    true
}

/// The first position at or after `from` where `pat` occurs in `s`.
pub fn find(s: &Vec<char>, pat: &Vec<char>, from: usize) -> (r: Option<usize>)
    ensures
        r is None <==> find_from(s@, pat@, from as int) is None,
        r matches Some(i) ==> find_from(s@, pat@, from as int) == Some(i as int) && i + pat@.len() <= s@.len(),
{
    if pat.len() > s.len() {
        return None;
    }
    let last = s.len() - pat.len();
    let mut i: usize = from;
    while i <= last
        invariant
            last == s@.len() - pat@.len(),
            from <= i,
            find_from(s@, pat@, from as int) == find_from(s@, pat@, i as int),
        decreases last + 1 - i,
    {
        if occurs_here(s, pat, i) {
            return Some(i);
        }
        if i == last {
            return None;
        }
        i = i + 1;
    }
    None
}

fn drop_quotes(s: &str) -> (r: String)
    ensures
        r@ == without_quotes(s@),
{
    let n = s.unicode_len();
    let mut out = String::new();
    let mut i: usize = 0;
    while i < n
        invariant
            n == s@.len(),
            i <= n,
            out@ == without_quotes(s@.subrange(0, i as int)),
        decreases n - i,
    {
        assert(s@.subrange(0, i + 1).drop_last() == s@.subrange(0, i as int));
        if s.get_char(i) != '"' {
            out.append(s.substring_char(i, i + 1));
            assert(s@.subrange(i as int, i + 1) == seq![s@[i as int]]);
        }
        i = i + 1;
    }
    assert(s@.subrange(0, n as int) == s@);
    out
}

/// Reads the access token from the text of an HKEX quote page.
pub fn extract_hkex_token(page: &str) -> (r: Option<String>)
    ensures
        match r {
            Some(t) => spec_hkex_token(page@) == Some(t@),
            None => spec_hkex_token(page@) is None,
        },
{
    let text = chars_of(page);
    let marker = chars_of("\"Base64-AES-Encrypted-Token\";");
    let ret = chars_of("return");
    let quote = chars_of("\"");
    let semicolon = chars_of(";");
    let a = match find(&text, &marker, 0) {
        Some(a) => a,
        None => return None,
    };
    let b = match find(&text, &ret, a) {
        Some(b) => b,
        None => return None,
    };
    let c = match find(&text, &quote, b) {
        Some(c) => c,
        None => return None,
    };
    let d = match find(&text, &semicolon, c) {
        Some(d) => d,
        None => return None,
    };
    proof {
        lemma_find_at_or_after(text@, semicolon@, c as int);
    }
    Some(drop_quotes(page.substring_char(c, d)))
}

proof fn lemma_find_at_or_after(s: Seq<char>, pat: Seq<char>, from: int)
    ensures
        find_from(s, pat, from) matches Some(i) ==> from <= i,
    decreases s.len() + 1 - from,
{
    if !(from < 0 || from + pat.len() > s.len()) && !occurs_at(s, pat, from) {
        lemma_find_at_or_after(s, pat, from + 1);
    }
}

/// The process-wide HKEX token: callers read it through this holder and
/// replace it only by an explicit refresh.
pub struct TokenCache {
    token: String,
}

impl TokenCache {
    /// The token currently held.
    pub closed spec fn spec_token(&self) -> Seq<char> {
        self.token@
    }

    /// A holder with no token yet.
    pub fn new() -> (r: TokenCache)
        ensures
            r.spec_token() == Seq::<char>::empty(),
    {
        TokenCache { token: String::new() }
    }

    /// The token currently held.
    pub fn get(&self) -> (r: String)
        ensures
            r@ == self.spec_token(),
    {
        self.token.clone()
    }

    /// Replaces the token.
    pub fn set(&mut self, token: &str)
        ensures
            final(self).spec_token() == token@,
    {
        self.token = String::from_str(token);
    }

    /// Replaces the token with the one read from a freshly fetched quote
    /// page; keeps the old one when the page holds none.
    pub fn refresh(&mut self, page: &str) -> (r: bool)
        ensures
            r == (spec_hkex_token(page@) is Some),
            r ==> Some(final(self).spec_token()) == spec_hkex_token(page@),
            !r ==> final(self).spec_token() == old(self).spec_token(),
    {
        match extract_hkex_token(page) {
            Some(t) => {
                self.token = t;
                true
            },
            None => false,
        }
    }
}

/// The job that refreshes the HKEX token.
pub struct SyncHKEXTokenJob;

} // verus!
